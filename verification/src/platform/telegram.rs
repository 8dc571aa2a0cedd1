//! Telegram: which updates become inbound messages, when the receiver may
//! start, and which calls deliver an outbound message.

use crate::model::{
    opt_bytes, opt_text, Address, AttachmentView, ChatPlatform, MessageIn, MessageInView,
    MessageOut, MessageOutView, OutContentType,
};
use crate::outside::{parse_url, url_parsed};
use std::sync::Arc;
use vstd::prelude::*;

verus! {

/// What is read of an update that carries a message.
#[derive(Debug, Clone)]
pub struct TelegramUpdate {
    pub text: Option<String>,
    pub chat_id: i64,
    pub is_group: bool,
    pub is_supergroup: bool,
    pub from: Option<u64>,
}

/// The inbound message of an update: none if it carries no text; else the
/// text as it is, from the chat of the update, which is a group if it is a
/// group or a supergroup, by the sender if there is one.
pub open spec fn update_message(u: TelegramUpdate) -> Option<MessageInView> {
    match u.text {
        None => None,
        Some(t) => Some(
            MessageInView {
                addr: Address {
                    platform: ChatPlatform::Telegram,
                    chat_id: u.chat_id,
                    is_group: u.is_group || u.is_supergroup,
                },
                user_id: match u.from {
                    Some(id) => Some(id as i64),
                    None => None,
                },
                text: t@,
            },
        ),
    }
}

/// The view of an optional inbound message.
pub open spec fn opt_message(m: Option<MessageIn>) -> Option<MessageInView> {
    match m {
        Some(m) => Some(m@),
        None => None,
    }
}

/// Why the receiver does not start.
#[derive(Debug, Clone, Copy, PartialEq, Eq, Structural)]
pub enum StartError {
    /// `start` was called before `bind`.
    NotBound,
}

impl StartError {
    /// The text to show to the operator.
    pub fn message(&self) -> (m: &'static str)
        ensures
            m@ == "TelegramReceiver.start() called before bind()"@,
    {
        "TelegramReceiver.start() called before bind()"
    }
}

/// What `start` asks of its caller.
#[derive(Debug, Clone, Copy, PartialEq, Eq, Structural)]
pub enum StartAction {
    /// The polling task runs already: do nothing.
    AlreadyStarted,
    /// Launch the polling task.
    Launch,
}

/// What `close` asks of its caller.
#[derive(Debug, Clone, Copy, PartialEq, Eq, Structural)]
pub enum CloseAction {
    /// No polling task runs: do nothing.
    Nothing,
    /// Abort the polling task.
    Abort,
}

/// The state of the receiver: whether a sink is bound, and whether the
/// polling task was launched.
#[derive(Debug, Clone, Copy, PartialEq, Eq, Structural)]
pub struct TelegramReceiver {
    pub bound: bool,
    pub started: bool,
}

impl TelegramReceiver {
    /// Neither bound nor started.
    pub fn new() -> (r: Self)
        ensures
            r == (TelegramReceiver { bound: false, started: false }),
    {
        Self { bound: false, started: false }
    }

    /// A sink was bound.
    pub fn bind(&mut self)
        ensures
            *final(self) == (TelegramReceiver { bound: true, started: old(self).started }),
    {
        self.bound = true;
    }

    /// Asks to start. Started already: nothing to do. Not bound: refused.
    /// Else the polling task is to be launched, and counts as started.
    pub fn start(&mut self) -> (r: Result<StartAction, StartError>)
        ensures
            old(self).started ==> r == Ok::<StartAction, StartError>(StartAction::AlreadyStarted)
                && *final(self) == *old(self),
            !old(self).started && !old(self).bound ==> r == Err::<StartAction, StartError>(
                StartError::NotBound,
            ) && *final(self) == *old(self),
            !old(self).started && old(self).bound ==> r == Ok::<StartAction, StartError>(
                StartAction::Launch,
            ) && *final(self) == (TelegramReceiver { bound: true, started: true }),
    {
        if self.started {
            return Ok(StartAction::AlreadyStarted);
        }
        if !self.bound {
            return Err(StartError::NotBound);
        }
        self.started = true;
        Ok(StartAction::Launch)
    }

    /// Closes the receiver: a polling task that runs is to be aborted, and
    /// none runs afterwards.
    pub fn close(&mut self) -> (a: CloseAction)
        ensures
            a == (if old(self).started {
                CloseAction::Abort
            } else {
                CloseAction::Nothing
            }),
            *final(self) == (TelegramReceiver { bound: old(self).bound, started: false }),
    {
        if self.started {
            self.started = false;
            CloseAction::Abort
        } else {
            CloseAction::Nothing
        }
    }

    /// The inbound message of an update, if it carries one.
    pub fn inbound_of(u: TelegramUpdate) -> (m: Option<MessageIn>)
        ensures
            opt_message(m) == update_message(u),
    {
        match u.text {
            None => None,
            Some(text) => {
                let user_id = match u.from {
                    Some(id) => Some(id as i64),
                    None => None,
                };
                Some(
                    MessageIn::new(
                        Address::new(
                            ChatPlatform::Telegram,
                            u.chat_id,
                            u.is_group || u.is_supergroup,
                        ),
                        user_id,
                        text,
                    ),
                )
            },
        }
    }
}

/// One call that delivers a part of an outbound message.
#[derive(Debug, Clone)]
pub enum TelegramCall {
    Text(String),
    PhotoBytes { name: String, bytes: Arc<Vec<u8>> },
    PhotoUrl(String),
    DocumentBytes { name: String, bytes: Arc<Vec<u8>> },
    DocumentUrl(String),
}

/// A call as a mathematical value.
pub enum TelegramCallView {
    Text(Seq<char>),
    PhotoBytes { name: Seq<char>, bytes: Seq<u8> },
    PhotoUrl(Seq<char>),
    DocumentBytes { name: Seq<char>, bytes: Seq<u8> },
    DocumentUrl(Seq<char>),
}

impl View for TelegramCall {
    type V = TelegramCallView;

    open spec fn view(&self) -> TelegramCallView {
        match self {
            TelegramCall::Text(t) => TelegramCallView::Text(t@),
            TelegramCall::PhotoBytes { name, bytes } => TelegramCallView::PhotoBytes {
                name: name@,
                bytes: bytes@,
            },
            TelegramCall::PhotoUrl(u) => TelegramCallView::PhotoUrl(u@),
            TelegramCall::DocumentBytes { name, bytes } => TelegramCallView::DocumentBytes {
                name: name@,
                bytes: bytes@,
            },
            TelegramCall::DocumentUrl(u) => TelegramCallView::DocumentUrl(u@),
        }
    }
}

/// The views of calls, in order.
pub open spec fn calls_view(calls: Seq<TelegramCall>) -> Seq<TelegramCallView> {
    calls.map_values(|c: TelegramCall| c@)
}

/// The calls that deliver a message, and the url at which delivery ends in
/// an error, if it does.
pub struct TelegramPlan {
    pub calls: Vec<TelegramCall>,
    pub bad_url: Option<String>,
}

/// A plan as a mathematical value.
pub struct TelegramPlanView {
    pub calls: Seq<TelegramCallView>,
    pub bad_url: Option<Seq<char>>,
}

impl View for TelegramPlan {
    type V = TelegramPlanView;

    open spec fn view(&self) -> TelegramPlanView {
        TelegramPlanView { calls: calls_view(self.calls@), bad_url: opt_text(self.bad_url) }
    }
}

/// The name under which bytes are sent: the one given, or `fallback`.
pub open spec fn name_or(name: Option<Seq<char>>, fallback: Seq<char>) -> Seq<char> {
    match name {
        Some(n) => n,
        None => fallback,
    }
}

/// What one attachment asks for: a call, nothing, or, for a url that does
/// not parse, the end of the delivery.
pub enum AttachmentStep {
    Call(TelegramCallView),
    Skip,
    Fail(Seq<char>),
}

/// What the attachment `a` asks for. Bytes go before a url; an attachment
/// with neither asks for nothing.
pub open spec fn attachment_step(a: AttachmentView) -> AttachmentStep {
    match (a.bytes, a.url) {
        (Some(bytes), _) => if a.ty == OutContentType::Image {
            AttachmentStep::Call(
                TelegramCallView::PhotoBytes { name: name_or(a.name, "image.bin"@), bytes },
            )
        } else {
            AttachmentStep::Call(
                TelegramCallView::DocumentBytes { name: name_or(a.name, "file.bin"@), bytes },
            )
        },
        (None, Some(url)) => if url_parsed(url) is None {
            AttachmentStep::Fail(url)
        } else if a.ty == OutContentType::Image {
            AttachmentStep::Call(TelegramCallView::PhotoUrl(url))
        } else {
            AttachmentStep::Call(TelegramCallView::DocumentUrl(url))
        },
        (None, None) => AttachmentStep::Skip,
    }
}

/// The plan `p` after the first `n` of `attachments` were looked at, while
/// no url has failed.
pub open spec fn attachments_plan(
    p: TelegramPlanView,
    attachments: Seq<AttachmentView>,
    n: nat,
) -> TelegramPlanView
    decreases n,
{
    if n == 0 {
        p
    } else {
        let before = attachments_plan(p, attachments, (n - 1) as nat);
        if before.bad_url is Some {
            before
        } else {
            match attachment_step(attachments[n - 1]) {
                AttachmentStep::Call(c) => TelegramPlanView {
                    calls: before.calls.push(c),
                    bad_url: None,
                },
                AttachmentStep::Skip => before,
                AttachmentStep::Fail(url) => TelegramPlanView {
                    calls: before.calls,
                    bad_url: Some(url),
                },
            }
        }
    }
}

/// The calls for the text of a message: one, if there is text and it is not
/// empty.
pub open spec fn text_calls(text: Option<Seq<char>>) -> Seq<TelegramCallView> {
    match text {
        Some(t) => if t.len() > 0 {
            seq![TelegramCallView::Text(t)]
        } else {
            Seq::empty()
        },
        None => Seq::empty(),
    }
}

/// The plan that delivers `out`: its text first, then its attachments in
/// order, up to the first url that does not parse.
pub open spec fn delivery_plan(out: MessageOutView) -> TelegramPlanView {
    attachments_plan(
        TelegramPlanView { calls: text_calls(out.text), bad_url: None },
        out.attachments,
        out.attachments.len(),
    )
}

/// Plans the delivery of outbound messages.
pub struct TelegramSender;

impl TelegramSender {
    /// The calls that deliver `out`, in order, and where they end in an
    /// error.
    pub fn plan(out: &MessageOut) -> (p: TelegramPlan)
        ensures
            p@ == delivery_plan(out@),
    {
        let mut calls: Vec<TelegramCall> = Vec::new();
        match &out.text {
            Some(t) => {
                if t.as_str().unicode_len() > 0 {
                    calls.push(TelegramCall::Text(t.clone()));
                }
            },
            None => {},
        }
        assert(calls_view(calls@) =~= text_calls(out@.text));
        let ghost start = TelegramPlanView { calls: text_calls(out@.text), bad_url: None };
        let ghost atts = out@.attachments;
        let mut i: usize = 0;
        while i < out.attachments.len()
            invariant
                i <= out.attachments@.len(),
                atts == out@.attachments,
                atts.len() == out.attachments@.len(),
                start == (TelegramPlanView { calls: text_calls(out@.text), bad_url: None }),
                attachments_plan(start, atts, i as nat) == (TelegramPlanView {
                    calls: calls_view(calls@),
                    bad_url: None,
                }),
            decreases out.attachments@.len() - i,
        {
            let a = &out.attachments[i];
            assert(atts[i as int] == a@);
            let ghost before = calls_view(calls@);
            match (&a.bytes, &a.url) {
                (Some(bytes), _) => {
                    let name = match &a.name {
                        Some(n) => n.clone(),
                        None => match a.ty {
                            OutContentType::Image => "image.bin".to_owned(),
                            OutContentType::File => "file.bin".to_owned(),
                        },
                    };
                    match a.ty {
                        OutContentType::Image => {
                            calls.push(TelegramCall::PhotoBytes { name, bytes: bytes.clone() });
                        },
                        OutContentType::File => {
                            calls.push(TelegramCall::DocumentBytes { name, bytes: bytes.clone() });
                        },
                    }
                    assert(calls_view(calls@) =~= before.push(calls@[calls@.len() - 1]@));
                },
                (None, Some(url)) => {
                    match parse_url(url.as_str()) {
                        None => {
                            proof {
                                assert(a@.bytes is None);
                                assert(a@.url == Some(url@));
                                assert(attachment_step(atts[i as int]) == AttachmentStep::Fail(
                                    url@,
                                ));
                                let failed = TelegramPlanView {
                                    calls: calls_view(calls@),
                                    bad_url: Some(url@),
                                };
                                assert(attachments_plan(start, atts, (i + 1) as nat) == failed);
                                lemma_plan_stays_failed(start, atts, (i + 1) as nat, atts.len());
                            }
                            return TelegramPlan { calls, bad_url: Some(url.clone()) };
                        },
                        Some(_) => {
                            match a.ty {
                                OutContentType::Image => {
                                    calls.push(TelegramCall::PhotoUrl(url.clone()));
                                },
                                OutContentType::File => {
                                    calls.push(TelegramCall::DocumentUrl(url.clone()));
                                },
                            }
                            assert(calls_view(calls@) =~= before.push(calls@[calls@.len() - 1]@));
                        },
                    }
                },
                (None, None) => {},
            }
            i += 1;
        }
        TelegramPlan { calls, bad_url: None }
    }
}

/// Once a url has failed, looking at more attachments changes nothing.
pub proof fn lemma_plan_stays_failed(
    p: TelegramPlanView,
    attachments: Seq<AttachmentView>,
    n: nat,
    m: nat,
)
    requires
        n <= m,
        attachments_plan(p, attachments, n).bad_url is Some,
    ensures
        attachments_plan(p, attachments, m) == attachments_plan(p, attachments, n),
    decreases m - n,
{
    if n < m {
        lemma_plan_stays_failed(p, attachments, n, (m - 1) as nat);
    }
}

} // verus!
