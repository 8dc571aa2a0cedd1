//! Routes outbound messages to the sender registered for their platform.

use crate::model::{outs_view, ChatPlatform, MessageOut, MessageOutView};
use vstd::prelude::*;

verus! {

/// A platform refused or failed to deliver a message.
#[derive(Debug, Clone)]
pub struct SendError {
    pub reason: String,
}

/// What a sender was handed so far, in the order in which it was handed it.
pub struct SendLog {
    pub messages: Seq<MessageOutView>,
}

/// Delivers messages to one platform. Implemented by the platforms. Whether
/// a send succeeds is up to the platform; that the message was handed over
/// is on record either way.
pub trait Sender {
    /// What this sender was handed so far.
    spec fn handed(&self) -> SendLog;

    /// Takes `out` for delivery.
    fn send(&mut self, out: MessageOut) -> (r: Result<(), SendError>)
        ensures
            final(self).handed().messages == old(self).handed().messages.push(out@),
    ;
}

/// What became of one message of a batch.
#[derive(Debug, Clone)]
pub enum Delivery {
    /// The platform's sender took the message.
    Sent,
    /// No sender is registered for the platform: the message was dropped.
    NoSender,
    /// The platform's sender failed; the failure stops nothing else.
    Failed(SendError),
}

/// The messages of `outs` that go to the platform `p`, in order.
pub open spec fn for_platform(outs: Seq<MessageOutView>, p: ChatPlatform) -> Seq<MessageOutView>
    decreases outs.len(),
{
    if outs.len() == 0 {
        Seq::empty()
    } else if outs.last().addr.platform == p {
        for_platform(outs.drop_last(), p).push(outs.last())
    } else {
        for_platform(outs.drop_last(), p)
    }
}

/// What the sender in `slot` was handed so far, if there is a sender.
pub open spec fn handed_in<S: Sender>(slot: Option<S>) -> Option<Seq<MessageOutView>> {
    match slot {
        Some(s) => Some(s.handed().messages),
        None => None,
    }
}

/// What a sender that was handed `before` has been handed once `more` were
/// handed to it too; nothing where there is no sender.
pub open spec fn handed_more(before: Option<Seq<MessageOutView>>, more: Seq<MessageOutView>)
    -> Option<Seq<MessageOutView>> {
    match before {
        Some(h) => Some(h + more),
        None => None,
    }
}

/// One sender per platform, at most.
pub struct MessageSenderHub<S> {
    telegram: Option<S>,
    discord: Option<S>,
    onebot: Option<S>,
}

impl<S> MessageSenderHub<S> {
    /// The sender registered for `p`, if any.
    pub closed spec fn sender(&self, p: ChatPlatform) -> Option<S> {
        match p {
            ChatPlatform::Telegram => self.telegram,
            ChatPlatform::Discord => self.discord,
            ChatPlatform::Onebot => self.onebot,
        }
    }

    /// A hub without any sender.
    pub fn new() -> (h: Self)
        ensures
            forall|p: ChatPlatform| h.sender(p) is None,
    {
        Self { telegram: None, discord: None, onebot: None }
    }

    /// Binds `s` to `p`. A sender bound to `p` before is replaced; the other
    /// platforms keep theirs.
    pub fn register(&mut self, p: ChatPlatform, s: S)
        ensures
            final(self).sender(p) == Some(s),
            forall|q: ChatPlatform| q != p ==> final(self).sender(q) == old(self).sender(q),
    {
        match p {
            ChatPlatform::Telegram => {
                self.telegram = Some(s);
            },
            ChatPlatform::Discord => {
                self.discord = Some(s);
            },
            ChatPlatform::Onebot => {
                self.onebot = Some(s);
            },
        }
    }

    /// The sender registered for `p`, if any.
    pub fn sender_for(&self, p: ChatPlatform) -> (r: Option<&S>)
        ensures
            match r {
                Some(s) => self.sender(p) == Some(*s),
                None => self.sender(p) is None,
            },
    {
        match p {
            ChatPlatform::Telegram => self.telegram.as_ref(),
            ChatPlatform::Discord => self.discord.as_ref(),
            ChatPlatform::Onebot => self.onebot.as_ref(),
        }
    }

    /// The sender that has to deliver `out`: the one of its platform.
    pub fn route(&self, out: &MessageOut) -> (r: Option<&S>)
        ensures
            match r {
                Some(s) => self.sender(out@.addr.platform) == Some(*s),
                None => self.sender(out@.addr.platform) is None,
            },
    {
        self.sender_for(out.addr.platform)
    }
}

/// Hands `out` to the sender in `slot`, once, if there is one, and says what
/// became of it.
fn deliver<S: Sender>(slot: &mut Option<S>, out: MessageOut) -> (d: Delivery)
    ensures
        d is NoSender <==> *old(slot) is None,
        handed_in(*final(slot)) == handed_more(handed_in(*old(slot)), seq![out@]),
{
    match slot {
        None => Delivery::NoSender,
        Some(sender) => {
            let ghost before = sender.handed().messages;
            let r = sender.send(out);
            assert(before.push(out@) =~= before + seq![out@]);
            match r {
                Ok(()) => Delivery::Sent,
                Err(e) => Delivery::Failed(e),
            }
        },
    }
}

impl<S: Sender> MessageSenderHub<S> {
    /// What the sender of `p` was handed so far, if `p` has a sender.
    pub open spec fn handed_by(&self, p: ChatPlatform) -> Option<Seq<MessageOutView>> {
        handed_in(self.sender(p))
    }

    /// Hands `out` to the sender of its platform, once. Without a sender
    /// the message is dropped and no sender is called. A sender that fails
    /// is not asked again. The senders of the other platforms are left
    /// alone.
    pub fn send_one(&mut self, out: MessageOut) -> (d: Delivery)
        ensures
            d is NoSender <==> old(self).sender(out@.addr.platform) is None,
            final(self).handed_by(out@.addr.platform) == handed_more(
                old(self).handed_by(out@.addr.platform),
                seq![out@],
            ),
            forall|q: ChatPlatform|
                q != out@.addr.platform ==> final(self).sender(q) == old(self).sender(q),
    {
        match out.addr.platform {
            ChatPlatform::Telegram => deliver(&mut self.telegram, out),
            ChatPlatform::Discord => deliver(&mut self.discord, out),
            ChatPlatform::Onebot => deliver(&mut self.onebot, out),
        }
    }

    /// Sends the batch one message after the other, in the order of the
    /// batch: each message is handed once to the sender of its platform, so
    /// that every sender gets its messages in the order of the batch. A
    /// message without a sender is dropped and no sender is called for it. A
    /// failure is not tried again and keeps no later message from being
    /// sent. The report says which messages were dropped. With
    /// `preserve_order` this order is owed; without it any order would do,
    /// and the same one is taken.
    #[allow(unused_variables)]
    pub fn send_batch(
        &mut self,
        outs: Vec<MessageOut>,
        preserve_order: bool,
    ) -> (report: Vec<Delivery>)
        ensures
            report@.len() == outs@.len(),
            forall|i: int|
                0 <= i < outs@.len() ==> ((#[trigger] report@[i]) is NoSender
                    <==> old(self).sender(outs@[i]@.addr.platform) is None),
            forall|p: ChatPlatform|
                #[trigger] final(self).handed_by(p) == handed_more(
                    old(self).handed_by(p),
                    for_platform(outs_view(outs@), p),
                ),
    {
        let ghost all = outs@;
        let ghost views = outs_view(outs@);
        let mut outs = outs;
        let mut stack: Vec<MessageOut> = Vec::new();
        while outs.len() > 0
            invariant
                outs@.len() + stack@.len() == all.len(),
                forall|i: int| 0 <= i < outs@.len() ==> outs@[i] == all[i],
                forall|j: int| 0 <= j < stack@.len() ==> stack@[j] == all[all.len() - 1 - j],
            decreases outs@.len(),
        {
            match outs.pop() {
                Some(m) => {
                    stack.push(m);
                },
                None => {},
            }
        }
        let mut report: Vec<Delivery> = Vec::new();
        proof {
            assert(views.take(0) =~= Seq::<MessageOutView>::empty());
            assert forall|p: ChatPlatform| #[trigger]
                self.handed_by(p) == handed_more(
                    old(self).handed_by(p),
                    for_platform(views.take(0), p),
                ) by {
                lemma_handed_none_more(old(self).handed_by(p));
            }
        }
        while stack.len() > 0
            invariant
                views == outs_view(all),
                views.len() == all.len(),
                report@.len() + stack@.len() == all.len(),
                forall|j: int| 0 <= j < stack@.len() ==> stack@[j] == all[all.len() - 1 - j],
                forall|i: int|
                    0 <= i < report@.len() ==> ((#[trigger] report@[i]) is NoSender
                        <==> old(self).sender(all[i]@.addr.platform) is None),
                forall|p: ChatPlatform|
                    (#[trigger] self.sender(p)) is None <==> old(self).sender(p) is None,
                forall|p: ChatPlatform|
                    #[trigger] self.handed_by(p) == handed_more(
                        old(self).handed_by(p),
                        for_platform(views.take(report@.len() as int), p),
                    ),
            decreases stack@.len(),
        {
            let ghost k = report@.len() as int;
            let ghost before = *self;
            match stack.pop() {
                Some(m) => {
                    proof {
                        assert(m == all[k]);
                        assert(views[k] == m@);
                        assert(views.take(k + 1).drop_last() =~= views.take(k));
                        assert(views.take(k + 1).last() == m@);
                    }
                    let d = self.send_one(m);
                    report.push(d);
                    proof {
                        assert forall|p: ChatPlatform| #[trigger]
                            self.handed_by(p) == handed_more(
                                old(self).handed_by(p),
                                for_platform(views.take(k + 1), p),
                            ) by {
                            let so_far = for_platform(views.take(k), p);
                            assert(before.handed_by(p) == handed_more(
                                old(self).handed_by(p),
                                so_far,
                            ));
                            if p == m@.addr.platform {
                                assert(for_platform(views.take(k + 1), p) == so_far.push(m@));
                                lemma_handed_step(old(self).handed_by(p), so_far, m@);
                            } else {
                                assert(self.sender(p) == before.sender(p));
                                assert(for_platform(views.take(k + 1), p) == so_far);
                            }
                        }
                    }
                },
                None => {},
            }
        }
        proof {
            assert(views.take(all.len() as int) =~= views);
        }
        report
    }
}

/// To be handed nothing more changes nothing.
pub proof fn lemma_handed_none_more(before: Option<Seq<MessageOutView>>)
    ensures
        handed_more(before, Seq::empty()) == before,
{
    match before {
        Some(h) => {
            assert(h + Seq::<MessageOutView>::empty() =~= h);
        },
        None => {},
    }
}

/// To be handed some messages and then one more is to be handed them all.
pub proof fn lemma_handed_step(
    before: Option<Seq<MessageOutView>>,
    more: Seq<MessageOutView>,
    last: MessageOutView,
)
    ensures
        handed_more(handed_more(before, more), seq![last]) == handed_more(before, more.push(last)),
{
    match before {
        Some(h) => {
            assert((h + more) + seq![last] =~= h + more.push(last));
        },
        None => {},
    }
}

} // verus!
