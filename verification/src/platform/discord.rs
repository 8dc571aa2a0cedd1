//! Discord: which events become inbound messages, how a slash command reads
//! as text, and what is sent for an outbound message.

use crate::model::{
    opt_text, Address, AttachmentView, ChatPlatform, MessageIn, MessageInView, MessageOut,
    MessageOutView, OutContentType,
};
use crate::platform::telegram::{name_or, opt_message};
use crate::text::{
    chars_of, decimal, digits, i64_to_string, string_of, trim, trim_bounds, trimmed,
    u64_to_string,
};
use std::sync::Arc;
use vstd::prelude::*;

verus! {

/// The most characters that the content of a message may have.
pub const MAX_CONTENT: usize = 2000;

/// The most characters that the description of an embed may have.
pub const MAX_EMBED_DESC: usize = 4096;

/// What is read of a message event.
#[derive(Debug, Clone)]
pub struct DiscordEvent {
    pub author_is_bot: bool,
    pub content: String,
    pub in_guild: bool,
    pub channel_id: u64,
    pub author_id: u64,
}

/// The chat that an event belongs to: the channel in a guild, the author in
/// a direct message.
pub open spec fn event_chat(in_guild: bool, channel_id: u64, author_id: u64) -> i64 {
    if in_guild {
        channel_id as i64
    } else {
        author_id as i64
    }
}

/// The inbound message of an event: none for a bot and for blank content;
/// else the trimmed content, from the chat of the event, by its author.
pub open spec fn event_message(e: DiscordEvent) -> Option<MessageInView> {
    if e.author_is_bot || trimmed(e.content@).len() == 0 {
        None
    } else {
        Some(
            MessageInView {
                addr: Address {
                    platform: ChatPlatform::Discord,
                    chat_id: event_chat(e.in_guild, e.channel_id, e.author_id),
                    is_group: e.in_guild,
                },
                user_id: Some(e.author_id as i64),
                text: trimmed(e.content@),
            },
        )
    }
}

/// The value of an option of a slash command.
#[derive(Debug)]
pub enum CommandValue {
    /// A text, or a number already written out.
    Text(String),
    Boolean(bool),
    Integer(i64),
    /// The options of a subcommand or of a group of subcommands.
    Group(Vec<CommandValue>),
    /// The id of an attachment, channel, role, user or mentionable.
    Id(u64),
    /// A value of a kind that is not known, with the number of its kind.
    Unknown(u8),
    /// A value of a kind that is known but not written out.
    Unsupported,
}

/// The text of `b`.
pub open spec fn bool_text(b: bool) -> Seq<char> {
    if b {
        "true"@
    } else {
        "false"@
    }
}

/// How the value `v` reads as text. The values of a group are put one after
/// the other, a space before each, and the white space around the whole is
/// taken off.
pub open spec fn value_text(v: CommandValue) -> Seq<char>
    decreases v, 0nat,
{
    match v {
        CommandValue::Text(s) => s@,
        CommandValue::Boolean(b) => bool_text(b),
        CommandValue::Integer(i) => decimal(i as int),
        CommandValue::Group(opts) => trimmed(values_text(opts@, opts@.len())),
        CommandValue::Id(n) => digits(n as nat),
        CommandValue::Unknown(k) => "unknown("@ + digits(k as nat) + ")"@,
        CommandValue::Unsupported => "<unsupported>"@,
    }
}

/// The first `n` of `opts` as text, a space before each.
pub open spec fn values_text(opts: Seq<CommandValue>, n: nat) -> Seq<char>
    decreases opts, n,
{
    if n == 0 || n > opts.len() {
        Seq::empty()
    } else {
        values_text(opts, (n - 1) as nat) + seq![' '] + value_text(opts[n - 1])
    }
}

/// How the slash command `name` with the values `options` reads as a
/// command line: a slash, the name, and the values, a space before each.
pub open spec fn interaction_text(name: Seq<char>, options: Seq<CommandValue>) -> Seq<char> {
    seq!['/'] + name + values_text(options, options.len())
}

/// The inbound message of a slash command: none if a bot gave it; else its
/// command line as it is, from the chat it was given in, by who gave it.
pub open spec fn interaction_message(
    user_is_bot: bool,
    name: Seq<char>,
    options: Seq<CommandValue>,
    in_guild: bool,
    channel_id: u64,
    user_id: u64,
) -> Option<MessageInView> {
    if user_is_bot {
        None
    } else {
        Some(
            MessageInView {
                addr: Address {
                    platform: ChatPlatform::Discord,
                    chat_id: event_chat(in_guild, channel_id, user_id),
                    is_group: in_guild,
                },
                user_id: Some(user_id as i64),
                text: interaction_text(name, options),
            },
        )
    }
}

/// How the value `v` reads as text.
pub fn fmt_cmd_value(v: &CommandValue) -> (r: String)
    ensures
        r@ == value_text(*v),
    decreases v,
{
    match v {
        CommandValue::Text(s) => s.clone(),
        CommandValue::Boolean(b) => if *b {
            "true".to_owned()
        } else {
            "false".to_owned()
        },
        CommandValue::Integer(i) => i64_to_string(*i),
        CommandValue::Group(opts) => {
            let mut out = String::new();
            let mut i: usize = 0;
            while i < opts.len()
                invariant
                    i <= opts@.len(),
                    *v == CommandValue::Group(*opts),
                    out@ == values_text(opts@, i as nat),
                decreases opts@.len() - i,
            {
                out.push(' ');
                proof {
                    assert(decreases_to!(*v => v->Group_0));
                    assert(decreases_to!(*opts => opts[i as int]));
                }
                let part = fmt_cmd_value(&opts[i]);
                out.append(part.as_str());
                assert(out@ =~= values_text(opts@, (i + 1) as nat));
                i += 1;
            }
            trim(out.as_str())
        },
        CommandValue::Id(n) => u64_to_string(*n),
        CommandValue::Unknown(k) => {
            let mut r = "unknown(".to_owned();
            r.append(u64_to_string(*k as u64).as_str());
            r.append(")");
            r
        },
        CommandValue::Unsupported => "<unsupported>".to_owned(),
    }
}

/// Turns what arrives from Discord into inbound messages.
pub struct DiscordReceiver;

impl DiscordReceiver {
    /// The inbound message of an event, if it carries one.
    pub fn inbound_of(e: DiscordEvent) -> (m: Option<MessageIn>)
        ensures
            opt_message(m) == event_message(e),
    {
        if e.author_is_bot {
            return None;
        }
        let text = trim(e.content.as_str());
        if text.as_str().unicode_len() == 0 {
            return None;
        }
        let chat_id = if e.in_guild {
            e.channel_id as i64
        } else {
            e.author_id as i64
        };
        Some(
            MessageIn::new(
                Address::new(ChatPlatform::Discord, chat_id, e.in_guild),
                Some(e.author_id as i64),
                text,
            ),
        )
    }

    /// The inbound message of a slash command, if it carries one.
    pub fn inbound_of_interaction(
        user_is_bot: bool,
        name: &str,
        options: &Vec<CommandValue>,
        in_guild: bool,
        channel_id: u64,
        user_id: u64,
    ) -> (m: Option<MessageIn>)
        ensures
            opt_message(m) == interaction_message(
                user_is_bot,
                name@,
                options@,
                in_guild,
                channel_id,
                user_id,
            ),
    {
        if user_is_bot {
            return None;
        }
        let text = Self::interaction_line(name, options);
        let chat_id = if in_guild {
            channel_id as i64
        } else {
            user_id as i64
        };
        Some(
            MessageIn::new(
                Address::new(ChatPlatform::Discord, chat_id, in_guild),
                Some(user_id as i64),
                text,
            ),
        )
    }

    /// The command line that the slash command `name` with the values
    /// `options` stands for.
    pub fn interaction_line(name: &str, options: &Vec<CommandValue>) -> (r: String)
        ensures
            r@ == interaction_text(name@, options@),
    {
        let mut text = String::new();
        text.push('/');
        text.append(name);
        let ghost head = text@;
        assert(head =~= seq!['/'] + name@);
        let mut i: usize = 0;
        assert(head + values_text(options@, 0) =~= head);
        while i < options.len()
            invariant
                i <= options@.len(),
                text@ == head + values_text(options@, i as nat),
            decreases options@.len() - i,
        {
            text.push(' ');
            text.append(fmt_cmd_value(&options[i]).as_str());
            assert(text@ =~= head + values_text(options@, (i + 1) as nat));
            i += 1;
        }
        text
    }
}

/// Whether the gateway client was started. It is started at most once.
#[derive(Debug, Clone, Copy, PartialEq, Eq, Structural)]
pub struct DiscordStack {
    pub started: bool,
}

impl DiscordStack {
    /// Not started.
    pub fn new() -> (s: Self)
        ensures
            !s.started,
    {
        Self { started: false }
    }

    /// Marks the client as started and says whether the caller has to
    /// start it: only the first call does.
    pub fn ensure_started(&mut self) -> (launch: bool)
        ensures
            launch == !old(self).started,
            final(self).started,
    {
        let was = self.started;
        self.started = true;
        !was
    }
}

/// An embed of a message.
#[derive(Debug, Clone)]
pub enum DiscordEmbed {
    /// Shows the image at a url.
    Image(String),
    /// Shows a piece of text.
    Description(String),
}

/// An embed as a mathematical value.
pub enum DiscordEmbedView {
    Image(Seq<char>),
    Description(Seq<char>),
}

impl View for DiscordEmbed {
    type V = DiscordEmbedView;

    open spec fn view(&self) -> DiscordEmbedView {
        match self {
            DiscordEmbed::Image(u) => DiscordEmbedView::Image(u@),
            DiscordEmbed::Description(t) => DiscordEmbedView::Description(t@),
        }
    }
}

/// A file to upload with a message.
#[derive(Debug, Clone)]
pub struct DiscordUpload {
    pub name: String,
    pub bytes: Arc<Vec<u8>>,
}

/// An upload as a mathematical value.
pub struct DiscordUploadView {
    pub name: Seq<char>,
    pub bytes: Seq<u8>,
}

impl View for DiscordUpload {
    type V = DiscordUploadView;

    open spec fn view(&self) -> DiscordUploadView {
        DiscordUploadView { name: self.name@, bytes: self.bytes@ }
    }
}

/// Where a message goes.
#[derive(Debug, Clone, Copy, PartialEq, Eq, Structural)]
pub enum DiscordTarget {
    /// The channel with this id.
    Channel(u64),
    /// The direct-message channel with the user of this id.
    DirectMessage(u64),
}

/// What is sent for one outbound message.
#[derive(Debug, Clone)]
pub struct DiscordMessage {
    pub target: DiscordTarget,
    pub content: String,
    pub embeds: Vec<DiscordEmbed>,
    pub files: Vec<DiscordUpload>,
}

/// What is sent, as a mathematical value.
pub struct DiscordMessageView {
    pub target: DiscordTarget,
    pub content: Seq<char>,
    pub embeds: Seq<DiscordEmbedView>,
    pub files: Seq<DiscordUploadView>,
}

impl View for DiscordMessage {
    type V = DiscordMessageView;

    open spec fn view(&self) -> DiscordMessageView {
        DiscordMessageView {
            target: self.target,
            content: self.content@,
            embeds: self.embeds@.map_values(|e: DiscordEmbed| e@),
            files: self.files@.map_values(|f: DiscordUpload| f@),
        }
    }
}

/// The name under which the bytes of `a` are uploaded when it has none.
pub open spec fn default_name(ty: OutContentType) -> Seq<char> {
    if ty == OutContentType::Image {
        "image.bin"@
    } else {
        "file.bin"@
    }
}

/// The uploads for the first `n` of `atts`: one for each that has bytes.
pub open spec fn uploads_of(atts: Seq<AttachmentView>, n: nat) -> Seq<DiscordUploadView>
    decreases n,
{
    if n == 0 || n > atts.len() {
        Seq::empty()
    } else {
        let a = atts[n - 1];
        match a.bytes {
            Some(bytes) => uploads_of(atts, (n - 1) as nat).push(
                DiscordUploadView { name: name_or(a.name, default_name(a.ty)), bytes },
            ),
            None => uploads_of(atts, (n - 1) as nat),
        }
    }
}

/// Whether `a` is shown as an image embed: an image without bytes whose url
/// is not blank.
pub open spec fn is_image_embed(a: AttachmentView) -> bool {
    a.bytes is None && a.ty == OutContentType::Image && (a.url matches Some(u) && trimmed(u).len()
        > 0)
}

/// The image embeds for the first `n` of `atts`.
pub open spec fn images_of(atts: Seq<AttachmentView>, n: nat) -> Seq<DiscordEmbedView>
    decreases n,
{
    if n == 0 || n > atts.len() {
        Seq::empty()
    } else {
        let a = atts[n - 1];
        if is_image_embed(a) {
            images_of(atts, (n - 1) as nat).push(DiscordEmbedView::Image(a.url->0))
        } else {
            images_of(atts, (n - 1) as nat)
        }
    }
}

/// `s` cut into pieces of `size` characters; the last may be shorter.
pub open spec fn chunks(s: Seq<char>, size: nat) -> Seq<Seq<char>>
    decreases s.len(),
{
    if s.len() == 0 || size == 0 {
        Seq::empty()
    } else if s.len() <= size {
        seq![s]
    } else {
        seq![s.take(size as int)] + chunks(s.skip(size as int), size)
    }
}

/// The embeds `embeds` followed by one description embed for each piece of
/// `pieces`.
pub open spec fn with_descriptions(embeds: Seq<DiscordEmbedView>, pieces: Seq<Seq<char>>) -> Seq<
    DiscordEmbedView,
> {
    embeds + pieces.map_values(|p: Seq<char>| DiscordEmbedView::Description(p))
}

/// Where the message for `addr` goes.
pub open spec fn target_of(addr: Address) -> DiscordTarget {
    if addr.is_group {
        DiscordTarget::Channel(addr.chat_id as u64)
    } else {
        DiscordTarget::DirectMessage(addr.chat_id as u64)
    }
}

/// What is sent for `out`. Content of at most `MAX_CONTENT` characters is
/// sent as it is; longer content is sent as description embeds of at most
/// `MAX_EMBED_DESC` characters each, behind the image embeds, and the
/// content is left empty.
pub open spec fn message_for(out: MessageOutView) -> DiscordMessageView {
    let content = match out.text {
        Some(t) => t,
        None => Seq::empty(),
    };
    let n = out.attachments.len();
    let images = images_of(out.attachments, n);
    DiscordMessageView {
        target: target_of(out.addr),
        content: if content.len() <= MAX_CONTENT {
            content
        } else {
            Seq::empty()
        },
        embeds: if content.len() <= MAX_CONTENT {
            images
        } else {
            with_descriptions(images, chunks(content, MAX_EMBED_DESC as nat))
        },
        files: uploads_of(out.attachments, n),
    }
}

/// Plans what is sent for outbound messages.
pub struct DiscordSender;

impl DiscordSender {
    /// What is sent for `out`.
    pub fn plan(out: &MessageOut) -> (m: DiscordMessage)
        ensures
            m@ == message_for(out@),
    {
        let mut files: Vec<DiscordUpload> = Vec::new();
        let mut embeds: Vec<DiscordEmbed> = Vec::new();
        let ghost atts = out@.attachments;
        let mut i: usize = 0;
        assert(files@.map_values(|f: DiscordUpload| f@) =~= uploads_of(atts, 0));
        assert(embeds@.map_values(|e: DiscordEmbed| e@) =~= images_of(atts, 0));
        while i < out.attachments.len()
            invariant
                i <= out.attachments@.len(),
                atts == out@.attachments,
                atts.len() == out.attachments@.len(),
                files@.map_values(|f: DiscordUpload| f@) == uploads_of(atts, i as nat),
                embeds@.map_values(|e: DiscordEmbed| e@) == images_of(atts, i as nat),
            decreases out.attachments@.len() - i,
        {
            let a = &out.attachments[i];
            assert(atts[i as int] == a@);
            let ghost files_before = files@.map_values(|f: DiscordUpload| f@);
            let ghost embeds_before = embeds@.map_values(|e: DiscordEmbed| e@);
            match &a.bytes {
                Some(bytes) => {
                    let name = match &a.name {
                        Some(n) => n.clone(),
                        None => match a.ty {
                            OutContentType::Image => "image.bin".to_owned(),
                            OutContentType::File => "file.bin".to_owned(),
                        },
                    };
                    files.push(DiscordUpload { name, bytes: bytes.clone() });
                    assert(files@.map_values(|f: DiscordUpload| f@) =~= files_before.push(
                        files@[files@.len() - 1]@,
                    ));
                },
                None => {
                    match (a.ty, &a.url) {
                        (OutContentType::Image, Some(url)) => {
                            let v = chars_of(url.as_str());
                            let (from, to) = trim_bounds(v.as_slice());
                            if from < to {
                                embeds.push(DiscordEmbed::Image(url.clone()));
                                assert(embeds@.map_values(|e: DiscordEmbed| e@)
                                    =~= embeds_before.push(DiscordEmbedView::Image(url@)));
                            }
                        },
                        _ => {},
                    }
                },
            }
            i += 1;
        }
        let content = match &out.text {
            Some(t) => t.clone(),
            None => String::new(),
        };
        let target = if out.addr.is_group {
            DiscordTarget::Channel(out.addr.chat_id as u64)
        } else {
            DiscordTarget::DirectMessage(out.addr.chat_id as u64)
        };
        let cv = chars_of(content.as_str());
        if cv.len() <= MAX_CONTENT {
            return DiscordMessage { target, content, embeds, files };
        }
        let ghost images = embeds@.map_values(|e: DiscordEmbed| e@);
        let ghost all = chunks(cv@, MAX_EMBED_DESC as nat);
        let mut start: usize = 0;
        assert(cv@.skip(0) =~= cv@);
        assert(with_descriptions(images, Seq::empty()) =~= images);
        let ghost mut done: Seq<Seq<char>> = Seq::empty();
        while start < cv.len()
            invariant
                start <= cv@.len(),
                done + chunks(cv@.skip(start as int), MAX_EMBED_DESC as nat) == all,
                embeds@.map_values(|e: DiscordEmbed| e@) == with_descriptions(images, done),
            decreases cv@.len() - start,
        {
            let end: usize = if cv.len() - start <= MAX_EMBED_DESC {
                cv.len()
            } else {
                start + MAX_EMBED_DESC
            };
            let part = string_of(cv.as_slice(), start, end);
            let ghost rest = cv@.skip(start as int);
            let ghost before = embeds@.map_values(|e: DiscordEmbed| e@);
            assert(part@ =~= rest.take(end - start));
            assert(rest.skip(end - start) =~= cv@.skip(end as int));
            proof {
                if rest.len() <= MAX_EMBED_DESC {
                    assert(rest.take(end - start) =~= rest);
                    assert(chunks(cv@.skip(end as int), MAX_EMBED_DESC as nat) =~= Seq::<
                        Seq<char>,
                    >::empty());
                    assert(chunks(rest, MAX_EMBED_DESC as nat) =~= seq![part@] + chunks(
                        cv@.skip(end as int),
                        MAX_EMBED_DESC as nat,
                    ));
                }
                assert(done.push(part@) + chunks(cv@.skip(end as int), MAX_EMBED_DESC as nat)
                    =~= done + chunks(rest, MAX_EMBED_DESC as nat));
            }
            embeds.push(DiscordEmbed::Description(part));
            proof {
                assert(embeds@.map_values(|e: DiscordEmbed| e@) =~= before.push(
                    DiscordEmbedView::Description(part@),
                ));
                assert(with_descriptions(images, done.push(part@)) =~= with_descriptions(
                    images,
                    done,
                ).push(DiscordEmbedView::Description(part@)));
                done = done.push(part@);
            }
            start = end;
        }
        assert(done + Seq::<Seq<char>>::empty() =~= done);
        DiscordMessage { target, content: String::new(), embeds, files }
    }
}

} // verus!
