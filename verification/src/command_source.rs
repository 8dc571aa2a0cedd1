//! The context of one command invocation: the message that asked for it and
//! the replies gathered so far.

use crate::model::{outs_view, Attachment, MessageIn, MessageInView, MessageOut, MessageOutView};
use vstd::prelude::*;

verus! {

/// A command source as a mathematical value.
pub struct CommandSourceView {
    pub in_msg: MessageInView,
    pub outs: Seq<MessageOutView>,
}

impl CommandSourceView {
    /// The source after one more reply was appended.
    pub open spec fn pushed(self, m: MessageOutView) -> CommandSourceView {
        CommandSourceView { in_msg: self.in_msg, outs: self.outs.push(m) }
    }

    /// The source after a text reply to the chat the message came from.
    pub open spec fn replied(self, text: Seq<char>) -> CommandSourceView {
        self.pushed(MessageOut::spec_text(self.in_msg.addr, text))
    }

    /// The source after its replies were taken out.
    pub open spec fn drained(self) -> CommandSourceView {
        CommandSourceView { in_msg: self.in_msg, outs: Seq::empty() }
    }
}

/// Holds the inbound message of one invocation and buffers its replies.
/// Handlers append replies here and never talk to a platform themselves.
pub struct CommandSource {
    in_msg: MessageIn,
    outs: Vec<MessageOut>,
}

impl View for CommandSource {
    type V = CommandSourceView;

    closed spec fn view(&self) -> CommandSourceView {
        CommandSourceView { in_msg: self.in_msg@, outs: outs_view(self.outs@) }
    }
}

impl CommandSource {
    pub fn new(in_msg: MessageIn) -> (s: Self)
        ensures
            s@ == (CommandSourceView { in_msg: in_msg@, outs: Seq::empty() }),
    {
        let s = Self { in_msg, outs: Vec::new() };
        assert(outs_view(s.outs@) =~= Seq::empty());
        s
    }

    pub fn in_msg(&self) -> (m: &MessageIn)
        ensures
            m@ == self@.in_msg,
    {
        &self.in_msg
    }

    /// Appends a text reply, addressed to the chat the message came from.
    pub fn reply(&mut self, text: &str)
        ensures
            final(self)@ == old(self)@.replied(text@),
    {
        let out = MessageOut::text(self.in_msg.addr, text);
        self.reply_out(out);
    }

    /// Appends `out` as it is.
    pub fn reply_out(&mut self, out: MessageOut)
        ensures
            final(self)@ == old(self)@.pushed(out@),
    {
        self.outs.push(out);
        assert(outs_view(self.outs@) =~= outs_view(old(self).outs@).push(out@));
    }

    /// Appends a reply that carries `a` alone, addressed to the chat the
    /// message came from.
    pub fn reply_with_attachment(&mut self, a: Attachment)
        ensures
            final(self)@ == old(self)@.pushed(
                MessageOut::spec_attachment(old(self)@.in_msg.addr, a@),
            ),
    {
        let out = MessageOut::attachment(self.in_msg.addr, a);
        self.reply_out(out);
    }

    pub fn reply_image_url(&mut self, url: &str)
        ensures
            final(self)@ == old(self)@.pushed(
                MessageOut::spec_attachment(
                    old(self)@.in_msg.addr,
                    Attachment::spec_image_url(url@),
                ),
            ),
    {
        self.reply_with_attachment(Attachment::image_url(url));
    }

    pub fn reply_image_bytes(&mut self, name: &str, bytes: Vec<u8>, mime: &str)
        ensures
            final(self)@ == old(self)@.pushed(
                MessageOut::spec_attachment(
                    old(self)@.in_msg.addr,
                    Attachment::spec_image_bytes(name@, bytes@, mime@),
                ),
            ),
    {
        self.reply_with_attachment(Attachment::image_bytes(name, bytes, mime));
    }

    pub fn reply_file_url(&mut self, name: &str, url: &str)
        ensures
            final(self)@ == old(self)@.pushed(
                MessageOut::spec_attachment(
                    old(self)@.in_msg.addr,
                    Attachment::spec_file_url(name@, url@),
                ),
            ),
    {
        self.reply_with_attachment(Attachment::file_url(name, url));
    }

    pub fn reply_file_bytes(&mut self, name: &str, bytes: Vec<u8>, mime: &str)
        ensures
            final(self)@ == old(self)@.pushed(
                MessageOut::spec_attachment(
                    old(self)@.in_msg.addr,
                    Attachment::spec_file_bytes(name@, bytes@, mime@),
                ),
            ),
    {
        self.reply_with_attachment(Attachment::file_bytes(name, bytes, mime));
    }

    /// Takes the buffered replies out, in the order they were appended, and
    /// leaves the buffer empty.
    pub fn take_outs(&mut self) -> (outs: Vec<MessageOut>)
        ensures
            outs_view(outs@) == old(self)@.outs,
            final(self)@ == old(self)@.drained(),
    {
        let mut taken: Vec<MessageOut> = Vec::new();
        std::mem::swap(&mut self.outs, &mut taken);
        assert(outs_view(self.outs@) =~= Seq::empty());
        taken
    }
}

/// Draining is idempotent: once the replies were taken out, taking again
/// yields nothing and changes nothing.
pub proof fn lemma_drain_twice(s: CommandSourceView)
    ensures
        s.drained().outs == Seq::<MessageOutView>::empty(),
        s.drained().drained() == s.drained(),
{
}

} // verus!
