//! The canonical message types that travel between platforms and commands.

use std::sync::Arc;
use vstd::prelude::*;

verus! {

/// The chat platform that a message came from or goes to.
#[derive(Debug, Clone, Copy, PartialEq, Eq, Hash, Structural)]
pub enum ChatPlatform {
    Telegram,
    Discord,
    Onebot,
}

/// Where a chat lives: its platform, its identity there, and whether it is a group.
#[derive(Debug, Clone, Copy, PartialEq, Eq, Structural)]
pub struct Address {
    pub platform: ChatPlatform,
    pub chat_id: i64,
    pub is_group: bool,
}

impl Address {
    pub fn new(platform: ChatPlatform, chat_id: i64, is_group: bool) -> (a: Self)
        ensures
            a == (Address { platform, chat_id, is_group }),
    {
        Self { platform, chat_id, is_group }
    }
}

/// The view of an optional string: the characters it holds, if any.
pub open spec fn opt_text(o: Option<String>) -> Option<Seq<char>> {
    match o {
        Some(s) => Some(s@),
        None => None,
    }
}

/// The view of an optional shared byte buffer.
pub open spec fn opt_bytes(o: Option<Arc<Vec<u8>>>) -> Option<Seq<u8>> {
    match o {
        Some(b) => Some(b@),
        None => None,
    }
}

/// An inbound message as a mathematical value.
pub struct MessageInView {
    pub addr: Address,
    pub user_id: Option<i64>,
    pub text: Seq<char>,
}

/// A text message received from a chat.
#[derive(Debug, Clone)]
pub struct MessageIn {
    pub addr: Address,
    pub user_id: Option<i64>,
    pub text: String,
}

impl View for MessageIn {
    type V = MessageInView;

    open spec fn view(&self) -> MessageInView {
        MessageInView { addr: self.addr, user_id: self.user_id, text: self.text@ }
    }
}

impl MessageIn {
    pub fn new(addr: Address, user_id: Option<i64>, text: String) -> (m: Self)
        ensures
            m@ == (MessageInView { addr, user_id, text: text@ }),
    {
        Self { addr, user_id, text }
    }
}

/// What kind of payload an attachment carries.
#[derive(Debug, Clone, Copy, PartialEq, Eq, Structural)]
pub enum OutContentType {
    Image,
    File,
}

/// An attachment as a mathematical value.
pub struct AttachmentView {
    pub ty: OutContentType,
    pub name: Option<Seq<char>>,
    pub url: Option<Seq<char>>,
    pub bytes: Option<Seq<u8>>,
    pub mime: Option<Seq<char>>,
}

impl AttachmentView {
    /// An attachment carries a payload when it has a url or a byte buffer.
    pub open spec fn has_payload(self) -> bool {
        self.url is Some || self.bytes is Some
    }
}

/// An image or a file, given by url or by its bytes.
#[derive(Debug, Clone)]
pub struct Attachment {
    pub ty: OutContentType,
    pub name: Option<String>,
    pub url: Option<String>,
    pub bytes: Option<Arc<Vec<u8>>>,
    pub mime: Option<String>,
}

impl View for Attachment {
    type V = AttachmentView;

    open spec fn view(&self) -> AttachmentView {
        AttachmentView {
            ty: self.ty,
            name: opt_text(self.name),
            url: opt_text(self.url),
            bytes: opt_bytes(self.bytes),
            mime: opt_text(self.mime),
        }
    }
}

impl Attachment {
    /// The attachment that `image_url` builds.
    pub open spec fn spec_image_url(url: Seq<char>) -> AttachmentView {
        AttachmentView {
            ty: OutContentType::Image,
            name: None,
            url: Some(url),
            bytes: None,
            mime: None,
        }
    }

    /// The attachment that `image_bytes` builds.
    pub open spec fn spec_image_bytes(name: Seq<char>, bytes: Seq<u8>, mime: Seq<char>)
        -> AttachmentView {
        AttachmentView {
            ty: OutContentType::Image,
            name: Some(name),
            url: None,
            bytes: Some(bytes),
            mime: Some(mime),
        }
    }

    /// The attachment that `file_url` builds.
    pub open spec fn spec_file_url(name: Seq<char>, url: Seq<char>) -> AttachmentView {
        AttachmentView {
            ty: OutContentType::File,
            name: Some(name),
            url: Some(url),
            bytes: None,
            mime: None,
        }
    }

    /// The attachment that `file_bytes` builds.
    pub open spec fn spec_file_bytes(name: Seq<char>, bytes: Seq<u8>, mime: Seq<char>)
        -> AttachmentView {
        AttachmentView {
            ty: OutContentType::File,
            name: Some(name),
            url: None,
            bytes: Some(bytes),
            mime: Some(mime),
        }
    }

    pub fn image_url(url: &str) -> (a: Self)
        ensures
            a@ == Self::spec_image_url(url@),
    {
        Self {
            ty: OutContentType::Image,
            name: None,
            url: Some(url.to_owned()),
            bytes: None,
            mime: None,
        }
    }

    pub fn image_bytes(name: &str, bytes: Vec<u8>, mime: &str) -> (a: Self)
        ensures
            a@ == Self::spec_image_bytes(name@, bytes@, mime@),
    {
        Self {
            ty: OutContentType::Image,
            name: Some(name.to_owned()),
            url: None,
            bytes: Some(Arc::new(bytes)),
            mime: Some(mime.to_owned()),
        }
    }

    pub fn file_url(name: &str, url: &str) -> (a: Self)
        ensures
            a@ == Self::spec_file_url(name@, url@),
    {
        Self {
            ty: OutContentType::File,
            name: Some(name.to_owned()),
            url: Some(url.to_owned()),
            bytes: None,
            mime: None,
        }
    }

    pub fn file_bytes(name: &str, bytes: Vec<u8>, mime: &str) -> (a: Self)
        ensures
            a@ == Self::spec_file_bytes(name@, bytes@, mime@),
    {
        Self {
            ty: OutContentType::File,
            name: Some(name.to_owned()),
            url: None,
            bytes: Some(Arc::new(bytes)),
            mime: Some(mime.to_owned()),
        }
    }
}

/// An outbound message as a mathematical value.
pub struct MessageOutView {
    pub addr: Address,
    pub text: Option<Seq<char>>,
    pub attachments: Seq<AttachmentView>,
}

/// A message to deliver to a chat: optional text and attachments in order.
#[derive(Debug, Clone)]
pub struct MessageOut {
    pub addr: Address,
    pub text: Option<String>,
    pub attachments: Vec<Attachment>,
}

impl View for MessageOut {
    type V = MessageOutView;

    open spec fn view(&self) -> MessageOutView {
        MessageOutView {
            addr: self.addr,
            text: opt_text(self.text),
            attachments: self.attachments@.map_values(|a: Attachment| a@),
        }
    }
}

/// The views of a sequence of outbound messages, in order.
pub open spec fn outs_view(outs: Seq<MessageOut>) -> Seq<MessageOutView> {
    outs.map_values(|m: MessageOut| m@)
}

impl MessageOut {
    /// The message that `text` builds: text only, no attachment.
    pub open spec fn spec_text(addr: Address, text: Seq<char>) -> MessageOutView {
        MessageOutView { addr, text: Some(text), attachments: Seq::empty() }
    }

    /// The message that carries one attachment and no text.
    pub open spec fn spec_attachment(addr: Address, a: AttachmentView) -> MessageOutView {
        MessageOutView { addr, text: None, attachments: seq![a] }
    }

    pub fn text(addr: Address, text: &str) -> (m: Self)
        ensures
            m@ == Self::spec_text(addr, text@),
    {
        let m = Self { addr, text: Some(text.to_owned()), attachments: Vec::new() };
        assert(m@.attachments =~= Seq::empty());
        m
    }

    /// A message with no text and the one attachment given.
    pub fn attachment(addr: Address, a: Attachment) -> (m: Self)
        ensures
            m@ == Self::spec_attachment(addr, a@),
    {
        let mut attachments: Vec<Attachment> = Vec::new();
        attachments.push(a);
        let m = Self { addr, text: None, attachments };
        assert(m@.attachments =~= seq![a@]);
        m
    }
}

} // verus!
