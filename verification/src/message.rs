//! The normalized form of what arrives from the platform.

use vstd::prelude::*;

verus! {

/// A file attached to a message.
#[derive(Clone, Debug, PartialEq, Eq)]
pub struct Attachment {
    pub filename: String,
    pub url: String,
}

/// One message as the platform reported it. Built once per event and only read afterwards.
#[derive(Clone, Debug, PartialEq, Eq)]
pub struct InboundMessage {
    /// The message's own identifier; history is paged by it.
    pub message_id: u64,
    /// The conversation the message was posted in.
    pub source_id: u64,
    pub author_id: u64,
    pub author_display_name: String,
    /// The author's avatar image, where one is configured.
    pub author_avatar_ref: Option<String>,
    pub body: String,
    pub attachments: Vec<Attachment>,
    /// Seconds after 1970-01-01 00:00:00 UTC.
    pub created_at: i64,
    pub is_system_generated: bool,
    pub is_automated_author: bool,
}

/// What kind of conversation an identifier names.
#[derive(Clone, Copy, Debug, PartialEq, Eq)]
pub enum ChannelKind {
    PublicThread,
    PrivateThread,
    Other,
}

impl ChannelKind {
    /// Threads are the conversations that can be mirrored.
    pub open spec fn is_thread(self) -> bool {
        self is PublicThread || self is PrivateThread
    }

    /// Whether this is a thread, public or private.
    pub fn thread(&self) -> (yes: bool)
        ensures
            yes == self.is_thread(),
    {
        match self {
            ChannelKind::PublicThread => true,
            ChannelKind::PrivateThread => true,
            ChannelKind::Other => false,
        }
    }
}

impl InboundMessage {
    /// A message is passed on only when a person wrote it: neither an automated
    /// author, whose posts may be this program's own, nor the platform itself.
    pub open spec fn is_eligible(self) -> bool {
        !self.is_automated_author && !self.is_system_generated
    }
}

/// Whether `message` is an ordinary message written by a person.
pub fn is_regular_user_message(message: &InboundMessage) -> (regular: bool)
    ensures
        regular == message.is_eligible(),
{
    !message.is_system_generated && !message.is_automated_author
}

/// The text of an optional string.
pub open spec fn opt_text(o: Option<String>) -> Option<Seq<char>> {
    match o {
        Some(s) => Some(s@),
        None => None,
    }
}

/// The texts of a sequence of strings.
pub open spec fn texts(v: Seq<String>) -> Seq<Seq<char>> {
    Seq::new(v.len(), |i: int| v[i]@)
}

/// The addresses of a sequence of attachments, in order.
pub open spec fn attachment_urls(a: Seq<Attachment>) -> Seq<Seq<char>> {
    Seq::new(a.len(), |i: int| a[i].url@)
}

/// A copy of an optional string.
pub fn copy_opt_text(o: &Option<String>) -> (copy: Option<String>)
    ensures
        opt_text(copy) == opt_text(*o),
{
    match o {
        Some(s) => Some(s.clone()),
        None => None,
    }
}

} // verus!
