//! Messages as they are read from a thread and as they are sent on.

use vstd::prelude::*;

verus! {

/// The text that stands in for a message without text.
pub const EMPTY_MESSAGE: &'static str = "-# _[empty message]_";

/// Who wrote a message.
#[derive(Debug, PartialEq, Eq)]
pub struct User {
    pub id: u64,
    pub display_name: String,
}

pub struct UserView {
    pub id: u64,
    pub display_name: Seq<char>,
}

impl View for User {
    type V = UserView;

    open spec fn view(&self) -> UserView {
        UserView { id: self.id, display_name: self.display_name@ }
    }
}

impl Clone for User {
    fn clone(&self) -> (out: Self)
        ensures
            out == *self,
    {
        User { id: self.id, display_name: self.display_name.clone() }
    }
}

/// Where a file attached to a message can be fetched, and under which name.
#[derive(Debug, PartialEq, Eq)]
pub struct Attachment {
    pub url: String,
    pub filename: String,
}

pub struct AttachmentView {
    pub url: Seq<char>,
    pub filename: Seq<char>,
}

impl View for Attachment {
    type V = AttachmentView;

    open spec fn view(&self) -> AttachmentView {
        AttachmentView { url: self.url@, filename: self.filename@ }
    }
}

impl Clone for Attachment {
    fn clone(&self) -> (out: Self)
        ensures
            out == *self,
    {
        Attachment { url: self.url.clone(), filename: self.filename.clone() }
    }
}

/// The views of a list of attachments, in order.
pub open spec fn attachment_views(attachments: Seq<Attachment>) -> Seq<AttachmentView> {
    attachments.map_values(|a: Attachment| a@)
}

/// A message as the platform returns it.
#[derive(Debug, PartialEq, Eq)]
pub struct Message {
    pub id: u64,
    pub author: User,
    pub content: String,
    pub attachments: Vec<Attachment>,
    /// The message this one replies to, if any.
    pub referenced_message: Option<u64>,
}

pub struct MessageView {
    pub id: u64,
    pub author: UserView,
    pub content: Seq<char>,
    pub attachments: Seq<AttachmentView>,
    pub referenced_message: Option<u64>,
}

impl View for Message {
    type V = MessageView;

    open spec fn view(&self) -> MessageView {
        MessageView {
            id: self.id,
            author: self.author@,
            content: self.content@,
            attachments: attachment_views(self.attachments@),
            referenced_message: self.referenced_message,
        }
    }
}

/// A message as it is sent to the destination.
#[derive(Debug, PartialEq, Eq)]
pub struct ForwardedMessage {
    /// The message this one was made from; `None` for a speaker marker.
    pub _original_id: Option<u64>,
    pub _author: User,
    pub content: String,
    pub attachments: Vec<Attachment>,
    pub _reference: Option<u64>,
}

pub struct ForwardedMessageView {
    pub original_id: Option<u64>,
    pub author: UserView,
    pub content: Seq<char>,
    pub attachments: Seq<AttachmentView>,
    pub reference: Option<u64>,
}

impl View for ForwardedMessage {
    type V = ForwardedMessageView;

    open spec fn view(&self) -> ForwardedMessageView {
        ForwardedMessageView {
            original_id: self._original_id,
            author: self._author@,
            content: self.content@,
            attachments: attachment_views(self.attachments@),
            reference: self._reference,
        }
    }
}

/// `content`, or the placeholder where `content` is empty.
pub open spec fn sanitised(content: Seq<char>) -> Seq<char> {
    if content.len() == 0 {
        EMPTY_MESSAGE@
    } else {
        content
    }
}

/// The message that is sent on for `message`: the same author, attachments
/// and reference, the text with the placeholder in place of no text.
pub open spec fn forwarded(message: MessageView) -> ForwardedMessageView {
    ForwardedMessageView {
        original_id: Some(message.id),
        author: message.author,
        content: sanitised(message.content),
        attachments: message.attachments,
        reference: message.referenced_message,
    }
}

/// The placeholder is a text, so that putting it in a second time changes
/// nothing.
pub proof fn lemma_sanitised_twice(content: Seq<char>)
    ensures
        sanitised(content).len() > 0,
        sanitised(sanitised(content)) == sanitised(content),
{
    reveal_strlit("-# _[empty message]_");
}

impl ForwardedMessage {
    /// Gives an empty text the placeholder and leaves every other text as it is.
    pub fn sanitise_content(content: String) -> (out: String)
        ensures
            out@ == sanitised(content@),
    {
        if content.as_str().is_empty() {
            EMPTY_MESSAGE.to_owned()
        } else {
            content
        }
    }

    /// The message to send on for one that was read.
    pub fn from(value: Message) -> (out: Self)
        ensures
            out@ == forwarded(value@),
    {
        ForwardedMessage {
            _original_id: Some(value.id),
            _author: value.author,
            content: Self::sanitise_content(value.content),
            attachments: value.attachments,
            _reference: value.referenced_message,
        }
    }
}

} // verus!
