//! Speaker markers: a message that names the author is put before the first
//! message of every run of messages by one author.

use crate::messages::{
    forwarded, ForwardedMessage, ForwardedMessageView, Message, MessageView, UserView,
};
use vstd::prelude::*;
use vstd::string::*;

verus! {

/// `text` with `to` in place of each `from`.
pub open spec fn replaced(text: Seq<char>, from: char, to: Seq<char>) -> Seq<char>
    decreases text.len(),
{
    if text.len() == 0 {
        Seq::empty()
    } else {
        replaced(text.drop_last(), from, to) + if text.last() == from {
            to
        } else {
            seq![text.last()]
        }
    }
}

/// Calls `str::replace` with a `char` as the pattern. Trusted: as std
/// documents, every occurrence of the character is replaced by `to` and the
/// rest of the text is copied.
#[verifier::external_body]
fn replace_char(text: &str, from: char, to: &str) -> (out: String)
    ensures
        out@ == replaced(text@, from, to@),
{
    text.replace(from, to)
}

/// `name` with a backslash before each `_` and each `*`, so that neither
/// starts or ends emphasis.
pub open spec fn escaped(name: Seq<char>) -> Seq<char> {
    replaced(replaced(name, '_', "\\_"@), '*', "\\*"@)
}

/// The text of the marker for an author called `name`.
pub open spec fn marker_text(name: Seq<char>) -> Seq<char> {
    "___**"@ + escaped(name) + "**___"@
}

/// The marker that announces `author`: no original, no attachments, no
/// reference.
pub open spec fn marker(author: UserView) -> ForwardedMessageView {
    ForwardedMessageView {
        original_id: None,
        author,
        content: marker_text(author.display_name),
        attachments: Seq::empty(),
        reference: None,
    }
}

/// A message by `author` begins a new run after `current`.
pub open spec fn begins_run(current: Option<u64>, author: u64) -> bool {
    current != Some(author)
}

/// What is sent for `message` when the message before it was by `current`.
pub open spec fn shown(current: Option<u64>, message: MessageView) -> Seq<ForwardedMessageView> {
    if begins_run(current, message.author.id) {
        seq![marker(message.author), forwarded(message)]
    } else {
        seq![forwarded(message)]
    }
}

/// The author of the last of `messages`.
pub open spec fn last_author(messages: Seq<MessageView>) -> Option<u64> {
    if messages.len() == 0 {
        None
    } else {
        Some(messages.last().author.id)
    }
}

/// `messages`, in order, with a marker before each first message of a run.
pub open spec fn with_markers(messages: Seq<MessageView>) -> Seq<ForwardedMessageView>
    decreases messages.len(),
{
    if messages.len() == 0 {
        Seq::empty()
    } else {
        with_markers(messages.drop_last()) + shown(
            last_author(messages.drop_last()),
            messages.last(),
        )
    }
}

/// The number of messages of `messages` that begin a run: the first, and
/// each one whose author is not the author of the message before it.
pub open spec fn boundaries(messages: Seq<MessageView>) -> nat
    decreases messages.len(),
{
    if messages.len() == 0 {
        0
    } else {
        boundaries(messages.drop_last()) + if begins_run(
            last_author(messages.drop_last()),
            messages.last().author.id,
        ) {
            1nat
        } else {
            0nat
        }
    }
}

/// A message that was made from one that was read, not put in as a marker.
pub open spec fn is_original(message: ForwardedMessageView) -> bool {
    message.original_id is Some
}

/// The messages of `sent` that are no markers, in order.
pub open spec fn originals(sent: Seq<ForwardedMessageView>) -> Seq<ForwardedMessageView> {
    sent.filter(|m: ForwardedMessageView| is_original(m))
}

/// What is sent for one message holds that message and nothing else that is
/// no marker.
proof fn lemma_shown_originals(current: Option<u64>, message: MessageView)
    ensures
        originals(shown(current, message)) == seq![forwarded(message)],
        shown(current, message).len() == if begins_run(current, message.author.id) {
            2nat
        } else {
            1nat
        },
{
    reveal_with_fuel(Seq::filter, 3);
    let pred = |m: ForwardedMessageView| is_original(m);
    let sent = shown(current, message);
    if begins_run(current, message.author.id) {
        assert(sent.drop_last() =~= seq![marker(message.author)]);
        assert(sent.drop_last().drop_last() =~= Seq::empty());
        assert(sent.filter(pred) =~= seq![forwarded(message)]);
    } else {
        assert(sent.drop_last() =~= Seq::empty());
        assert(sent.filter(pred) =~= seq![forwarded(message)]);
    }
}

/// The sequence with markers has one element for each message and one more
/// for each message that begins a run.
pub proof fn lemma_with_markers_len(messages: Seq<MessageView>)
    ensures
        with_markers(messages).len() == messages.len() + boundaries(messages),
    decreases messages.len(),
{
    if messages.len() > 0 {
        lemma_with_markers_len(messages.drop_last());
        lemma_shown_originals(last_author(messages.drop_last()), messages.last());
    }
}

/// Without its markers, the sequence with markers is the messages that were
/// read, each as it is sent on, in the same order.
pub proof fn lemma_with_markers_originals(messages: Seq<MessageView>)
    ensures
        originals(with_markers(messages)) == messages.map_values(|m: MessageView| forwarded(m)),
    decreases messages.len(),
{
    let pred = |m: ForwardedMessageView| is_original(m);
    let sent_on = |m: MessageView| forwarded(m);
    if messages.len() == 0 {
        assert(with_markers(messages).filter(pred) =~= Seq::empty()) by {
            reveal_with_fuel(Seq::filter, 1);
        }
        assert(messages.map_values(sent_on) =~= Seq::empty());
    } else {
        let earlier = messages.drop_last();
        let added = shown(last_author(earlier), messages.last());
        lemma_with_markers_originals(earlier);
        lemma_shown_originals(last_author(earlier), messages.last());
        Seq::filter_distributes_over_add(with_markers(earlier), added, pred);
        assert(messages.map_values(sent_on) =~= earlier.map_values(sent_on) + seq![
            forwarded(messages.last()),
        ]);
    }
}

/// A sequence with markers begins with a marker.
pub proof fn lemma_with_markers_first(messages: Seq<MessageView>)
    requires
        messages.len() > 0,
    ensures
        with_markers(messages).len() >= 2,
        with_markers(messages)[0] == marker(messages[0].author),
    decreases messages.len(),
{
    if messages.len() == 1 {
        assert(messages.drop_last() =~= Seq::empty());
        assert(with_markers(messages.drop_last()) =~= Seq::empty());
    } else {
        lemma_with_markers_first(messages.drop_last());
    }
}

/// The views of a list of messages that were read, in order.
pub open spec fn message_views(messages: Seq<Message>) -> Seq<MessageView> {
    messages.map_values(|m: Message| m@)
}

/// The views of a list of messages to send, in order.
pub open spec fn forwarded_views(messages: Seq<ForwardedMessage>) -> Seq<ForwardedMessageView> {
    messages.map_values(|m: ForwardedMessage| m@)
}

/// The text of the marker for `name`.
pub fn marker_content(name: &str) -> (out: String)
    ensures
        out@ == marker_text(name@),
{
    let once = replace_char(name, '_', "\\_");
    let twice = replace_char(once.as_str(), '*', "\\*");
    let mut out = "___**".to_owned();
    out.append(twice.as_str());
    out.append("**___");
    out
}

/// One step of the pass over a thread's messages: gives the marker for
/// `message`'s author if the message before was by someone else or there was
/// none, then the message itself, and notes the author for the next step.
pub fn show_authors(current_author: &mut Option<u64>, message: Message) -> (out: Option<
    Vec<ForwardedMessage>,
>)
    ensures
        out matches Some(messages) && forwarded_views(messages@) == shown(
            *old(current_author),
            message@,
        ),
        *final(current_author) == Some(message.author.id),
{
    let mut messages: Vec<ForwardedMessage> = Vec::new();
    let begins = match *current_author {
        None => true,
        Some(current) => current != message.author.id,
    };
    if begins {
        let display_name = marker_content(message.author.display_name.as_str());
        let announcement = ForwardedMessage {
            _original_id: None,
            _author: message.author.clone(),
            content: display_name,
            attachments: Vec::new(),
            _reference: None,
        };
        assert(announcement@.attachments =~= Seq::empty());
        assert(announcement@ == marker(message@.author));
        messages.push(announcement);
    }
    *current_author = Some(message.author.id);
    let ghost view = message@;
    messages.push(ForwardedMessage::from(message));
    assert(forwarded_views(messages@) =~= shown(*old(current_author), view));
    Some(messages)
}

} // verus!
