//! The migration of one thread.

use crate::attachments::{
    create_attachments, fetched_views, kept, mirrored_views, MirroredAttachment,
    MirroredAttachmentView,
};
use crate::batching::{
    boundaries, forwarded_views, is_original, last_author, lemma_with_markers_len,
    lemma_with_markers_originals, message_views, originals, show_authors, shown, with_markers,
};
use crate::messages::{
    attachment_views, forwarded, Attachment, AttachmentView, ForwardedMessage,
    ForwardedMessageView, Message, MessageView, EMPTY_MESSAGE,
};
use crate::redaction::{filter_text, filtered, sanitized};
use vstd::prelude::*;

verus! {

/// A thread of the source channel.
#[derive(Debug, PartialEq, Eq)]
pub struct GuildThread {
    pub id: u64,
    pub name: String,
    /// When the thread was archived, in seconds since the Unix epoch.
    pub archive_timestamp: Option<u64>,
}

pub struct GuildThreadView {
    pub id: u64,
    pub name: Seq<char>,
    pub archive_timestamp: Option<u64>,
}

impl Clone for GuildThread {
    fn clone(&self) -> (out: Self)
        ensures
            out == *self,
    {
        GuildThread {
            id: self.id,
            name: self.name.clone(),
            archive_timestamp: self.archive_timestamp,
        }
    }
}

impl View for GuildThread {
    type V = GuildThreadView;

    open spec fn view(&self) -> GuildThreadView {
        GuildThreadView {
            id: self.id,
            name: self.name@,
            archive_timestamp: self.archive_timestamp,
        }
    }
}

/// `message` with its text redacted.
pub open spec fn filtered_message(message: ForwardedMessageView) -> ForwardedMessageView {
    ForwardedMessageView { content: filtered(message.content), ..message }
}

/// What is sent for a thread whose messages the platform returned as
/// `fetched`, newest first: the messages from oldest to newest, with speaker
/// markers, each text redacted.
pub open spec fn transported(fetched: Seq<MessageView>) -> Seq<ForwardedMessageView> {
    with_markers(fetched.reverse()).map_values(|m: ForwardedMessageView| filtered_message(m))
}

/// Redacts the e-mail addresses in the message's text.
pub fn filter_message(message: ForwardedMessage) -> (out: ForwardedMessage)
    ensures
        out@ == filtered_message(message@),
{
    let mut message = message;
    message.content = filter_text(message.content);
    message
}

/// Redacts each message of `batch` and puts it at the end of `out`.
fn filter_onto(out: &mut Vec<ForwardedMessage>, batch: Vec<ForwardedMessage>)
    ensures
        forwarded_views(final(out)@) == forwarded_views(old(out)@) + forwarded_views(
            batch@,
        ).map_values(|m: ForwardedMessageView| filtered_message(m)),
{
    let ghost before = forwarded_views(out@);
    for message in it: batch
        invariant
            it.seq() == batch@,
            forwarded_views(out@) == before + forwarded_views(
                batch@.take(it.index() as int),
            ).map_values(|m: ForwardedMessageView| filtered_message(m)),
    {
        let ghost done = batch@.take(it.index() as int);
        let ghost sent = forwarded_views(out@);
        assert(batch@.take(it.index() + 1) =~= done.push(message));
        out.push(filter_message(message));
        assert(forwarded_views(out@) =~= sent.push(filtered_message(message@)));
        assert(forwarded_views(done.push(message)).map_values(
            |m: ForwardedMessageView| filtered_message(m),
        ) =~= forwarded_views(done).map_values(
            |m: ForwardedMessageView| filtered_message(m),
        ).push(filtered_message(message@)));
    }
    assert(batch@.take(batch@.len() as int) =~= batch@);
}

/// How the migration of a thread ended.
#[derive(Clone, Copy, Debug, PartialEq, Eq, Structural)]
pub enum Outcome {
    /// The destination thread exists and holds every message; `sent` counts
    /// the messages that followed the one the thread was created with.
    Migrated { thread_id: u64, sent: usize },
    /// The source thread had no messages: nothing was created.
    Empty,
    /// The messages could not be fetched: nothing was created.
    FetchFailed,
    /// The destination thread could not be created: nothing was sent.
    CreateFailed,
    /// Message `index` of the transport sequence could not be sent; those
    /// before it are in the destination thread, those after it were not tried.
    SendFailed { thread_id: u64, index: usize },
    /// An event came that answers no pending request.
    OutOfTurn,
}

/// What a `ThreadReader` waits for.
#[derive(Clone, Copy, Debug, PartialEq, Eq, Structural)]
pub enum Stage {
    /// Nothing was asked yet.
    Idle,
    /// The thread's messages.
    Fetching,
    /// The files of the message in turn.
    Mirroring,
    /// The destination thread.
    Creating,
    /// The acknowledgement of the message in turn.
    Sending,
    Finished(Outcome),
}

/// What the caller is asked to do next.
#[derive(Debug, PartialEq, Eq)]
pub enum Request {
    /// Fetch all messages of the source thread.
    FetchMessages { thread_id: u64 },
    /// Fetch each of these attachments from its address, in order.
    FetchAttachments { attachments: Vec<Attachment> },
    /// Create a thread called `name` in the destination channel, with a first
    /// message of this text and these files.
    CreateThread { channel_id: u64, name: String, content: String, files: Vec<MirroredAttachment> },
    /// Send a message of this text and these files into the new thread.
    SendMessage { thread_id: u64, content: String, files: Vec<MirroredAttachment> },
    /// Nothing: the migration of this thread is over.
    Finish(Outcome),
}

pub enum RequestView {
    FetchMessages { thread_id: u64 },
    FetchAttachments { attachments: Seq<AttachmentView> },
    CreateThread {
        channel_id: u64,
        name: Seq<char>,
        content: Seq<char>,
        files: Seq<MirroredAttachmentView>,
    },
    SendMessage { thread_id: u64, content: Seq<char>, files: Seq<MirroredAttachmentView> },
    Finish(Outcome),
}

impl View for Request {
    type V = RequestView;

    open spec fn view(&self) -> RequestView {
        match self {
            Request::FetchMessages { thread_id } => RequestView::FetchMessages {
                thread_id: *thread_id,
            },
            Request::FetchAttachments { attachments } => RequestView::FetchAttachments {
                attachments: attachment_views(attachments@),
            },
            Request::CreateThread { channel_id, name, content, files } => RequestView::CreateThread {
                channel_id: *channel_id,
                name: name@,
                content: content@,
                files: mirrored_views(files@),
            },
            Request::SendMessage { thread_id, content, files } => RequestView::SendMessage {
                thread_id: *thread_id,
                content: content@,
                files: mirrored_views(files@),
            },
            Request::Finish(outcome) => RequestView::Finish(*outcome),
        }
    }
}

/// What happened to the last request.
#[derive(Debug, PartialEq, Eq)]
pub enum Event {
    /// Nothing yet: the migration is to begin.
    Begin,
    /// The thread's messages, newest first; `None` where the fetch failed.
    Messages(Option<Vec<Message>>),
    /// For each attachment asked for, in order, the file or `None`.
    Attachments(Vec<Option<MirroredAttachment>>),
    /// The new thread; `None` where it could not be created.
    Created(Option<u64>),
    /// Whether the message was sent.
    Sent(bool),
}

pub enum EventView {
    Begin,
    Messages(Option<Seq<MessageView>>),
    Attachments(Seq<Option<MirroredAttachmentView>>),
    Created(Option<u64>),
    Sent(bool),
}

impl View for Event {
    type V = EventView;

    open spec fn view(&self) -> EventView {
        match self {
            Event::Begin => EventView::Begin,
            Event::Messages(fetched) => EventView::Messages(
                match fetched {
                    Some(messages) => Some(message_views(messages@)),
                    None => None,
                },
            ),
            Event::Attachments(fetched) => EventView::Attachments(fetched_views(fetched@)),
            Event::Created(thread_id) => EventView::Created(*thread_id),
            Event::Sent(sent) => EventView::Sent(*sent),
        }
    }
}

/// Migrates one thread: holds the thread, what is to be sent for it and how
/// far the sending has come.
pub struct ThreadReader {
    thread: GuildThread,
    stage: Stage,
    messages: Vec<ForwardedMessage>,
    next: usize,
    destination: u64,
}

pub struct ThreadReaderView {
    pub thread: GuildThreadView,
    pub stage: Stage,
    /// The transport sequence, once the messages were fetched.
    pub messages: Seq<ForwardedMessageView>,
    /// The index of the message in turn.
    pub next: nat,
    /// The destination thread, once it was created.
    pub destination: u64,
}

impl ThreadReaderView {
    /// While a message is in turn there is such a message; the thread is
    /// created with the first and with no other.
    pub open spec fn well_formed(self) -> bool {
        match self.stage {
            Stage::Mirroring => self.next < self.messages.len(),
            Stage::Creating => self.next == 0 && self.messages.len() > 0,
            Stage::Sending => 0 < self.next < self.messages.len(),
            _ => true,
        }
    }
}

/// A reader for `thread` that has asked for nothing yet.
pub open spec fn fresh_reader(thread: GuildThreadView) -> ThreadReaderView {
    ThreadReaderView { thread, stage: Stage::Idle, messages: Seq::empty(), next: 0, destination: 0 }
}

/// The migration is over with `outcome`.
pub open spec fn finished(reader: ThreadReaderView, outcome: Outcome) -> (
    ThreadReaderView,
    RequestView,
) {
    (ThreadReaderView { stage: Stage::Finished(outcome), ..reader }, RequestView::Finish(outcome))
}

/// The message in turn goes out with `files`: as the thread's first message
/// if it is the first of the sequence, into the new thread otherwise.
pub open spec fn posted(
    reader: ThreadReaderView,
    channel_id: u64,
    files: Seq<MirroredAttachmentView>,
) -> (ThreadReaderView, RequestView) {
    if reader.next == 0 {
        (
            ThreadReaderView { stage: Stage::Creating, ..reader },
            RequestView::CreateThread {
                channel_id,
                name: reader.thread.name,
                content: reader.messages[0].content,
                files,
            },
        )
    } else {
        (
            ThreadReaderView { stage: Stage::Sending, ..reader },
            RequestView::SendMessage {
                thread_id: reader.destination,
                content: reader.messages[reader.next as int].content,
                files,
            },
        )
    }
}

/// Message `reader.next` comes in turn: the migration is over if there is no
/// such message; its attachments are asked for if it has any; else it goes
/// out at once.
pub open spec fn turned(reader: ThreadReaderView, channel_id: u64) -> (
    ThreadReaderView,
    RequestView,
) {
    if reader.next >= reader.messages.len() {
        finished(
            reader,
            Outcome::Migrated { thread_id: reader.destination, sent: (reader.next - 1) as usize },
        )
    } else if reader.messages[reader.next as int].attachments.len() > 0 {
        (
            ThreadReaderView { stage: Stage::Mirroring, ..reader },
            RequestView::FetchAttachments {
                attachments: reader.messages[reader.next as int].attachments,
            },
        )
    } else {
        posted(reader, channel_id, Seq::empty())
    }
}

/// The reader after `event` and the request that follows it.
pub open spec fn step(reader: ThreadReaderView, channel_id: u64, event: EventView) -> (
    ThreadReaderView,
    RequestView,
) {
    match (reader.stage, event) {
        (Stage::Finished(outcome), _) => (reader, RequestView::Finish(outcome)),
        (Stage::Idle, EventView::Begin) => (
            ThreadReaderView { stage: Stage::Fetching, ..reader },
            RequestView::FetchMessages { thread_id: reader.thread.id },
        ),
        (Stage::Fetching, EventView::Messages(None)) => finished(reader, Outcome::FetchFailed),
        (Stage::Fetching, EventView::Messages(Some(fetched))) => {
            if transported(fetched).len() == 0 {
                finished(reader, Outcome::Empty)
            } else {
                turned(
                    ThreadReaderView { messages: transported(fetched), next: 0, ..reader },
                    channel_id,
                )
            }
        },
        (Stage::Mirroring, EventView::Attachments(fetched)) => posted(
            reader,
            channel_id,
            kept(fetched),
        ),
        (Stage::Creating, EventView::Created(None)) => finished(reader, Outcome::CreateFailed),
        (Stage::Creating, EventView::Created(Some(thread_id))) => turned(
            ThreadReaderView { destination: thread_id, next: 1, ..reader },
            channel_id,
        ),
        (Stage::Sending, EventView::Sent(false)) => finished(
            reader,
            Outcome::SendFailed { thread_id: reader.destination, index: reader.next as usize },
        ),
        (Stage::Sending, EventView::Sent(true)) => turned(
            ThreadReaderView { next: reader.next + 1, ..reader },
            channel_id,
        ),
        _ => finished(reader, Outcome::OutOfTurn),
    }
}

/// A copy of `attachments`.
fn copy_attachments(attachments: &Vec<Attachment>) -> (out: Vec<Attachment>)
    ensures
        attachment_views(out@) == attachment_views(attachments@),
{
    let mut out: Vec<Attachment> = Vec::new();
    let mut i: usize = 0;
    while i < attachments.len()
        invariant
            i <= attachments.len(),
            out@ == attachments@.take(i as int),
        decreases attachments.len() - i,
    {
        out.push(attachments[i].clone());
        assert(out@ =~= attachments@.take(i + 1));
        i += 1;
    }
    assert(attachments@.take(attachments.len() as int) =~= attachments@);
    out
}

/// The request that sends `message` with `files` into the thread `thread_id`.
fn forward_message(message: &ForwardedMessage, files: Vec<MirroredAttachment>, thread_id: u64) -> (out:
    Request)
    ensures
        out@ == (RequestView::SendMessage {
            thread_id,
            content: message@.content,
            files: mirrored_views(files@),
        }),
{
    Request::SendMessage { thread_id, content: message.content.clone(), files }
}

impl View for ThreadReader {
    type V = ThreadReaderView;

    closed spec fn view(&self) -> ThreadReaderView {
        ThreadReaderView {
            thread: self.thread@,
            stage: self.stage,
            messages: forwarded_views(self.messages@),
            next: self.next as nat,
            destination: self.destination,
        }
    }
}

impl ThreadReader {
    #[verifier::type_invariant]
    spec fn holds_its_turn(self) -> bool {
        self@.well_formed()
    }

    /// A reader for `thread` that has asked for nothing yet.
    pub fn new(thread: GuildThread) -> (reader: Self)
        ensures
            reader@ == fresh_reader(thread@),
    {
        let reader = ThreadReader {
            thread,
            stage: Stage::Idle,
            messages: Vec::new(),
            next: 0,
            destination: 0,
        };
        assert(reader@.messages =~= Seq::empty());
        reader
    }

    /// Ends the migration with `outcome`.
    fn finish(self, outcome: Outcome) -> (out: (ThreadReader, Request))
        ensures
            (out.0@, out.1@) == finished(self@, outcome),
    {
        let reader = ThreadReader {
            thread: self.thread,
            stage: Stage::Finished(outcome),
            messages: self.messages,
            next: self.next,
            destination: self.destination,
        };
        (reader, Request::Finish(outcome))
    }

    /// Sends the message in turn out with `files`.
    fn post(self, channel_id: u64, files: Vec<MirroredAttachment>) -> (out: (
        ThreadReader,
        Request,
    ))
        requires
            self@.next < self@.messages.len(),
        ensures
            (out.0@, out.1@) == posted(self@, channel_id, mirrored_views(files@)),
    {
        if self.next == 0 {
            let request = Request::CreateThread {
                channel_id,
                name: self.thread.name.clone(),
                content: self.messages[0].content.clone(),
                files,
            };
            let reader = ThreadReader {
                thread: self.thread,
                stage: Stage::Creating,
                messages: self.messages,
                next: self.next,
                destination: self.destination,
            };
            (reader, request)
        } else {
            let request = forward_message(&self.messages[self.next], files, self.destination);
            let reader = ThreadReader {
                thread: self.thread,
                stage: Stage::Sending,
                messages: self.messages,
                next: self.next,
                destination: self.destination,
            };
            (reader, request)
        }
    }

    /// Takes up the message in turn, or ends the migration after the last.
    fn turn(self, channel_id: u64) -> (out: (ThreadReader, Request))
        requires
            self@.next > 0 || self@.messages.len() > 0,
        ensures
            (out.0@, out.1@) == turned(self@, channel_id),
    {
        if self.next >= self.messages.len() {
            let outcome = Outcome::Migrated { thread_id: self.destination, sent: self.next - 1 };
            self.finish(outcome)
        } else if self.messages[self.next].attachments.len() > 0 {
            let attachments = copy_attachments(&self.messages[self.next].attachments);
            let reader = ThreadReader {
                thread: self.thread,
                stage: Stage::Mirroring,
                messages: self.messages,
                next: self.next,
                destination: self.destination,
            };
            (reader, Request::FetchAttachments { attachments })
        } else {
            let files: Vec<MirroredAttachment> = Vec::new();
            assert(mirrored_views(files@) =~= Seq::empty());
            self.post(channel_id, files)
        }
    }

    /// Takes what happened to the last request and says what to do next for
    /// this thread: fetch its messages, fetch the attachments of the message
    /// in turn, create the destination thread in `new_channel` with the first
    /// message, send each further message in order, and finish. Nothing is
    /// created for a thread without messages, and nothing more is sent once
    /// a creation or a send has failed.
    pub fn forward_messages(self, new_channel: u64, event: Event) -> (out: (ThreadReader, Request))
        ensures
            (out.0@, out.1@) == step(self@, new_channel, event@),
            out.0@.well_formed(),
    {
        proof {
            use_type_invariant(&self);
        }
        let stage = self.stage;
        let out = match (stage, event) {
            (Stage::Finished(outcome), _) => (self, Request::Finish(outcome)),
            (Stage::Idle, Event::Begin) => {
                let request = Request::FetchMessages { thread_id: self.thread.id };
                let reader = ThreadReader {
                    thread: self.thread,
                    stage: Stage::Fetching,
                    messages: self.messages,
                    next: self.next,
                    destination: self.destination,
                };
                (reader, request)
            },
            (Stage::Fetching, Event::Messages(None)) => self.finish(Outcome::FetchFailed),
            (Stage::Fetching, Event::Messages(Some(fetched))) => {
                let messages = self.get_messages(Some(fetched));
                if messages.len() == 0 {
                    self.finish(Outcome::Empty)
                } else {
                    let reader = ThreadReader {
                        thread: self.thread,
                        stage: Stage::Fetching,
                        messages,
                        next: 0,
                        destination: self.destination,
                    };
                    reader.turn(new_channel)
                }
            },
            (Stage::Mirroring, Event::Attachments(fetched)) => {
                let files = create_attachments(fetched);
                self.post(new_channel, files)
            },
            (Stage::Creating, Event::Created(None)) => self.finish(Outcome::CreateFailed),
            (Stage::Creating, Event::Created(Some(thread_id))) => {
                let reader = ThreadReader {
                    thread: self.thread,
                    stage: Stage::Idle,
                    messages: self.messages,
                    next: 1,
                    destination: thread_id,
                };
                reader.turn(new_channel)
            },
            (Stage::Sending, Event::Sent(false)) => {
                let outcome = Outcome::SendFailed {
                    thread_id: self.destination,
                    index: self.next,
                };
                self.finish(outcome)
            },
            (Stage::Sending, Event::Sent(true)) => {
                assert(self.next < self.messages.len());
                let reader = ThreadReader {
                    thread: self.thread,
                    stage: Stage::Idle,
                    messages: self.messages,
                    next: self.next + 1,
                    destination: self.destination,
                };
                reader.turn(new_channel)
            },
            _ => self.finish(Outcome::OutOfTurn),
        };
        proof {
            use_type_invariant(&out.0);
        }
        out
    }

    /// The transport sequence of a thread from what the platform returned for
    /// it, newest first; nothing where the messages could not be fetched.
    pub fn get_messages(&self, fetched: Option<Vec<Message>>) -> (out: Vec<ForwardedMessage>)
        ensures
            forwarded_views(out@) == match fetched {
                Some(messages) => transported(message_views(messages@)),
                None => Seq::empty(),
            },
    {
        let mut out: Vec<ForwardedMessage> = Vec::new();
        let mut remaining = match fetched {
            Some(messages) => messages,
            None => {
                assert(forwarded_views(out@) =~= Seq::empty());
                return out;
            },
        };
        let ghost newest_first = message_views(remaining@);
        let ghost oldest_first = newest_first.reverse();
        let ghost total = remaining.len();
        let mut current_author: Option<u64> = None;
        assert(forwarded_views(out@) =~= with_markers(oldest_first.take(0)).map_values(
            |m: ForwardedMessageView| filtered_message(m),
        ));
        while remaining.len() > 0
            invariant
                remaining.len() <= total,
                total == newest_first.len(),
                oldest_first == newest_first.reverse(),
                message_views(remaining@) == newest_first.take(remaining.len() as int),
                current_author == last_author(oldest_first.take(total - remaining.len())),
                forwarded_views(out@) == with_markers(
                    oldest_first.take(total - remaining.len()),
                ).map_values(|m: ForwardedMessageView| filtered_message(m)),
            decreases remaining.len(),
        {
            let ghost done = total - remaining.len();
            let ghost before = remaining@;
            let message = remaining.pop().unwrap();
            proof {
                assert(message@ == message_views(before)[before.len() - 1]);
                assert(message@ == oldest_first[done]);
                assert(message_views(remaining@) =~= newest_first.take(remaining.len() as int));
                assert(oldest_first.take(done + 1).drop_last() =~= oldest_first.take(done));
                assert(oldest_first.take(done + 1).last() == message@);
            }
            let batch = show_authors(&mut current_author, message).unwrap();
            filter_onto(&mut out, batch);
            proof {
                let f = |m: ForwardedMessageView| filtered_message(m);
                let earlier = with_markers(oldest_first.take(done));
                let added = shown(last_author(oldest_first.take(done)), oldest_first[done]);
                assert(with_markers(oldest_first.take(done + 1)) == earlier + added);
                assert((earlier + added).map_values(f) =~= earlier.map_values(f)
                    + added.map_values(f));
            }
        }
        assert(oldest_first.take(total as int) =~= oldest_first);
        out
    }
}

/// What is sent for one message that was read: the message as it is sent
/// on, with its text redacted.
pub open spec fn sent_for(message: MessageView) -> ForwardedMessageView {
    filtered_message(forwarded(message))
}

/// The text that is sent for a message is what `sanitize` makes of the
/// message's text, given that the search finds no address in the
/// placeholder.
pub proof fn lemma_sent_for_sanitizes(message: MessageView)
    ensures
        filtered(EMPTY_MESSAGE@) == EMPTY_MESSAGE@ ==> sent_for(message).content == sanitized(
            message.content,
        ),
{
}

/// Redaction neither makes nor removes a marker.
proof fn lemma_redaction_keeps_originals(sent: Seq<ForwardedMessageView>)
    ensures
        originals(sent.map_values(|m: ForwardedMessageView| filtered_message(m))) == originals(
            sent,
        ).map_values(|m: ForwardedMessageView| filtered_message(m)),
    decreases sent.len(),
{
    reveal(Seq::filter);
    let redact = |m: ForwardedMessageView| filtered_message(m);
    let pred = |m: ForwardedMessageView| is_original(m);
    if sent.len() == 0 {
        assert(sent.map_values(redact).filter(pred) =~= sent.filter(pred).map_values(redact));
    } else {
        lemma_redaction_keeps_originals(sent.drop_last());
        assert(sent.map_values(redact).drop_last() =~= sent.drop_last().map_values(redact));
        assert(sent.map_values(redact).filter(pred) =~= sent.filter(pred).map_values(redact));
    }
}

/// The transport sequence of a thread has one element for each message of
/// the thread and one more for each message that begins a run; without its
/// markers it is the thread's messages from oldest to newest, each as
/// `sent_for` gives it.
pub proof fn lemma_transported(fetched: Seq<MessageView>)
    ensures
        transported(fetched).len() == fetched.len() + boundaries(fetched.reverse()),
        originals(transported(fetched)) == fetched.reverse().map_values(
            |m: MessageView| sent_for(m),
        ),
{
    let oldest_first = fetched.reverse();
    lemma_with_markers_len(oldest_first);
    lemma_with_markers_originals(oldest_first);
    lemma_redaction_keeps_originals(with_markers(oldest_first));
    assert(oldest_first.map_values(|m: MessageView| forwarded(m)).map_values(
        |m: ForwardedMessageView| filtered_message(m),
    ) =~= oldest_first.map_values(|m: MessageView| sent_for(m)));
}

} // verus!
