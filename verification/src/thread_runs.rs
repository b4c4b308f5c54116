//! What holds of every run of a `ThreadReader`, whatever the platform
//! answers.

use crate::attachments::{kept, MirroredAttachmentView};
use crate::messages::{ForwardedMessageView, MessageView};
use crate::threads::{
    fresh_reader, step, transported, EventView, GuildThreadView, Outcome, RequestView, Stage,
    ThreadReaderView,
};
use vstd::prelude::*;

verus! {

/// The reader after `events`, one after the other.
pub open spec fn reader_after(
    reader: ThreadReaderView,
    channel_id: u64,
    events: Seq<EventView>,
) -> ThreadReaderView
    decreases events.len(),
{
    if events.len() == 0 {
        reader
    } else {
        reader_after(step(reader, channel_id, events[0]).0, channel_id, events.drop_first())
    }
}

/// The requests that the reader makes on `events`, one for each event.
pub open spec fn requests(
    reader: ThreadReaderView,
    channel_id: u64,
    events: Seq<EventView>,
) -> Seq<RequestView>
    decreases events.len(),
{
    if events.len() == 0 {
        Seq::empty()
    } else {
        seq![step(reader, channel_id, events[0]).1] + requests(
            step(reader, channel_id, events[0]).0,
            channel_id,
            events.drop_first(),
        )
    }
}

/// A request that changes the destination.
pub open spec fn is_write(request: RequestView) -> bool {
    request is CreateThread || request is SendMessage
}

/// There is one request for each event; a step keeps a reader well formed.
pub proof fn lemma_requests_len(
    reader: ThreadReaderView,
    channel_id: u64,
    events: Seq<EventView>,
)
    ensures
        requests(reader, channel_id, events).len() == events.len(),
    decreases events.len(),
{
    if events.len() > 0 {
        lemma_requests_len(step(reader, channel_id, events[0]).0, channel_id, events.drop_first());
    }
}

/// A step keeps a reader well formed.
pub proof fn lemma_step_well_formed(reader: ThreadReaderView, channel_id: u64, event: EventView)
    requires
        reader.well_formed(),
    ensures
        step(reader, channel_id, event).0.well_formed(),
{
}

/// A reader that has finished stays as it is and asks for nothing more.
pub proof fn lemma_finished_stays(
    reader: ThreadReaderView,
    channel_id: u64,
    events: Seq<EventView>,
)
    requires
        reader.stage is Finished,
    ensures
        reader_after(reader, channel_id, events) == reader,
        forall|j: int|
            0 <= j < events.len() ==> #[trigger] requests(reader, channel_id, events)[j]
                == RequestView::Finish(reader.stage->Finished_0),
    decreases events.len(),
{
    lemma_requests_len(reader, channel_id, events);
    if events.len() > 0 {
        lemma_finished_stays(reader, channel_id, events.drop_first());
        lemma_requests_len(reader, channel_id, events.drop_first());
    }
}

/// Nothing is written for a thread without messages: where the thread's
/// messages come back as an empty list, or do not come back, no request of
/// the run creates a thread or sends a message, whatever else happens.
pub proof fn lemma_empty_thread_writes_nothing(
    thread: GuildThreadView,
    channel_id: u64,
    events: Seq<EventView>,
)
    requires
        events.len() >= 2,
        events[0] == EventView::Begin,
        events[1] == EventView::Messages(None) || events[1] == EventView::Messages(
            Some(Seq::<MessageView>::empty()),
        ),
    ensures
        forall|j: int|
            0 <= j < events.len() ==> !is_write(
                #[trigger] requests(fresh_reader(thread), channel_id, events)[j],
            ),
{
    let reader = fresh_reader(thread);
    let (fetching, first) = step(reader, channel_id, events[0]);
    let rest = events.drop_first();
    let (ended, second) = step(fetching, channel_id, rest[0]);
    assert(Seq::<MessageView>::empty().reverse() =~= Seq::<MessageView>::empty());
    assert(transported(Seq::<MessageView>::empty()).len() == 0);
    assert(ended.stage is Finished);
    lemma_finished_stays(ended, channel_id, rest.drop_first());
    lemma_requests_len(ended, channel_id, rest.drop_first());
    lemma_requests_len(fetching, channel_id, rest);
    let all = requests(reader, channel_id, events);
    let tail = requests(ended, channel_id, rest.drop_first());
    assert forall|j: int| 0 <= j < events.len() implies !is_write(#[trigger] all[j]) by {
        if j == 0 {
        } else if j == 1 {
            assert(all[1] == requests(fetching, channel_id, rest)[0]);
        } else {
            assert(all[j] == requests(fetching, channel_id, rest)[j - 1]);
            assert(requests(fetching, channel_id, rest)[j - 1] == tail[j - 2]);
        }
    }
}

/// The reader has not yet been told of a destination thread.
pub open spec fn before_creation(reader: ThreadReaderView) -> bool {
    reader.next == 0 && (reader.stage is Idle || reader.stage is Fetching || reader.stage
        is Mirroring || reader.stage is Creating)
}

/// The reader has a destination thread, or has finished.
pub open spec fn past_creation(reader: ThreadReaderView) -> bool {
    reader.stage is Finished || (reader.next >= 1 && (reader.stage is Mirroring || reader.stage
        is Sending))
}

/// Once the destination thread exists, the reader never waits for one again.
proof fn lemma_creates_once(
    reader: ThreadReaderView,
    channel_id: u64,
    events: Seq<EventView>,
)
    requires
        past_creation(reader),
    ensures
        past_creation(reader_after(reader, channel_id, events)),
    decreases events.len(),
{
    if events.len() > 0 {
        lemma_creates_once(step(reader, channel_id, events[0]).0, channel_id, events.drop_first());
    }
}

/// From before the creation: if the creation fails at event `i`, nothing is
/// sent in the whole run.
proof fn lemma_no_send_from(
    reader: ThreadReaderView,
    channel_id: u64,
    events: Seq<EventView>,
    i: int,
)
    requires
        before_creation(reader),
        0 <= i < events.len(),
        reader_after(reader, channel_id, events.take(i)).stage is Creating,
        events[i] == EventView::Created(None),
    ensures
        forall|j: int|
            0 <= j < events.len() ==> !(#[trigger] requests(reader, channel_id, events)[j]
                is SendMessage),
    decreases events.len(),
{
    let (next, request) = step(reader, channel_id, events[0]);
    let rest = events.drop_first();
    let all = requests(reader, channel_id, events);
    lemma_requests_len(next, channel_id, rest);
    if i == 0 {
        assert(events.take(0) =~= Seq::empty());
        assert(next.stage is Finished);
        lemma_finished_stays(next, channel_id, rest);
        assert forall|j: int| 0 <= j < events.len() implies !(#[trigger] all[j]
            is SendMessage) by {
            if j > 0 {
                assert(all[j] == requests(next, channel_id, rest)[j - 1]);
            }
        }
    } else {
        assert(events.take(i).drop_first() =~= rest.take(i - 1));
        assert(events.take(i)[0] == events[0]);
        if past_creation(next) {
            lemma_creates_once(next, channel_id, rest.take(i - 1));
            assert(false);
        }
        assert(before_creation(next));
        assert(!(request is SendMessage));
        lemma_no_send_from(next, channel_id, rest, i - 1);
        assert forall|j: int| 0 <= j < events.len() implies !(#[trigger] all[j]
            is SendMessage) by {
            if j > 0 {
                assert(all[j] == requests(next, channel_id, rest)[j - 1]);
            }
        }
    }
}

/// Nothing is sent into a thread that could not be created: if, in a run of
/// a new reader, the answer to the creation is that it failed, then no
/// request of the run sends a message, whatever else happens.
pub proof fn lemma_failed_creation_sends_nothing(
    thread: GuildThreadView,
    channel_id: u64,
    events: Seq<EventView>,
    i: int,
)
    requires
        0 <= i < events.len(),
        reader_after(fresh_reader(thread), channel_id, events.take(i)).stage is Creating,
        events[i] == EventView::Created(None),
    ensures
        forall|j: int|
            0 <= j < events.len() ==> !(#[trigger] requests(
                fresh_reader(thread),
                channel_id,
                events,
            )[j] is SendMessage),
        reader_after(fresh_reader(thread), channel_id, events).stage == Stage::Finished(
            Outcome::CreateFailed,
        ),
{
    lemma_no_send_from(fresh_reader(thread), channel_id, events, i);
    lemma_outcome_of_failed_creation(fresh_reader(thread), channel_id, events, i);
}

/// A run in which the creation fails ends with that outcome.
proof fn lemma_outcome_of_failed_creation(
    reader: ThreadReaderView,
    channel_id: u64,
    events: Seq<EventView>,
    i: int,
)
    requires
        0 <= i < events.len(),
        reader_after(reader, channel_id, events.take(i)).stage is Creating,
        events[i] == EventView::Created(None),
    ensures
        reader_after(reader, channel_id, events).stage == Stage::Finished(Outcome::CreateFailed),
    decreases events.len(),
{
    let next = step(reader, channel_id, events[0]).0;
    let rest = events.drop_first();
    if i == 0 {
        assert(events.take(0) =~= Seq::empty());
        lemma_finished_stays(next, channel_id, rest);
    } else {
        assert(events.take(i).drop_first() =~= rest.take(i - 1));
        assert(events.take(i)[0] == events[0]);
        lemma_outcome_of_failed_creation(next, channel_id, rest, i - 1);
    }
}

/// The requests among `requests` that change the destination, in order.
pub open spec fn writes(requests: Seq<RequestView>) -> Seq<RequestView>
    decreases requests.len(),
{
    if requests.len() == 0 {
        Seq::empty()
    } else if is_write(requests[0]) {
        seq![requests[0]] + writes(requests.drop_first())
    } else {
        writes(requests.drop_first())
    }
}

/// How many messages of the sequence have gone out, or are on their way,
/// when the reader is in a stage in which it holds the sequence.
pub open spec fn progress(reader: ThreadReaderView) -> nat {
    match reader.stage {
        Stage::Mirroring => reader.next,
        Stage::Creating => 1,
        Stage::Sending => reader.next + 1,
        _ => reader.messages.len(),
    }
}

/// Write `i` of a run carries message `at` of `messages`: the first message
/// creates the thread, called as the source thread is called, in the
/// destination channel; every other message is sent.
pub open spec fn carries(
    write: RequestView,
    thread: GuildThreadView,
    channel_id: u64,
    messages: Seq<ForwardedMessageView>,
    at: int,
) -> bool {
    if at == 0 {
        write matches RequestView::CreateThread { channel_id: channel, name, content, .. }
            && channel == channel_id && name == thread.name && content == messages[0].content
    } else {
        write matches RequestView::SendMessage { content, .. } && content == messages[at].content
    }
}

/// No attachment can hold a message back: whatever comes back for the
/// attachments of the message in turn, the message goes out next, with the
/// files that could be fetched, in their order.
pub proof fn lemma_message_goes_out(
    reader: ThreadReaderView,
    channel_id: u64,
    fetched: Seq<Option<MirroredAttachmentView>>,
)
    requires
        reader.well_formed(),
        reader.stage is Mirroring,
    ensures
        ({
            let request = step(reader, channel_id, EventView::Attachments(fetched)).1;
            &&& carries(request, reader.thread, channel_id, reader.messages, reader.next as int)
            &&& request matches RequestView::CreateThread { files, .. } ==> files == kept(fetched)
            &&& request matches RequestView::SendMessage { thread_id, files, .. } ==> files
                == kept(fetched) && thread_id == reader.destination
        }),
{
}

/// The reader holds the sequence and a message is on its way or about to be.
pub open spec fn under_way(reader: ThreadReaderView) -> bool {
    reader.well_formed() && (reader.stage is Mirroring || reader.stage is Creating || reader.stage
        is Sending || reader.stage is Finished)
}

/// From the middle of a migration: the writes still to come carry the
/// messages still to go, in order, and where the run ends with the thread
/// migrated, none is left.
proof fn lemma_writes_from(reader: ThreadReaderView, channel_id: u64, events: Seq<EventView>)
    requires
        under_way(reader),
    ensures
        ({
            let out = writes(requests(reader, channel_id, events));
            &&& reader.stage is Finished ==> out.len() == 0
            &&& progress(reader) + out.len() <= reader.messages.len()
            &&& forall|i: int|
                0 <= i < out.len() ==> carries(
                    #[trigger] out[i],
                    reader.thread,
                    channel_id,
                    reader.messages,
                    progress(reader) + i,
                )
            &&& forall|j: int|
                0 <= j < events.len() && (#[trigger] requests(reader, channel_id, events)[j]
                    matches RequestView::Finish(Outcome::Migrated { .. })) && !(reader.stage
                    is Finished) ==> progress(reader) + out.len() == reader.messages.len()
            &&& forall|j: int|
                0 <= j < events.len() ==> (#[trigger] requests(reader, channel_id, events)[j]
                    matches RequestView::Finish(Outcome::Migrated { sent, .. }) ==> !(reader.stage
                    is Finished) && reader.messages.len() <= usize::MAX ==> sent + 1
                    == reader.messages.len())
        }),
    decreases events.len(),
{
    let all = requests(reader, channel_id, events);
    let out = writes(all);
    lemma_requests_len(reader, channel_id, events);
    if events.len() > 0 {
        let (next, request) = step(reader, channel_id, events[0]);
        let rest = events.drop_first();
        let later = requests(next, channel_id, rest);
        lemma_requests_len(next, channel_id, rest);
        assert(all.drop_first() =~= later);
        lemma_writes_from(next, channel_id, rest);
        if reader.stage is Finished {
            lemma_finished_stays(reader, channel_id, events);
            assert(next == reader);
        } else {
            assert(next.messages == reader.messages);
            assert(next.thread == reader.thread);
            let tail = writes(later);
            if is_write(request) {
                assert(out =~= seq![request] + tail);
                assert(carries(request, reader.thread, channel_id, reader.messages,
                    progress(reader) as int));
                assert(!(next.stage is Finished));
                assert(progress(next) == progress(reader) + 1);
                assert forall|i: int| 0 <= i < out.len() implies carries(
                    #[trigger] out[i],
                    reader.thread,
                    channel_id,
                    reader.messages,
                    progress(reader) + i,
                ) by {
                    if i > 0 {
                        assert(out[i] == tail[i - 1]);
                    }
                }
            } else {
                assert(out =~= tail);
                if next.stage is Finished {
                    assert(tail.len() == 0);
                } else {
                    assert(progress(next) == progress(reader));
                }
            }
            assert forall|j: int|
                0 <= j < events.len() && (#[trigger] all[j] matches RequestView::Finish(
                    Outcome::Migrated { .. },
                )) implies progress(reader) + out.len() == reader.messages.len() by {
                if j > 0 {
                    assert(all[j] == later[j - 1]);
                    if next.stage is Finished {
                        lemma_finished_stays(next, channel_id, rest);
                    }
                }
            }
            assert forall|j: int| 0 <= j < events.len() implies (#[trigger] all[j]
                matches RequestView::Finish(Outcome::Migrated { sent, .. })
                ==> reader.messages.len() <= usize::MAX ==> sent + 1 == reader.messages.len()) by {
                if j > 0 {
                    assert(all[j] == later[j - 1]);
                    if next.stage is Finished {
                        lemma_finished_stays(next, channel_id, rest);
                    }
                }
            }
        }
    }
}

/// The destination receives the transport sequence and nothing else: in a
/// run of a new reader whose messages come back as `fetched`, the requests
/// that change the destination carry the messages of `transported(fetched)`
/// from the first on, one each and in order; the first of them creates the
/// thread and the others send into it; and where the run ends with the
/// thread migrated, every message has gone out, so that one thread was
/// created and one message less than the sequence holds was sent, which is
/// the count that the outcome gives (for a sequence that a machine can
/// hold).
pub proof fn lemma_writes_carry_the_sequence(
    thread: GuildThreadView,
    channel_id: u64,
    fetched: Seq<MessageView>,
    events: Seq<EventView>,
)
    requires
        events.len() >= 2,
        events[0] == EventView::Begin,
        events[1] == EventView::Messages(Some(fetched)),
    ensures
        ({
            let all = requests(fresh_reader(thread), channel_id, events);
            let out = writes(all);
            let messages = transported(fetched);
            &&& out.len() <= messages.len()
            &&& forall|i: int|
                0 <= i < out.len() ==> carries(#[trigger] out[i], thread, channel_id, messages, i)
            &&& forall|j: int|
                0 <= j < events.len() ==> (#[trigger] all[j] matches RequestView::Finish(
                    Outcome::Migrated { sent, .. },
                ) ==> out.len() == messages.len() && (messages.len() <= usize::MAX ==> sent + 1
                    == messages.len()))
        }),
{
    let reader = fresh_reader(thread);
    let all = requests(reader, channel_id, events);
    let messages = transported(fetched);
    let (fetching, first) = step(reader, channel_id, events[0]);
    let rest = events.drop_first();
    let (begun, second) = step(fetching, channel_id, rest[0]);
    let after = rest.drop_first();
    let later = requests(begun, channel_id, after);
    lemma_requests_len(reader, channel_id, events);
    lemma_requests_len(fetching, channel_id, rest);
    lemma_requests_len(begun, channel_id, after);
    assert(all.drop_first() =~= requests(fetching, channel_id, rest));
    assert(requests(fetching, channel_id, rest).drop_first() =~= later);
    assert(all[1] == second);
    lemma_writes_from(begun, channel_id, after);
    let tail = writes(later);
    assert(writes(all) == writes(requests(fetching, channel_id, rest)));
    if messages.len() == 0 {
        assert(begun.stage is Finished);
        lemma_finished_stays(begun, channel_id, after);
        assert(writes(all) =~= tail);
        assert forall|j: int| 0 <= j < events.len() implies !(#[trigger] all[j]
            matches RequestView::Finish(Outcome::Migrated { .. })) by {
            if j >= 2 {
                assert(all[j] == later[j - 2]);
            }
        }
    } else {
        assert(begun.messages == messages);
        assert(begun.thread == thread);
        assert(!(begun.stage is Finished));
        if is_write(second) {
            assert(writes(all) =~= seq![second] + tail);
            assert(progress(begun) == 1);
            assert forall|i: int| 0 <= i < writes(all).len() implies carries(
                #[trigger] writes(all)[i],
                thread,
                channel_id,
                messages,
                i,
            ) by {
                if i > 0 {
                    assert(writes(all)[i] == tail[i - 1]);
                }
            }
        } else {
            assert(writes(all) =~= tail);
            assert(progress(begun) == 0);
        }
        assert forall|j: int| 0 <= j < events.len() implies (#[trigger] all[j]
            matches RequestView::Finish(Outcome::Migrated { sent, .. }) ==> writes(all).len()
            == messages.len() && (messages.len() <= usize::MAX ==> sent + 1 == messages.len())) by {
            if j >= 2 {
                assert(all[j] == later[j - 2]);
            }
        }
    }
}

} // verus!
