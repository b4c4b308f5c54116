//! The archived threads of a channel, page by page.
//!
//! The platform lists archived threads from the newest back, a page at a
//! time; each further page is asked for with the archive time of the oldest
//! thread seen so far. The caller makes the requests; this module keeps the
//! place, collects the pages and hands the threads out oldest first.

use crate::threads::{GuildThread, GuildThreadView};
use vstd::prelude::*;

verus! {

/// Why the threads could not be listed.
#[derive(Clone, Copy, Debug, PartialEq, Eq, Structural)]
pub enum EnumerationError {
    /// A page could not be fetched.
    PageFailed,
    /// A thread in a page has no archive time, so that the listing cannot be
    /// continued from it.
    MissingArchiveTimestamp { thread_id: u64 },
    /// An answer came that no request was waiting for.
    OutOfTurn,
}

/// What the caller is asked to do next.
#[derive(Debug, PartialEq, Eq)]
pub enum ListRequest {
    /// Fetch the page of threads of `channel_id` that were archived before
    /// `before`; the newest page where `before` is `None`.
    Page { channel_id: u64, before: Option<u64> },
    /// Nothing: the listing is over, with the threads from the oldest to the
    /// newest or with the reason why there is no list.
    Finish(Result<Vec<GuildThread>, EnumerationError>),
}

pub enum ListRequestView {
    Page { channel_id: u64, before: Option<u64> },
    Finish(Result<Seq<GuildThreadView>, EnumerationError>),
}

/// The views of a list of threads, in order.
pub open spec fn thread_views(threads: Seq<GuildThread>) -> Seq<GuildThreadView> {
    threads.map_values(|t: GuildThread| t@)
}

impl View for ListRequest {
    type V = ListRequestView;

    open spec fn view(&self) -> ListRequestView {
        match self {
            ListRequest::Page { channel_id, before } => ListRequestView::Page {
                channel_id: *channel_id,
                before: *before,
            },
            ListRequest::Finish(Ok(threads)) => ListRequestView::Finish(Ok(thread_views(threads@))),
            ListRequest::Finish(Err(error)) => ListRequestView::Finish(Err(*error)),
        }
    }
}

/// What happened to the last request.
#[derive(Debug, PartialEq, Eq)]
pub enum Listing {
    /// Nothing yet: the listing is to begin.
    Begin,
    /// The page, newest thread first; empty when there are no more threads.
    Page(Vec<GuildThread>),
    /// The page could not be fetched.
    Failed,
}

pub enum ListingView {
    Begin,
    Page(Seq<GuildThreadView>),
    Failed,
}

impl View for Listing {
    type V = ListingView;

    open spec fn view(&self) -> ListingView {
        match self {
            Listing::Begin => ListingView::Begin,
            Listing::Page(threads) => ListingView::Page(thread_views(threads@)),
            Listing::Failed => ListingView::Failed,
        }
    }
}

/// Whether an `Enumerator` has begun, and whether it has ended.
#[derive(Clone, Copy, Debug, PartialEq, Eq, Structural)]
pub enum ListStage {
    Idle,
    Listing,
    Finished,
}

/// Lists the archived threads of one channel.
pub struct Enumerator {
    channel_id: u64,
    stage: ListStage,
    found: Vec<GuildThread>,
}

pub struct EnumeratorView {
    pub channel_id: u64,
    pub stage: ListStage,
    /// The threads of the pages so far, newest first.
    pub found: Seq<GuildThreadView>,
}

impl View for Enumerator {
    type V = EnumeratorView;

    closed spec fn view(&self) -> EnumeratorView {
        EnumeratorView {
            channel_id: self.channel_id,
            stage: self.stage,
            found: thread_views(self.found@),
        }
    }
}

/// A lister for `channel_id` that has asked for nothing yet.
pub open spec fn fresh_lister(channel_id: u64) -> EnumeratorView {
    EnumeratorView { channel_id, stage: ListStage::Idle, found: Seq::empty() }
}

/// The first thread of `threads` that has no archive time.
pub open spec fn first_undated(threads: Seq<GuildThreadView>) -> Option<u64>
    decreases threads.len(),
{
    if threads.len() == 0 {
        None
    } else {
        match first_undated(threads.drop_last()) {
            Some(thread_id) => Some(thread_id),
            None => if threads.last().archive_timestamp is None {
                Some(threads.last().id)
            } else {
                None
            },
        }
    }
}

/// The listing is over with `result`.
pub open spec fn list_ended(
    lister: EnumeratorView,
    result: Result<Seq<GuildThreadView>, EnumerationError>,
) -> (EnumeratorView, ListRequestView) {
    (
        EnumeratorView { stage: ListStage::Finished, found: Seq::empty(), ..lister },
        ListRequestView::Finish(result),
    )
}

/// The lister after `reply` and the request that follows it: the first page
/// is asked for without a time; an empty page ends the listing with all
/// threads so far, oldest first; a page with an undated thread, or a failed
/// page, ends it without a list; any other page is kept and the next is
/// asked for from the archive time of its last thread.
pub open spec fn listed(lister: EnumeratorView, reply: ListingView) -> (
    EnumeratorView,
    ListRequestView,
) {
    match (lister.stage, reply) {
        (ListStage::Idle, ListingView::Begin) => (
            EnumeratorView { stage: ListStage::Listing, ..lister },
            ListRequestView::Page { channel_id: lister.channel_id, before: None },
        ),
        (ListStage::Listing, ListingView::Failed) => list_ended(
            lister,
            Err(EnumerationError::PageFailed),
        ),
        (ListStage::Listing, ListingView::Page(threads)) => {
            if threads.len() == 0 {
                list_ended(lister, Ok(lister.found.reverse()))
            } else if let Some(thread_id) = first_undated(threads) {
                list_ended(lister, Err(EnumerationError::MissingArchiveTimestamp { thread_id }))
            } else {
                (
                    EnumeratorView { found: lister.found + threads, ..lister },
                    ListRequestView::Page {
                        channel_id: lister.channel_id,
                        before: threads.last().archive_timestamp,
                    },
                )
            }
        },
        _ => list_ended(lister, Err(EnumerationError::OutOfTurn)),
    }
}

/// The first thread of `threads` that has no archive time.
fn find_undated(threads: &Vec<GuildThread>) -> (missing: Option<u64>)
    ensures
        missing == first_undated(thread_views(threads@)),
{
    let mut i: usize = 0;
    while i < threads.len()
        invariant
            i <= threads.len(),
            first_undated(thread_views(threads@.take(i as int))) is None,
        decreases threads.len() - i,
    {
        proof {
            assert(thread_views(threads@.take(i + 1)).drop_last() =~= thread_views(
                threads@.take(i as int),
            ));
        }
        if threads[i].archive_timestamp.is_none() {
            proof {
                lemma_first_undated_prefix(
                    thread_views(threads@),
                    i + 1,
                );
                assert(thread_views(threads@).take(i + 1) =~= thread_views(threads@.take(i + 1)));
            }
            return Some(threads[i].id);
        }
        i += 1;
    }
    assert(threads@.take(threads.len() as int) =~= threads@);
    None
}

/// An undated thread among the first `n` is the first undated thread of all.
pub proof fn lemma_first_undated_prefix(threads: Seq<GuildThreadView>, n: int)
    requires
        0 <= n <= threads.len(),
        first_undated(threads.take(n)) is Some,
    ensures
        first_undated(threads) == first_undated(threads.take(n)),
    decreases threads.len() - n,
{
    if n < threads.len() {
        assert(threads.take(n + 1).drop_last() =~= threads.take(n));
        lemma_first_undated_prefix(threads, n + 1);
    } else {
        assert(threads.take(n) =~= threads);
    }
}

/// `threads` in the opposite order.
fn reversed(threads: Vec<GuildThread>) -> (out: Vec<GuildThread>)
    ensures
        out@ == threads@.reverse(),
{
    let mut rest = threads;
    let mut out: Vec<GuildThread> = Vec::new();
    while rest.len() > 0
        invariant
            rest.len() <= threads.len(),
            rest@ == threads@.take(rest.len() as int),
            out@ == threads@.skip(rest.len() as int).reverse(),
        decreases rest.len(),
    {
        let thread = rest.pop().unwrap();
        out.push(thread);
        assert(rest@ =~= threads@.take(rest.len() as int));
        assert(out@ =~= threads@.skip(rest.len() as int).reverse());
    }
    assert(threads@.skip(0) =~= threads@);
    out
}

impl Enumerator {
    /// A lister for the channel `channel_id` that has asked for nothing yet.
    pub fn new(channel_id: u64) -> (lister: Self)
        ensures
            lister@ == fresh_lister(channel_id),
    {
        let lister = Enumerator { channel_id, stage: ListStage::Idle, found: Vec::new() };
        assert(lister@.found =~= Seq::empty());
        lister
    }

    /// Ends the listing with `result`.
    fn close(self, result: Result<Vec<GuildThread>, EnumerationError>) -> (out: (
        Enumerator,
        ListRequest,
    ))
        ensures
            (out.0@, out.1@) == list_ended(
                self@,
                match result {
                    Ok(threads) => Ok(thread_views(threads@)),
                    Err(error) => Err(error),
                },
            ),
    {
        let lister = Enumerator {
            channel_id: self.channel_id,
            stage: ListStage::Finished,
            found: Vec::new(),
        };
        assert(lister@.found =~= Seq::empty());
        (lister, ListRequest::Finish(result))
    }

    /// Takes what happened to the last request and says what to do next.
    pub fn list_threads(self, reply: Listing) -> (out: (Enumerator, ListRequest))
        ensures
            (out.0@, out.1@) == listed(self@, reply@),
    {
        match (self.stage, reply) {
            (ListStage::Idle, Listing::Begin) => {
                let request = ListRequest::Page { channel_id: self.channel_id, before: None };
                let lister = Enumerator {
                    channel_id: self.channel_id,
                    stage: ListStage::Listing,
                    found: self.found,
                };
                (lister, request)
            },
            (ListStage::Listing, Listing::Failed) => self.close(Err(EnumerationError::PageFailed)),
            (ListStage::Listing, Listing::Page(threads)) => {
                if threads.len() == 0 {
                    let channel_id = self.channel_id;
                    let ghost found = thread_views(self.found@);
                    let oldest_first = reversed(self.found);
                    assert(thread_views(oldest_first@) =~= found.reverse());
                    let lister = Enumerator {
                        channel_id,
                        stage: ListStage::Finished,
                        found: Vec::new(),
                    };
                    assert(lister@.found =~= Seq::empty());
                    (lister, ListRequest::Finish(Ok(oldest_first)))
                } else {
                    match find_undated(&threads) {
                        Some(thread_id) => self.close(
                            Err(EnumerationError::MissingArchiveTimestamp { thread_id }),
                        ),
                        None => {
                            let before = threads[threads.len() - 1].archive_timestamp;
                            let request = ListRequest::Page { channel_id: self.channel_id, before };
                            let mut found = self.found;
                            let mut page = threads;
                            let ghost earlier = thread_views(found@);
                            found.append(&mut page);
                            assert(thread_views(found@) =~= earlier + thread_views(threads@));
                            let lister = Enumerator {
                                channel_id: self.channel_id,
                                stage: ListStage::Listing,
                                found,
                            };
                            (lister, request)
                        },
                    }
                }
            },
            _ => self.close(Err(EnumerationError::OutOfTurn)),
        }
    }
}

} // verus!
