//! The whole migration: the threads of the source channel are listed, then
//! migrated one after the other, oldest first. A thread that fails does not
//! stop the others; only a listing that fails stops the migration.

use crate::enumerator::{
    fresh_lister, listed, thread_views, EnumerationError, Enumerator, EnumeratorView, ListRequest,
    ListRequestView, Listing, ListingView,
};
use crate::threads::{
    fresh_reader, step, Event, EventView, GuildThread, GuildThreadView, Outcome, Request,
    RequestView, ThreadReader, ThreadReaderView,
};
use vstd::prelude::*;

verus! {

/// What the caller is asked to do next.
#[derive(Debug, PartialEq, Eq)]
pub enum Command {
    /// Fetch a page of the source channel's archived threads.
    ListPage { channel_id: u64, before: Option<u64> },
    /// Do this for the thread in turn.
    Thread(Request),
    /// Nothing: the migration is over, with the outcome of each thread in the
    /// order in which they were migrated, or with the reason why the threads
    /// could not be listed.
    Finish(Result<Vec<Outcome>, EnumerationError>),
}

pub enum CommandView {
    ListPage { channel_id: u64, before: Option<u64> },
    Thread(RequestView),
    Finish(Result<Seq<Outcome>, EnumerationError>),
}

impl View for Command {
    type V = CommandView;

    open spec fn view(&self) -> CommandView {
        match self {
            Command::ListPage { channel_id, before } => CommandView::ListPage {
                channel_id: *channel_id,
                before: *before,
            },
            Command::Thread(request) => CommandView::Thread(request@),
            Command::Finish(Ok(outcomes)) => CommandView::Finish(Ok(outcomes@)),
            Command::Finish(Err(error)) => CommandView::Finish(Err(*error)),
        }
    }
}

/// What happened to the last command.
#[derive(Debug, PartialEq, Eq)]
pub enum Report {
    /// Nothing yet: the migration is to begin.
    Begin,
    /// The answer to `Command::ListPage`.
    Listing(Listing),
    /// The answer to `Command::Thread`.
    Thread(Event),
}

pub enum ReportView {
    Begin,
    Listing(ListingView),
    Thread(EventView),
}

impl View for Report {
    type V = ReportView;

    open spec fn view(&self) -> ReportView {
        match self {
            Report::Begin => ReportView::Begin,
            Report::Listing(listing) => ReportView::Listing(listing@),
            Report::Thread(event) => ReportView::Thread(event@),
        }
    }
}

enum Progress {
    Idle,
    Listing { lister: Enumerator },
    Migrating { threads: Vec<GuildThread>, at: usize, reader: ThreadReader, outcomes: Vec<Outcome> },
    Finished,
}

pub enum ProgressView {
    /// Nothing was asked yet.
    Idle,
    /// The threads are being listed.
    Listing { lister: EnumeratorView },
    /// Thread `at` of `threads` is being migrated; `outcomes` holds how the
    /// threads before it ended.
    Migrating {
        threads: Seq<GuildThreadView>,
        at: nat,
        reader: ThreadReaderView,
        outcomes: Seq<Outcome>,
    },
    Finished,
}

/// Runs one migration from the channel `source` to the channel `destination`.
pub struct Driver {
    source: u64,
    destination: u64,
    progress: Progress,
}

pub struct DriverView {
    pub source: u64,
    pub destination: u64,
    pub progress: ProgressView,
}

impl DriverView {
    /// While a thread is being migrated there is such a thread, its reader
    /// has begun, and there is one outcome for each thread before it.
    pub open spec fn well_formed(self) -> bool {
        self.progress matches ProgressView::Migrating { threads, at, reader, outcomes } ==> at
            < threads.len() && outcomes.len() == at && !(reader.stage is Idle)
    }
}

impl View for Driver {
    type V = DriverView;

    closed spec fn view(&self) -> DriverView {
        DriverView {
            source: self.source,
            destination: self.destination,
            progress: match self.progress {
                Progress::Idle => ProgressView::Idle,
                Progress::Listing { lister } => ProgressView::Listing { lister: lister@ },
                Progress::Migrating { threads, at, reader, outcomes } => ProgressView::Migrating {
                    threads: thread_views(threads@),
                    at: at as nat,
                    reader: reader@,
                    outcomes: outcomes@,
                },
                Progress::Finished => ProgressView::Finished,
            },
        }
    }
}

/// The migration is over with `result`.
pub open spec fn ended(driver: DriverView, result: Result<Seq<Outcome>, EnumerationError>) -> (
    DriverView,
    CommandView,
) {
    (DriverView { progress: ProgressView::Finished, ..driver }, CommandView::Finish(result))
}

/// Thread `at` of `threads` comes in turn: the migration is over if there is
/// no such thread, else a new reader for it is asked to begin.
pub open spec fn taken_up(
    driver: DriverView,
    threads: Seq<GuildThreadView>,
    at: nat,
    outcomes: Seq<Outcome>,
) -> (DriverView, CommandView) {
    if at >= threads.len() {
        ended(driver, Ok(outcomes))
    } else {
        let (reader, request) = step(
            fresh_reader(threads[at as int]),
            driver.destination,
            EventView::Begin,
        );
        (
            DriverView {
                progress: ProgressView::Migrating { threads, at, reader, outcomes },
                ..driver
            },
            CommandView::Thread(request),
        )
    }
}

/// The driver after `report` and the command that follows it.
pub open spec fn driven(driver: DriverView, report: ReportView) -> (DriverView, CommandView) {
    match (driver.progress, report) {
        (ProgressView::Idle, ReportView::Begin) => {
            let (lister, request) = listed(fresh_lister(driver.source), ListingView::Begin);
            (
                DriverView { progress: ProgressView::Listing { lister }, ..driver },
                CommandView::ListPage { channel_id: driver.source, before: None },
            )
        },
        (ProgressView::Listing { lister }, ReportView::Listing(listing)) => {
            let (lister, request) = listed(lister, listing);
            match request {
                ListRequestView::Page { channel_id, before } => (
                    DriverView { progress: ProgressView::Listing { lister }, ..driver },
                    CommandView::ListPage { channel_id, before },
                ),
                ListRequestView::Finish(Ok(threads)) => taken_up(driver, threads, 0, Seq::empty()),
                ListRequestView::Finish(Err(error)) => ended(driver, Err(error)),
            }
        },
        (
            ProgressView::Migrating { threads, at, reader, outcomes },
            ReportView::Thread(event),
        ) => {
            let (reader, request) = step(reader, driver.destination, event);
            match request {
                RequestView::Finish(outcome) => taken_up(
                    driver,
                    threads,
                    at + 1,
                    outcomes.push(outcome),
                ),
                _ => (
                    DriverView {
                        progress: ProgressView::Migrating { threads, at, reader, outcomes },
                        ..driver
                    },
                    CommandView::Thread(request),
                ),
            }
        },
        (ProgressView::Migrating { threads, at, reader, outcomes }, _) => taken_up(
            driver,
            threads,
            at + 1,
            outcomes.push(Outcome::OutOfTurn),
        ),
        _ => ended(driver, Err(EnumerationError::OutOfTurn)),
    }
}

impl Driver {
    #[verifier::type_invariant]
    spec fn holds_its_thread(self) -> bool {
        self@.well_formed()
    }

    /// A driver that has asked for nothing yet.
    pub fn new(source: u64, destination: u64) -> (driver: Self)
        ensures
            driver@ == (DriverView { source, destination, progress: ProgressView::Idle }),
    {
        Driver { source, destination, progress: Progress::Idle }
    }

    /// Ends the migration with `result`.
    fn end(source: u64, destination: u64, result: Result<Vec<Outcome>, EnumerationError>) -> (out: (
        Driver,
        Command,
    ))
        ensures
            out.0@ == (DriverView { source, destination, progress: ProgressView::Finished }),
            out.1@ == CommandView::Finish(
                match result {
                    Ok(outcomes) => Ok(outcomes@),
                    Err(error) => Err(error),
                },
            ),
    {
        (Driver { source, destination, progress: Progress::Finished }, Command::Finish(result))
    }

    /// Takes up thread `at`, or ends the migration after the last.
    fn take_up(
        source: u64,
        destination: u64,
        threads: Vec<GuildThread>,
        at: usize,
        outcomes: Vec<Outcome>,
    ) -> (out: (Driver, Command))
        requires
            outcomes@.len() == at,
        ensures
            (out.0@, out.1@) == taken_up(
                DriverView { source, destination, progress: ProgressView::Idle },
                thread_views(threads@),
                at as nat,
                outcomes@,
            ),
    {
        if at >= threads.len() {
            Self::end(source, destination, Ok(outcomes))
        } else {
            let reader = ThreadReader::new(threads[at].clone());
            let (reader, request) = reader.forward_messages(destination, Event::Begin);
            let driver = Driver {
                source,
                destination,
                progress: Progress::Migrating { threads, at, reader, outcomes },
            };
            (driver, Command::Thread(request))
        }
    }

    /// Takes what happened to the last command and says what to do next:
    /// list the source channel's threads page by page, then migrate each
    /// thread in turn, oldest first, whatever became of the one before.
    pub fn migrate(self, report: Report) -> (out: (Driver, Command))
        ensures
            (out.0@, out.1@) == driven(self@, report@),
            out.0@.well_formed(),
    {
        proof {
            use_type_invariant(&self);
        }
        let source = self.source;
        let destination = self.destination;
        let out = match (self.progress, report) {
            (Progress::Idle, Report::Begin) => {
                let (lister, request) = Enumerator::new(source).list_threads(Listing::Begin);
                let driver = Driver { source, destination, progress: Progress::Listing { lister } };
                (driver, Command::ListPage { channel_id: source, before: None })
            },
            (Progress::Listing { lister }, Report::Listing(listing)) => {
                let (lister, request) = lister.list_threads(listing);
                match request {
                    ListRequest::Page { channel_id, before } => {
                        let driver = Driver {
                            source,
                            destination,
                            progress: Progress::Listing { lister },
                        };
                        (driver, Command::ListPage { channel_id, before })
                    },
                    ListRequest::Finish(Ok(threads)) => Self::take_up(
                        source,
                        destination,
                        threads,
                        0,
                        Vec::new(),
                    ),
                    ListRequest::Finish(Err(error)) => Self::end(source, destination, Err(error)),
                }
            },
            (Progress::Migrating { threads, at, reader, outcomes }, Report::Thread(event)) => {
                assert(at < threads.len());
                let (reader, request) = reader.forward_messages(destination, event);
                match request {
                    Request::Finish(outcome) => {
                        let mut outcomes = outcomes;
                        outcomes.push(outcome);
                        Self::take_up(source, destination, threads, at + 1, outcomes)
                    },
                    _ => {
                        let driver = Driver {
                            source,
                            destination,
                            progress: Progress::Migrating { threads, at, reader, outcomes },
                        };
                        (driver, Command::Thread(request))
                    },
                }
            },
            (Progress::Migrating { threads, at, reader, outcomes }, _) => {
                assert(at < threads.len());
                let mut outcomes = outcomes;
                outcomes.push(Outcome::OutOfTurn);
                Self::take_up(source, destination, threads, at + 1, outcomes)
            },
            _ => Self::end(source, destination, Err(EnumerationError::OutOfTurn)),
        };
        proof {
            use_type_invariant(&out.0);
        }
        out
    }
}

} // verus!
