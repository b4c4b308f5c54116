//! What holds of every run of a `Driver` once the threads are listed.

use crate::driver::{driven, CommandView, DriverView, ProgressView, ReportView};
use crate::enumerator::{listed, ListRequestView, ListingView};
use crate::threads::RequestView;
use vstd::prelude::*;

verus! {

/// The commands that the driver gives on `reports`, one for each report.
pub open spec fn commands(driver: DriverView, reports: Seq<ReportView>) -> Seq<CommandView>
    decreases reports.len(),
{
    if reports.len() == 0 {
        Seq::empty()
    } else {
        seq![driven(driver, reports[0]).1] + commands(
            driven(driver, reports[0]).0,
            reports.drop_first(),
        )
    }
}

/// The command asks for the messages of a thread: the thread is taken up.
pub open spec fn takes_up(command: CommandView) -> bool {
    command matches CommandView::Thread(RequestView::FetchMessages { .. })
}

/// The threads that `commands` take up, in order.
pub open spec fn taken(commands: Seq<CommandView>) -> Seq<u64>
    decreases commands.len(),
{
    if commands.len() == 0 {
        Seq::empty()
    } else if let CommandView::Thread(RequestView::FetchMessages { thread_id }) = commands[0] {
        seq![thread_id] + taken(commands.drop_first())
    } else {
        taken(commands.drop_first())
    }
}

/// There is one command for each report.
pub proof fn lemma_commands_len(driver: DriverView, reports: Seq<ReportView>)
    ensures
        commands(driver, reports).len() == reports.len(),
    decreases reports.len(),
{
    if reports.len() > 0 {
        lemma_commands_len(driven(driver, reports[0]).0, reports.drop_first());
    }
}

/// When the listing ends with a list, the oldest thread is taken up first;
/// with an empty list the migration is over at once, with no outcomes.
pub proof fn lemma_oldest_thread_first(driver: DriverView, listing: ListingView)
    requires
        driver.progress is Listing,
        listed(driver.progress->Listing_lister, listing).1 matches ListRequestView::Finish(Ok(_)),
    ensures
        ({
            let threads = listed(driver.progress->Listing_lister, listing).1->Finish_0->Ok_0;
            let (next, command) = driven(driver, ReportView::Listing(listing));
            &&& next.well_formed()
            &&& threads.len() == 0 ==> command == CommandView::Finish(Ok(Seq::empty()))
            &&& threads.len() > 0 ==> {
                &&& command == CommandView::Thread(
                    RequestView::FetchMessages { thread_id: threads[0].id },
                )
                &&& next.progress matches ProgressView::Migrating { threads: listed, at, outcomes, .. }
                &&& listed == threads
                &&& at == 0
                &&& outcomes.len() == 0
            }
        }),
{
}

/// A driver that has finished takes up no thread and reports no outcomes.
proof fn lemma_finished_driver(driver: DriverView, reports: Seq<ReportView>)
    requires
        driver.progress is Finished,
    ensures
        taken(commands(driver, reports)).len() == 0,
        forall|j: int|
            0 <= j < reports.len() ==> !(#[trigger] commands(driver, reports)[j]
                matches CommandView::Finish(Ok(_))),
    decreases reports.len(),
{
    lemma_commands_len(driver, reports);
    if reports.len() > 0 {
        let next = driven(driver, reports[0]).0;
        let all = commands(driver, reports);
        lemma_finished_driver(next, reports.drop_first());
        lemma_commands_len(next, reports.drop_first());
        assert(all.drop_first() =~= commands(next, reports.drop_first()));
        assert forall|j: int| 0 <= j < reports.len() implies !(#[trigger] all[j]
            matches CommandView::Finish(Ok(_))) by {
            if j > 0 {
                assert(all[j] == commands(next, reports.drop_first())[j - 1]);
            }
        }
    }
}

/// The threads are migrated in the order of the list, each once, whatever
/// becomes of the others: from any point at which thread `at` is being
/// migrated, the threads that are taken up afterwards are those that follow
/// it in the list, in order; the migration does not fail before it has
/// succeeded; and where it ends, every thread of the list was taken up and
/// there is an outcome for each, those of the threads before `at` being as
/// they were.
pub proof fn lemma_threads_in_turn(driver: DriverView, reports: Seq<ReportView>)
    requires
        driver.well_formed(),
        driver.progress is Migrating,
    ensures
        ({
            let all = commands(driver, reports);
            let later = taken(all);
            let threads = driver.progress->Migrating_threads;
            let at = driver.progress->Migrating_at;
            let outcomes = driver.progress->Migrating_outcomes;
            &&& at + 1 + later.len() <= threads.len()
            &&& forall|i: int| 0 <= i < later.len() ==> #[trigger] later[i] == threads[at + 1 + i].id
            &&& forall|j: int|
                0 <= j < reports.len() ==> (#[trigger] all[j] matches CommandView::Finish(Ok(ended))
                    ==> {
                    &&& at + 1 + later.len() == threads.len()
                    &&& ended.len() == threads.len()
                    &&& forall|i: int| 0 <= i < at ==> ended[i] == outcomes[i]
                })
            &&& forall|j: int|
                0 <= j < reports.len() && (#[trigger] all[j] matches CommandView::Finish(Err(_)))
                    ==> exists|i: int| 0 <= i < j && (#[trigger] all[i] matches CommandView::Finish(Ok(_)))
        }),
    decreases reports.len(),
{
    let all = commands(driver, reports);
    let later = taken(all);
    let threads = driver.progress->Migrating_threads;
    let at = driver.progress->Migrating_at;
    let outcomes = driver.progress->Migrating_outcomes;
    lemma_commands_len(driver, reports);
    if reports.len() > 0 {
        let (next, command) = driven(driver, reports[0]);
        let rest = reports.drop_first();
        let tail = commands(next, rest);
        lemma_commands_len(next, rest);
        assert(all.drop_first() =~= tail);
        assert(!(command matches CommandView::Finish(Err(_))));
        if next.progress is Finished {
            lemma_finished_driver(next, rest);
            assert(command matches CommandView::Finish(Ok(_)));
            assert(later =~= taken(tail));
            assert forall|j: int| 0 <= j < reports.len() implies (#[trigger] all[j]
                matches CommandView::Finish(Ok(ended)) ==> {
                &&& at + 1 + later.len() == threads.len()
                &&& ended.len() == threads.len()
                &&& forall|i: int| 0 <= i < at ==> ended[i] == outcomes[i]
            }) by {
                if j > 0 {
                    assert(all[j] == tail[j - 1]);
                }
            }
            assert forall|j: int|
                0 <= j < reports.len() && (#[trigger] all[j] matches CommandView::Finish(
                    Err(_),
                )) implies exists|i: int|
                0 <= i < j && (#[trigger] all[i] matches CommandView::Finish(Ok(_))) by {
                assert(all[0] matches CommandView::Finish(Ok(_)));
            }
        } else {
            assert(next.progress is Migrating);
            assert(next.well_formed());
            lemma_threads_in_turn(next, rest);
            let next_at = next.progress->Migrating_at;
            assert(next.progress->Migrating_threads == threads);
            if takes_up(command) {
                assert(next_at == at + 1);
                assert(later =~= seq![threads[at as int + 1].id] + taken(tail));
                assert forall|i: int| 0 <= i < later.len() implies #[trigger] later[i]
                    == threads[at + 1 + i].id by {
                    if i > 0 {
                        assert(later[i] == taken(tail)[i - 1]);
                    }
                }
            } else {
                assert(next_at == at);
                assert(later =~= taken(tail));
            }
            assert forall|j: int| 0 <= j < reports.len() implies (#[trigger] all[j]
                matches CommandView::Finish(Ok(ended)) ==> {
                &&& at + 1 + later.len() == threads.len()
                &&& ended.len() == threads.len()
                &&& forall|i: int| 0 <= i < at ==> ended[i] == outcomes[i]
            }) by {
                if j > 0 {
                    assert(all[j] == tail[j - 1]);
                }
            }
            assert forall|j: int|
                0 <= j < reports.len() && (#[trigger] all[j] matches CommandView::Finish(
                    Err(_),
                )) implies exists|i: int|
                0 <= i < j && (#[trigger] all[i] matches CommandView::Finish(Ok(_))) by {
                assert(j > 0);
                assert(all[j] == tail[j - 1]);
                let i = choose|i: int|
                    0 <= i < j - 1 && (#[trigger] tail[i] matches CommandView::Finish(Ok(_)));
                assert(all[i + 1] == tail[i]);
            }
        }
    }
}

} // verus!
