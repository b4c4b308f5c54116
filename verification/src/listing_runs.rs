//! What holds of every run of an `Enumerator`.

use crate::enumerator::{
    first_undated, fresh_lister, listed, EnumeratorView, ListRequestView, ListStage, ListingView,
};
use crate::threads::GuildThreadView;
use vstd::prelude::*;

verus! {

/// The requests that the lister makes on `replies`, one for each reply.
pub open spec fn list_requests(lister: EnumeratorView, replies: Seq<ListingView>) -> Seq<
    ListRequestView,
>
    decreases replies.len(),
{
    if replies.len() == 0 {
        Seq::empty()
    } else {
        seq![listed(lister, replies[0]).1] + list_requests(
            listed(lister, replies[0]).0,
            replies.drop_first(),
        )
    }
}

/// The threads of `pages`, page after page.
pub open spec fn joined(pages: Seq<Seq<GuildThreadView>>) -> Seq<GuildThreadView>
    decreases pages.len(),
{
    if pages.len() == 0 {
        Seq::empty()
    } else {
        pages[0] + joined(pages.drop_first())
    }
}

/// Each page holds a thread, and every thread has an archive time.
pub open spec fn pages_are_sound(pages: Seq<Seq<GuildThreadView>>) -> bool {
    forall|k: int|
        0 <= k < pages.len() ==> (#[trigger] pages[k]).len() > 0 && first_undated(pages[k])
            is None
}

/// The replies of a platform that hands out `pages` and then an empty page.
pub open spec fn page_replies(pages: Seq<Seq<GuildThreadView>>) -> Seq<ListingView> {
    pages.map_values(|page: Seq<GuildThreadView>| ListingView::Page(page)).push(
        ListingView::Page(Seq::empty()),
    )
}

/// From the middle of a listing: each page is answered by the request for
/// the next, from the archive time of the page's last thread, and the empty
/// page by the threads seen, oldest first.
proof fn lemma_listing_from(lister: EnumeratorView, pages: Seq<Seq<GuildThreadView>>)
    requires
        lister.stage == ListStage::Listing,
        pages_are_sound(pages),
    ensures
        list_requests(lister, page_replies(pages)).len() == pages.len() + 1,
        forall|k: int|
            0 <= k < pages.len() ==> #[trigger] list_requests(lister, page_replies(pages))[k]
                == (ListRequestView::Page {
                channel_id: lister.channel_id,
                before: pages[k].last().archive_timestamp,
            }),
        list_requests(lister, page_replies(pages))[pages.len() as int] == ListRequestView::Finish(
            Ok((lister.found + joined(pages)).reverse()),
        ),
    decreases pages.len(),
{
    let replies = page_replies(pages);
    let all = list_requests(lister, replies);
    if pages.len() == 0 {
        assert(replies.drop_first() =~= Seq::empty());
        assert(list_requests(listed(lister, replies[0]).0, replies.drop_first()).len() == 0);
        assert(lister.found + joined(pages) =~= lister.found);
    } else {
        let (next, request) = listed(lister, replies[0]);
        let rest = pages.drop_first();
        assert(replies[0] == ListingView::Page(pages[0]));
        assert(replies.drop_first() =~= page_replies(rest));
        assert(pages_are_sound(rest)) by {
            assert forall|k: int| 0 <= k < rest.len() implies (#[trigger] rest[k]).len() > 0
                && first_undated(rest[k]) is None by {
                assert(rest[k] == pages[k + 1]);
            }
        }
        lemma_listing_from(next, rest);
        let later = list_requests(next, page_replies(rest));
        assert(next.found + joined(rest) =~= lister.found + joined(pages));
        assert forall|k: int| 0 <= k < pages.len() implies #[trigger] all[k]
            == (ListRequestView::Page {
            channel_id: lister.channel_id,
            before: pages[k].last().archive_timestamp,
        }) by {
            if k > 0 {
                assert(all[k] == later[k - 1]);
                assert(rest[k - 1] == pages[k]);
            }
        }
        assert(all[pages.len() as int] == later[rest.len() as int]);
    }
}

/// A listing of sound pages: the first request asks for the newest page;
/// after each page the next is asked for from the archive time of the
/// page's last thread; the empty page ends the listing; and the result is
/// all threads of all pages in the opposite order, so oldest first where the
/// platform lists newest first. One request is made for each page, the empty
/// one included.
pub proof fn lemma_listing(channel_id: u64, pages: Seq<Seq<GuildThreadView>>)
    requires
        pages_are_sound(pages),
    ensures
        ({
            let requests = list_requests(
                fresh_lister(channel_id),
                seq![ListingView::Begin] + page_replies(pages),
            );
            &&& requests.len() == pages.len() + 2
            &&& requests[0] == (ListRequestView::Page { channel_id, before: None })
            &&& forall|k: int|
                0 <= k < pages.len() ==> #[trigger] requests[k + 1] == (ListRequestView::Page {
                    channel_id,
                    before: pages[k].last().archive_timestamp,
                })
            &&& requests[pages.len() as int + 1] == ListRequestView::Finish(Ok(joined(pages).reverse()))
        }),
{
    let replies = seq![ListingView::Begin] + page_replies(pages);
    let (listing, first) = listed(fresh_lister(channel_id), replies[0]);
    assert(replies.drop_first() =~= page_replies(pages));
    lemma_listing_from(listing, pages);
    let requests = list_requests(fresh_lister(channel_id), replies);
    let later = list_requests(listing, page_replies(pages));
    assert(listing.found + joined(pages) =~= joined(pages));
    assert forall|k: int| 0 <= k < pages.len() implies #[trigger] requests[k + 1]
        == (ListRequestView::Page {
        channel_id,
        before: pages[k].last().archive_timestamp,
    }) by {
        assert(requests[k + 1] == later[k]);
    }
    assert(requests[pages.len() as int + 1] == later[pages.len() as int]);
}

/// A page with an undated thread ends the listing at once, without a list.
pub proof fn lemma_undated_thread_ends_listing(
    lister: EnumeratorView,
    page: Seq<GuildThreadView>,
    k: int,
)
    requires
        lister.stage == ListStage::Listing,
        0 <= k < page.len(),
        page[k].archive_timestamp is None,
    ensures
        listed(lister, ListingView::Page(page)).0.stage == ListStage::Finished,
        listed(lister, ListingView::Page(page)).1 matches ListRequestView::Finish(Err(_)),
{
    lemma_undated_is_found(page, k);
}

/// A list with an undated thread has a first undated thread.
pub proof fn lemma_undated_is_found(threads: Seq<GuildThreadView>, k: int)
    requires
        0 <= k < threads.len(),
        threads[k].archive_timestamp is None,
    ensures
        first_undated(threads) is Some,
    decreases threads.len(),
{
    if k < threads.len() - 1 {
        lemma_undated_is_found(threads.drop_last(), k);
    }
}

} // verus!
