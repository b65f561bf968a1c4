use vstd::prelude::*;

use crate::candidate::url_host;
use crate::candidate::CandidateUrl;
use crate::error::CrawlError;

verus! {

/// The state of a collection as the contracts see it.
pub struct CollectState {
    /// The URL text of every result accepted so far, in page order.
    pub urls: Seq<Seq<char>>,
    /// The index of the next page to ask for.
    pub page: nat,
    /// Whether an empty page has ended the collection.
    pub finished: bool,
}

/// Every string of `page` is a URL with a host.
pub open spec fn page_is_valid(page: Seq<Seq<char>>) -> bool {
    forall|i: int| 0 <= i < page.len() ==> (#[trigger] url_host(page[i])) is Some
}

/// A collection that has not asked for any page yet.
pub open spec fn collect_start() -> CollectState {
    CollectState { urls: Seq::empty(), page: 0, finished: false }
}

/// The state after the page asked for in `s` came back as `page`: an empty
/// page ends the collection, any other is appended and the next page is due.
pub open spec fn after_page(s: CollectState, page: Seq<Seq<char>>) -> CollectState {
    if s.finished {
        s
    } else if page.len() == 0 {
        CollectState { finished: true, ..s }
    } else {
        CollectState { urls: s.urls + page, page: s.page + 1, ..s }
    }
}

/// The state after `n` requests, where the search answers the request for
/// page `p` with `pages[p]`.
pub open spec fn collect_run(pages: Seq<Seq<Seq<char>>>, n: nat) -> CollectState
    decreases n,
{
    if n == 0 {
        collect_start()
    } else {
        let s = collect_run(pages, (n - 1) as nat);
        after_page(s, pages[s.page as int])
    }
}

/// What the caller does after handing a page to the collector.
#[derive(Clone, Copy, Debug, PartialEq, Eq, Structural)]
pub enum PageOutcome {
    /// The page held results: wait the cooldown, then ask for the next page.
    MorePages,
    /// The page was empty: the collection is complete.
    Exhausted,
}

/// Gathers the candidate URLs of a paginated search, page after page, until a
/// page comes back empty.
pub struct ResultCollector {
    results: Vec<CandidateUrl>,
    page: u64,
    finished: bool,
}

impl View for ResultCollector {
    type V = CollectState;

    closed spec fn view(&self) -> CollectState {
        CollectState {
            urls: self.results@.map_values(|c: CandidateUrl| c.url_view()),
            page: self.page as nat,
            finished: self.finished,
        }
    }
}

impl ResultCollector {
    /// Every result holds the host its text names.
    pub closed spec fn wf(&self) -> bool {
        forall|i: int| 0 <= i < self.results@.len() ==> (#[trigger] self.results@[i]).wf()
    }

    /// The candidates collected so far.
    pub closed spec fn results_view(&self) -> Seq<CandidateUrl> {
        self.results@
    }

    pub fn new() -> (r: ResultCollector)
        ensures
            r.wf(),
            r@ == collect_start(),
    {
        let r = ResultCollector { results: Vec::new(), page: 0, finished: false };
        assert(r@.urls =~= Seq::<Seq<char>>::empty());
        r
    }

    /// The page to ask for next, or none once the collection is complete.
    pub fn next_page(&self) -> (r: Option<u64>)
        ensures
            r is None <==> self@.finished,
            r is Some ==> r->Some_0 == self@.page,
    {
        if self.finished {
            None
        } else {
            Some(self.page)
        }
    }

    /// Takes the answer to the page asked for. A page with a string that is
    /// not a URL with a host fails the collection and leaves it as it was.
    pub fn accept_page(&mut self, page_results: Vec<String>) -> (r: Result<PageOutcome, CrawlError>)
        requires
            old(self).wf(),
            old(self)@.page < u64::MAX,
        ensures
            final(self).wf(),
            r is Err <==> !old(self)@.finished && page_results@.len() > 0 && !page_is_valid(
                page_results@.map_values(|s: String| s@),
            ),
            r is Err ==> r->Err_0 == CrawlError::MalformedUrl && final(self)@ == old(self)@,
            r is Ok ==> final(self)@ == after_page(
                old(self)@,
                page_results@.map_values(|s: String| s@),
            ),
            r is Ok ==> (r->Ok_0 == PageOutcome::Exhausted <==> final(self)@.finished),
    {
        let ghost texts = page_results@.map_values(|s: String| s@);
        if self.finished {
            return Ok(PageOutcome::Exhausted);
        }
        if page_results.len() == 0 {
            self.finished = true;
            return Ok(PageOutcome::Exhausted);
        }
        let ghost before = self@;
        match CandidateUrl::new_from_vec(page_results) {
            Ok(mut parsed) => {
                let ghost old_results = self.results@;
                let ghost new_results = parsed@;
                self.results.append(&mut parsed);
                self.page = self.page + 1;
                assert(self@.urls =~= before.urls + texts) by {
                    assert(self.results@ == old_results + new_results);
                    assert forall|i: int| 0 <= i < self.results@.len() implies #[trigger] self.results@[i].url_view()
                        == (before.urls + texts)[i] by {
                        if i >= old_results.len() {
                            assert(self.results@[i] == new_results[i - old_results.len()]);
                        }
                    }
                }
                assert forall|i: int| 0 <= i < self.results@.len() implies (#[trigger] self.results@[i]).wf() by {
                    if i >= old_results.len() {
                        assert(self.results@[i] == new_results[i - old_results.len()]);
                    } else {
                        assert(self.results@[i] == old_results[i]);
                    }
                }
                Ok(PageOutcome::MorePages)
            },
            Err(e) => {
                assert(!page_is_valid(texts)) by {
                    let i = choose|i: int|
                        0 <= i < page_results@.len() && !(url_host(page_results@[i]@) is Some);
                    assert(texts[i] == page_results@[i]@);
                }
                Err(e)
            },
        }
    }

    /// The index of the next page to ask for.
    pub fn page(&self) -> (r: u64)
        ensures
            r == self@.page,
    {
        self.page
    }

    /// The candidates collected so far, in page order.
    pub fn results(&self) -> (r: &Vec<CandidateUrl>)
        ensures
            r@ == self.results_view(),
            r@.map_values(|c: CandidateUrl| c.url_view()) == self@.urls,
    {
        &self.results
    }

    /// Gives up the collector for its candidates, in page order.
    pub fn into_results(self) -> (r: Vec<CandidateUrl>)
        requires
            self.wf(),
        ensures
            r@ == self.results_view(),
            r@.map_values(|c: CandidateUrl| c.url_view()) == self@.urls,
            forall|i: int| 0 <= i < r@.len() ==> (#[trigger] r@[i]).wf(),
    {
        self.results
    }
}

/// Collection ends after the first empty page: where the search answers pages
/// `0..k` with results and page `k` with none, the first `k + 1` requests
/// leave the collection open, and after them it is complete and holds exactly
/// the concatenation of pages `0..k`.
pub proof fn lemma_pagination_termination(pages: Seq<Seq<Seq<char>>>, k: nat)
    requires
        k < pages.len(),
        forall|i: int| 0 <= i < k ==> (#[trigger] pages[i]).len() > 0,
        forall|i: int| 0 <= i < k ==> page_is_valid(#[trigger] pages[i]),
        pages[k as int].len() == 0,
    ensures
        forall|n: nat| n <= k ==> !(#[trigger] collect_run(pages, n)).finished,
        collect_run(pages, k + 1).finished,
        collect_run(pages, k + 1).page == k,
        collect_run(pages, k + 1).urls == pages.take(k as int).flatten_alt(),
{
    assert forall|n: nat| n <= k implies #[trigger] collect_run(pages, n) == (CollectState {
        urls: pages.take(n as int).flatten_alt(),
        page: n,
        finished: false,
    }) by {
        lemma_run_prefix(pages, k, n);
    }
    lemma_run_prefix(pages, k, k);
}

proof fn lemma_run_prefix(pages: Seq<Seq<Seq<char>>>, k: nat, n: nat)
    requires
        k < pages.len(),
        forall|i: int| 0 <= i < k ==> (#[trigger] pages[i]).len() > 0,
        n <= k,
    ensures
        collect_run(pages, n) == (CollectState {
            urls: pages.take(n as int).flatten_alt(),
            page: n,
            finished: false,
        }),
    decreases n,
{
    if n == 0 {
        assert(pages.take(0).flatten_alt() =~= Seq::<Seq<char>>::empty());
    } else {
        lemma_run_prefix(pages, k, (n - 1) as nat);
        let m = (n - 1) as int;
        assert(pages.take(n as int).drop_last() =~= pages.take(m));
        assert(pages.take(n as int).last() == pages[m]);
    }
}

} // verus!
