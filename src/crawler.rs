use vstd::prelude::*;

use crate::candidate::CandidateUrl;
use crate::config::CrawlConfig;
use crate::config::NANOS_PER_SECOND;
use crate::ledger::last_visit_of;
use crate::ledger::CooldownLedger;

verus! {

/// How long to wait, from `now`, before visiting a host last visited at `last`
/// (none for a host not visited yet): what is left of the cooldown, or none
/// where it has passed. A clock that reads earlier than `last` counts as no
/// time elapsed.
pub open spec fn wait_spec(last: Option<u64>, now: u64, cooldown: u64) -> Option<u64> {
    match last {
        None => None,
        Some(t) => {
            let elapsed: int = if now >= t {
                now - t
            } else {
                0
            };
            if elapsed < cooldown {
                Some((cooldown - elapsed) as u64)
            } else {
                None
            }
        },
    }
}

/// The wait computed from `last`, `now` and `cooldown` (all in one unit).
pub fn cooldown_wait(last: Option<u64>, now: u64, cooldown: u64) -> (r: Option<u64>)
    ensures
        r == wait_spec(last, now, cooldown),
{
    match last {
        None => None,
        Some(t) => {
            let elapsed: u64 = if now >= t {
                now - t
            } else {
                0
            };
            if elapsed < cooldown {
                Some(cooldown - elapsed)
            } else {
                None
            }
        },
    }
}

/// The state of a crawl as the contracts see it. Times and the cooldown are
/// in nanoseconds.
pub struct CrawlState {
    /// The host of each candidate URL, in input order.
    pub hosts: Seq<Seq<char>>,
    /// How many candidates have been visited.
    pub position: nat,
    /// When each host seen so far was last visited.
    pub ledger: Map<Seq<char>, u64>,
    pub cooldown: u64,
    /// Every link found so far, in discovery order.
    pub found: Seq<Seq<char>>,
}

/// The wait, from `now`, before `host` may be visited in state `s`.
pub open spec fn host_wait(s: CrawlState, host: Seq<char>, now: u64) -> Option<u64> {
    wait_spec(last_visit_of(s.ledger, host), now, s.cooldown)
}

/// The state after the next candidate has been resolved to `links` and its
/// visit recorded at `now`.
pub open spec fn after_visit(s: CrawlState, links: Seq<Seq<char>>, now: u64) -> CrawlState {
    CrawlState {
        position: s.position + 1,
        ledger: s.ledger.insert(s.hosts[s.position as int], now),
        found: s.found + links,
        ..s
    }
}

/// The state after the next `links.len()` candidates have been visited in
/// order, the k-th resolving to `links[k]` and recorded at `times[k]`.
pub open spec fn after_visits(s: CrawlState, links: Seq<Seq<Seq<char>>>, times: Seq<u64>) -> CrawlState
    decreases links.len(),
{
    if links.len() == 0 {
        s
    } else {
        after_visit(
            after_visits(s, links.drop_last(), times.drop_last()),
            links.last(),
            times.last(),
        )
    }
}

/// The next visit to make: which candidate, and how long to wait first.
#[derive(Clone, Copy, Debug)]
pub struct Visit {
    pub index: usize,
    pub wait_nanos: Option<u64>,
}

/// Visits candidate URLs in their input order, waiting before a host only
/// while the cooldown since its last visit has not passed.
///
/// The caller runs the loop: it asks `next_visit` with the time now, waits
/// what it is told, resolves the URL, and hands the links and the time after
/// resolving to `complete_visit`.
pub struct CooldownCrawler {
    urls: Vec<CandidateUrl>,
    position: usize,
    ledger: CooldownLedger,
    cooldown_nanos: u64,
    found: Vec<String>,
}

impl View for CooldownCrawler {
    type V = CrawlState;

    closed spec fn view(&self) -> CrawlState {
        CrawlState {
            hosts: self.urls@.map_values(|u: CandidateUrl| u.host_view()),
            position: self.position as nat,
            ledger: self.ledger@,
            cooldown: self.cooldown_nanos,
            found: self.found@.map_values(|l: String| l@),
        }
    }
}

impl CooldownCrawler {
    pub closed spec fn wf(&self) -> bool {
        &&& self.ledger.wf()
        &&& self.position <= self.urls@.len()
    }

    /// The candidate URLs, in input order.
    pub closed spec fn urls_view(&self) -> Seq<CandidateUrl> {
        self.urls@
    }

    /// A crawler over `urls` with the cooldown of `config`, nothing visited yet.
    pub fn new(urls: Vec<CandidateUrl>, config: &CrawlConfig) -> (r: CooldownCrawler)
        ensures
            r.wf(),
            r.urls_view() == urls@,
            r@.hosts == urls@.map_values(|u: CandidateUrl| u.host_view()),
            r@.position == 0,
            r@.ledger == Map::<Seq<char>, u64>::empty(),
            r@.cooldown == config.cooldown_spec() * NANOS_PER_SECOND,
            r@.found == Seq::<Seq<char>>::empty(),
    {
        let r = CooldownCrawler {
            urls,
            position: 0,
            ledger: CooldownLedger::new(),
            cooldown_nanos: config.cooldown_nanos(),
            found: Vec::new(),
        };
        assert(r@.found =~= Seq::<Seq<char>>::empty());
        r
    }

    /// Whether every candidate has been visited.
    pub fn is_done(&self) -> (r: bool)
        requires
            self.wf(),
        ensures
            r == (self@.position == self@.hosts.len()),
    {
        self.position == self.urls.len()
    }

    /// The next visit, judged at time `now`: the first candidate not yet
    /// visited, with the wait that its host's cooldown asks for.
    pub fn next_visit(&self, now: u64) -> (r: Option<Visit>)
        requires
            self.wf(),
        ensures
            r is None <==> self@.position == self@.hosts.len(),
            r is Some ==> {
                &&& r->Some_0.index == self@.position
                &&& r->Some_0.wait_nanos == host_wait(
                    self@,
                    self@.hosts[self@.position as int],
                    now,
                )
            },
    {
        if self.position == self.urls.len() {
            return None;
        }
        let host = self.urls[self.position].get_host();
        let last = self.ledger.last_visit(host);
        let wait_nanos = cooldown_wait(last, now, self.cooldown_nanos);
        Some(Visit { index: self.position, wait_nanos })
    }

    /// Records the visit to the next candidate: `links` is what resolving it
    /// gave, in order, and `now` the time after resolving.
    pub fn complete_visit(&mut self, links: Vec<String>, now: u64)
        requires
            old(self).wf(),
            old(self)@.position < old(self)@.hosts.len(),
        ensures
            final(self).wf(),
            final(self).urls_view() == old(self).urls_view(),
            final(self)@ == after_visit(old(self)@, links@.map_values(|l: String| l@), now),
    {
        let ghost before = self@;
        let host = self.urls[self.position].get_host();
        self.ledger.record(host, now);
        let mut i: usize = 0;
        while i < links.len()
            invariant
                self.ledger.wf(),
                self.position < self.urls@.len(),
                self.urls@ == old(self).urls@,
                before.position < before.hosts.len(),
                self.ledger@ == before.ledger.insert(before.hosts[before.position as int], now),
                self.position == before.position,
                self.cooldown_nanos == before.cooldown,
                i <= links@.len(),
                self.found@.map_values(|l: String| l@) =~= before.found + links@.subrange(
                    0,
                    i as int,
                ).map_values(|l: String| l@),
            decreases links@.len() - i,
        {
            let ghost found_before = self.found@;
            self.found.push(links[i].clone());
            assert(self.found@.map_values(|l: String| l@) =~= found_before.map_values(|l: String| l@).push(
                links@[i as int]@,
            ));
            i += 1;
            assert(links@.subrange(0, i as int) =~= links@.subrange(0, i - 1).push(links@[i - 1]));
        }
        assert(links@.subrange(0, links@.len() as int) =~= links@);
        let n = self.urls.len();
        assert(self.position < n);
        self.position += 1;
        assert(self@.hosts =~= before.hosts);
        assert(self@.found =~= before.found + links@.map_values(|l: String| l@));
    }

    /// The candidate at `index`.
    pub fn url_at(&self, index: usize) -> (r: &CandidateUrl)
        requires
            index < self.urls_view().len(),
        ensures
            *r == self.urls_view()[index as int],
    {
        &self.urls[index]
    }

    /// How many candidates the crawl holds.
    pub fn len(&self) -> (r: usize)
        ensures
            r == self.urls_view().len(),
    {
        self.urls.len()
    }

    /// How many candidates have been visited.
    pub fn position(&self) -> (r: usize)
        ensures
            r == self@.position,
    {
        self.position
    }

    /// Every link found so far, in discovery order.
    pub fn found(&self) -> (r: &Vec<String>)
        ensures
            r@.map_values(|l: String| l@) == self@.found,
    {
        &self.found
    }

    /// The ledger of last visits.
    pub fn ledger(&self) -> (r: &CooldownLedger)
        ensures
            r@ == self@.ledger,
    {
        &self.ledger
    }
}

/// Links come out in input order: after visiting the next `links.len()`
/// candidates, the found links are the earlier ones followed by each
/// candidate's links, candidate after candidate, each in the order resolving
/// gave them.
pub proof fn lemma_order_preservation(s: CrawlState, links: Seq<Seq<Seq<char>>>, times: Seq<u64>)
    requires
        s.position + links.len() <= s.hosts.len(),
        times.len() == links.len(),
    ensures
        after_visits(s, links, times).found == s.found + links.flatten_alt(),
        after_visits(s, links, times).position == s.position + links.len(),
        after_visits(s, links, times).hosts == s.hosts,
        after_visits(s, links, times).cooldown == s.cooldown,
    decreases links.len(),
{
    if links.len() == 0 {
        assert(s.found + links.flatten_alt() =~= s.found);
    } else {
        lemma_order_preservation(s, links.drop_last(), times.drop_last());
        assert(s.found + links.flatten_alt() =~= s.found + links.drop_last().flatten_alt()
            + links.last());
    }
}

/// Visits to other hosts leave a host's ledger entry as it was.
proof fn lemma_other_hosts_keep_entry(
    s: CrawlState,
    links: Seq<Seq<Seq<char>>>,
    times: Seq<u64>,
    host: Seq<char>,
)
    requires
        s.position + links.len() <= s.hosts.len(),
        times.len() == links.len(),
        forall|k: int|
            s.position <= k < s.position + links.len() ==> #[trigger] s.hosts[k] != host,
    ensures
        last_visit_of(after_visits(s, links, times).ledger, host) == last_visit_of(s.ledger, host),
    decreases links.len(),
{
    if links.len() > 0 {
        lemma_other_hosts_keep_entry(s, links.drop_last(), times.drop_last(), host);
        lemma_order_preservation(s, links.drop_last(), times.drop_last());
        let mid = after_visits(s, links.drop_last(), times.drop_last());
        assert(mid.hosts[mid.position as int] != host);
    }
}

/// A host's next visit begins no earlier than the cooldown after its previous
/// visit was recorded: where the candidate at `s.position` is visited and
/// recorded at `t`, the candidates after it up to a later one `j` of the same
/// host are of other hosts, and the clock reads `now >= t` when visit `j` is
/// judged, then `now` plus the wait asked for reaches `t` plus the cooldown.
pub proof fn lemma_cooldown_lower_bound(
    s: CrawlState,
    first_links: Seq<Seq<char>>,
    t: u64,
    links: Seq<Seq<Seq<char>>>,
    times: Seq<u64>,
    now: u64,
)
    requires
        s.position + 1 + links.len() < s.hosts.len(),
        times.len() == links.len(),
        s.hosts[(s.position + 1 + links.len()) as int] == s.hosts[s.position as int],
        forall|k: int|
            s.position < k < s.position + 1 + links.len() ==> #[trigger] s.hosts[k]
                != s.hosts[s.position as int],
        now >= t,
    ensures
        ({
            let later = after_visits(after_visit(s, first_links, t), links, times);
            let wait = host_wait(later, later.hosts[later.position as int], now);
            &&& later.position == s.position + 1 + links.len()
            &&& wait is Some ==> now + wait->Some_0 == t + s.cooldown
            &&& wait is None ==> now >= t + s.cooldown
        }),
{
    let host = s.hosts[s.position as int];
    let first = after_visit(s, first_links, t);
    lemma_order_preservation(first, links, times);
    lemma_other_hosts_keep_entry(first, links, times, host);
    assert(last_visit_of(first.ledger, host) == Some(t));
}

/// Visiting one host never changes the wait before another, and a host not
/// visited yet is never waited for.
pub proof fn lemma_cross_host_independence(
    s: CrawlState,
    links: Seq<Seq<char>>,
    t: u64,
    other: Seq<char>,
    now: u64,
)
    requires
        s.position < s.hosts.len(),
        other != s.hosts[s.position as int],
    ensures
        host_wait(after_visit(s, links, t), other, now) == host_wait(s, other, now),
        !s.ledger.contains_key(other) ==> host_wait(after_visit(s, links, t), other, now) is None,
{
}

/// With no cooldown no wait is ever asked for.
pub proof fn lemma_zero_cooldown(s: CrawlState, host: Seq<char>, now: u64)
    requires
        s.cooldown == 0,
    ensures
        host_wait(s, host, now) is None,
{
}

} // verus!
