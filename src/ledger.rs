use vstd::prelude::*;

verus! {

/// The time of the last visit to each host seen so far in a run.
///
/// Entries are only added or overwritten, never removed; each host has at most
/// one entry.
pub struct CooldownLedger {
    entries: Vec<(String, u64)>,
    visits: Ghost<Map<Seq<char>, u64>>,
}

impl View for CooldownLedger {
    type V = Map<Seq<char>, u64>;

    closed spec fn view(&self) -> Map<Seq<char>, u64> {
        self.visits@
    }
}

/// The last visit that `ledger` records for `host`, if any.
pub open spec fn last_visit_of(ledger: Map<Seq<char>, u64>, host: Seq<char>) -> Option<u64> {
    if ledger.contains_key(host) {
        Some(ledger[host])
    } else {
        None
    }
}

impl CooldownLedger {
    /// The entries hold each host once and are exactly the mapping.
    pub closed spec fn wf(&self) -> bool {
        &&& forall|i: int, j: int|
            0 <= i < j < self.entries@.len() ==> (#[trigger] self.entries@[i]).0@
                != (#[trigger] self.entries@[j]).0@
        &&& forall|i: int|
            0 <= i < self.entries@.len() ==> {
                &&& self.visits@.contains_key((#[trigger] self.entries@[i]).0@)
                &&& self.visits@[self.entries@[i].0@] == self.entries@[i].1
            }
        &&& forall|h: Seq<char>|
            #[trigger] self.visits@.contains_key(h) ==> exists|i: int|
                0 <= i < self.entries@.len() && (#[trigger] self.entries@[i]).0@ == h
    }

    pub fn new() -> (r: CooldownLedger)
        ensures
            r.wf(),
            r@ == Map::<Seq<char>, u64>::empty(),
    {
        CooldownLedger { entries: Vec::new(), visits: Ghost(Map::empty()) }
    }

    fn find(&self, host: &String) -> (r: Option<usize>)
        requires
            self.wf(),
        ensures
            r is Some ==> r->Some_0 < self.entries@.len() && self.entries@[r->Some_0 as int].0@
                == host@,
            r is None ==> !self@.contains_key(host@),
    {
        let mut i: usize = 0;
        while i < self.entries.len()
            invariant
                self.wf(),
                i <= self.entries@.len(),
                forall|j: int| 0 <= j < i ==> (#[trigger] self.entries@[j]).0@ != host@,
            decreases self.entries@.len() - i,
        {
            if self.entries[i].0 == *host {
                return Some(i);
            }
            i += 1;
        }
        None
    }

    /// The last visit recorded for `host`.
    pub fn last_visit(&self, host: &String) -> (r: Option<u64>)
        requires
            self.wf(),
        ensures
            r == last_visit_of(self@, host@),
    {
        match self.find(host) {
            Some(i) => Some(self.entries[i].1),
            None => None,
        }
    }

    /// Records a visit to `host` at `time`, replacing any earlier one.
    pub fn record(&mut self, host: &String, time: u64)
        requires
            old(self).wf(),
        ensures
            final(self).wf(),
            final(self)@ == old(self)@.insert(host@, time),
    {
        match self.find(host) {
            Some(i) => {
                let ghost before = self.entries@;
                let key = self.entries[i].0.clone();
                self.entries.set(i, (key, time));
                self.visits = Ghost(self.visits@.insert(host@, time));
                assert forall|h: Seq<char>| #[trigger] self.visits@.contains_key(h) implies exists|
                    k: int,
                | 0 <= k < self.entries@.len() && (#[trigger] self.entries@[k]).0@ == h by {
                    if h != host@ {
                        let k = choose|k: int|
                            0 <= k < before.len() && (#[trigger] before[k]).0@ == h;
                        assert(self.entries@[k].0@ == h);
                    } else {
                        assert(self.entries@[i as int].0@ == h);
                    }
                }
            },
            None => {
                let ghost before = self.entries@;
                self.entries.push((host.clone(), time));
                self.visits = Ghost(self.visits@.insert(host@, time));
                assert forall|h: Seq<char>| #[trigger] self.visits@.contains_key(h) implies exists|
                    k: int,
                | 0 <= k < self.entries@.len() && (#[trigger] self.entries@[k]).0@ == h by {
                    if h != host@ {
                        let k = choose|k: int|
                            0 <= k < before.len() && (#[trigger] before[k]).0@ == h;
                        assert(self.entries@[k].0@ == h);
                    } else {
                        assert(self.entries@[before.len() as int].0@ == h);
                    }
                }
            },
        }
    }
}

} // verus!
