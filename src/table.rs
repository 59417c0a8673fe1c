//! The shared table: the configured hosts and the rolling status of each.
use vstd::prelude::*;
use crate::config::HostInfo;
use crate::probe::ProbeOutcome;
use crate::schedule::has_address;
use crate::status::{capped_push, HostStatus};

verus! {

/// The rolling status of the host at `address`.
pub struct StatusEntry {
    pub address: String,
    pub status: HostStatus,
}

/// Index of the entry for `a` (the last one, should there be several), or -1.
pub open spec fn entry_index(es: Seq<StatusEntry>, a: Seq<char>) -> int
    decreases es.len(),
{
    if es.len() == 0 {
        -1
    } else if es.last().address@ == a {
        es.len() - 1
    } else {
        entry_index(es.drop_last(), a)
    }
}

/// The hosts of `hs` whose address is not `a`, in order.
pub open spec fn hosts_without(hs: Seq<HostInfo>, a: Seq<char>) -> Seq<HostInfo>
    decreases hs.len(),
{
    if hs.len() == 0 {
        hs
    } else if hs.last().address@ == a {
        hosts_without(hs.drop_last(), a)
    } else {
        hosts_without(hs.drop_last(), a).push(hs.last())
    }
}

/// The entries of `es` whose address is not `a`, in order.
pub open spec fn entries_without(es: Seq<StatusEntry>, a: Seq<char>) -> Seq<StatusEntry>
    decreases es.len(),
{
    if es.len() == 0 {
        es
    } else if es.last().address@ == a {
        entries_without(es.drop_last(), a)
    } else {
        entries_without(es.drop_last(), a).push(es.last())
    }
}

proof fn lemma_entry_index_bounds(es: Seq<StatusEntry>, a: Seq<char>)
    ensures
        -1 <= entry_index(es, a) < es.len(),
        entry_index(es, a) >= 0 ==> es[entry_index(es, a)].address@ == a,
    decreases es.len(),
{
    if es.len() > 0 {
        lemma_entry_index_bounds(es.drop_last(), a);
    }
}

/// The host list of the registry and the status of each host.
pub struct AppState {
    pub hosts: Vec<HostInfo>,
    pub statuses: Vec<StatusEntry>,
}

impl AppState {
    /// Every status keeps its invariant.
    pub open spec fn wf(&self) -> bool {
        forall|i: int| 0 <= i < self.statuses@.len() ==> (#[trigger] self.statuses@[i]).status.wf()
    }

    /// An empty registry.
    pub fn new() -> (r: Self)
        ensures
            r.wf(),
            r.hosts@.len() == 0,
            r.statuses@.len() == 0,
    {
        AppState { hosts: Vec::new(), statuses: Vec::new() }
    }

    /// Registers `host` with an empty status, unless its address is empty or
    /// already registered. Returns whether it was added.
    pub fn add_host(&mut self, host: HostInfo) -> (added: bool)
        requires
            old(self).wf(),
        ensures
            final(self).wf(),
            added == (host.address@.len() > 0 && !has_address(old(self).hosts@, host.address@)),
            added ==> final(self).hosts@ == old(self).hosts@.push(host),
            added ==> final(self).statuses@.drop_last() == old(self).statuses@,
            added ==> final(self).statuses@.last().address@ == host.address@,
            added ==> final(self).statuses@.last().status.sent == 0,
            added ==> final(self).statuses@.last().status.history@.len() == 0,
            !added ==> final(self).hosts@ == old(self).hosts@,
            !added ==> final(self).statuses@ == old(self).statuses@,
    {
        if host.address.unicode_len() == 0 {
            return false;
        }
        let mut i: usize = 0;
        while i < self.hosts.len()
            invariant
                i <= self.hosts@.len(),
                self.wf(),
                self.hosts@ == old(self).hosts@,
                self.statuses@ == old(self).statuses@,
                forall|j: int| 0 <= j < i ==> (#[trigger] self.hosts@[j]).address@ != host.address@,
            decreases self.hosts@.len() - i,
        {
            if self.hosts[i].address == host.address {
                assert(has_address(self.hosts@, host.address@)) by {
                    assert(self.hosts@[i as int].address@ == host.address@);
                }
                return false;
            }
            i = i + 1;
        }
        let entry = StatusEntry { address: host.address.clone(), status: HostStatus::new() };
        let ghost before = self.statuses@;
        self.statuses.push(entry);
        assert(self.statuses@.drop_last() =~= before);
        self.hosts.push(host);
        true
    }

    /// Removes the host at `address` and its status. Any probe still in
    /// flight for it will find no entry.
    pub fn remove_host(&mut self, address: &String)
        requires
            old(self).wf(),
        ensures
            final(self).wf(),
            final(self).hosts@ == hosts_without(old(self).hosts@, address@),
            final(self).statuses@ == entries_without(old(self).statuses@, address@),
    {
        let mut kept: Vec<HostInfo> = Vec::new();
        let mut i: usize = 0;
        while i < self.hosts.len()
            invariant
                i <= self.hosts@.len(),
                kept@ == hosts_without(self.hosts@.subrange(0, i as int), address@),
            decreases self.hosts@.len() - i,
        {
            assert(self.hosts@.subrange(0, i + 1).drop_last() =~= self.hosts@.subrange(0, i as int));
            if self.hosts[i].address != *address {
                kept.push(self.hosts[i].clone());
            }
            i = i + 1;
        }
        assert(self.hosts@.subrange(0, self.hosts@.len() as int) =~= self.hosts@);
        let ghost old_es = self.statuses@;
        let mut kept_es: Vec<StatusEntry> = Vec::new();
        let total: usize = self.statuses.len();
        let mut k: usize = 0;
        assert(old_es.subrange(0, old_es.len() as int) =~= old_es);
        while self.statuses.len() > 0
            invariant
                k <= old_es.len() == total,
                self.statuses@ == old_es.subrange(k as int, old_es.len() as int),
                kept_es@ == entries_without(old_es.subrange(0, k as int), address@),
                forall|j: int| 0 <= j < old_es.len() ==> (#[trigger] old_es[j]).status.wf(),
                forall|j: int|
                    0 <= j < kept_es@.len() ==> (#[trigger] kept_es@[j]).status.wf(),
            decreases self.statuses@.len(),
        {
            let e = self.statuses.remove(0);
            assert(e == old_es[k as int]);
            assert(old_es.subrange(0, k + 1).drop_last() =~= old_es.subrange(0, k as int));
            assert(self.statuses@ =~= old_es.subrange(k + 1, old_es.len() as int));
            if e.address != *address {
                kept_es.push(e);
            }
            assert(k < old_es.len());
            k = k + 1;
        }
        assert(old_es.subrange(0, k as int) =~= old_es);
        self.statuses = kept_es;
        self.hosts = kept;
    }
}

impl AppState {
    /// Applies a probe outcome to the status of `address`: the status records
    /// whether the host answered and takes the sample. An outcome for an
    /// address without status (its host was removed meanwhile), or for a status
    /// whose counter of sent probes is full, is dropped. Returns whether it was
    /// applied.
    pub fn record(&mut self, address: &String, outcome: ProbeOutcome) -> (applied: bool)
        requires
            old(self).wf(),
        ensures
            final(self).wf(),
            final(self).hosts@ == old(self).hosts@,
            ({
                let k = entry_index(old(self).statuses@, address@);
                &&& applied == (k >= 0 && old(self).statuses@[k].status.sent < u32::MAX)
                &&& !applied ==> final(self).statuses@ == old(self).statuses@
                &&& applied ==> {
                    let before = old(self).statuses@[k].status;
                    let after = final(self).statuses@[k].status;
                    &&& final(self).statuses@.len() == old(self).statuses@.len()
                    &&& forall|j: int|
                        0 <= j < old(self).statuses@.len() && j != k ==> final(self).statuses@[j]
                            == old(self).statuses@[j]
                    &&& final(self).statuses@[k].address == old(self).statuses@[k].address
                    &&& after.alive == outcome.alive
                    &&& after.sent == before.sent + 1
                    &&& after.lost == before.lost + (if outcome.rtt_us.is_none() {
                        1int
                    } else {
                        0int
                    })
                    &&& after.latency == outcome.rtt_us
                    &&& after.history@ == capped_push(before.history@, outcome.rtt_us)
                }
            }),
    {
        let ghost old_es = self.statuses@;
        proof {
            lemma_entry_index_bounds(old_es, address@);
        }
        let mut i: usize = self.statuses.len();
        assert(old_es.subrange(0, i as int) =~= old_es);
        while i > 0 && self.statuses[i - 1].address != *address
            invariant
                i <= old_es.len(),
                self.statuses@ == old_es,
                entry_index(old_es, address@) == entry_index(old_es.subrange(0, i as int), address@),
            decreases i,
        {
            assert(old_es.subrange(0, i as int).drop_last() =~= old_es.subrange(0, i - 1));
            i = i - 1;
        }
        if i == 0 {
            assert(entry_index(old_es.subrange(0, 0), address@) == -1);
            return false;
        }
        let k = i - 1;
        assert(entry_index(old_es, address@) == k);
        if self.statuses[k].status.sent == u32::MAX {
            return false;
        }
        let mut e = self.statuses.remove(k);
        assert(old_es[k as int].status.wf());
        e.status.alive = outcome.alive;
        e.status.add_sample(outcome.rtt_us);
        self.statuses.insert(k, e);
        assert forall|j: int| 0 <= j < self.statuses@.len() implies (
        #[trigger] self.statuses@[j]).status.wf() by {
            if j != k {
                assert(self.statuses@[j] == old_es[j]);
            }
        }
        true
    }
}

} // verus!
