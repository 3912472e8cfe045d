//! The table of live tracees, keyed by process id.

use vstd::prelude::*;
use crate::process::tracee::Tracee;

verus! {

/// The live tracees. Each process id has at most one record.
pub struct TraceeTable {
    entries: Vec<Tracee>,
}

/// Whether every record is filed under its own process id and keeps what a
/// record promises.
pub open spec fn records_wf(records: Map<i32, Tracee>) -> bool {
    forall|pid: i32| #[trigger]
        records.dom().contains(pid) ==> records[pid].pid == pid && records[pid].wf()
}

impl View for TraceeTable {
    type V = Map<i32, Tracee>;

    closed spec fn view(&self) -> Map<i32, Tracee> {
        Map::new(
            |pid: i32| self.holds(pid),
            |pid: i32| self.entries@[self.position(pid)],
        )
    }
}

impl TraceeTable {
    /// Whether some record belongs to `pid`.
    closed spec fn holds(&self, pid: i32) -> bool {
        exists|i: int| 0 <= i < self.entries@.len() && #[trigger] self.entries@[i].pid == pid
    }

    /// Where the record of `pid` is.
    closed spec fn position(&self, pid: i32) -> int {
        choose|i: int| 0 <= i < self.entries@.len() && #[trigger] self.entries@[i].pid == pid
    }

    /// No process id has two records, and every record keeps what a record
    /// promises.
    pub closed spec fn wf(&self) -> bool {
        &&& forall|i: int, j: int|
            0 <= i < j < self.entries@.len() ==> #[trigger] self.entries@[i].pid
                != #[trigger] self.entries@[j].pid
        &&& forall|i: int| 0 <= i < self.entries@.len() ==> (#[trigger] self.entries@[i]).wf()
    }

    /// In a well-formed table every record is filed under its own id.
    pub proof fn lemma_records(&self)
        requires
            self.wf(),
        ensures
            records_wf(self@),
    {
        assert forall|pid: i32| #[trigger] self@.dom().contains(pid) implies self@[pid].pid == pid
            && self@[pid].wf() by {
            let i = self.position(pid);
            assert(self.entries@[i].wf());
        }
    }

    /// The record at position `i` is the one filed under its process id.
    proof fn lemma_at(&self, i: int)
        requires
            self.wf(),
            0 <= i < self.entries@.len(),
        ensures
            self@.dom().contains(self.entries@[i].pid),
            self@[self.entries@[i].pid] == self.entries@[i],
            self.position(self.entries@[i].pid) == i,
    {
        let pid = self.entries@[i].pid;
        assert(self.holds(pid));
        let j = self.position(pid);
        if i < j {
            assert(self.entries@[i].pid != self.entries@[j].pid);
        } else if j < i {
            assert(self.entries@[j].pid != self.entries@[i].pid);
        }
    }

    /// A table without tracees.
    pub fn new() -> (table: TraceeTable)
        ensures
            table.wf(),
            table@ == Map::<i32, Tracee>::empty(),
    {
        let table = TraceeTable { entries: Vec::new() };
        assert(table@ =~= Map::<i32, Tracee>::empty());
        table
    }

    /// Finds the position of the record of `pid`.
    fn find(&self, pid: i32) -> (found: Option<usize>)
        requires
            self.wf(),
        ensures
            match found {
                Some(i) => i < self.entries@.len() && self.entries@[i as int].pid == pid
                    && self@.dom().contains(pid) && self@[pid] == self.entries@[i as int],
                None => !self@.dom().contains(pid) && forall|i: int|
                    0 <= i < self.entries@.len() ==> #[trigger] self.entries@[i].pid != pid,
            },
    {
        let mut i: usize = 0;
        while i < self.entries.len()
            invariant
                self.wf(),
                i <= self.entries.len(),
                forall|j: int| 0 <= j < i ==> #[trigger] self.entries@[j].pid != pid,
            decreases self.entries.len() - i,
        {
            if self.entries[i].pid == pid {
                proof {
                    self.lemma_at(i as int);
                }
                return Some(i);
            }
            i += 1;
        }
        None
    }

    /// The record of `pid`, if it has one.
    pub fn lookup(&self, pid: i32) -> (found: Option<Tracee>)
        requires
            self.wf(),
        ensures
            found == (if self@.dom().contains(pid) {
                Some(self@[pid])
            } else {
                None
            }),
    {
        match self.find(pid) {
            Some(i) => Some(self.entries[i]),
            None => None,
        }
    }

    /// Files `tracee` under its process id, in place of the record that was
    /// filed there, if any.
    pub fn insert(&mut self, tracee: Tracee)
        requires
            old(self).wf(),
            tracee.wf(),
        ensures
            final(self).wf(),
            final(self)@ == old(self)@.insert(tracee.pid, tracee),
    {
        let ghost before = *self;
        match self.find(tracee.pid) {
            Some(i) => {
                self.entries.set(i, tracee);
                assert(self.wf());
                assert forall|pid: i32| #[trigger]
                    before@.insert(tracee.pid, tracee).dom().contains(pid) implies self@.dom().contains(
                    pid,
                ) && self@[pid] == before@.insert(tracee.pid, tracee)[pid] by {
                    if pid == tracee.pid {
                        self.lemma_at(i as int);
                    } else {
                        let j = before.position(pid);
                        assert(self.entries@[j] == before.entries@[j]);
                        self.lemma_at(j);
                        before.lemma_at(j);
                    }
                }
                assert forall|pid: i32| #[trigger] self@.dom().contains(pid) implies before@.insert(
                    tracee.pid,
                    tracee,
                ).dom().contains(pid) by {
                    let j = self.position(pid);
                    if j != i {
                        assert(before.entries@[j].pid == pid);
                    }
                }
                assert(self@ =~= before@.insert(tracee.pid, tracee));
            },
            None => {
                self.entries.push(tracee);
                assert(self.wf());
                let ghost last = self.entries@.len() - 1;
                assert forall|pid: i32| #[trigger]
                    before@.insert(tracee.pid, tracee).dom().contains(pid) implies self@.dom().contains(
                    pid,
                ) && self@[pid] == before@.insert(tracee.pid, tracee)[pid] by {
                    if pid == tracee.pid {
                        self.lemma_at(last);
                    } else {
                        let j = before.position(pid);
                        assert(self.entries@[j] == before.entries@[j]);
                        self.lemma_at(j);
                        before.lemma_at(j);
                    }
                }
                assert forall|pid: i32| #[trigger] self@.dom().contains(pid) implies before@.insert(
                    tracee.pid,
                    tracee,
                ).dom().contains(pid) by {
                    let j = self.position(pid);
                    if j != last {
                        assert(before.entries@[j].pid == pid);
                    }
                }
                assert(self@ =~= before@.insert(tracee.pid, tracee));
            },
        }
    }

    /// Drops the record of `pid` and returns it, if there was one.
    pub fn remove(&mut self, pid: i32) -> (dropped: Option<Tracee>)
        requires
            old(self).wf(),
        ensures
            final(self).wf(),
            final(self)@ == old(self)@.remove(pid),
            dropped == (if old(self)@.dom().contains(pid) {
                Some(old(self)@[pid])
            } else {
                None
            }),
    {
        let ghost before = *self;
        match self.find(pid) {
            Some(i) => {
                let dropped = self.entries.remove(i);
                assert(forall|j: int|
                    0 <= j < self.entries@.len() ==> #[trigger] self.entries@[j] == before.entries@[if j
                        < i {
                        j
                    } else {
                        j + 1
                    }]);
                assert(self.wf());
                assert forall|p: i32| #[trigger] before@.remove(pid).dom().contains(p) implies self@.dom().contains(
                    p,
                ) && self@[p] == before@.remove(pid)[p] by {
                    let j = before.position(p);
                    before.lemma_at(j);
                    let k = if j < i {
                        j
                    } else {
                        j - 1
                    };
                    assert(self.entries@[k] == before.entries@[j]);
                    self.lemma_at(k);
                }
                assert forall|p: i32| #[trigger] self@.dom().contains(p) implies before@.remove(
                    pid,
                ).dom().contains(p) by {
                    let k = self.position(p);
                    let j = if k < i {
                        k
                    } else {
                        k + 1
                    };
                    assert(before.entries@[j].pid == p);
                    before.lemma_at(j);
                    before.lemma_at(i as int);
                }
                assert(self@ =~= before@.remove(pid));
                Some(dropped)
            },
            None => {
                assert(self@ =~= before@.remove(pid));
                None
            },
        }
    }
}

} // verus!
