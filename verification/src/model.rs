//! The data that matching and killing work on.

use vstd::prelude::*;

verus! {

/// One process of a snapshot. The CPU usage, a percentage, is held as the
/// bits of its single-precision binary encoding.
#[derive(Debug, Clone)]
pub struct ProcessInfo {
    pub pid: u32,
    pub name: String,
    pub cmd: Vec<String>,
    pub cpu_bits: u32,
    pub memory: u64,
    pub uptime: u64,
    pub parent: Option<u32>,
}

/// What is carried from matching into the kill decision.
#[derive(Debug, Clone)]
pub struct Candidate {
    pub pid: u32,
    pub name: String,
    pub cmd: String,
}

/// A process that a kill sequence is about to terminate.
#[derive(Debug, Clone)]
pub struct Victim {
    pub pid: u32,
    pub name: String,
}

/// What became of one terminate request.
#[derive(Debug, Clone)]
pub struct KillOutcome {
    pub pid: u32,
    pub name: String,
    pub killed: bool,
}

/// No process identifier occurs twice.
pub open spec fn distinct_pids(procs: Seq<ProcessInfo>) -> bool {
    forall|i: int, j: int| 0 <= i < j < procs.len() ==> procs[i].pid != procs[j].pid
}

/// Filtering a list without repeated identifiers by one identifier leaves the
/// process that has it, or nothing.
pub proof fn lemma_filter_by_pid(procs: Seq<ProcessInfo>, pred: spec_fn(ProcessInfo) -> bool, pid: u32)
    requires
        distinct_pids(procs),
        forall|p: ProcessInfo| #[trigger] pred(p) == (p.pid == pid),
    ensures
        procs.filter(pred).len() <= 1,
        forall|i: int| 0 <= i < procs.len() && procs[i].pid == pid ==> procs.filter(pred) == seq![procs[i]],
        (forall|i: int| 0 <= i < procs.len() ==> procs[i].pid != pid) ==> procs.filter(pred).len() == 0,
    decreases procs.len(),
{
    reveal(Seq::filter);
    if procs.len() > 0 {
        let rest = procs.drop_last();
        lemma_filter_by_pid(rest, pred, pid);
        if pred(procs.last()) {
            assert(forall|i: int| 0 <= i < rest.len() ==> rest[i].pid != pid);
            assert(procs.filter(pred) =~= seq![procs.last()]);
        } else {
            assert forall|i: int| 0 <= i < procs.len() && procs[i].pid == pid implies procs.filter(
                pred,
            ) == seq![procs[i]] by {
                assert(rest[i] == procs[i]);
            }
        }
    }
}

/// Filtering a list without repeated identifiers leaves one without them,
/// made of processes of the list.
pub proof fn lemma_filter_keeps_distinct(procs: Seq<ProcessInfo>, pred: spec_fn(ProcessInfo) -> bool)
    requires
        distinct_pids(procs),
    ensures
        distinct_pids(procs.filter(pred)),
        forall|k: int|
            0 <= k < procs.filter(pred).len() ==> procs.contains(#[trigger] procs.filter(pred)[k]),
    decreases procs.len(),
{
    reveal(Seq::filter);
    if procs.len() > 0 {
        let rest = procs.drop_last();
        let last = procs.last();
        assert forall|i: int, j: int| 0 <= i < j < rest.len() implies rest[i].pid != rest[j].pid by {
            assert(rest[i] == procs[i] && rest[j] == procs[j]);
        }
        lemma_filter_keeps_distinct(rest, pred);
        let f = rest.filter(pred);
        assert forall|k: int| 0 <= k < f.len() implies procs.contains(#[trigger] f[k]) && f[k].pid
            != last.pid by {
            assert(rest.contains(f[k]));
            let j = choose|j: int| 0 <= j < rest.len() && rest[j] == f[k];
            assert(procs[j] == f[k]);
            assert(procs[procs.len() - 1] == last);
        }
        if pred(last) {
            assert(procs[procs.len() - 1] == last);
            assert(procs.contains(last));
            assert(procs.filter(pred) == f.push(last));
        }
    }
}

/// A point-in-time table of processes, at most one per identifier, in the
/// order in which the provider listed them.
#[derive(Debug)]
pub struct Snapshot {
    procs: Vec<ProcessInfo>,
}

impl Snapshot {
    /// The processes, in listing order.
    pub closed spec fn view(&self) -> Seq<ProcessInfo> {
        self.procs@
    }

    /// The table holds each identifier once.
    #[verifier::type_invariant]
    pub open spec fn wf(&self) -> bool {
        distinct_pids(self@)
    }

    /// Every snapshot that a program holds has each identifier once.
    pub fn check_distinct(&self)
        ensures
            self.wf(),
    {
        proof {
            use_type_invariant(self);
        }
    }

    /// Makes a snapshot of `procs`, or nothing where an identifier occurs twice.
    pub fn new(procs: Vec<ProcessInfo>) -> (r: Option<Snapshot>)
        ensures
            r is Some <==> distinct_pids(procs@),
            r is Some ==> r->0@ == procs@ && r->0.wf(),
    {
        let mut i: usize = 0;
        while i < procs.len()
            invariant
                0 <= i <= procs.len(),
                forall|a: int, b: int| 0 <= a < b < i ==> procs@[a].pid != procs@[b].pid,
            decreases procs.len() - i,
        {
            let mut j: usize = 0;
            while j < i
                invariant
                    0 <= j <= i < procs.len(),
                    forall|a: int| 0 <= a < j ==> procs@[a].pid != procs@[i as int].pid,
                decreases i - j,
            {
                if procs[j].pid == procs[i].pid {
                    return None;
                }
                j = j + 1;
            }
            i = i + 1;
        }
        Some(Snapshot { procs })
    }

    /// Wraps a list that is known to hold each identifier once.
    pub(crate) fn from_distinct(procs: Vec<ProcessInfo>) -> (r: Snapshot)
        requires
            distinct_pids(procs@),
        ensures
            r@ == procs@,
            r.wf(),
    {
        Snapshot { procs }
    }

    /// The number of processes.
    pub fn len(&self) -> (n: usize)
        ensures
            n == self@.len(),
    {
        self.procs.len()
    }

    /// The process at position `i` of the listing.
    pub fn get(&self, i: usize) -> (p: Option<&ProcessInfo>)
        ensures
            i < self@.len() ==> p == Some(&self@[i as int]),
            i >= self@.len() ==> p is None,
    {
        if i < self.procs.len() {
            Some(&self.procs[i])
        } else {
            None
        }
    }

    /// The process at position `i`, which lies within the listing.
    pub fn at(&self, i: usize) -> (p: &ProcessInfo)
        requires
            i < self@.len(),
        ensures
            *p == self@[i as int],
    {
        &self.procs[i]
    }

    /// The position of the process with identifier `pid`, if the snapshot
    /// holds it.
    pub fn find(&self, pid: u32) -> (r: Option<usize>)
        ensures
            match r {
                Some(i) => i < self@.len() && self@[i as int].pid == pid,
                None => forall|k: int| 0 <= k < self@.len() ==> self@[k].pid != pid,
            },
    {
        let mut i: usize = 0;
        while i < self.procs.len()
            invariant
                0 <= i <= self.procs.len(),
                forall|k: int| 0 <= k < i ==> self.procs@[k].pid != pid,
            decreases self.procs.len() - i,
        {
            if self.procs[i].pid == pid {
                return Some(i);
            }
            i = i + 1;
        }
        None
    }
}

} // verus!
