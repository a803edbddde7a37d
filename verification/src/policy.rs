//! The kill policy: whom a kill sequence terminates, whether it runs, and
//! what it adds to the count.

use vstd::prelude::*;
use sysinfo::System;
use crate::model::{lemma_filter_by_pid, KillOutcome, ProcessInfo, Snapshot, Victim};
use crate::provider::{execute, outcome_targets, victim_views, VictimView};
use crate::seqs::{lemma_filter_push, lemma_take_next};

verus! {

/// The mode flags of a kill decision.
#[derive(Debug, Clone, Copy, PartialEq, Eq, Structural)]
pub struct Flags {
    pub force: bool,
    pub kill_children: bool,
}

/// What to do with a candidate.
#[derive(Debug, Clone, Copy, PartialEq, Eq, Structural)]
pub enum Decision {
    /// Run the kill sequence.
    Proceed,
    /// Ask for confirmation first.
    Prompt,
    /// Leave the candidate and its children alone.
    Skip,
}

/// The decision as a function of the force flag and of the answer, if one
/// was given yet.
pub open spec fn decision(force: bool, answer: Option<bool>) -> Decision {
    if force {
        Decision::Proceed
    } else {
        match answer {
            None => Decision::Prompt,
            Some(true) => Decision::Proceed,
            Some(false) => Decision::Skip,
        }
    }
}

/// Decides what to do with a candidate: with force, proceed at once;
/// without it, ask, then proceed on yes and skip on anything else.
pub fn decide(force: bool, answer: Option<bool>) -> (d: Decision)
    ensures
        d == decision(force, answer),
{
    if force {
        Decision::Proceed
    } else {
        match answer {
            None => Decision::Prompt,
            Some(yes) => if yes {
                Decision::Proceed
            } else {
                Decision::Skip
            },
        }
    }
}

/// What the scripted loop does next with a candidate.
#[derive(Debug, Clone, Copy, PartialEq, Eq, Structural)]
pub enum CandidateStep {
    /// The process is no longer there: pass on without a word.
    Gone,
    /// Ask whether to kill it; `with_children` says whether the question
    /// covers children too.
    Ask { with_children: bool },
    /// Run the kill sequence.
    Kill,
    /// The answer was no: report the skip and pass on.
    Skip,
}

/// The next step for a candidate: nothing where the refreshed table no
/// longer holds it; else what the decision over force and answer says, the
/// question covering the children where they are included and there are any.
pub open spec fn candidate_step(
    found: bool,
    has_children: bool,
    flags: Flags,
    answer: Option<bool>,
) -> CandidateStep {
    if !found {
        CandidateStep::Gone
    } else {
        match decision(flags.force, answer) {
            Decision::Proceed => CandidateStep::Kill,
            Decision::Skip => CandidateStep::Skip,
            Decision::Prompt => CandidateStep::Ask {
                with_children: flags.kill_children && has_children,
            },
        }
    }
}

/// Says what the scripted loop does next with a candidate, given whether
/// the refreshed table still holds it, whether it has children, the flags
/// and the answer, if one was given yet.
pub fn next_step(found: bool, has_children: bool, flags: Flags, answer: Option<bool>) -> (s:
    CandidateStep)
    ensures
        s == candidate_step(found, has_children, flags, answer),
{
    if !found {
        CandidateStep::Gone
    } else {
        match decide(flags.force, answer) {
            Decision::Proceed => CandidateStep::Kill,
            Decision::Skip => CandidateStep::Skip,
            Decision::Prompt => CandidateStep::Ask {
                with_children: flags.kill_children && has_children,
            },
        }
    }
}

/// Whether the count has room for every request that a kill sequence over
/// this snapshot can make.
pub fn has_room(total: u64, snap: &Snapshot) -> (r: bool)
    ensures
        r == (total + snap@.len() + 1 <= u64::MAX),
{
    let n = snap.len() as u64;
    total < u64::MAX && n <= u64::MAX - 1 - total
}

/// The victim that stands for a process.
pub open spec fn victim_of(p: ProcessInfo) -> VictimView {
    (p.pid, p.name@)
}

/// The step from a process to its victim.
pub open spec fn to_victim() -> spec_fn(ProcessInfo) -> VictimView {
    |p: ProcessInfo| victim_of(p)
}

/// The test "its parent is `pid`".
pub open spec fn child_test(pid: u32) -> spec_fn(ProcessInfo) -> bool {
    |p: ProcessInfo| p.parent == Some(pid)
}

/// The test "its identifier is `pid`".
pub open spec fn pid_test(pid: u32) -> spec_fn(ProcessInfo) -> bool {
    |p: ProcessInfo| p.pid == pid
}

/// The direct children of `pid` in a snapshot, in listing order. Children of
/// children are not among them.
pub open spec fn children(procs: Seq<ProcessInfo>, pid: u32) -> Seq<VictimView> {
    procs.filter(child_test(pid)).map_values(to_victim())
}

/// The process `pid` itself, if the snapshot holds it.
pub open spec fn itself(procs: Seq<ProcessInfo>, pid: u32) -> Seq<VictimView> {
    procs.filter(pid_test(pid)).map_values(to_victim())
}

/// Whom a kill sequence for `pid` terminates, in order: the children first
/// where they are included, then the process itself.
pub open spec fn kill_plan(procs: Seq<ProcessInfo>, pid: u32, kill_children: bool) -> Seq<
    VictimView,
> {
    if kill_children {
        children(procs, pid) + itself(procs, pid)
    } else {
        itself(procs, pid)
    }
}

/// How many of the outcomes report an accepted request.
pub open spec fn killed_count(os: Seq<KillOutcome>) -> nat
    decreases os.len(),
{
    if os.len() == 0 {
        0
    } else {
        killed_count(os.drop_last()) + (if os.last().killed {
            1nat
        } else {
            0nat
        })
    }
}

/// The count grows only by accepted requests: it is never more than the
/// number of requests made, and it is zero exactly when none was accepted.
pub proof fn count_grows_only_by_accepted_requests(os: Seq<KillOutcome>)
    ensures
        killed_count(os) <= os.len(),
        killed_count(os) == 0 <==> (forall|i: int| 0 <= i < os.len() ==> !(#[trigger] os[i]).killed),
    decreases os.len(),
{
    if os.len() > 0 {
        let rest = os.drop_last();
        count_grows_only_by_accepted_requests(rest);
        assert(forall|i: int| 0 <= i < rest.len() ==> rest[i] == os[i]);
        if killed_count(os) == 0 {
            assert forall|i: int| 0 <= i < os.len() implies !(#[trigger] os[i]).killed by {
                if i < rest.len() {
                    assert(!rest[i].killed);
                }
            }
        }
        if forall|i: int| 0 <= i < os.len() ==> !(#[trigger] os[i]).killed {
            assert(!os[os.len() - 1].killed);
            assert forall|i: int| 0 <= i < rest.len() implies !(#[trigger] rest[i]).killed by {
                assert(!os[i].killed);
            }
        }
    }
}

/// Lists the direct children of `pid`.
pub fn children_of(snap: &Snapshot, pid: u32) -> (r: Vec<Victim>)
    ensures
        victim_views(r@) == children(snap@, pid),
{
    let ghost pred = child_test(pid);
    let mut out: Vec<Victim> = Vec::new();
    let n = snap.len();
    let mut i: usize = 0;
    proof {
        reveal(Seq::filter);
        assert(snap@.take(0) =~= Seq::<ProcessInfo>::empty());
        assert(victim_views(out@) =~= snap@.take(0).filter(pred).map_values(to_victim()));
    }
    while i < n
        invariant
            0 <= i <= n,
            n == snap@.len(),
            pred == child_test(pid),
            victim_views(out@) == snap@.take(i as int).filter(pred).map_values(to_victim()),
        decreases n - i,
    {
        let p = snap.at(i);
        proof {
            lemma_take_next(snap@, i as int);
            lemma_filter_push(snap@.take(i as int), snap@[i as int], pred);
        }
        let is_child = match p.parent {
            Some(pp) => pp == pid,
            None => false,
        };
        if is_child {
            let v = Victim { pid: p.pid, name: p.name.clone() };
            let ghost before = out@;
            out.push(v);
            proof {
                assert(victim_views(out@) =~= victim_views(before).push(v@));
                assert(snap@.take(i as int).filter(pred).push(*p).map_values(to_victim())
                    =~= snap@.take(i as int).filter(pred).map_values(to_victim()).push(
                    victim_of(*p),
                ));
            }
        }
        i = i + 1;
    }
    proof {
        assert(snap@.take(n as int) =~= snap@);
    }
    out
}

/// Lists whom a kill sequence for `pid` terminates: its direct children
/// first where `kill_children` is set, then the process itself if the
/// snapshot holds it.
pub fn plan_kills(snap: &Snapshot, pid: u32, kill_children: bool) -> (r: Vec<Victim>)
    ensures
        victim_views(r@) == kill_plan(snap@, pid, kill_children),
        r@.len() <= snap@.len() + 1,
{
    let mut out: Vec<Victim> = if kill_children {
        children_of(snap, pid)
    } else {
        Vec::new()
    };
    proof {
        use_type_invariant(snap);
        lemma_filter_by_pid(snap@, pid_test(pid), pid);
        snap@.lemma_filter_len(child_test(pid));
        assert(children(snap@, pid).len() <= snap@.len());
        assert(victim_views(out@).len() == out@.len());
    }
    let ghost before = out@;
    match snap.find(pid) {
        Some(i) => {
            let p = snap.at(i);
            let v = Victim { pid: p.pid, name: p.name.clone() };
            out.push(v);
            proof {
                assert(snap@.filter(pid_test(pid)) == seq![snap@[i as int]]);
                assert(itself(snap@, pid) =~= seq![victim_of(*p)]);
                assert(victim_views(out@) =~= victim_views(before) + seq![v@]);
            }
        },
        None => {
            proof {
                assert(itself(snap@, pid) =~= Seq::<VictimView>::empty());
                assert(victim_views(out@) =~= victim_views(before) + Seq::<VictimView>::empty());
            }
        },
    }
    proof {
        if !kill_children {
            assert(victim_views(before) =~= Seq::<VictimView>::empty());
            assert(Seq::<VictimView>::empty() + itself(snap@, pid) =~= itself(snap@, pid));
        }
    }
    out
}

/// Counts the accepted requests.
pub fn count_killed(outcomes: &Vec<KillOutcome>) -> (n: usize)
    ensures
        n == killed_count(outcomes@),
        n <= outcomes@.len(),
{
    let mut n: usize = 0;
    let mut i: usize = 0;
    while i < outcomes.len()
        invariant
            0 <= i <= outcomes.len(),
            n == killed_count(outcomes@.take(i as int)),
            n <= i,
        decreases outcomes.len() - i,
    {
        proof {
            assert(outcomes@.take(i + 1).drop_last() =~= outcomes@.take(i as int));
        }
        if outcomes[i].killed {
            n = n + 1;
        }
        i = i + 1;
    }
    proof {
        assert(outcomes@.take(outcomes.len() as int) =~= outcomes@);
    }
    n
}

/// Applies the policy to the process `pid` of a snapshot. Without force and
/// without a yes, nothing is terminated. Otherwise the kill sequence runs to
/// its end, children first where they are included, and `total` grows by one
/// for each request that was accepted, and by nothing else.
pub fn resolve(
    sys: &System,
    snap: &Snapshot,
    pid: u32,
    flags: Flags,
    confirmed: bool,
    total: &mut u64,
) -> (r: Vec<KillOutcome>)
    requires
        *old(total) + snap@.len() + 1 <= u64::MAX,
    ensures
        flags.force || confirmed ==> outcome_targets(r@) == kill_plan(
            snap@,
            pid,
            flags.kill_children,
        ),
        !(flags.force || confirmed) ==> r@.len() == 0,
        *final(total) == *old(total) + killed_count(r@),
        *final(total) >= *old(total),
{
    match decide(flags.force, Some(confirmed)) {
        Decision::Proceed => {
            let plan = plan_kills(snap, pid, flags.kill_children);
            let outcomes = execute(sys, &plan);
            proof {
                assert(outcome_targets(outcomes@).len() == outcomes@.len());
                assert(victim_views(plan@).len() == plan@.len());
            }
            let n = count_killed(&outcomes);
            *total = *total + n as u64;
            outcomes
        },
        _ => Vec::new(),
    }
}

} // verus!
