//! The process table of the machine, read and signalled through `sysinfo`.

use vstd::prelude::*;
use sysinfo::{Pid, PidExt, ProcessExt, System, SystemExt};
use crate::model::{distinct_pids, KillOutcome, ProcessInfo, Snapshot, Victim};

verus! {

/// `sysinfo::System`, the handle on the machine's process table. Nothing of
/// its contents is visible to the proofs.
#[verifier::external_type_specification]
#[verifier::external_body]
pub struct ExSystem(sysinfo::System);

/// Calls `SystemExt::refresh_all`, which reloads the whole table. Nothing is
/// claimed of what it then holds.
#[verifier::external_body]
fn refresh_all(sys: &mut System) {
    sys.refresh_all();
}

/// Calls `SystemExt::refresh_process`, which reloads one process. Nothing is
/// claimed of what the table then holds.
#[verifier::external_body]
fn refresh_process(sys: &mut System, pid: u32) {
    sys.refresh_process(Pid::from_u32(pid));
}

/// Walks `SystemExt::processes`, the table's map from identifier to process,
/// and copies each entry into plain values. The map holds each key once and
/// `PidExt::as_u32` keeps distinct keys distinct, so no identifier occurs
/// twice; the order is the map's and nothing is claimed of it. The CPU usage
/// is handed on as its bits.
#[verifier::external_body]
fn read_processes(sys: &System) -> (r: Vec<ProcessInfo>)
    ensures
        distinct_pids(r@),
{
    let mut out = Vec::new();
    for (pid, p) in sys.processes() {
        out.push(ProcessInfo {
            pid: pid.as_u32(),
            name: p.name().to_string(),
            cmd: p.cmd().to_vec(),
            cpu_bits: p.cpu_usage().to_bits(),
            memory: p.memory(),
            uptime: p.run_time(),
            parent: p.parent().map(|x| x.as_u32()),
        });
    }
    out
}

/// Looks the process up with `SystemExt::process` and calls
/// `ProcessExt::kill` on it; false where the table does not hold it. Nothing
/// is claimed of the answer: it is the operating system's.
#[verifier::external_body]
fn terminate(sys: &System, pid: u32) -> (r: bool) {
    match sys.process(Pid::from_u32(pid)) {
        Some(p) => p.kill(),
        None => false,
    }
}

/// Reloads the whole process table and takes a snapshot of it.
pub fn poll(sys: &mut System) -> (r: Snapshot)
    ensures
        r.wf(),
{
    refresh_all(sys);
    Snapshot::from_distinct(read_processes(sys))
}

/// Reloads the one process `pid` and takes a snapshot of the table as it
/// then stands: the other processes keep what the last poll saw.
pub fn refresh_one(sys: &mut System, pid: u32) -> (r: Snapshot)
    ensures
        r.wf(),
{
    refresh_process(sys, pid);
    Snapshot::from_distinct(read_processes(sys))
}

/// A victim as plain values: identifier and name.
pub type VictimView = (u32, Seq<char>);

impl Victim {
    pub open spec fn view(&self) -> VictimView {
        (self.pid, self.name@)
    }
}

/// The views of a list of victims.
pub open spec fn victim_views(vs: Seq<Victim>) -> Seq<VictimView> {
    vs.map_values(|v: Victim| v@)
}

/// Whom the outcomes are about, in order.
pub open spec fn outcome_targets(os: Seq<KillOutcome>) -> Seq<VictimView> {
    os.map_values(|o: KillOutcome| (o.pid, o.name@))
}

/// Requests termination of each victim in turn and reports, one outcome per
/// victim and in the same order, whether the request was accepted. A refusal
/// does not stop the sequence.
pub fn execute(sys: &System, plan: &Vec<Victim>) -> (r: Vec<KillOutcome>)
    ensures
        outcome_targets(r@) == victim_views(plan@),
{
    let mut out: Vec<KillOutcome> = Vec::new();
    let mut i: usize = 0;
    while i < plan.len()
        invariant
            0 <= i <= plan.len(),
            outcome_targets(out@) == victim_views(plan@.take(i as int)),
        decreases plan.len() - i,
    {
        let v = &plan[i];
        let killed = terminate(sys, v.pid);
        let o = KillOutcome { pid: v.pid, name: v.name.clone(), killed };
        let ghost before = out@;
        out.push(o);
        proof {
            assert(plan@.take(i + 1) =~= plan@.take(i as int).push(plan@[i as int]));
            assert(outcome_targets(out@) =~= outcome_targets(before).push((o.pid, o.name@)));
            assert(victim_views(plan@.take(i + 1)) =~= victim_views(plan@.take(i as int)).push(
                plan@[i as int]@,
            ));
        }
        i = i + 1;
    }
    proof {
        assert(plan@.take(plan.len() as int) =~= plan@);
    }
    out
}

} // verus!
