//! What the browser shows: the rows of the process list, with the levels
//! that colour them, and the details of one process.

use vstd::prelude::*;
use crate::model::{ProcessInfo, Snapshot, Victim};
use crate::policy::{children, children_of};
use crate::provider::{victim_views, VictimView};
use crate::seqs::{lemma_filter_push, lemma_take_next};
use crate::session::{name_test, visible_pids};
use crate::text::{has_substring, join_words, joined, lowercase, to_lower};

verus! {

/// How a reading compares with the thresholds of the display.
#[derive(Debug, Clone, Copy, PartialEq, Eq, Structural)]
pub enum Level {
    Low,
    Medium,
    High,
}

/// The level of a reading between two thresholds.
pub open spec fn level_of(value: u64, medium_from: u64, high_from: u64) -> Level {
    if value < medium_from {
        Level::Low
    } else if value < high_from {
        Level::Medium
    } else {
        Level::High
    }
}

/// The encoding of 20 percent.
pub const CPU_MEDIUM_FROM: u32 = 0x41A0_0000;

/// The encoding of 50 percent.
pub const CPU_HIGH_FROM: u32 = 0x4248_0000;

/// From here on the sign bit is set: the encoded number is negative.
pub const CPU_NEGATIVE_FROM: u32 = 0x8000_0000;

/// The encoding of negative infinity; above it lie encodings of no number.
pub const CPU_NEGATIVE_LAST: u32 = 0xFF80_0000;

/// The level of an encoded CPU usage: low under 20 percent, medium under 50,
/// high from there on and for an encoding of no number. Encodings without
/// the sign bit are ordered as the numbers they encode, so two comparisons
/// of bits decide; a negative number lies under every threshold.
pub open spec fn cpu_level_of(cpu_bits: u32) -> Level {
    if cpu_bits >= CPU_NEGATIVE_FROM {
        if cpu_bits > CPU_NEGATIVE_LAST {
            Level::High
        } else {
            Level::Low
        }
    } else {
        level_of(cpu_bits as u64, CPU_MEDIUM_FROM as u64, CPU_HIGH_FROM as u64)
    }
}

/// The level of an encoded CPU usage.
pub fn cpu_level(cpu_bits: u32) -> (l: Level)
    ensures
        l == cpu_level_of(cpu_bits),
{
    if cpu_bits >= CPU_NEGATIVE_FROM {
        if cpu_bits > CPU_NEGATIVE_LAST {
            Level::High
        } else {
            Level::Low
        }
    } else if cpu_bits < CPU_MEDIUM_FROM {
        Level::Low
    } else if cpu_bits < CPU_HIGH_FROM {
        Level::Medium
    } else {
        Level::High
    }
}

/// The level of a memory use in kilobytes: low under 50 000, medium under
/// 200 000.
pub fn memory_level(kilobytes: u64) -> (l: Level)
    ensures
        l == level_of(kilobytes, 50_000, 200_000),
{
    if kilobytes < 50_000 {
        Level::Low
    } else if kilobytes < 200_000 {
        Level::Medium
    } else {
        Level::High
    }
}

/// One row of the process list.
#[derive(Debug, Clone)]
pub struct Row {
    pub pid: u32,
    pub name: String,
    pub cpu_bits: u32,
    pub cpu_level: Level,
    pub memory: u64,
    pub memory_level: Level,
    pub uptime: u64,
}

/// A row as plain values.
pub struct RowView {
    pub pid: u32,
    pub name: Seq<char>,
    pub cpu_bits: u32,
    pub cpu_level: Level,
    pub memory: u64,
    pub memory_level: Level,
    pub uptime: u64,
}

impl Row {
    pub open spec fn view(&self) -> RowView {
        RowView {
            pid: self.pid,
            name: self.name@,
            cpu_bits: self.cpu_bits,
            cpu_level: self.cpu_level,
            memory: self.memory,
            memory_level: self.memory_level,
            uptime: self.uptime,
        }
    }
}

/// The row that shows a process.
pub open spec fn row_of(p: ProcessInfo) -> RowView {
    RowView {
        pid: p.pid,
        name: p.name@,
        cpu_bits: p.cpu_bits,
        cpu_level: cpu_level_of(p.cpu_bits),
        memory: p.memory,
        memory_level: level_of(p.memory, 50_000, 200_000),
        uptime: p.uptime,
    }
}

/// The step from a process to its row.
pub open spec fn to_row() -> spec_fn(ProcessInfo) -> RowView {
    |p: ProcessInfo| row_of(p)
}

/// The views of a list of rows.
pub open spec fn row_views(rows: Seq<Row>) -> Seq<RowView> {
    rows.map_values(|r: Row| r@)
}

/// The rows that a filter lets through, in listing order.
pub open spec fn visible(procs: Seq<ProcessInfo>, filter: Seq<char>) -> Seq<RowView> {
    procs.filter(name_test(filter)).map_values(to_row())
}

/// Lists the rows to show: one for each process whose name holds the filter
/// text, without regard to case, in listing order; one for each process
/// where the filter is empty.
pub fn visible_list(snap: &Snapshot, filter: &str) -> (r: Vec<Row>)
    ensures
        row_views(r@) == visible(snap@, filter@),
        r@.len() <= snap@.len(),
{
    let ghost pred = name_test(filter@);
    let low = to_lower(filter);
    let all = filter.unicode_len() == 0;
    let mut out: Vec<Row> = Vec::new();
    let n = snap.len();
    let mut i: usize = 0;
    proof {
        reveal(Seq::filter);
        assert(snap@.take(0) =~= Seq::<ProcessInfo>::empty());
        assert(row_views(out@) =~= snap@.take(0).filter(pred).map_values(to_row()));
    }
    while i < n
        invariant
            0 <= i <= n,
            n == snap@.len(),
            pred == name_test(filter@),
            low@ == lowercase(filter@),
            all == (filter@.len() == 0),
            row_views(out@) == snap@.take(i as int).filter(pred).map_values(to_row()),
            out@.len() <= i,
        decreases n - i,
    {
        let p = snap.at(i);
        proof {
            lemma_take_next(snap@, i as int);
            lemma_filter_push(snap@.take(i as int), snap@[i as int], pred);
        }
        let shown = all || has_substring(to_lower(p.name.as_str()).as_str(), low.as_str());
        if shown {
            let row = Row {
                pid: p.pid,
                name: p.name.clone(),
                cpu_bits: p.cpu_bits,
                cpu_level: cpu_level(p.cpu_bits),
                memory: p.memory,
                memory_level: memory_level(p.memory),
                uptime: p.uptime,
            };
            let ghost before = out@;
            out.push(row);
            proof {
                assert(row@ == row_of(*p));
                assert(row_views(out@) =~= row_views(before).push(row@));
                assert(snap@.take(i as int).filter(pred).push(*p).map_values(to_row())
                    =~= snap@.take(i as int).filter(pred).map_values(to_row()).push(row_of(*p)));
            }
        }
        i = i + 1;
    }
    proof {
        assert(snap@.take(n as int) =~= snap@);
    }
    out
}

/// The step from a row to its identifier.
pub open spec fn row_pid() -> spec_fn(RowView) -> u32 {
    |v: RowView| v.pid
}

/// The identifiers of the rows, in order.
pub fn row_pids(rows: &Vec<Row>) -> (r: Vec<u32>)
    ensures
        r@ == row_views(rows@).map_values(row_pid()),
{
    let mut out: Vec<u32> = Vec::new();
    let mut i: usize = 0;
    while i < rows.len()
        invariant
            0 <= i <= rows.len(),
            out@ == row_views(rows@.take(i as int)).map_values(row_pid()),
        decreases rows.len() - i,
    {
        let ghost before = out@;
        out.push(rows[i].pid);
        proof {
            assert(rows@.take(i + 1) =~= rows@.take(i as int).push(rows@[i as int]));
            assert(out@ =~= row_views(rows@.take(i + 1)).map_values(row_pid()));
        }
        i = i + 1;
    }
    proof {
        assert(rows@.take(rows.len() as int) =~= rows@);
    }
    out
}

/// The rows that are shown carry the identifiers that the session's keys
/// are handled over.
pub proof fn rows_carry_the_visible_pids(procs: Seq<ProcessInfo>, filter: Seq<char>)
    ensures
        visible(procs, filter).map_values(row_pid()) == visible_pids(procs, filter),
{
    assert(visible(procs, filter).map_values(row_pid()) =~= visible_pids(procs, filter));
}

/// Lists the identifiers of the rows to show: those of the processes whose
/// name holds the filter text, without regard to case, in listing order; all
/// of them where the filter is empty.
pub fn visible_rows(snap: &Snapshot, filter: &str) -> (r: Vec<u32>)
    ensures
        r@ == visible_pids(snap@, filter@),
        r@.len() <= snap@.len(),
{
    let rows = visible_list(snap, filter);
    proof {
        rows_carry_the_visible_pids(snap@, filter@);
        assert(row_views(rows@).len() == rows@.len());
    }
    row_pids(&rows)
}

/// The details pane of one process.
#[derive(Debug, Clone)]
pub struct Details {
    pub pid: u32,
    pub name: String,
    pub cmd: String,
    pub parent: Option<u32>,
    pub cpu_bits: u32,
    pub memory: u64,
    pub uptime: u64,
    pub children: Vec<Victim>,
}

/// The details as plain values.
pub struct DetailsView {
    pub pid: u32,
    pub name: Seq<char>,
    pub cmd: Seq<char>,
    pub parent: Option<u32>,
    pub cpu_bits: u32,
    pub memory: u64,
    pub uptime: u64,
    pub children: Seq<VictimView>,
}

impl Details {
    pub open spec fn view(&self) -> DetailsView {
        DetailsView {
            pid: self.pid,
            name: self.name@,
            cmd: self.cmd@,
            parent: self.parent,
            cpu_bits: self.cpu_bits,
            memory: self.memory,
            uptime: self.uptime,
            children: victim_views(self.children@),
        }
    }
}

/// The details of a process of a snapshot: its own readings, its joined
/// command line and its direct children.
pub open spec fn details(procs: Seq<ProcessInfo>, p: ProcessInfo) -> DetailsView {
    DetailsView {
        pid: p.pid,
        name: p.name@,
        cmd: joined(p.cmd@),
        parent: p.parent,
        cpu_bits: p.cpu_bits,
        memory: p.memory,
        uptime: p.uptime,
        children: children(procs, p.pid),
    }
}

/// Gives the details of the process `pid`, or nothing where the snapshot
/// does not hold it.
pub fn details_of(snap: &Snapshot, pid: u32) -> (r: Option<Details>)
    ensures
        match r {
            Some(d) => exists|i: int|
                0 <= i < snap@.len() && snap@[i].pid == pid && d@ == details(snap@, #[trigger] snap@[i]),
            None => forall|i: int| 0 <= i < snap@.len() ==> snap@[i].pid != pid,
        },
{
    match snap.find(pid) {
        Some(i) => {
            let p = snap.at(i);
            let d = Details {
                pid: p.pid,
                name: p.name.clone(),
                cmd: join_words(&p.cmd),
                parent: p.parent,
                cpu_bits: p.cpu_bits,
                memory: p.memory,
                uptime: p.uptime,
                children: children_of(snap, pid),
            };
            proof {
                assert(d@ == details(snap@, snap@[i as int]));
            }
            Some(d)
        },
        None => None,
    }
}

/// The row that the selection lies on, if there is a row to show.
pub fn selected_row(selected: usize, rows: usize) -> (r: Option<usize>)
    ensures
        r == (if rows == 0 {
            None
        } else if selected >= rows {
            Some((rows - 1) as usize)
        } else {
            Some(selected)
        }),
{
    if rows == 0 {
        None
    } else if selected >= rows {
        Some(rows - 1)
    } else {
        Some(selected)
    }
}

} // verus!
