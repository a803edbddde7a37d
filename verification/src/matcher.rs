//! Resolving targets against a snapshot.

use vstd::prelude::*;
use vstd::string::*;
use crate::model::{
    lemma_filter_by_pid, lemma_filter_keeps_distinct, Candidate, ProcessInfo, Snapshot,
};
use crate::seqs::{lemma_filter_agree, lemma_filter_push, lemma_take_next};
use crate::text::{
    has_substring, join_words, joined, lemma_occurs_in_self, lowercase, occurs_in, parse_i32,
    parsed_i32, to_lower,
};

verus! {

/// A process identifier, or a pattern held in lower case.
#[derive(Debug, Clone)]
pub enum Target {
    Pid(u32),
    Pattern(String),
}

/// A candidate as plain values: identifier, name, joined command line.
pub type CandidateView = (u32, Seq<char>, Seq<char>);

/// The candidate that stands for a process.
pub open spec fn candidate_of(p: ProcessInfo) -> CandidateView {
    (p.pid, p.name@, joined(p.cmd@))
}

impl Candidate {
    pub open spec fn view(&self) -> CandidateView {
        (self.pid, self.name@, self.cmd@)
    }
}

/// The views of a list of candidates.
pub open spec fn candidate_views(cs: Seq<Candidate>) -> Seq<CandidateView> {
    cs.map_values(|c: Candidate| c@)
}

/// Whether a pattern holds of a name and a command line, all three in lower
/// case: in exact mode the name is the pattern; otherwise the pattern is a
/// part of the name or of the command line.
pub open spec fn pattern_holds(pat: Seq<char>, name: Seq<char>, cmd: Seq<char>, exact: bool) -> bool {
    if exact {
        name == pat
    } else {
        occurs_in(pat, name) || occurs_in(pat, cmd)
    }
}

/// Whether a lower-case pattern matches a process, by its name and its joined
/// command line in lower case.
pub open spec fn pattern_matches(pat: Seq<char>, p: ProcessInfo, exact: bool) -> bool {
    pattern_holds(pat, lowercase(p.name@), lowercase(joined(p.cmd@)), exact)
}

/// The process identifier that an integer stands for: itself where it is not
/// negative; a negative one is taken modulo 2^32, as the identifiers of the
/// process table are when they are held in 32 bits without a sign.
pub open spec fn pid_of(n: i32) -> u32 {
    if n >= 0 {
        n as u32
    } else {
        (n + 0x1_0000_0000) as u32
    }
}

/// The target that a text denotes, given what the text reads as and its
/// lower-case form.
pub open spec fn target_from(parsed: Option<i32>, lowered: Seq<char>) -> TargetView {
    match parsed {
        Some(n) => TargetView::Pid(pid_of(n)),
        None => TargetView::Pattern(lowered),
    }
}

/// A target as plain values.
pub enum TargetView {
    Pid(u32),
    Pattern(Seq<char>),
}

/// Whether a target given as text selects a process. A text that reads as an
/// integer selects by identifier alone; any other text is a pattern.
pub open spec fn text_selects(text: Seq<char>, p: ProcessInfo, exact: bool) -> bool {
    match parsed_i32(text) {
        Some(n) => p.pid == pid_of(n),
        None => pattern_matches(lowercase(text), p, exact),
    }
}

/// Whether one of the targets selects the process.
pub open spec fn any_selects(targets: Seq<Target>, p: ProcessInfo, exact: bool) -> bool {
    exists|k: int| 0 <= k < targets.len() && (#[trigger] targets[k]).selects(p, exact)
}

/// The test "some target selects this process".
pub open spec fn selector(targets: Seq<Target>, exact: bool) -> spec_fn(ProcessInfo) -> bool {
    |p: ProcessInfo| any_selects(targets, p, exact)
}

/// The test "the target that this text denotes selects this process".
pub open spec fn text_selector(text: Seq<char>, exact: bool) -> spec_fn(ProcessInfo) -> bool {
    |p: ProcessInfo| text_selects(text, p, exact)
}

/// The step from a process to its candidate.
pub open spec fn to_candidate() -> spec_fn(ProcessInfo) -> CandidateView {
    |p: ProcessInfo| candidate_of(p)
}

/// The candidates of a snapshot for a list of targets: every process that
/// some target selects, once, in listing order.
pub open spec fn candidates(procs: Seq<ProcessInfo>, targets: Seq<Target>, exact: bool) -> Seq<
    CandidateView,
> {
    procs.filter(selector(targets, exact)).map_values(to_candidate())
}

/// The candidates of a snapshot for one target given as text.
pub open spec fn candidates_for_text(procs: Seq<ProcessInfo>, text: Seq<char>, exact: bool) -> Seq<
    CandidateView,
> {
    procs.filter(text_selector(text, exact)).map_values(to_candidate())
}

impl Target {
    /// Whether this target selects the process.
    pub open spec fn selects(&self, p: ProcessInfo, exact: bool) -> bool {
        match self {
            Target::Pid(n) => p.pid == *n,
            Target::Pattern(pat) => pattern_matches(pat@, p, exact),
        }
    }

    pub open spec fn view(&self) -> TargetView {
        match self {
            Target::Pid(n) => TargetView::Pid(*n),
            Target::Pattern(pat) => TargetView::Pattern(pat@),
        }
    }

    /// Makes a target of what a text reads as and of its lower-case form: an
    /// integer is a process identifier, whatever the text looks like beside
    /// it; without one the lower-case text is the pattern.
    pub fn from_parts(parsed: Option<i32>, lowered: String) -> (t: Target)
        ensures
            t@ == target_from(parsed, lowered@),
    {
        match parsed {
            Some(n) => if n >= 0 {
                Target::Pid(n as u32)
            } else {
                Target::Pid((n as i64 + 0x1_0000_0000) as u32)
            },
            None => Target::Pattern(lowered),
        }
    }

    /// Reads a target: an integer is a process identifier, anything else a
    /// pattern, which is kept in lower case.
    pub fn parse(text: &str) -> (t: Target)
        ensures
            t@ == target_from(parsed_i32(text@), lowercase(text@)),
            forall|p: ProcessInfo, exact: bool|
                #[trigger] t.selects(p, exact) == text_selects(text@, p, exact),
    {
        Target::from_parts(parse_i32(text), to_lower(text))
    }

    /// Tests this target against a process identifier, a name and a joined
    /// command line, the last two in lower case.
    pub fn hits(&self, pid: u32, low_name: &String, low_cmd: &String, exact: bool) -> (r: bool)
        ensures
            r == match self@ {
                TargetView::Pid(n) => pid == n,
                TargetView::Pattern(pat) => pattern_holds(pat, low_name@, low_cmd@, exact),
            },
    {
        match self {
            Target::Pid(n) => pid == *n,
            Target::Pattern(pat) => {
                if exact {
                    *low_name == *pat
                } else {
                    has_substring(low_name.as_str(), pat.as_str()) || has_substring(
                        low_cmd.as_str(),
                        pat.as_str(),
                    )
                }
            },
        }
    }

    /// Tells whether this target selects the process.
    pub fn matches(&self, p: &ProcessInfo, exact: bool) -> (r: bool)
        ensures
            r == self.selects(*p, exact),
    {
        let low_name = to_lower(p.name.as_str());
        let cmd = join_words(&p.cmd);
        let low_cmd = to_lower(cmd.as_str());
        self.hits(p.pid, &low_name, &low_cmd, exact)
    }
}

/// Tells whether one of the targets selects the process.
pub fn matches_any(targets: &Vec<Target>, p: &ProcessInfo, exact: bool) -> (r: bool)
    ensures
        r == any_selects(targets@, *p, exact),
{
    let low_name = to_lower(p.name.as_str());
    let cmd = join_words(&p.cmd);
    let low_cmd = to_lower(cmd.as_str());
    let mut k: usize = 0;
    while k < targets.len()
        invariant
            0 <= k <= targets.len(),
            low_name@ == lowercase(p.name@),
            low_cmd@ == lowercase(joined(p.cmd@)),
            forall|j: int| 0 <= j < k ==> !(#[trigger] targets@[j]).selects(*p, exact),
        decreases targets.len() - k,
    {
        if targets[k].hits(p.pid, &low_name, &low_cmd, exact) {
            return true;
        }
        k = k + 1;
    }
    false
}

/// Matches every target against the snapshot and unites the results: each
/// process that some target selects becomes one candidate, in listing order.
pub fn match_targets(snap: &Snapshot, targets: &Vec<Target>, exact: bool) -> (r: Vec<Candidate>)
    ensures
        candidate_views(r@) == candidates(snap@, targets@, exact),
{
    let ghost pred = selector(targets@, exact);
    let ghost conv = to_candidate();
    let mut out: Vec<Candidate> = Vec::new();
    let n = snap.len();
    let mut i: usize = 0;
    proof {
        reveal(Seq::filter);
        assert(snap@.take(0) =~= Seq::<ProcessInfo>::empty());
        assert(candidate_views(out@) =~= snap@.take(0).filter(pred).map_values(conv));
    }
    while i < n
        invariant
            0 <= i <= n,
            n == snap@.len(),
            pred == selector(targets@, exact),
            conv == to_candidate(),
            candidate_views(out@) == snap@.take(i as int).filter(pred).map_values(conv),
        decreases n - i,
    {
        let p = snap.at(i);
        proof {
            lemma_take_next(snap@, i as int);
            lemma_filter_push(snap@.take(i as int), snap@[i as int], pred);
        }
        if matches_any(targets, p, exact) {
            let c = Candidate { pid: p.pid, name: p.name.clone(), cmd: join_words(&p.cmd) };
            let ghost before = out@;
            out.push(c);
            proof {
                assert(c@ == candidate_of(*p));
                assert(candidate_views(out@) =~= candidate_views(before).push(c@));
                assert(snap@.take(i as int).filter(pred).push(*p).map_values(conv)
                    =~= snap@.take(i as int).filter(pred).map_values(conv).push(conv(*p)));
            }
        }
        i = i + 1;
    }
    proof {
        assert(snap@.take(n as int) =~= snap@);
    }
    out
}

/// Matches one target, given as text, against the snapshot.
pub fn match_target(snap: &Snapshot, text: &str, exact: bool) -> (r: Vec<Candidate>)
    ensures
        candidate_views(r@) == candidates_for_text(snap@, text@, exact),
{
    let t = Target::parse(text);
    let mut targets: Vec<Target> = Vec::new();
    targets.push(t);
    let r = match_targets(snap, &targets, exact);
    proof {
        let p1 = selector(targets@, exact);
        let p2 = text_selector(text@, exact);
        assert forall|p: ProcessInfo| #[trigger] p1(p) == p2(p) by {
            assert(targets@[0].selects(p, exact) == text_selects(text@, p, exact));
        }
        lemma_filter_agree(snap@, p1, p2);
    }
    r
}

/// A numeric target selects by identifier alone: the matching mode and the
/// names play no part.
pub proof fn numeric_target_selects_by_pid(text: Seq<char>, p: ProcessInfo, exact: bool)
    requires
        parsed_i32(text) is Some,
    ensures
        text_selects(text, p, exact) == (p.pid == pid_of(parsed_i32(text)->0)),
        text_selects(text, p, exact) == text_selects(text, p, !exact),
{
}

/// Within a snapshot a numeric target selects at most one process: the one
/// with that identifier if it is there, none otherwise.
pub proof fn numeric_target_yields_at_most_one(snap: Snapshot, text: Seq<char>, exact: bool)
    requires
        snap.wf(),
        parsed_i32(text) is Some,
    ensures
        candidates_for_text(snap@, text, exact).len() <= 1,
        forall|i: int|
            0 <= i < snap@.len() && snap@[i].pid == pid_of(parsed_i32(text)->0)
                ==> candidates_for_text(snap@, text, exact) == seq![candidate_of(snap@[i])],
        (forall|i: int| 0 <= i < snap@.len() ==> snap@[i].pid != pid_of(parsed_i32(text)->0))
            ==> candidates_for_text(snap@, text, exact).len() == 0,
{
    let pid = pid_of(parsed_i32(text)->0);
    let pred = text_selector(text, exact);
    lemma_filter_by_pid(snap@, pred, pid);
    assert forall|i: int| 0 <= i < snap@.len() && snap@[i].pid == pid implies candidates_for_text(
        snap@,
        text,
        exact,
    ) == seq![candidate_of(snap@[i])] by {
        assert(snap@.filter(pred) == seq![snap@[i]]);
        assert(seq![snap@[i]].map_values(to_candidate()) =~= seq![
            candidate_of(snap@[i]),
        ]);
    }
}

/// A process that several targets select becomes one candidate: no
/// identifier occurs twice among the candidates of a snapshot.
pub proof fn candidates_hold_each_pid_once(snap: Snapshot, targets: Seq<Target>, exact: bool)
    requires
        snap.wf(),
    ensures
        forall|i: int, j: int|
            0 <= i < j < candidates(snap@, targets, exact).len() ==> candidates(
                snap@,
                targets,
                exact,
            )[i].0 != candidates(snap@, targets, exact)[j].0,
{
    lemma_filter_keeps_distinct(snap@, selector(targets, exact));
}

/// The candidates of a pattern in substring mode hold every candidate that
/// the same pattern has in exact mode.
pub proof fn substring_candidates_hold_exact_candidates(procs: Seq<ProcessInfo>, text: Seq<char>)
    ensures
        forall|c: CandidateView|
            candidates_for_text(procs, text, true).contains(c) ==> candidates_for_text(
                procs,
                text,
                false,
            ).contains(c),
{
    let strict = procs.filter(text_selector(text, true));
    let loose = procs.filter(text_selector(text, false));
    assert forall|c: CandidateView| candidates_for_text(procs, text, true).contains(
        c,
    ) implies candidates_for_text(procs, text, false).contains(c) by {
        let k = choose|k: int|
            0 <= k < strict.map_values(to_candidate()).len() && strict.map_values(to_candidate())[k]
                == c;
        let p = strict[k];
        procs.lemma_filter_pred(text_selector(text, true), k);
        assert(strict.contains(p));
        procs.lemma_filter_contains_rev(text_selector(text, true), p);
        let j = choose|j: int| 0 <= j < procs.len() && procs[j] == p;
        if parsed_i32(text) is None {
            substring_pattern_selects_superset(text, p);
        }
        assert(text_selects(text, p, false));
        procs.lemma_filter_contains(text_selector(text, false), j);
        let m = choose|m: int| 0 <= m < loose.len() && loose[m] == p;
        assert(loose.map_values(to_candidate())[m] == c);
    }
}

/// In exact mode a pattern selects exactly the processes whose name equals
/// it when both are put in lower case.
pub proof fn exact_pattern_selects_equal_names(text: Seq<char>, p: ProcessInfo)
    requires
        parsed_i32(text) is None,
    ensures
        text_selects(text, p, true) == (lowercase(p.name@) == lowercase(text)),
{
}

/// In substring mode a pattern selects every process whose name or joined
/// command line holds it, both in lower case, and with them every process
/// that the exact mode selects.
pub proof fn substring_pattern_selects_superset(text: Seq<char>, p: ProcessInfo)
    requires
        parsed_i32(text) is None,
    ensures
        text_selects(text, p, false) == (occurs_in(lowercase(text), lowercase(p.name@))
            || occurs_in(lowercase(text), lowercase(joined(p.cmd@)))),
        text_selects(text, p, true) ==> text_selects(text, p, false),
{
    if text_selects(text, p, true) {
        lemma_occurs_in_self(lowercase(text));
    }
}

} // verus!
