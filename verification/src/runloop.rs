//! The scripted run: its settings, as read from the command line, and the
//! stop conditions of its loop.

use vstd::prelude::*;
use vstd::string::*;
use crate::text::{parse_i32, parsed_i32};

verus! {

/// The settings of a run.
#[derive(Debug)]
pub struct Config {
    pub force: bool,
    pub interactive: bool,
    pub kill_children: bool,
    pub exact: bool,
    pub watch: bool,
    /// Seconds between two passes of a watch.
    pub interval: u64,
    /// Stop once this many processes were killed.
    pub max_kills: Option<u64>,
    /// Stop once this many seconds have passed.
    pub timeout: Option<u64>,
    pub targets: Vec<String>,
}

/// The settings as plain values.
pub struct Settings {
    pub force: bool,
    pub interactive: bool,
    pub kill_children: bool,
    pub exact: bool,
    pub watch: bool,
    pub interval: u64,
    pub max_kills: Option<u64>,
    pub timeout: Option<u64>,
    pub targets: Seq<Seq<char>>,
}

/// What a command line asks for.
#[derive(Debug)]
pub enum Invocation {
    /// Show the help text.
    Help,
    /// Open the interactive browser.
    Interactive(Config),
    /// Run the scripted loop.
    Run(Config),
}

/// Why a command line cannot be run.
#[derive(Debug, Clone, Copy, PartialEq, Eq, Structural)]
pub enum ConfigError {
    /// A scripted run was asked for and no target was named.
    MissingTargets,
}

/// The interval where none is given or the one given cannot be read.
pub const DEFAULT_INTERVAL: u64 = 2;

/// The settings before any argument is read.
pub open spec fn defaults() -> Settings {
    Settings {
        force: false,
        interactive: false,
        kill_children: false,
        exact: false,
        watch: false,
        interval: DEFAULT_INTERVAL,
        max_kills: None,
        timeout: None,
        targets: Seq::empty(),
    }
}

/// The count that a reading gives: the integer where there is one and it is
/// not negative, `fallback` otherwise.
pub open spec fn count_from(parsed: Option<i32>, fallback: u64) -> u64 {
    match parsed {
        Some(n) => if n >= 0 {
            n as u64
        } else {
            fallback
        },
        None => fallback,
    }
}

/// The count that a text gives: the integer it denotes where that is not
/// negative, `fallback` otherwise.
pub open spec fn count_or(text: Seq<char>, fallback: u64) -> u64 {
    count_from(parsed_i32(text), fallback)
}

/// The arguments as plain values.
pub open spec fn arg_views(args: Seq<String>) -> Seq<Seq<char>> {
    args.map_values(|a: String| a@)
}

/// Reads the arguments from position `i` on into `acc`. `None` stands for a
/// request for help, which ends the reading wherever it occurs. A flag that
/// takes a value and stands last is passed over; any argument that is no
/// flag is a target.
pub open spec fn scan(args: Seq<Seq<char>>, i: int, acc: Settings) -> Option<Settings>
    decreases args.len() - i,
{
    if i < 0 || i >= args.len() {
        Some(acc)
    } else if args[i] == "--help"@ {
        None
    } else if args[i] == "--force"@ {
        scan(args, i + 1, Settings { force: true, ..acc })
    } else if args[i] == "--interactive"@ {
        scan(args, i + 1, Settings { interactive: true, ..acc })
    } else if args[i] == "--kill-children"@ {
        scan(args, i + 1, Settings { kill_children: true, ..acc })
    } else if args[i] == "--exact"@ {
        scan(args, i + 1, Settings { exact: true, ..acc })
    } else if args[i] == "--watch"@ {
        scan(args, i + 1, Settings { watch: true, ..acc })
    } else if args[i] == "--interval"@ {
        if i + 1 < args.len() {
            scan(args, i + 2, Settings { interval: count_or(args[i + 1], DEFAULT_INTERVAL), ..acc })
        } else {
            Some(acc)
        }
    } else if args[i] == "--max"@ {
        if i + 1 < args.len() {
            scan(args, i + 2, Settings { max_kills: Some(count_or(args[i + 1], 0)), ..acc })
        } else {
            Some(acc)
        }
    } else if args[i] == "--timeout"@ {
        if i + 1 < args.len() {
            scan(args, i + 2, Settings { timeout: Some(count_or(args[i + 1], 0)), ..acc })
        } else {
            Some(acc)
        }
    } else {
        scan(args, i + 1, Settings { targets: acc.targets.push(args[i]), ..acc })
    }
}

/// What the arguments ask for: help wherever `--help` is read; the browser
/// where `--interactive` stands; else a run, which needs a target.
pub open spec fn invocation(args: Seq<Seq<char>>) -> Result<Option<(bool, Settings)>, ConfigError> {
    match scan(args, 0, defaults()) {
        None => Ok(None),
        Some(s) => if s.interactive {
            Ok(Some((true, s)))
        } else if s.targets.len() == 0 {
            Err(ConfigError::MissingTargets)
        } else {
            Ok(Some((false, s)))
        },
    }
}

impl Config {
    pub open spec fn view(&self) -> Settings {
        Settings {
            force: self.force,
            interactive: self.interactive,
            kill_children: self.kill_children,
            exact: self.exact,
            watch: self.watch,
            interval: self.interval,
            max_kills: self.max_kills,
            timeout: self.timeout,
            targets: arg_views(self.targets@),
        }
    }
}

impl Invocation {
    /// The invocation as plain values: nothing for help, else whether the
    /// browser is asked for, and the settings.
    pub open spec fn view(&self) -> Option<(bool, Settings)> {
        match self {
            Invocation::Help => None,
            Invocation::Interactive(c) => Some((true, c@)),
            Invocation::Run(c) => Some((false, c@)),
        }
    }
}

/// Turns a reading into a count: the integer where there is one and it is
/// not negative, `fallback` otherwise.
pub fn count_of(parsed: Option<i32>, fallback: u64) -> (r: u64)
    ensures
        r == count_from(parsed, fallback),
{
    match parsed {
        Some(n) => if n >= 0 {
            n as u64
        } else {
            fallback
        },
        None => fallback,
    }
}

/// Reads a count: the integer that the text denotes where that is not
/// negative, `fallback` otherwise.
pub fn read_count(text: &str, fallback: u64) -> (r: u64)
    ensures
        r == count_or(text@, fallback),
{
    count_of(parse_i32(text), fallback)
}

/// Reads the command line, without the program's name. A scripted run
/// without a target is the one error.
pub fn parse_args(args: &Vec<String>) -> (r: Result<Invocation, ConfigError>)
    ensures
        match invocation(arg_views(args@)) {
            Ok(v) => r is Ok && r->Ok_0@ == v,
            Err(e) => r == Err::<Invocation, ConfigError>(e),
        },
{
    let help = String::from_str("--help");
    let force = String::from_str("--force");
    let interactive = String::from_str("--interactive");
    let kill_children = String::from_str("--kill-children");
    let exact = String::from_str("--exact");
    let watch = String::from_str("--watch");
    let interval = String::from_str("--interval");
    let max = String::from_str("--max");
    let timeout = String::from_str("--timeout");
    let mut cfg = Config {
        force: false,
        interactive: false,
        kill_children: false,
        exact: false,
        watch: false,
        interval: DEFAULT_INTERVAL,
        max_kills: None,
        timeout: None,
        targets: Vec::new(),
    };
    let ghost av = arg_views(args@);
    proof {
        assert(cfg@.targets =~= Seq::<Seq<char>>::empty());
        assert(cfg@ == defaults());
    }
    let mut i: usize = 0;
    while i < args.len()
        invariant
            0 <= i <= args.len(),
            av == arg_views(args@),
            help@ == "--help"@,
            force@ == "--force"@,
            interactive@ == "--interactive"@,
            kill_children@ == "--kill-children"@,
            exact@ == "--exact"@,
            watch@ == "--watch"@,
            interval@ == "--interval"@,
            max@ == "--max"@,
            timeout@ == "--timeout"@,
            scan(av, i as int, cfg@) == scan(av, 0, defaults()),
        decreases args.len() - i,
    {
        let a = &args[i];
        let has_value = i + 1 < args.len();
        proof {
            assert(av[i as int] == a@);
            if has_value {
                assert(av[i + 1] == args@[i + 1]@);
            }
        }
        if *a == help {
            return Ok(Invocation::Help);
        } else if *a == force {
            cfg.force = true;
        } else if *a == interactive {
            cfg.interactive = true;
        } else if *a == kill_children {
            cfg.kill_children = true;
        } else if *a == exact {
            cfg.exact = true;
        } else if *a == watch {
            cfg.watch = true;
        } else if *a == interval {
            if has_value {
                cfg.interval = read_count(args[i + 1].as_str(), DEFAULT_INTERVAL);
                i = i + 1;
            }
        } else if *a == max {
            if has_value {
                cfg.max_kills = Some(read_count(args[i + 1].as_str(), 0));
                i = i + 1;
            }
        } else if *a == timeout {
            if has_value {
                cfg.timeout = Some(read_count(args[i + 1].as_str(), 0));
                i = i + 1;
            }
        } else {
            let ghost before = cfg@.targets;
            cfg.targets.push(a.clone());
            proof {
                assert(cfg@.targets =~= before.push(a@));
            }
        }
        i = i + 1;
    }
    if cfg.interactive {
        Ok(Invocation::Interactive(cfg))
    } else if cfg.targets.len() == 0 {
        Err(ConfigError::MissingTargets)
    } else {
        Ok(Invocation::Run(cfg))
    }
}

/// The states of the scripted loop.
#[derive(Debug, Clone, Copy, PartialEq, Eq, Structural)]
pub enum Phase {
    /// Take a snapshot and match the targets.
    Polling,
    /// Apply the kill policy to each candidate.
    PerTargetKill,
    /// Test the stop conditions.
    StopCheck,
    /// Wait before the next pass.
    WaitInterval,
    /// The run is over.
    Done,
}

/// Why a run ends, or that it goes on.
#[derive(Debug, Clone, Copy, PartialEq, Eq, Structural)]
pub enum Verdict {
    /// The kill count has reached the limit.
    MaxReached,
    /// The time limit has passed.
    TimedOut,
    /// There is no watch: one pass was all.
    SinglePass,
    /// Wait, then poll again.
    Continue,
}

/// The verdict of a stop check: the kill limit is tested first, then the
/// time limit, then whether the run watches at all.
pub open spec fn verdict(s: Settings, total_killed: u64, elapsed: u64) -> Verdict {
    if s.max_kills is Some && total_killed >= s.max_kills->0 {
        Verdict::MaxReached
    } else if s.timeout is Some && elapsed >= s.timeout->0 {
        Verdict::TimedOut
    } else if !s.watch {
        Verdict::SinglePass
    } else {
        Verdict::Continue
    }
}

/// The state that follows `phase`.
pub open spec fn next_phase(phase: Phase, s: Settings, total_killed: u64, elapsed: u64) -> Phase {
    match phase {
        Phase::Polling => Phase::PerTargetKill,
        Phase::PerTargetKill => Phase::StopCheck,
        Phase::StopCheck => if verdict(s, total_killed, elapsed) == Verdict::Continue {
            Phase::WaitInterval
        } else {
            Phase::Done
        },
        Phase::WaitInterval => Phase::Polling,
        Phase::Done => Phase::Done,
    }
}

/// Tests the stop conditions after a pass, given the kill count so far and
/// the seconds since the run began.
pub fn stop_check(cfg: &Config, total_killed: u64, elapsed: u64) -> (v: Verdict)
    ensures
        v == verdict(cfg@, total_killed, elapsed),
{
    if let Some(max) = cfg.max_kills {
        if total_killed >= max {
            return Verdict::MaxReached;
        }
    }
    if let Some(limit) = cfg.timeout {
        if elapsed >= limit {
            return Verdict::TimedOut;
        }
    }
    if !cfg.watch {
        Verdict::SinglePass
    } else {
        Verdict::Continue
    }
}

/// Moves the loop on by one state.
pub fn advance(phase: Phase, cfg: &Config, total_killed: u64, elapsed: u64) -> (next: Phase)
    ensures
        next == next_phase(phase, cfg@, total_killed, elapsed),
{
    match phase {
        Phase::Polling => Phase::PerTargetKill,
        Phase::PerTargetKill => Phase::StopCheck,
        Phase::StopCheck => match stop_check(cfg, total_killed, elapsed) {
            Verdict::Continue => Phase::WaitInterval,
            _ => Phase::Done,
        },
        Phase::WaitInterval => Phase::Polling,
        Phase::Done => Phase::Done,
    }
}

/// The state of a scripted run: where its loop stands and how many
/// processes it has killed. The time that has passed is handed in with
/// each step.
#[derive(Debug, Clone, Copy, PartialEq, Eq, Structural)]
pub struct RunState {
    pub phase: Phase,
    pub total_killed: u64,
}

impl RunState {
    /// A run at its start: about to poll, nothing killed.
    pub fn new() -> (s: RunState)
        ensures
            s == (RunState { phase: Phase::Polling, total_killed: 0 }),
    {
        RunState { phase: Phase::Polling, total_killed: 0 }
    }

    /// Whether the run is over.
    pub fn is_done(&self) -> (r: bool)
        ensures
            r == (self.phase == Phase::Done),
    {
        match self.phase {
            Phase::Done => true,
            _ => false,
        }
    }

    /// Moves the loop on by one state, `elapsed` seconds after the run
    /// began. The count is left as it is: only a kill sequence changes it.
    pub fn step(&mut self, cfg: &Config, elapsed: u64)
        ensures
            final(self).phase == next_phase(old(self).phase, cfg@, old(self).total_killed, elapsed),
            final(self).total_killed == old(self).total_killed,
    {
        self.phase = advance(self.phase, cfg, self.total_killed, elapsed);
    }
}

/// With a kill limit of zero the first stop check ends the run, whatever
/// was killed and however long it took, and no state that follows asks for
/// another pass.
pub proof fn zero_limit_stops_at_first_check(s: Settings, total_killed: u64, elapsed: u64)
    requires
        s.max_kills == Some(0u64),
    ensures
        verdict(s, total_killed, elapsed) == Verdict::MaxReached,
        next_phase(Phase::StopCheck, s, total_killed, elapsed) == Phase::Done,
        next_phase(Phase::Done, s, total_killed, elapsed) == Phase::Done,
{
}

/// With a kill limit of zero a run is one pass: three steps from its start
/// it is done, whatever the pass killed and however long each step took.
pub proof fn zero_limit_run_is_one_pass(s: Settings, totals: (u64, u64, u64), times: (u64, u64, u64))
    requires
        s.max_kills == Some(0u64),
    ensures
        next_phase(
            next_phase(next_phase(Phase::Polling, s, totals.0, times.0), s, totals.1, times.1),
            s,
            totals.2,
            times.2,
        ) == Phase::Done,
{
}

/// Without a watch a run is one pass, with or without limits.
pub proof fn single_run_is_one_pass(s: Settings, totals: (u64, u64, u64), times: (u64, u64, u64))
    requires
        !s.watch,
    ensures
        next_phase(
            next_phase(next_phase(Phase::Polling, s, totals.0, times.0), s, totals.1, times.1),
            s,
            totals.2,
            times.2,
        ) == Phase::Done,
{
}

/// Once the kill limit is reached it stays reached as the count grows.
pub proof fn limit_stays_reached(s: Settings, total: u64, later: u64, elapsed: u64, after: u64)
    requires
        verdict(s, total, elapsed) == Verdict::MaxReached,
        later >= total,
    ensures
        verdict(s, later, after) == Verdict::MaxReached,
{
}

} // verus!
