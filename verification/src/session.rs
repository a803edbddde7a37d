//! The interactive browser as a modal state machine.

use vstd::prelude::*;
use vstd::string::*;
use sysinfo::System;
use crate::model::{KillOutcome, ProcessInfo, Snapshot};
use crate::policy::{kill_plan, killed_count, resolve, Flags};
use crate::provider::outcome_targets;
use crate::text::{lowercase, occurs_in, pop_char, push_char};

verus! {

/// The mode of the browser.
#[derive(Debug, Clone, Copy, PartialEq, Eq, Structural)]
pub enum Mode {
    /// Navigation.
    Normal,
    /// The filter text is being typed.
    FilterEdit,
    /// A dialog asks whether to kill `pid`; `yes` is the choice that is lit.
    Confirm { pid: u32, yes: bool },
}

/// A key press, as far as the browser tells keys apart.
#[derive(Debug, Clone, Copy, PartialEq, Eq, Structural)]
pub enum Key {
    Char(char),
    Enter,
    Esc,
    Backspace,
    Up,
    Down,
    Left,
    Right,
    Other,
}

/// What the caller has to do after a key press.
#[derive(Debug, Clone, Copy, PartialEq, Eq, Structural)]
pub enum Effect {
    Nothing,
    /// End the session.
    Quit,
    /// Run the kill sequence for this process now.
    Kill(u32),
}

/// The state of an interactive session.
#[derive(Debug)]
pub struct Session {
    pub selected: usize,
    pub filter: String,
    pub mode: Mode,
    pub kill_children: bool,
    pub force: bool,
    pub total_killed: u64,
}

/// A session as plain values.
pub struct SessionView {
    pub selected: usize,
    pub filter: Seq<char>,
    pub mode: Mode,
    pub kill_children: bool,
    pub force: bool,
    pub total_killed: u64,
}

/// The selection brought into a list of `len` rows: the last row where it
/// lay beyond it, itself otherwise. With no row it stays as it is.
pub open spec fn clamped(selected: usize, len: nat) -> usize {
    if len > 0 && selected >= len {
        (len - 1) as usize
    } else {
        selected
    }
}

/// The test "the filter is empty or a part of its name", without regard to
/// case.
pub open spec fn name_test(filter: Seq<char>) -> spec_fn(ProcessInfo) -> bool {
    |p: ProcessInfo| filter.len() == 0 || occurs_in(lowercase(filter), lowercase(p.name@))
}

/// The step from a process to its identifier.
pub open spec fn to_pid() -> spec_fn(ProcessInfo) -> u32 {
    |p: ProcessInfo| p.pid
}

/// The identifiers of the rows that a filter lets through, in listing order.
pub open spec fn visible_pids(procs: Seq<ProcessInfo>, filter: Seq<char>) -> Seq<u32> {
    procs.filter(name_test(filter)).map_values(to_pid())
}

/// A key press in the confirmation dialog for `pid`.
pub open spec fn step_confirm(s: SessionView, pid: u32, yes: bool, key: Key) -> (
    SessionView,
    Effect,
) {
    match key {
        Key::Left | Key::Right => (
            SessionView { mode: Mode::Confirm { pid, yes: !yes }, ..s },
            Effect::Nothing,
        ),
        Key::Enter => (
            SessionView { mode: Mode::Normal, ..s },
            if yes {
                Effect::Kill(pid)
            } else {
                Effect::Nothing
            },
        ),
        Key::Esc => (SessionView { mode: Mode::Normal, ..s }, Effect::Nothing),
        _ => (s, Effect::Nothing),
    }
}

/// A key press while the filter is typed.
pub open spec fn step_filter(s: SessionView, key: Key) -> (SessionView, Effect) {
    match key {
        Key::Enter => (SessionView { mode: Mode::Normal, ..s }, Effect::Nothing),
        Key::Esc => (
            SessionView { mode: Mode::Normal, filter: Seq::empty(), ..s },
            Effect::Nothing,
        ),
        Key::Char(c) => (SessionView { filter: s.filter.push(c), ..s }, Effect::Nothing),
        Key::Backspace => (
            SessionView {
                filter: if s.filter.len() > 0 {
                    s.filter.drop_last()
                } else {
                    s.filter
                },
                ..s
            },
            Effect::Nothing,
        ),
        _ => (s, Effect::Nothing),
    }
}

/// A key press in normal mode, over the rows that are visible.
pub open spec fn step_normal(s: SessionView, key: Key, visible: Seq<u32>) -> (SessionView, Effect) {
    match key {
        Key::Char(c) => if c == '/' {
            (SessionView { mode: Mode::FilterEdit, filter: Seq::empty(), ..s }, Effect::Nothing)
        } else if c == 'q' {
            (s, Effect::Quit)
        } else if c == 'c' {
            (SessionView { kill_children: !s.kill_children, ..s }, Effect::Nothing)
        } else if c == 'f' {
            (SessionView { force: !s.force, ..s }, Effect::Nothing)
        } else if c == 'k' && s.selected < visible.len() {
            if s.force {
                (s, Effect::Kill(visible[s.selected as int]))
            } else {
                (
                    SessionView {
                        mode: Mode::Confirm { pid: visible[s.selected as int], yes: true },
                        ..s
                    },
                    Effect::Nothing,
                )
            }
        } else {
            (s, Effect::Nothing)
        },
        Key::Down => (
            SessionView {
                selected: if s.selected + 1 < visible.len() {
                    (s.selected + 1) as usize
                } else {
                    s.selected
                },
                ..s
            },
            Effect::Nothing,
        ),
        Key::Up => (
            SessionView {
                selected: if s.selected > 0 {
                    (s.selected - 1) as usize
                } else {
                    s.selected
                },
                ..s
            },
            Effect::Nothing,
        ),
        _ => (s, Effect::Nothing),
    }
}

/// One cycle of the session: the selection is brought into the visible
/// rows, then the key is handled in the current mode.
pub open spec fn step(s: SessionView, key: Key, visible: Seq<u32>) -> (SessionView, Effect) {
    let c = SessionView { selected: clamped(s.selected, visible.len()), ..s };
    match c.mode {
        Mode::Confirm { pid, yes } => step_confirm(c, pid, yes, key),
        Mode::FilterEdit => step_filter(c, key),
        Mode::Normal => step_normal(c, key, visible),
    }
}

/// The session after a series of cycles, each with its key and the rows
/// that were visible then.
pub open spec fn run(s: SessionView, events: Seq<(Key, Seq<u32>)>) -> SessionView
    decreases events.len(),
{
    if events.len() == 0 {
        s
    } else {
        step(run(s, events.drop_last()), events.last().0, events.last().1).0
    }
}

impl Session {
    pub open spec fn view(&self) -> SessionView {
        SessionView {
            selected: self.selected,
            filter: self.filter@,
            mode: self.mode,
            kill_children: self.kill_children,
            force: self.force,
            total_killed: self.total_killed,
        }
    }

    /// A session at its start: normal mode, first row, no filter, both
    /// toggles off, nothing killed.
    pub fn new() -> (s: Session)
        ensures
            s@ == (SessionView {
                selected: 0,
                filter: Seq::empty(),
                mode: Mode::Normal,
                kill_children: false,
                force: false,
                total_killed: 0,
            }),
    {
        Session {
            selected: 0,
            filter: String::new(),
            mode: Mode::Normal,
            kill_children: false,
            force: false,
            total_killed: 0,
        }
    }

    /// Brings the selection into a list of `len` rows.
    pub fn clamp_selection(&mut self, len: usize)
        ensures
            final(self)@ == (SessionView { selected: clamped(old(self).selected, len as nat), ..old(self)@ }),
            len > 0 ==> final(self).selected < len,
    {
        if len > 0 && self.selected >= len {
            self.selected = len - 1;
        }
    }

    /// Handles one key press over the identifiers of the visible rows and
    /// says what the caller has to do. No key changes the kill count, and
    /// with a row to show the selection ends on one.
    pub fn handle_key(&mut self, key: Key, visible: &Vec<u32>) -> (effect: Effect)
        ensures
            (final(self)@, effect) == step(old(self)@, key, visible@),
            final(self).total_killed == old(self).total_killed,
            visible@.len() > 0 ==> final(self).selected < visible@.len(),
            effect is Quit <==> old(self).mode is Normal && key == Key::Char('q'),
    {
        self.clamp_selection(visible.len());
        match self.mode {
            Mode::Confirm { pid, yes } => match key {
                Key::Left | Key::Right => {
                    self.mode = Mode::Confirm { pid, yes: !yes };
                    Effect::Nothing
                },
                Key::Enter => {
                    self.mode = Mode::Normal;
                    if yes {
                        Effect::Kill(pid)
                    } else {
                        Effect::Nothing
                    }
                },
                Key::Esc => {
                    self.mode = Mode::Normal;
                    Effect::Nothing
                },
                _ => Effect::Nothing,
            },
            Mode::FilterEdit => {
                match key {
                    Key::Enter => {
                        self.mode = Mode::Normal;
                    },
                    Key::Esc => {
                        self.mode = Mode::Normal;
                        self.filter = String::new();
                    },
                    Key::Char(c) => {
                        push_char(&mut self.filter, c);
                    },
                    Key::Backspace => {
                        pop_char(&mut self.filter);
                    },
                    _ => {},
                }
                Effect::Nothing
            },
            Mode::Normal => match key {
                Key::Char(c) => {
                    if c == '/' {
                        self.mode = Mode::FilterEdit;
                        self.filter = String::new();
                        Effect::Nothing
                    } else if c == 'q' {
                        Effect::Quit
                    } else if c == 'c' {
                        self.kill_children = !self.kill_children;
                        Effect::Nothing
                    } else if c == 'f' {
                        self.force = !self.force;
                        Effect::Nothing
                    } else if c == 'k' && self.selected < visible.len() {
                        let pid = visible[self.selected];
                        if self.force {
                            Effect::Kill(pid)
                        } else {
                            self.mode = Mode::Confirm { pid, yes: true };
                            Effect::Nothing
                        }
                    } else {
                        Effect::Nothing
                    }
                },
                Key::Down => {
                    if self.selected < visible.len() && self.selected + 1 < visible.len() {
                        self.selected = self.selected + 1;
                    }
                    Effect::Nothing
                },
                Key::Up => {
                    if self.selected > 0 {
                        self.selected = self.selected - 1;
                    }
                    Effect::Nothing
                },
                _ => Effect::Nothing,
            },
        }
    }

    /// Runs the kill sequence that a key press asked for: the children of
    /// `pid` first where they are included, then `pid` itself. The count
    /// grows by one for each request that was accepted; nothing else of the
    /// session changes.
    pub fn perform_kill(&mut self, sys: &System, snap: &Snapshot, pid: u32) -> (r: Vec<KillOutcome>)
        requires
            old(self).total_killed + snap@.len() + 1 <= u64::MAX,
        ensures
            outcome_targets(r@) == kill_plan(snap@, pid, old(self).kill_children),
            final(self)@ == (SessionView {
                total_killed: (old(self).total_killed + killed_count(r@)) as u64,
                ..old(self)@
            }),
            final(self).total_killed >= old(self).total_killed,
    {
        let flags = Flags { force: self.force, kill_children: self.kill_children };
        let mut total = self.total_killed;
        let r = resolve(sys, snap, pid, flags, true, &mut total);
        self.total_killed = total;
        r
    }
}

/// After any series of cycles the selection lies on a row, wherever the last
/// cycle had a row to show; with none, no key asks for a kill.
pub proof fn selection_always_valid(s: SessionView, events: Seq<(Key, Seq<u32>)>)
    requires
        events.len() > 0,
    ensures
        events.last().1.len() > 0 ==> run(s, events).selected < events.last().1.len(),
        events.last().1.len() == 0 && !(run(s, events.drop_last()).mode is Confirm) ==> !(step(
            run(s, events.drop_last()),
            events.last().0,
            events.last().1,
        ).1 is Kill),
{
}

/// No key press changes the kill count, and so no series of them does.
pub proof fn keys_keep_the_count(s: SessionView, events: Seq<(Key, Seq<u32>)>)
    ensures
        forall|key: Key, visible: Seq<u32>|
            (#[trigger] step(s, key, visible)).0.total_killed == s.total_killed,
        run(s, events).total_killed == s.total_killed,
    decreases events.len(),
{
    if events.len() > 0 {
        keys_keep_the_count(s, events.drop_last());
    }
}

/// A dialog that opened on yes, then saw left and Enter, closes without a
/// kill.
pub proof fn left_then_enter_declines(s: SessionView, pid: u32, visible: Seq<u32>)
    requires
        s.mode == (Mode::Confirm { pid, yes: true }),
    ensures
        step(step(s, Key::Left, visible).0, Key::Enter, visible).1 == Effect::Nothing,
        step(step(s, Key::Left, visible).0, Key::Enter, visible).0.mode == Mode::Normal,
{
}

} // verus!
