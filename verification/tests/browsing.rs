use grim::model::{ProcessInfo, Snapshot};
use grim::screen::{
    cpu_level, details_of, memory_level, row_pids, selected_row, visible_list, visible_rows, Level,
};
use grim::session::{Effect, Key, Mode, Session};
use sysinfo::{System, SystemExt};

fn named(pid: u32, name: &str) -> ProcessInfo {
    ProcessInfo {
        pid,
        name: name.to_string(),
        cmd: vec!["chrome-in-the-command-line".to_string()],
        cpu_bits: 0,
        memory: 0,
        uptime: 0,
        parent: None,
    }
}

fn five() -> Snapshot {
    Snapshot::new(vec![
        named(1, "chrome"),
        named(2, "bash"),
        named(3, "Google Chrome Helper"),
        named(4, "sshd"),
        named(5, "CHROMEDRIVER"),
    ])
    .unwrap()
}

fn typed(s: &mut Session, text: &str, visible: &Vec<u32>) {
    for c in text.chars() {
        assert_eq!(s.handle_key(Key::Char(c), visible), Effect::Nothing);
    }
}

#[test]
fn a_new_session_is_at_rest() {
    let s = Session::new();
    assert_eq!(s.selected, 0);
    assert_eq!(s.filter, "");
    assert_eq!(s.mode, Mode::Normal);
    assert!(!s.kill_children && !s.force);
    assert_eq!(s.total_killed, 0);
}

#[test]
fn visible_rows_filter_by_name_without_case() {
    let snap = five();
    assert_eq!(visible_rows(&snap, ""), vec![1, 2, 3, 4, 5]);
    assert_eq!(visible_rows(&snap, "chrome"), vec![1, 3, 5]);
    assert_eq!(visible_rows(&snap, "ChRoMe h"), vec![3]);
    assert_eq!(visible_rows(&snap, "command"), Vec::<u32>::new());
}

#[test]
fn scenario_filter_leaves_three_rows_and_clamps() {
    let snap = five();
    let mut s = Session::new();
    let all = visible_rows(&snap, &s.filter);
    for _ in 0..10 {
        s.handle_key(Key::Down, &all);
    }
    assert_eq!(s.selected, 4);
    s.handle_key(Key::Char('/'), &all);
    typed(&mut s, "chrome", &all);
    s.handle_key(Key::Enter, &all);
    assert_eq!(s.mode, Mode::Normal);
    assert_eq!(s.filter, "chrome");
    let shown = visible_rows(&snap, &s.filter);
    assert_eq!(shown.len(), 3);
    s.clamp_selection(shown.len());
    assert_eq!(s.selected, 2);
    s.handle_key(Key::Down, &shown);
    assert_eq!(s.selected, 2);
}

#[test]
fn navigation_stays_within_the_rows() {
    let rows = vec![11, 12, 13];
    let mut s = Session::new();
    s.handle_key(Key::Up, &rows);
    assert_eq!(s.selected, 0);
    s.handle_key(Key::Down, &rows);
    s.handle_key(Key::Down, &rows);
    assert_eq!(s.selected, 2);
    s.handle_key(Key::Down, &rows);
    assert_eq!(s.selected, 2);
    s.handle_key(Key::Up, &rows);
    assert_eq!(s.selected, 1);
    // the list shrinks under the selection
    s.selected = 2;
    s.handle_key(Key::Other, &vec![11]);
    assert_eq!(s.selected, 0);
}

#[test]
fn an_empty_list_makes_kill_a_no_op() {
    let mut s = Session::new();
    let none: Vec<u32> = Vec::new();
    assert_eq!(s.handle_key(Key::Char('k'), &none), Effect::Nothing);
    assert_eq!(s.mode, Mode::Normal);
    s.force = true;
    assert_eq!(s.handle_key(Key::Char('k'), &none), Effect::Nothing);
    s.handle_key(Key::Down, &none);
    assert_eq!(s.selected, 0);
}

#[test]
fn toggles_flip_and_touch_nothing_else() {
    let rows = vec![1, 2];
    let mut s = Session::new();
    assert_eq!(s.handle_key(Key::Char('c'), &rows), Effect::Nothing);
    assert!(s.kill_children && !s.force);
    assert_eq!(s.handle_key(Key::Char('f'), &rows), Effect::Nothing);
    assert!(s.kill_children && s.force);
    s.handle_key(Key::Char('c'), &rows);
    s.handle_key(Key::Char('f'), &rows);
    assert!(!s.kill_children && !s.force);
    assert_eq!((s.selected, s.mode, s.total_killed), (0, Mode::Normal, 0));
}

#[test]
fn filter_editing() {
    let rows = vec![1, 2];
    let mut s = Session::new();
    s.handle_key(Key::Char('/'), &rows);
    assert_eq!(s.mode, Mode::FilterEdit);
    typed(&mut s, "abq/", &rows);
    assert_eq!(s.filter, "abq/");
    assert_eq!(s.mode, Mode::FilterEdit);
    s.handle_key(Key::Backspace, &rows);
    s.handle_key(Key::Backspace, &rows);
    assert_eq!(s.filter, "ab");
    s.handle_key(Key::Up, &rows);
    s.handle_key(Key::Down, &rows);
    assert_eq!(s.selected, 0);
    s.handle_key(Key::Enter, &rows);
    assert_eq!((s.mode, s.filter.as_str()), (Mode::Normal, "ab"));
    // opening the box again clears the text
    s.handle_key(Key::Char('/'), &rows);
    assert_eq!(s.filter, "");
    s.handle_key(Key::Backspace, &rows);
    assert_eq!(s.filter, "");
    typed(&mut s, "x", &rows);
    s.handle_key(Key::Esc, &rows);
    assert_eq!((s.mode, s.filter.as_str()), (Mode::Normal, ""));
}

#[test]
fn quit_only_from_normal_mode() {
    let rows = vec![1, 2];
    let mut s = Session::new();
    s.handle_key(Key::Char('/'), &rows);
    assert_eq!(s.handle_key(Key::Char('q'), &rows), Effect::Nothing);
    assert_eq!(s.filter, "q");
    s.handle_key(Key::Enter, &rows);
    s.handle_key(Key::Char('k'), &rows);
    assert_eq!(s.mode, Mode::Confirm { pid: 1, yes: true });
    assert_eq!(s.handle_key(Key::Char('q'), &rows), Effect::Nothing);
    assert_eq!(s.mode, Mode::Confirm { pid: 1, yes: true });
    s.handle_key(Key::Esc, &rows);
    assert_eq!(s.handle_key(Key::Char('q'), &rows), Effect::Quit);
}

#[test]
fn kill_with_force_needs_no_dialog() {
    let rows = vec![7, 8, 9];
    let mut s = Session::new();
    s.handle_key(Key::Char('f'), &rows);
    s.handle_key(Key::Down, &rows);
    assert_eq!(s.handle_key(Key::Char('k'), &rows), Effect::Kill(8));
    assert_eq!(s.mode, Mode::Normal);
}

#[test]
fn dialog_yes_kills_and_escape_cancels() {
    let rows = vec![7, 8, 9];
    let mut s = Session::new();
    s.handle_key(Key::Down, &rows);
    s.handle_key(Key::Down, &rows);
    assert_eq!(s.handle_key(Key::Char('k'), &rows), Effect::Nothing);
    assert_eq!(s.mode, Mode::Confirm { pid: 9, yes: true });
    assert_eq!(s.handle_key(Key::Char('x'), &rows), Effect::Nothing);
    assert_eq!(s.handle_key(Key::Up, &rows), Effect::Nothing);
    assert_eq!(s.mode, Mode::Confirm { pid: 9, yes: true });
    assert_eq!(s.handle_key(Key::Enter, &rows), Effect::Kill(9));
    assert_eq!(s.mode, Mode::Normal);
    s.handle_key(Key::Char('k'), &rows);
    assert_eq!(s.handle_key(Key::Esc, &rows), Effect::Nothing);
    assert_eq!(s.mode, Mode::Normal);
    s.handle_key(Key::Char('k'), &rows);
    s.handle_key(Key::Right, &rows);
    s.handle_key(Key::Left, &rows);
    assert_eq!(s.handle_key(Key::Enter, &rows), Effect::Kill(9));
}

#[test]
fn scenario_left_then_enter_does_not_kill() {
    let rows = vec![7, 8, 9];
    let mut s = Session::new();
    s.handle_key(Key::Char('k'), &rows);
    assert_eq!(s.mode, Mode::Confirm { pid: 7, yes: true });
    assert_eq!(s.handle_key(Key::Left, &rows), Effect::Nothing);
    assert_eq!(s.mode, Mode::Confirm { pid: 7, yes: false });
    assert_eq!(s.handle_key(Key::Enter, &rows), Effect::Nothing);
    assert_eq!(s.mode, Mode::Normal);
    assert_eq!(s.total_killed, 0);
}

#[test]
fn perform_kill_counts_only_accepted_requests() {
    let sys = System::new();
    let snap = Snapshot::new(vec![
        ProcessInfo { parent: Some(4_000_000_001), ..named(4_000_000_002, "kid") },
        named(4_000_000_001, "top"),
    ])
    .unwrap();
    let mut s = Session::new();
    s.kill_children = true;
    s.total_killed = 3;
    let out = s.perform_kill(&sys, &snap, 4_000_000_001);
    assert_eq!(out.iter().map(|o| o.pid).collect::<Vec<u32>>(), vec![4_000_000_002, 4_000_000_001]);
    assert!(out.iter().all(|o| !o.killed));
    assert_eq!(s.total_killed, 3);
    assert!(s.kill_children);
}

#[test]
fn display_levels() {
    assert_eq!(cpu_level(0.0f32.to_bits()), Level::Low);
    assert_eq!(cpu_level(19.99f32.to_bits()), Level::Low);
    assert_eq!(cpu_level(20.0f32.to_bits()), Level::Medium);
    assert_eq!(cpu_level(49.99f32.to_bits()), Level::Medium);
    assert_eq!(cpu_level(50.0f32.to_bits()), Level::High);
    assert_eq!(cpu_level(800.0f32.to_bits()), Level::High);
    assert_eq!(cpu_level(f32::INFINITY.to_bits()), Level::High);
    assert_eq!(cpu_level(f32::NAN.to_bits()), Level::High);
    assert_eq!(cpu_level((-f32::NAN).to_bits()), Level::High);
    assert_eq!(cpu_level((-0.0f32).to_bits()), Level::Low);
    assert_eq!(cpu_level((-3.5f32).to_bits()), Level::Low);
    assert_eq!(cpu_level(f32::NEG_INFINITY.to_bits()), Level::Low);
    assert_eq!(memory_level(49_999), Level::Low);
    assert_eq!(memory_level(50_000), Level::Medium);
    assert_eq!(memory_level(199_999), Level::Medium);
    assert_eq!(memory_level(200_000), Level::High);
}

#[test]
fn visible_list_carries_readings_and_levels() {
    let snap = Snapshot::new(vec![
        ProcessInfo { cpu_bits: 19.5f32.to_bits(), memory: 50_000, uptime: 7, ..named(1, "Alpha") },
        ProcessInfo { cpu_bits: 50.0f32.to_bits(), memory: 10, uptime: 8, ..named(2, "beta") },
        ProcessInfo { cpu_bits: 20.0f32.to_bits(), memory: 200_000, uptime: 9, ..named(3, "ALPHABET") },
    ])
    .unwrap();
    let rows = visible_list(&snap, "alpha");
    assert_eq!(row_pids(&rows), vec![1, 3]);
    assert_eq!(row_pids(&rows), visible_rows(&snap, "alpha"));
    assert_eq!(rows[0].name, "Alpha");
    assert_eq!((f32::from_bits(rows[0].cpu_bits), rows[0].cpu_level), (19.5, Level::Low));
    assert_eq!((rows[0].memory, rows[0].memory_level), (50_000, Level::Medium));
    assert_eq!(rows[0].uptime, 7);
    assert_eq!((rows[1].cpu_level, rows[1].memory_level), (Level::Medium, Level::High));
    assert_eq!(visible_list(&snap, "").len(), 3);
    assert_eq!(visible_list(&snap, "").get(1).map(|r| r.cpu_level), Some(Level::High));
    assert!(visible_list(&snap, "gamma").is_empty());
}

#[test]
fn details_of_a_process_list_its_children() {
    let snap = Snapshot::new(vec![
        ProcessInfo { parent: Some(2), ..named(1, "kid") },
        ProcessInfo { parent: None, cpu_bits: 3, memory: 4, uptime: 5, ..named(2, "top") },
        ProcessInfo { parent: Some(1), ..named(3, "grandkid") },
        ProcessInfo { parent: Some(2), cmd: vec!["a".to_string(), "b".to_string()], ..named(4, "other") },
    ])
    .unwrap();
    let top = details_of(&snap, 2).unwrap();
    assert_eq!((top.pid, top.name.as_str(), top.parent), (2, "top", None));
    assert_eq!((top.cpu_bits, top.memory, top.uptime), (3, 4, 5));
    assert_eq!(top.children.iter().map(|c| c.pid).collect::<Vec<u32>>(), vec![1, 4]);
    let other = details_of(&snap, 4).unwrap();
    assert_eq!(other.cmd, "a b");
    assert_eq!(other.parent, Some(2));
    assert!(other.children.is_empty());
    assert!(details_of(&snap, 9).is_none());
}

#[test]
fn selected_row_is_clamped_or_absent() {
    assert_eq!(selected_row(0, 0), None);
    assert_eq!(selected_row(5, 0), None);
    assert_eq!(selected_row(0, 3), Some(0));
    assert_eq!(selected_row(2, 3), Some(2));
    assert_eq!(selected_row(3, 3), Some(2));
    assert_eq!(selected_row(usize::MAX, 1), Some(0));
}
