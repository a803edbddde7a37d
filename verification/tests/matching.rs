use grim::matcher::{match_target, match_targets, matches_any, Target};
use grim::model::{ProcessInfo, Snapshot};
use grim::text::{is_affirmative, join_words};

fn process(pid: u32, name: &str, cmd: &[&str], parent: Option<u32>) -> ProcessInfo {
    ProcessInfo {
        pid,
        name: name.to_string(),
        cmd: cmd.iter().map(|s| s.to_string()).collect(),
        cpu_bits: 0,
        memory: 0,
        uptime: 0,
        parent,
    }
}

fn table() -> Snapshot {
    Snapshot::new(vec![
        process(10, "Chrome", &["/opt/chrome/chrome", "--type=renderer"], Some(1)),
        process(20, "chrome-helper", &["/opt/chrome/helper"], Some(10)),
        process(30, "bash", &["bash", "-c", "run CHROME now"], Some(1)),
        process(40, "sshd", &["/usr/sbin/sshd", "-D"], None),
        process(50, "20", &["twenty"], None),
    ])
    .unwrap()
}

fn pids(found: &[grim::model::Candidate]) -> Vec<u32> {
    found.iter().map(|c| c.pid).collect()
}

#[test]
fn snapshot_refuses_a_repeated_pid() {
    let twice = vec![process(1, "a", &[], None), process(2, "b", &[], None), process(1, "c", &[], None)];
    assert!(Snapshot::new(twice).is_none());
    assert!(Snapshot::new(Vec::new()).is_some());
}

#[test]
fn snapshot_find_and_get() {
    let s = table();
    assert_eq!(s.len(), 5);
    assert_eq!(s.find(30), Some(2));
    assert_eq!(s.find(31), None);
    assert_eq!(s.get(1).unwrap().name, "chrome-helper");
    assert!(s.get(5).is_none());
    assert_eq!(s.at(3).pid, 40);
}

#[test]
fn join_words_puts_single_spaces() {
    assert_eq!(join_words(&vec!["a".to_string(), "b c".to_string(), "d".to_string()]), "a b c d");
    assert_eq!(join_words(&vec!["solo".to_string()]), "solo");
    assert_eq!(join_words(&Vec::new()), "");
}

#[test]
fn affirmative_answers() {
    assert!(is_affirmative("y"));
    assert!(is_affirmative("Y\n"));
    assert!(is_affirmative("  yes  "));
    assert!(is_affirmative("YeS\r\n"));
    assert!(!is_affirmative(""));
    assert!(!is_affirmative("\n"));
    assert!(!is_affirmative("n"));
    assert!(!is_affirmative("yeah"));
    assert!(!is_affirmative("y es"));
}

#[test]
fn parse_tells_pids_from_patterns() {
    assert!(matches!(Target::parse("123"), Target::Pid(123)));
    assert!(matches!(Target::parse("+7"), Target::Pid(7)));
    match Target::parse("ChRoMe") {
        Target::Pattern(p) => assert_eq!(p, "chrome"),
        other => panic!("{:?}", other),
    }
    match Target::parse("12a") {
        Target::Pattern(p) => assert_eq!(p, "12a"),
        other => panic!("{:?}", other),
    }
    // too large for 32 bits: a pattern
    assert!(matches!(Target::parse("99999999999"), Target::Pattern(_)));
}

#[test]
fn parse_reads_signed_decimal_integers_only() {
    assert!(matches!(Target::parse("007"), Target::Pid(7)));
    assert!(matches!(Target::parse("0"), Target::Pid(0)));
    assert!(matches!(Target::parse("-0"), Target::Pid(0)));
    assert!(matches!(Target::parse("2147483647"), Target::Pid(2147483647)));
    assert!(matches!(Target::parse("-2147483648"), Target::Pid(2147483648)));
    assert!(matches!(Target::parse("-1"), Target::Pid(4294967295)));
    for text in ["", "+", "-", " 7", "7 ", "2147483648", "-2147483649", "1_000", "0x10", "1.0", "--1", "+-1"] {
        match Target::parse(text) {
            Target::Pattern(p) => assert_eq!(p, text),
            other => panic!("{:?}", other),
        }
    }
}

#[test]
fn from_parts_prefers_the_integer() {
    assert!(matches!(Target::from_parts(Some(12), "x".to_string()), Target::Pid(12)));
    match Target::from_parts(None, "x".to_string()) {
        Target::Pattern(p) => assert_eq!(p, "x"),
        other => panic!("{:?}", other),
    }
    let low = "worker".to_string();
    let cmd = "worker --fast".to_string();
    assert!(Target::from_parts(None, "work".to_string()).hits(1, &low, &cmd, false));
    assert!(!Target::from_parts(None, "work".to_string()).hits(1, &low, &cmd, true));
    assert!(Target::from_parts(None, "worker".to_string()).hits(1, &low, &cmd, true));
    assert!(Target::from_parts(None, "r --f".to_string()).hits(1, &low, &cmd, false));
    assert!(Target::from_parts(Some(1), String::new()).hits(1, &low, &cmd, true));
    assert!(!Target::from_parts(Some(2), String::new()).hits(1, &low, &cmd, false));
    assert!(grim::text::is_yes_word(&"yes".to_string()));
    assert!(!grim::text::is_yes_word(&"Yes".to_string()));
    assert_eq!(grim::runloop::count_of(Some(3), 2), 3);
    assert_eq!(grim::runloop::count_of(Some(-3), 2), 2);
    assert_eq!(grim::runloop::count_of(None, 2), 2);
}

#[test]
fn numeric_target_finds_exactly_that_pid() {
    let s = table();
    let found = match_target(&s, "20", false);
    assert_eq!(pids(&found), vec![20]);
    assert_eq!(found[0].name, "chrome-helper");
    assert_eq!(found[0].cmd, "/opt/chrome/helper");
    // the process named "20" is not matched by a numeric target
    assert_eq!(pids(&match_target(&s, "20", true)), vec![20]);
    assert_eq!(pids(&match_target(&s, "50", true)), vec![50]);
}

#[test]
fn numeric_target_that_is_absent_finds_nothing() {
    let s = table();
    assert!(match_target(&s, "21", false).is_empty());
    assert!(match_target(&s, "21", true).is_empty());
    assert!(match_target(&s, "-5", false).is_empty());
}

#[test]
fn exact_pattern_matches_equal_names_without_case() {
    let s = table();
    assert_eq!(pids(&match_target(&s, "chrome", true)), vec![10]);
    assert_eq!(pids(&match_target(&s, "CHROME", true)), vec![10]);
    assert_eq!(pids(&match_target(&s, "SSHD", true)), vec![40]);
    assert!(match_target(&s, "chrom", true).is_empty());
}

#[test]
fn substring_pattern_matches_name_or_command_line() {
    let s = table();
    assert_eq!(pids(&match_target(&s, "chrome", false)), vec![10, 20, 30]);
    assert_eq!(pids(&match_target(&s, "HELPER", false)), vec![20]);
    // spans two tokens of the joined command line
    assert_eq!(pids(&match_target(&s, "-c run", false)), vec![30]);
    assert_eq!(pids(&match_target(&s, "sbin", false)), vec![40]);
}

#[test]
fn substring_match_holds_the_exact_match() {
    let s = table();
    for pattern in ["chrome", "bash", "sshd", "Chrome-Helper", "zzz"] {
        let exact = pids(&match_target(&s, pattern, true));
        let loose = pids(&match_target(&s, pattern, false));
        for pid in exact {
            assert!(loose.contains(&pid));
        }
    }
}

#[test]
fn several_targets_are_united_once_each_in_listing_order() {
    let s = table();
    let targets = vec![Target::parse("sshd"), Target::parse("chrome"), Target::parse("10"), Target::parse("helper")];
    assert_eq!(pids(&match_targets(&s, &targets, false)), vec![10, 20, 30, 40]);
    assert_eq!(pids(&match_targets(&s, &targets, true)), vec![10, 40]);
    assert!(match_targets(&s, &Vec::new(), false).is_empty());
}

#[test]
fn matches_any_asks_each_target() {
    let p = process(7, "Worker", &["worker", "--fast"], None);
    assert!(matches_any(&vec![Target::parse("nope"), Target::parse("7")], &p, true));
    assert!(matches_any(&vec![Target::parse("--FAST")], &p, false));
    assert!(!matches_any(&vec![Target::parse("--fast")], &p, true));
    assert!(!matches_any(&Vec::new(), &p, false));
    assert!(Target::parse("WORKER").matches(&p, true));
    assert!(!Target::parse("8").matches(&p, false));
}

#[test]
fn scenario_no_match_kills_nothing() {
    let s = table();
    let targets = vec![Target::parse("nonexistent-xyz")];
    assert!(match_targets(&s, &targets, false).is_empty());
    let cfg = match grim::runloop::parse_args(&vec!["--force".to_string(), "nonexistent-xyz".to_string()]) {
        Ok(grim::runloop::Invocation::Run(c)) => c,
        other => panic!("{:?}", other),
    };
    assert!(cfg.force && !cfg.watch);
    assert_eq!(grim::runloop::stop_check(&cfg, 0, 0), grim::runloop::Verdict::SinglePass);
}
