use rstimer::error::Error;
use rstimer::solve_time::SolveTime;
use rstimer::stats::stat::Stat;
use rstimer::stats::stats::Stats;

fn stat(secs: u64, nanos: u32) -> Stat {
    Stat::new(SolveTime::new(secs, nanos), "R U R'".to_string(), String::new())
}

#[test]
fn add_session_succeeds_once_then_already_exists() {
    let mut stats = Stats::new();
    assert!(stats.add_session("main", "3x3x3").is_ok());
    assert_eq!(stats.add_session("main", "2x2x2"), Err(Error::AlreadyExists));
    assert_eq!(stats.add_session("main", "3x3x3"), Err(Error::AlreadyExists));
    assert_eq!(stats.get_sessions().len(), 1);
}

#[test]
fn session_names_are_case_sensitive() {
    let mut stats = Stats::new();
    assert!(stats.add_session("Main", "3x3x3").is_ok());
    assert!(stats.add_session("main", "3x3x3").is_ok());
    assert!(stats.has_session("Main"));
    assert!(stats.has_session("main"));
    assert!(!stats.has_session("MAIN"));
}

#[test]
fn add_to_missing_session_fails() {
    let mut stats = Stats::new();
    assert_eq!(stats.add(stat(1, 0), "nope"), Err(Error::NoSuchSession));
}

#[test]
fn add_appends_in_order() {
    let mut stats = Stats::new();
    stats.add_session("s", "3x3x3").unwrap();
    stats.add(stat(1, 0), "s").unwrap();
    stats.add(stat(2, 0), "s").unwrap();
    let sess = stats.get_session("s").unwrap();
    assert_eq!(sess.stats.len(), 2);
    assert_eq!(sess.stats[0].time, SolveTime::new(1, 0));
    assert_eq!(sess.stats[1].time, SolveTime::new(2, 0));
}

#[test]
fn remove_deletes_exactly_the_indexed_stat() {
    let mut stats = Stats::new();
    stats.add_session("s", "3x3x3").unwrap();
    stats.add(stat(1, 0), "s").unwrap();
    stats.add(stat(2, 0), "s").unwrap();
    stats.add(stat(3, 0), "s").unwrap();
    stats.remove(1, "s");
    let sess = stats.get_session("s").unwrap();
    assert_eq!(sess.stats.len(), 2);
    assert_eq!(sess.stats[0].time, SolveTime::new(1, 0));
    assert_eq!(sess.stats[1].time, SolveTime::new(3, 0));
}

#[test]
fn remove_out_of_range_is_a_no_op() {
    let mut stats = Stats::new();
    stats.add_session("s", "3x3x3").unwrap();
    stats.add(stat(1, 0), "s").unwrap();
    stats.remove(5, "s");
    assert_eq!(stats.get_session("s").unwrap().stats.len(), 1);
}

#[test]
fn remove_from_missing_session_is_a_no_op() {
    let mut stats = Stats::new();
    stats.add_session("s", "3x3x3").unwrap();
    stats.remove(0, "other");
    assert!(stats.get_session("s").is_some());
}

#[test]
fn avg_of_missing_or_empty_session_is_none() {
    let mut stats = Stats::new();
    assert_eq!(stats.avg("nope"), None);
    stats.add_session("s", "3x3x3").unwrap();
    assert_eq!(stats.avg("s"), None);
}

#[test]
fn avg_of_single_solve_is_that_time() {
    let mut stats = Stats::new();
    stats.add_session("s", "3x3x3").unwrap();
    stats.add(stat(12, 345_678_901), "s").unwrap();
    assert_eq!(stats.avg("s"), Some(SolveTime::new(12, 345_678_901)));
}

#[test]
fn avg_is_the_mean_of_the_times() {
    let mut stats = Stats::new();
    stats.add_session("s", "3x3x3").unwrap();
    stats.add(stat(1, 0), "s").unwrap();
    stats.add(stat(2, 0), "s").unwrap();
    // (1s + 2s) / 2 = 1.5s
    assert_eq!(stats.avg("s"), Some(SolveTime::new(1, 500_000_000)));
}

#[test]
fn avg_rounds_down_to_the_nanosecond() {
    let mut stats = Stats::new();
    stats.add_session("s", "3x3x3").unwrap();
    stats.add(stat(0, 1), "s").unwrap();
    stats.add(stat(0, 2), "s").unwrap();
    stats.add(stat(0, 4), "s").unwrap();
    // (1 + 2 + 4) / 3 = 2.33..ns, rounded down to 2ns
    assert_eq!(stats.avg("s"), Some(SolveTime::new(0, 2)));
}

#[test]
fn get_sessions_lists_all_names() {
    let mut stats = Stats::new();
    stats.add_session("a", "2x2x2").unwrap();
    stats.add_session("b", "3x3x3").unwrap();
    let mut names = stats.get_sessions();
    names.sort();
    assert_eq!(names, vec!["a".to_string(), "b".to_string()]);
}

#[test]
fn stat_keeps_its_fields() {
    let s = Stat::new(
        SolveTime::new(1, 2),
        "R U".to_string(),
        "nice".to_string(),
    );
    assert_eq!(s.time, SolveTime::new(1, 2));
    assert_eq!(s.scramble, "R U");
    assert_eq!(s.comment, "nice");
}
