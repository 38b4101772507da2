use rstimer::app::{App, Cmd, Key, Screen};
use rstimer::asci::digit_type::DigitType;
use rstimer::config::Config;
use rstimer::error::Error;
use rstimer::solve_time::SolveTime;
use rstimer::stats::stats::Stats;

fn store_with(names: &[(&str, &str)]) -> Stats {
    let mut stats = Stats::new();
    for (name, ty) in names {
        stats.add_session(name, ty).unwrap();
    }
    stats
}

#[test]
fn new_app_starts_on_the_sessions_screen() {
    let app = App::new(Stats::new(), Config::default());
    assert_eq!(app.screen, Screen::Sessions);
    assert!(app.session.is_none());
}

#[test]
fn open_known_session_starts_on_the_timer_screen() {
    let stats = store_with(&[("main", "3x3x3")]);
    let app = App::open(stats, Config::default(), "main");
    assert_eq!(app.screen, Screen::Timer);
    assert_eq!(app.session.as_deref(), Some("main"));
    let scramble = app.scramble.as_ref().unwrap();
    assert_eq!(scramble.get().split_whitespace().count(), 21);
}

#[test]
fn open_unknown_session_falls_back_to_the_sessions_screen() {
    let stats = store_with(&[("main", "3x3x3")]);
    let app = App::open(stats, Config::default(), "other");
    assert_eq!(app.screen, Screen::Sessions);
    assert!(app.session.is_none());
}

#[test]
fn sessions_cursor_saturates_at_both_ends() {
    let stats = store_with(&[("a", "2x2x2"), ("b", "3x3x3")]);
    let mut app = App::new(stats, Config::default());
    assert_eq!(app.sessions_cursor.selected, Some(0));
    app.listen_sessions(Key::Up).unwrap();
    assert_eq!(app.sessions_cursor.selected, Some(0));
    app.listen_sessions(Key::Down).unwrap();
    assert_eq!(app.sessions_cursor.selected, Some(1));
    app.listen_sessions(Key::Down).unwrap();
    assert_eq!(app.sessions_cursor.selected, Some(1));
    app.listen_sessions(Key::Char('k')).unwrap();
    assert_eq!(app.sessions_cursor.selected, Some(0));
}

#[test]
fn empty_session_list_has_no_cursor() {
    let mut app = App::new(Stats::new(), Config::default());
    assert_eq!(app.sessions_cursor.selected, None);
    app.listen_sessions(Key::Down).unwrap();
    assert_eq!(app.sessions_cursor.selected, None);
    assert_eq!(app.listen_sessions(Key::Enter), Ok(Cmd::Nothing));
    assert_eq!(app.screen, Screen::Sessions);
}

#[test]
fn enter_opens_the_selected_session() {
    let stats = store_with(&[("a", "2x2x2"), ("b", "4x4x4")]);
    let mut app = App::new(stats, Config::default());
    app.listen_sessions(Key::Down).unwrap();
    assert_eq!(app.listen_sessions(Key::Enter), Ok(Cmd::Render));
    assert_eq!(app.screen, Screen::Timer);
    assert_eq!(app.session.as_deref(), Some("b"));
    let scramble = app.scramble.as_ref().unwrap();
    assert_eq!(scramble.get().split_whitespace().count(), 43);
}

#[test]
fn quit_keys_signal_exit() {
    let stats = store_with(&[("a", "2x2x2")]);
    let mut app = App::new(stats, Config::default());
    assert_eq!(app.listen_sessions(Key::Esc), Err(Error::Exit));
    let stats = store_with(&[("a", "2x2x2")]);
    let mut app = App::open(stats, Config::default(), "a");
    assert_eq!(app.listen_timer(Key::Char('q')), Err(Error::Exit));
}

#[test]
fn font_keys_change_the_font_and_ask_to_persist() {
    let stats = store_with(&[("a", "2x2x2")]);
    let mut app = App::open(stats, Config::default(), "a");
    assert_eq!(app.listen_timer(Key::Right), Ok(Cmd::SaveConfig));
    assert_eq!(app.config.font, DigitType::Train);
    assert_eq!(app.listen_timer(Key::Left), Ok(Cmd::SaveConfig));
    assert_eq!(app.config.font, DigitType::Italic);
    assert_eq!(app.listen_timer(Key::Char('h')), Ok(Cmd::SaveConfig));
    assert_eq!(app.config.font, DigitType::Card);
}

#[test]
fn space_starts_the_timer() {
    let stats = store_with(&[("a", "3x3x3")]);
    let mut app = App::open(stats, Config::default(), "a");
    assert_eq!(app.listen_timer(Key::Char(' ')), Ok(Cmd::StartTimer));
}

#[test]
fn s_returns_to_the_sessions_screen() {
    let stats = store_with(&[("a", "3x3x3")]);
    let mut app = App::open(stats, Config::default(), "a");
    assert_eq!(app.listen_timer(Key::Char('s')), Ok(Cmd::Render));
    assert_eq!(app.screen, Screen::Sessions);
}

#[test]
fn n_regenerates_the_scramble() {
    let stats = store_with(&[("a", "3x3x3")]);
    let mut app = App::open(stats, Config::default(), "a");
    assert_eq!(app.listen_timer(Key::Char('n')), Ok(Cmd::Render));
    let scramble = app.scramble.as_ref().unwrap();
    assert_eq!(scramble.get().split_whitespace().count(), 21);
}

#[test]
fn record_solve_appends_a_stat_with_the_current_scramble() {
    let stats = store_with(&[("a", "3x3x3")]);
    let mut app = App::open(stats, Config::default(), "a");
    let scramble_text = app.scramble.as_ref().unwrap().get().to_string();
    let elapsed = SolveTime::new(0, 12_000_000);
    app.record_solve(elapsed).unwrap();
    assert_eq!(app.time, elapsed);
    let sess = app.stats.get_session("a").unwrap();
    assert_eq!(sess.stats.len(), 1);
    assert_eq!(sess.stats[0].time, elapsed);
    assert_eq!(sess.stats[0].scramble, scramble_text);
    assert_eq!(sess.stats[0].comment, "");
}

#[test]
fn unknown_family_still_records_solves_with_empty_scramble() {
    let stats = store_with(&[("weird", "5x5x5")]);
    let mut app = App::open(stats, Config::default(), "weird");
    assert_eq!(app.scramble.as_ref().unwrap().get(), "");
    app.record_solve(SolveTime::new(1, 0)).unwrap();
    let sess = app.stats.get_session("weird").unwrap();
    assert_eq!(sess.stats.len(), 1);
    assert_eq!(sess.stats[0].scramble, "");
}

#[test]
fn delete_removes_the_selected_stat_and_asks_to_persist() {
    let stats = store_with(&[("s", "3x3x3")]);
    let mut app = App::open(stats, Config::default(), "s");
    app.record_solve(SolveTime::new(1, 0)).unwrap();
    app.next_scramble();
    app.record_solve(SolveTime::new(2, 0)).unwrap();
    app.next_scramble();
    app.record_solve(SolveTime::new(3, 0)).unwrap();
    // Move the cursor to index 1 and delete that stat.
    app.stats_cursor.selected = Some(1);
    assert_eq!(app.listen_timer(Key::Delete), Ok(Cmd::SaveStats));
    let sess = app.stats.get_session("s").unwrap();
    assert_eq!(sess.stats.len(), 2);
    assert_eq!(sess.stats[0].time, SolveTime::new(1, 0));
    assert_eq!(sess.stats[1].time, SolveTime::new(3, 0));
}

#[test]
fn stats_cursor_is_bounded_by_the_stat_count() {
    let stats = store_with(&[("s", "3x3x3")]);
    let mut app = App::open(stats, Config::default(), "s");
    app.record_solve(SolveTime::new(1, 0)).unwrap();
    app.record_solve(SolveTime::new(2, 0)).unwrap();
    assert_eq!(app.listen_timer(Key::Down), Ok(Cmd::Rerender));
    assert_eq!(app.stats_cursor.selected, Some(1));
    assert_eq!(app.listen_timer(Key::Down), Ok(Cmd::Rerender));
    assert_eq!(app.stats_cursor.selected, Some(1));
    assert_eq!(app.listen_timer(Key::Up), Ok(Cmd::Rerender));
    assert_eq!(app.stats_cursor.selected, Some(0));
    assert_eq!(app.listen_timer(Key::Up), Ok(Cmd::Rerender));
    assert_eq!(app.stats_cursor.selected, Some(0));
}

#[test]
fn is_stop_key_accepts_only_space() {
    assert!(rstimer::app::is_stop_key(&Key::Char(' ')));
    assert!(!rstimer::app::is_stop_key(&Key::Char('x')));
    assert!(!rstimer::app::is_stop_key(&Key::Enter));
}

#[test]
fn other_keys_are_ignored() {
    let stats = store_with(&[("a", "3x3x3")]);
    let mut app = App::open(stats, Config::default(), "a");
    assert_eq!(app.listen_timer(Key::Char('z')), Ok(Cmd::Render));
    assert_eq!(app.screen, Screen::Timer);
}
