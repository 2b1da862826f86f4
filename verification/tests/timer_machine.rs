use oxyclock::duration::ParseError;
use oxyclock::timer::{State, Subscription, Timer};

fn with_fields(h: &str, m: &str, s: &str) -> Timer {
    let mut t = Timer::new(7);
    t.hours = h.to_string();
    t.minutes = m.to_string();
    t.seconds = s.to_string();
    t
}

fn fields(t: &Timer) -> (&str, &str, &str) {
    (t.hours.as_str(), t.minutes.as_str(), t.seconds.as_str())
}

#[test]
fn new_timer_has_defaults() {
    let t = Timer::new(42);
    assert_eq!(t.id, 42);
    assert_eq!(t.name, "");
    assert_eq!(t.time, 0);
    assert_eq!(t.elapsed, 0);
    assert_eq!(t.state, State::Stopped);
    assert_eq!(fields(&t), ("00", "00", "00"));
    assert!(t.is_wf());
}

#[test]
fn default_timer_draws_a_version_4_identifier() {
    let t = Timer::default();
    assert_eq!((t.id >> 76) & 0xF, 4);
    assert_eq!((t.id >> 62) & 0x3, 2);
    assert_eq!(t, Timer::new(t.id));
}

#[test]
fn default_timers_differ() {
    let a = Timer::default();
    let b = Timer::default();
    let c = Timer::default();
    assert!(a.id != b.id && b.id != c.id && a.id != c.id);
}

#[test]
fn get_duration_reads_the_fields() {
    assert_eq!(with_fields("01", "02", "03").get_duration(), Ok(3723));
    assert_eq!(with_fields("", "02", "03").get_duration(), Err(ParseError::Hours));
    assert_eq!(with_fields("1", "x", "03").get_duration(), Err(ParseError::Minutes));
    assert_eq!(with_fields("1", "2", "3s").get_duration(), Err(ParseError::Seconds));
    assert_eq!(
        with_fields("18446744073709551615", "1", "1").get_duration(),
        Err(ParseError::TooLong)
    );
}

#[test]
fn time_to_hms_string_shows_the_time_left() {
    let mut t = Timer::new(1);
    t.time = 3723;
    let shown = t.time_to_hms_string();
    assert_eq!(shown, ("01".to_string(), "02".to_string(), "03".to_string()));
    assert_eq!(fields(&t), ("00", "00", "00"));
}

#[test]
fn update_elapsed_hms_rewrites_the_fields() {
    let mut t = with_fields("x", "y", "z");
    t.time = 360_005;
    t.update_elapsed_hms();
    assert_eq!(fields(&t), ("100", "00", "05"));
    assert_eq!(t.time, 360_005);
}

#[test]
fn start_runs_from_the_fields() {
    let mut t = with_fields("00", "01", "30");
    t.elapsed = 9;
    assert!(t.start());
    assert_eq!(t.state, State::Running);
    assert_eq!(t.time, 90);
    assert_eq!(t.elapsed, 0);
    assert_eq!(fields(&t), ("00", "01", "30"));
}

#[test]
fn start_with_bad_fields_changes_nothing_however_often() {
    let mut t = with_fields("00", "aa", "30");
    t.time = 12;
    let before = t.clone();
    for _ in 0..5 {
        assert!(!t.start());
        assert_eq!(t, before);
    }
    assert_eq!(t.state, State::Stopped);
    assert_eq!(t.time, 12);
}

#[test]
fn tick_counts_one_second() {
    let mut t = with_fields("00", "00", "03");
    t.start();
    assert!(!t.tick());
    assert_eq!((t.time, t.elapsed, t.state), (2, 1, State::Running));
    assert!(!t.tick());
    assert_eq!((t.time, t.elapsed, t.state), (1, 2, State::Running));
    assert_eq!(fields(&t), ("00", "00", "03"));
}

#[test]
fn tick_at_one_second_expires() {
    let mut t = with_fields("00", "00", "01");
    t.start();
    assert!(t.tick());
    assert_eq!(t.time, 0);
    assert_eq!(fields(&t), ("00", "00", "00"));
}

#[test]
fn tick_at_zero_expires() {
    let mut t = with_fields("00", "00", "00");
    t.start();
    assert_eq!(t.state, State::Running);
    assert!(t.tick());
    assert_eq!(t.time, 0);
}

#[test]
fn tick_leaves_a_stopped_timer_alone() {
    let mut t = with_fields("00", "00", "09");
    t.time = 9;
    let before = t.clone();
    assert!(!t.tick());
    assert_eq!(t, before);
    t.notify();
    let notifying = t.clone();
    assert!(!t.tick());
    assert_eq!(t, notifying);
}

#[test]
fn stop_pauses_and_shows_the_time_left() {
    let mut t = with_fields("00", "02", "00");
    t.start();
    t.tick();
    t.stop();
    assert_eq!(t.state, State::Stopped);
    assert_eq!(t.time, 119);
    assert_eq!(fields(&t), ("00", "01", "59"));
}

#[test]
fn stop_start_stop_resumes_where_it_paused() {
    let mut t = with_fields("00", "10", "00");
    t.start();
    for _ in 0..25 {
        t.tick();
    }
    t.stop();
    let first = t.time;
    assert_eq!(first, 575);
    assert!(t.start());
    assert_eq!((t.time, t.elapsed), (575, 0));
    for _ in 0..40 {
        t.tick();
    }
    assert_eq!(t.elapsed, 40);
    t.stop();
    assert_eq!(t.time, first - 40);
    assert_eq!(fields(&t), ("00", "08", "55"));
}

#[test]
fn reset_clears_from_any_state() {
    let mut running = with_fields("05", "06", "07");
    running.start();
    running.tick();
    let mut notifying = with_fields("x", "y", "z");
    notifying.time = 77;
    notifying.notify();
    let mut stopped = with_fields("12", "34", "56");
    stopped.time = 5;
    for mut t in [running, notifying, stopped] {
        t.reset();
        assert_eq!(t.time, 0);
        assert_eq!(t.state, State::Stopped);
        assert_eq!(fields(&t), ("00", "00", "00"));
    }
}

#[test]
fn subscription_follows_the_state() {
    let mut t = with_fields("00", "00", "05");
    assert_eq!(t.subscription(), Subscription::Nothing);
    t.start();
    assert_eq!(t.subscription(), Subscription::EverySecond(7));
    t.notify();
    assert_eq!(t.state, State::NotificationSound);
    assert_eq!(t.subscription(), Subscription::Nothing);
    t.stop();
    assert_eq!(t.subscription(), Subscription::Nothing);
}

#[test]
fn is_wf_tells_a_sum_beyond_64_bits() {
    let mut t = Timer::new(1);
    t.time = u64::MAX;
    t.elapsed = 1;
    assert!(t.is_wf());
    t.state = State::Running;
    assert!(!t.is_wf());
    t.elapsed = 0;
    assert!(t.is_wf());
}

#[test]
fn duplicate_copies_every_field() {
    let mut t = with_fields("1", "2", "3");
    t.name = "tea".to_string();
    t.time = 4;
    t.elapsed = 5;
    t.state = State::Running;
    assert_eq!(t.duplicate(), t);
}

#[test]
fn longest_countdown_keeps_within_64_bits() {
    let mut t = with_fields("0", "0", "18446744073709551615");
    assert!(t.start());
    assert!(t.is_wf());
    assert!(!t.tick());
    assert_eq!((t.time, t.elapsed), (u64::MAX - 1, 1));
    assert!(t.is_wf());
}
