use zoa::{Countdown, CountdownState, TimeSpan};

fn secs(s: u64) -> TimeSpan {
    TimeSpan::from_secs(s)
}

#[test]
fn test_parse_duration() {
    let c = Countdown::parse("5m").unwrap();
    assert_eq!(c.remaining().as_secs(), 300);

    let c = Countdown::parse("1h30m").unwrap();
    assert_eq!(c.remaining().as_secs(), 5400);

    let c = Countdown::parse("90s").unwrap();
    assert_eq!(c.remaining().as_secs(), 90);

    let c = Countdown::parse("1:30").unwrap();
    assert_eq!(c.remaining().as_secs(), 90);

    let c = Countdown::parse("1:30:00").unwrap();
    assert_eq!(c.remaining().as_secs(), 5400);
}

#[test]
fn test_countdown_update() {
    let mut c = Countdown::from_secs(10);
    c.start();
    c.update(secs(1));
    assert_eq!(c.remaining().as_secs(), 9);

    c.update(secs(10));
    assert!(c.is_finished());
}

#[test]
fn test_pause_resume() {
    let mut c = Countdown::from_secs(10);
    c.start();
    c.update(secs(1));

    c.pause();
    c.update(secs(5)); // Should not decrease while paused
    assert_eq!(c.remaining().as_secs(), 9);

    c.start();
    c.update(secs(1));
    assert_eq!(c.remaining().as_secs(), 8);
}

#[test]
fn parse_reports_each_error() {
    assert_eq!(Countdown::parse("x:30").err(), Some("Invalid minutes".to_string()));
    assert_eq!(Countdown::parse("1:x").err(), Some("Invalid seconds".to_string()));
    assert_eq!(Countdown::parse("x:1:2").err(), Some("Invalid hours".to_string()));
    assert_eq!(Countdown::parse("1:x:2").err(), Some("Invalid minutes".to_string()));
    assert_eq!(Countdown::parse("1:2:x").err(), Some("Invalid seconds".to_string()));
    assert_eq!(Countdown::parse("1:2:3:4").err(), Some("Invalid time format".to_string()));
    assert_eq!(Countdown::parse("abc").err(), Some("Invalid duration".to_string()));
    assert_eq!(Countdown::parse("0").err(), Some("Invalid duration".to_string()));
    assert_eq!(Countdown::parse("").err(), Some("Invalid duration".to_string()));
}

#[test]
fn parse_accepts_mixed_forms() {
    assert_eq!(Countdown::parse("  2m  ").unwrap().remaining().as_secs(), 120);
    assert_eq!(Countdown::parse("1H2M3S").unwrap().remaining().as_secs(), 3723);
    assert_eq!(Countdown::parse("45").unwrap().remaining().as_secs(), 45);
    // Digits after the last unit are dropped once a unit was counted
    assert_eq!(Countdown::parse("1m30").unwrap().remaining().as_secs(), 60);
    // Unknown letters end a number without counting it
    assert_eq!(Countdown::parse("5x2m").unwrap().remaining().as_secs(), 120);
    assert_eq!(Countdown::parse("+1:+2").unwrap().remaining().as_secs(), 62);
    assert_eq!(Countdown::parse("0:00:61").unwrap().remaining().as_secs(), 61);
}

#[test]
fn fits_guards_against_overflow() {
    assert!(Countdown::fits("5m"));
    assert!(!Countdown::fits("5000000000000000000h"));
    // A number too long to read counts as zero rather than overflowing
    assert!(Countdown::fits("99999999999999999999h"));
    assert_eq!(Countdown::parse("99999999999999999999h").err(), Some("Invalid duration".to_string()));
    assert!(!Countdown::fits("18446744073709551615:59"));
}

#[test]
fn toggling_pause_twice_resumes() {
    let mut c = Countdown::from_secs(3);
    assert_eq!(c.state(), CountdownState::Running);
    c.toggle_pause();
    assert_eq!(c.state(), CountdownState::Paused);
    c.toggle_pause();
    assert_eq!(c.state(), CountdownState::Running);
}

#[test]
fn finished_stays_finished() {
    let mut c = Countdown::from_secs(1);
    c.update(secs(2));
    assert!(c.is_finished());
    c.start();
    assert!(c.is_finished());
    c.toggle_pause();
    assert!(c.is_finished());
    c.update(secs(1));
    assert_eq!(c.remaining().as_secs(), 0);
    c.reset();
    assert_eq!(c.state(), CountdownState::Running);
    assert_eq!(c.remaining().as_secs(), 1);
}

#[test]
fn ticks_add_up() {
    let mut a = Countdown::from_secs(10);
    let mut b = Countdown::from_secs(10);
    a.update(TimeSpan::from_millis(1500));
    a.update(TimeSpan::from_millis(2500));
    b.update(secs(4));
    assert_eq!(a.remaining(), b.remaining());
    assert_eq!(a.remaining().as_secs(), 6);
}

#[test]
fn shown_text_formats_clock() {
    let c = Countdown::from_hms(1, 2, 3);
    assert_eq!(c.shown_text().iter().collect::<String>(), "01:02:03");
    let c = Countdown::from_ms(5, 7);
    assert_eq!(c.shown_text().iter().collect::<String>(), "05:07");
    let mut c = Countdown::from_secs(65);
    c.pause();
    // The colon blinks every half second while paused
    c.update(TimeSpan::from_millis(500));
    assert_eq!(c.shown_text().iter().collect::<String>(), "01 05");
    c.update(TimeSpan::from_millis(500));
    assert_eq!(c.shown_text().iter().collect::<String>(), "01:05");
}

#[test]
fn title_is_kept() {
    let c = Countdown::from_secs(5).with_title("Tea");
    assert_eq!(c.title.as_deref(), Some("Tea"));
}

#[test]
fn shown_clock_reads_back() {
    for secs in [0u64, 5, 59, 60, 61, 3599, 3600, 3725, 86399, 360000] {
        let c = Countdown::from_secs(secs);
        let text: String = c.shown_text().iter().collect();
        let back = Countdown::parse(&text).unwrap();
        assert_eq!(back.remaining().as_secs(), secs, "{text}");
    }
}
