use chrono::TimeZone;
use chrono_tz::Europe::Amsterdam;
use pvoutput_sync::civil_time::{local_time, CivilTime, YEAR_10000};

fn written(t: &CivilTime) -> (String, String) {
    let mut date = String::new();
    t.push_date(&mut date);
    let mut clock = String::new();
    t.push_clock(&mut clock);
    (date, clock)
}

#[test]
fn the_epoch_is_one_in_the_morning_in_amsterdam() {
    assert_eq!(local_time(0), Some(CivilTime { year: 1970, month: 1, day: 1, hour: 1, minute: 0 }));
}

#[test]
fn summer_time_is_two_hours_ahead() {
    // 2024-07-01T12:00:00Z
    assert_eq!(
        local_time(1719835200),
        Some(CivilTime { year: 2024, month: 7, day: 1, hour: 14, minute: 0 })
    );
}

#[test]
fn autumn_transition_returns_to_winter_time() {
    // 2024-10-27T00:30:00Z is still summer time, 01:30:00Z is winter time.
    assert_eq!(
        local_time(1729989000),
        Some(CivilTime { year: 2024, month: 10, day: 27, hour: 2, minute: 30 })
    );
    assert_eq!(
        local_time(1729992600),
        Some(CivilTime { year: 2024, month: 10, day: 27, hour: 2, minute: 30 })
    );
}

#[test]
fn seconds_are_cut_off() {
    assert_eq!(local_time(59), local_time(0));
    assert_ne!(local_time(60), local_time(0));
}

#[test]
fn upper_half_of_the_range_reads_as_before_the_epoch() {
    // The largest timestamp stands for one second before the epoch.
    assert_eq!(
        local_time(u64::MAX),
        Some(CivilTime { year: 1970, month: 1, day: 1, hour: 0, minute: 59 })
    );
}

#[test]
fn instants_beyond_the_calendar_have_no_local_time() {
    assert_eq!(local_time(i64::MAX as u64), None);
    assert_eq!(local_time(1u64 << 63), None);
}

#[test]
fn date_and_clock_text() {
    let t = CivilTime { year: 2024, month: 3, day: 31, hour: 1, minute: 30 };
    assert_eq!(written(&t), ("20240331".to_string(), "01:30".to_string()));
    let t = CivilTime { year: 2023, month: 12, day: 9, hour: 0, minute: 5 };
    assert_eq!(written(&t), ("20231209".to_string(), "00:05".to_string()));
}

#[test]
fn text_agrees_with_the_calendar_library() {
    let instants: [i64; 12] = [
        0,
        -1,
        86399,
        951782400,
        1711845000,
        1711848600,
        1729989000,
        1729992600,
        4102444800,
        253402300800,
        -62167219200,
        -62198755200,
    ];
    for secs in instants {
        let expected = Amsterdam.timestamp_opt(secs, 0).unwrap();
        let t = local_time(secs as u64).unwrap();
        let (date, clock) = written(&t);
        assert_eq!(date, expected.format("%Y%m%d").to_string(), "date of {}", secs);
        assert_eq!(clock, expected.format("%H:%M").to_string(), "clock of {}", secs);
    }
}

#[test]
fn the_last_second_before_the_year_10000_has_a_local_time() {
    assert_eq!(YEAR_10000, 253_402_300_800);
    assert_eq!(
        local_time(YEAR_10000 - 1),
        Some(CivilTime { year: 10000, month: 1, day: 1, hour: 0, minute: 59 })
    );
    for timestamp in [0, 1, 1_000_000_000, 4_102_444_800, 100_000_000_000, YEAR_10000 - 86_400] {
        assert!(local_time(timestamp).is_some());
    }
}
