use kool::language::clock::LocalTime;
use kool::language::externals::TimeUnit;
use kool::language::text::display_of;
use kool::language::value::Value;

fn epoch_plus_one_hour() -> LocalTime {
    LocalTime { secs: 0, nanos: 0, offset: 3600 }
}

#[test]
fn date_map_of_a_moment() {
    let v = epoch_plus_one_hour().date_value().expect("a valid moment");
    assert_eq!(
        display_of(&v),
        "{year: 1970, month: 1, day: 1, hour: 1, minute: 0, second: 0, weekday: Thu, }"
    );
}

#[test]
fn date_text_with_and_without_a_format() {
    let t = epoch_plus_one_hour();
    match t.date_text(&Value::String("%Y-%m-%d %H:%M".to_owned())) {
        Some(Value::String(s)) => assert_eq!(s, "1970-01-01 01:00"),
        other => panic!("unexpected {:?}", other),
    }
    match t.date_text(&Value::Null) {
        Some(Value::String(s)) => assert_eq!(s, "1970-01-01T01:00:00+01:00"),
        other => panic!("unexpected {:?}", other),
    }
}

#[test]
fn bad_format_and_bad_offset_are_refused() {
    assert!(epoch_plus_one_hour().date_text(&Value::String("%Q".to_owned())).is_none());
    assert!(LocalTime { secs: 0, nanos: 0, offset: 100_000 }.date_value().is_none());
}

#[test]
fn waits_until_the_next_unit() {
    let t = LocalTime { secs: 90, nanos: 250_000_000, offset: 0 };
    assert_eq!(t.wait_for(TimeUnit::Second), Some(750));
    assert_eq!(t.wait_for(TimeUnit::Minute), Some(29_750));
    assert_eq!(t.wait_for(TimeUnit::Hour), Some(3_600_000 - 90_250));
}
