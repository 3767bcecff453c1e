use kool::language::externals::{
    event_value, exec_command, focus_workspace_dispatch, millis_to_next, split_command, time_unit, time_value,
    JsonScalar, TimeUnit, TrackInfo,
};
use kool::language::text::display_of;
use kool::language::value::Value;

#[test]
fn split_command_keeps_quoted_words_together() {
    let words = split_command(&"notify-send 'Hello there' \"big world\" x".to_owned());
    assert_eq!(words, vec!["notify-send", "Hello there", "big world", "x"]);
}

#[test]
fn split_command_of_plain_words() {
    assert_eq!(split_command(&"ls -la".to_owned()), vec!["ls", "-la"]);
    assert_eq!(split_command(&"".to_owned()), vec![""]);
    assert_eq!(split_command(&"a  b".to_owned()), vec!["a", "", "b"]);
}

#[test]
fn exec_command_from_text_and_arrays() {
    let (program, args) = exec_command(&Value::String("echo hi there".to_owned())).expect("a command");
    assert_eq!(program, "echo");
    assert_eq!(args, vec!["hi", "there"]);
    let (program, args) =
        exec_command(&Value::Array(vec![Value::String("sleep".to_owned()), Value::Int(2)])).expect("a command");
    assert_eq!(program, "sleep");
    assert_eq!(args, vec!["2"]);
    assert!(exec_command(&Value::Array(vec![])).is_none());
    assert!(exec_command(&Value::Int(1)).is_none());
}

#[test]
fn date_map() {
    let v = time_value(2024, 5, 17, 13, 4, 59, "Fri".to_owned());
    assert_eq!(
        display_of(&v),
        "{year: 2024, month: 5, day: 17, hour: 13, minute: 4, second: 59, weekday: Fri, }"
    );
}

#[test]
fn time_units_and_waits() {
    assert_eq!(time_unit(&Value::String("minute".to_owned())), Some(TimeUnit::Minute));
    assert_eq!(time_unit(&Value::String("day".to_owned())), None);
    assert_eq!(time_unit(&Value::Null), None);
    assert_eq!(millis_to_next(TimeUnit::Second, 10, 20, 250), 750);
    assert_eq!(millis_to_next(TimeUnit::Minute, 10, 20, 250), 39_750);
    assert_eq!(millis_to_next(TimeUnit::Hour, 10, 20, 250), 2_979_750);
    // A leap second waits for nothing.
    assert_eq!(millis_to_next(TimeUnit::Second, 0, 60, 1500), 0);
}

#[test]
fn track_map() {
    let info = TrackInfo {
        title: Some("Song".to_owned()),
        album: None,
        artists: Some(vec!["A".to_owned(), "B".to_owned()]),
        length: Some(200),
        position: Some(3),
        art_url: None,
        is_playing: Some(true),
    };
    assert_eq!(
        display_of(&info.to_value()),
        "{title: Song, album: null, artist: A, B, length: 200, timestamp: 3000000, artUrl: null, isPlaying: true, }"
    );
}

#[test]
fn focus_workspace() {
    assert_eq!(
        focus_workspace_dispatch(&Value::Int(3)),
        Some("hl.dsp.focus({ workspace = \"3\" })".to_owned())
    );
    assert_eq!(
        focus_workspace_dispatch(&Value::String("web".to_owned())),
        Some("hl.dsp.focus({ workspace = \"web\" })".to_owned())
    );
    assert_eq!(focus_workspace_dispatch(&Value::Null), None);
}

#[test]
fn window_manager_events() {
    let fields = vec![
        ("name".to_owned(), JsonScalar::String("workspace".to_owned())),
        ("id".to_owned(), JsonScalar::Number(Some(4))),
        ("big".to_owned(), JsonScalar::Number(None)),
        ("skip".to_owned(), JsonScalar::Other),
        ("urgent".to_owned(), JsonScalar::Bool(false)),
    ];
    assert_eq!(display_of(&event_value(&fields)), "{name: workspace, id: 4, big: 0, urgent: false, }");
}
