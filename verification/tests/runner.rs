use kool::ctl::{ControlCommand, ControlMessage};
use kool::language::function::ExternalFunction;
use kool::language::interpreter::Host;
use kool::language::value::Value;
use kool::runner::instance::{WidgetError, WidgetId, WidgetInstance, WidgetMessage};
use kool::runner::runner::{KoolRunner, RunnerAction, RunnerMessage, Signal};
use kool::runner::settings::Layer;

struct Quiet;

impl Host for Quiet {
    fn call(&mut self, _function: ExternalFunction, _args: &Vec<(String, Value)>) -> Value {
        Value::Null
    }
}

const SCRIPT: &str = "var clicks = 0\n\
def init() { { \"layer\": \"bottom\", \"exclusiveZone\": 20 } }\n\
def style() { { \"spacing\": 5 } }\n\
def view() { clicks }\n\
def click() { clicks = clicks + 1 }";

fn load(path: &str, source: &str) -> Result<WidgetInstance, WidgetError> {
    WidgetInstance::init(WidgetId::new(path.to_owned()), &source.to_owned(), &mut Quiet)
}

#[test]
fn widget_loads_and_reads_its_settings() {
    let mut w = load("/widgets/clock.kool", SCRIPT).expect("loads");
    assert_eq!(w.settings.name.as_deref(), Some("clock"));
    assert_eq!(w.settings.layer, Layer::Bottom);
    assert_eq!(w.settings.exclusive_zone, 20);
    assert_eq!(w.id.path(), "/widgets/clock.kool");
    let style = w.default_style(&mut Quiet).expect("a readable style");
    assert_eq!(style.spacing(), 5);
    assert!(matches!(w.view_value(&mut Quiet), Ok(Value::Int(0))));
}

#[test]
fn callbacks_change_the_widget() {
    let mut w = load("clock.kool", SCRIPT).expect("loads");
    let click = {
        let env = w.environment;
        let v = env.get_variable(&w.runtime, &"click".to_owned()).expect("defined");
        kool::language::interpreter::resolve(&w.runtime, &v).expect("callable")
    };
    w.update(WidgetMessage::Callback(click), &mut Quiet);
    assert!(matches!(w.view_value(&mut Quiet), Ok(Value::Int(1))));
}

#[test]
fn missing_functions_are_reported() {
    assert!(matches!(load("a.kool", "def view() { 1 }"), Err(WidgetError::MissingInit)));
    assert!(matches!(load("a.kool", "def init() { 1 }"), Err(WidgetError::MissingView)));
    assert!(matches!(load("a.kool", "var = 1"), Err(WidgetError::Parse(_))));
    assert!(matches!(load("a.kool", "b = 1"), Err(WidgetError::Execution(_))));
}

#[test]
fn widget_without_a_file_stem_is_called_none() {
    let w = load("", "def init() { 1 }\ndef view() { 1 }").expect("loads");
    assert_eq!(w.settings.name.as_deref(), Some("none"));
    assert_eq!(w.settings.layer, Layer::Top);
}

#[test]
fn runner_opens_a_window_once_per_widget() {
    let mut runner = KoolRunner::new();
    let action = runner.update(
        RunnerMessage::Control(ControlMessage::Run { path: "w.kool".to_owned() }),
        &mut Quiet,
    );
    assert!(matches!(action, RunnerAction::Load { ref path } if path == "w.kool"));
    let first = runner.loaded(load("w.kool", SCRIPT));
    assert!(matches!(first, RunnerAction::OpenWindow { window: 0 }));
    let again = runner.loaded(load("w.kool", SCRIPT));
    assert!(matches!(again, RunnerAction::UpdateWindow { window: 0 }));
    let other = runner.loaded(load("v.kool", SCRIPT));
    assert!(matches!(other, RunnerAction::OpenWindow { window: 1 }));
    assert!(runner.instance(1).is_some());
    assert!(runner.instance(2).is_none());
    let failed = runner.loaded(load("x.kool", "def"));
    assert!(matches!(failed, RunnerAction::Report(_)));
}

#[test]
fn runner_closes_windows() {
    let mut runner = KoolRunner::new();
    runner.loaded(load("w.kool", SCRIPT));
    let closed = runner.update(RunnerMessage::Control(ControlMessage::Close { path: "w.kool".to_owned() }), &mut Quiet);
    assert!(matches!(closed, RunnerAction::CloseWindow { window: 0 }));
    assert!(runner.instance(0).is_none());
    let again = runner.update(RunnerMessage::Control(ControlMessage::Close { path: "w.kool".to_owned() }), &mut Quiet);
    assert!(matches!(again, RunnerAction::Nothing));
    let refresh = runner.update(RunnerMessage::Signal(Signal::Refresh), &mut Quiet);
    assert!(matches!(refresh, RunnerAction::Nothing));
}

#[test]
fn control_messages_take_the_absolute_path() {
    let m = ControlMessage::with_path(ControlCommand::Run { path: "w.kool".to_owned() }, Some("/home/w.kool".to_owned()));
    assert_eq!(m, ControlMessage::Run { path: "/home/w.kool".to_owned() });
    let m = ControlMessage::with_path(ControlCommand::Close { path: "w.kool".to_owned() }, None);
    assert_eq!(m.path(), "w.kool");
    let m = ControlMessage::from_command(ControlCommand::Run { path: "w.kool".to_owned() });
    assert!(matches!(m, ControlMessage::Run { .. }));
    assert!(m.path().ends_with("w.kool"));
    assert!(m.path().starts_with('/'));
    let m = ControlMessage::from_command(ControlCommand::Close { path: "/etc/w.kool".to_owned() });
    assert_eq!(m, ControlMessage::Close { path: "/etc/w.kool".to_owned() });
}

#[test]
fn runner_hands_messages_to_widgets() {
    let mut runner = KoolRunner::new();
    runner.loaded(load("w.kool", SCRIPT));
    let click = {
        let w = runner.instance(0).expect("shown");
        let v = w.environment.get_variable(&w.runtime, &"click".to_owned()).expect("defined");
        kool::language::interpreter::resolve(&w.runtime, &v).expect("callable")
    };
    let action = runner.update(
        RunnerMessage::Widget { id: WidgetId::new("w.kool".to_owned()), message: WidgetMessage::Callback(click) },
        &mut Quiet,
    );
    assert!(matches!(action, RunnerAction::Nothing));
    let w = runner.instance(0).expect("shown");
    assert!(matches!(w.environment.get_variable(&w.runtime, &"clicks".to_owned()), Some(Value::Int(1))));
    assert_eq!(runner.window_of(&WidgetId::new("w.kool".to_owned())), Some(0));
    assert_eq!(runner.next_window(), 1);
}

#[test]
fn callbacks_with_a_value() {
    let mut w = load("c.kool", "var last = 0\ndef init() { 1 }\ndef view() { last }\ndef got(v) { last = v }").expect("loads");
    let got = {
        let v = w.environment.get_variable(&w.runtime, &"got".to_owned()).expect("defined");
        kool::language::interpreter::resolve(&w.runtime, &v).expect("callable")
    };
    w.update(WidgetMessage::CallbackWith { function: got, value: Value::Int(9) }, &mut Quiet);
    assert!(matches!(w.view_value(&mut Quiet), Ok(Value::Int(9))));
}
