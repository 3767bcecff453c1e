//! A widget: its script run once, the functions it defines, and the settings its `init`
//! function asks for.
use vstd::prelude::*;

use crate::language::environment::{resolved, rt_lookup, rt_push_env, Runtime, SEnv, SRuntime, SharedEnvironment};
use crate::language::assoc::assoc_extend;
use crate::language::builtins::standard_library_entries;
use crate::language::function::{call_args_set_singular, default_call_args, function_result_view, Function, FunctionError, SFunction, SFunctionError};
use crate::language::interpreter::{resolve, Host, EVALUATION_FUEL};
use crate::language::semantics::{block_rel, call_rel, resolve_function, step1, step2};
use crate::language::statement::{statement_error_view, SStatementError, StatementExecutionError};
use crate::language::value::{SValue, Value};
use crate::parsing::{program_of, scan_and_parse, SScanAndParserError, ScanAndParserError};
use crate::root_environment::root_environment;
use crate::runner::settings::{settings_of, SWidgetSettings, WidgetSettings};
use crate::style::common::{empty_style, style_of, style_readable, CommonStyle, SCommonStyle};

verus! {

/// A widget is identified by the path of its script.
#[derive(Clone, Debug, PartialEq, Eq, Hash)]
pub struct WidgetId {
    path: String,
}

impl View for WidgetId {
    type V = Seq<char>;

    closed spec fn view(&self) -> Seq<char> {
        self.path@
    }
}

impl WidgetId {
    pub fn new(path: String) -> (r: Self)
        ensures
            r@ == path@,
    {
        WidgetId { path }
    }

    pub fn path(&self) -> (r: &str)
        ensures
            r@ == self@,
    {
        self.path.as_str()
    }

    /// Another id of the same script.
    pub fn copied(&self) -> (r: Self)
        ensures
            r@ == self@,
    {
        WidgetId { path: self.path.clone() }
    }

    /// Whether the two ids name the same script.
    pub fn same(&self, other: &WidgetId) -> (r: bool)
        ensures
            r == (self@ == other@),
    {
        self.path == other.path
    }
}

/// The name of what `std::path::Path::file_stem` gives for a path: its last component
/// without the extension.
pub uninterp spec fn path_file_stem(path: Seq<char>) -> Option<Seq<char>>;

/// Calls `Path::file_stem` on the path; the result depends on the path alone.
#[verifier::external_body]
fn file_stem(path: &str) -> (r: Option<String>)
    ensures
        match r {
            Some(s) => path_file_stem(path@) == Some(s@),
            None => path_file_stem(path@) is None,
        },
{
    match std::path::Path::new(path).file_stem() {
        Some(stem) => Some(stem.to_string_lossy().to_string()),
        None => None,
    }
}

/// The name of a widget: the file name of its script without the extension, or `none`.
pub open spec fn widget_name(path: Seq<char>) -> Seq<char> {
    match path_file_stem(path) {
        Some(s) => s,
        None => "none"@,
    }
}

/// Why a widget could not be loaded.
#[derive(Debug)]
pub enum WidgetError {
    /// The script could not be read; the reason, as the system gave it.
    Io(String),
    Parse(ScanAndParserError),
    Execution(StatementExecutionError),
    FunctionExecution(FunctionError),
    MissingInit,
    MissingView,
}

pub enum SWidgetError {
    Io(Seq<char>),
    Parse(SScanAndParserError),
    Execution(SStatementError),
    FunctionExecution(SFunctionError),
    MissingInit,
    MissingView,
}

impl View for WidgetError {
    type V = SWidgetError;

    open spec fn view(&self) -> SWidgetError {
        match self {
            WidgetError::Io(s) => SWidgetError::Io(s@),
            WidgetError::Parse(e) => SWidgetError::Parse(e@),
            WidgetError::Execution(e) => SWidgetError::Execution(statement_error_view(*e)),
            WidgetError::FunctionExecution(e) => SWidgetError::FunctionExecution(e@),
            WidgetError::MissingInit => SWidgetError::MissingInit,
            WidgetError::MissingView => SWidgetError::MissingView,
        }
    }
}

/// A loaded widget. Its script runs in a runtime of its own, whose first environment is
/// the one the script ran in.
#[derive(Debug)]
pub struct WidgetInstance {
    pub id: WidgetId,
    pub runtime: Runtime,
    pub environment: SharedEnvironment,
    pub settings: WidgetSettings,
    pub style_function: Option<Function>,
    pub view_function: Function,
}

/// What a loaded widget holds.
pub struct SLoaded {
    pub id: Seq<char>,
    /// The environment its script ran in, within its runtime.
    pub environment: usize,
    pub runtime: SRuntime,
    pub settings: SWidgetSettings,
    pub style_function: Option<SFunction>,
    pub view_function: SFunction,
}

pub open spec fn loaded_view(w: WidgetInstance) -> SLoaded {
    SLoaded {
        id: w.id@,
        environment: w.environment.id,
        runtime: w.runtime@,
        settings: w.settings@,
        style_function: match w.style_function {
            Some(f) => Some(f@),
            None => None,
        },
        view_function: w.view_function@,
    }
}

pub open spec fn load_result_view(r: Result<WidgetInstance, WidgetError>) -> Result<SLoaded, SWidgetError> {
    match r {
        Ok(w) => Ok(loaded_view(w)),
        Err(e) => Err(e@),
    }
}

/* The model */

pub open spec fn empty_runtime() -> SRuntime {
    SRuntime { environments: Seq::empty(), closures: Seq::empty(), host_calls: Seq::empty(), cells: Seq::empty() }
}

/// The runtime a script starts in: one environment, holding the standard library.
pub open spec fn start_runtime() -> SRuntime {
    rt_push_env(
        empty_runtime(),
        SEnv { outer: None, variables: assoc_extend(Seq::empty(), standard_library_entries()) },
    )
}

/// The function a script defined under `name` in its environment, if that is a function.
pub open spec fn function_named(t: SRuntime, name: Seq<char>) -> Option<SFunction> {
    match rt_lookup(t, 0, name) {
        Some(v) => resolve_function(t, v),
        None => None,
    }
}

/// What loading a widget from the text of its script comes to: the script is read and run;
/// it must define the functions `init` and `view` (and may define `style`); `init` is
/// called, and the settings are read from what it returns.
pub open spec fn load_rel(source: Seq<char>, id: Seq<char>, name: Seq<char>, r: Result<SLoaded, SWidgetError>) -> bool {
    match program_of(source) {
        Err(e) => r == Err::<SLoaded, SWidgetError>(SWidgetError::Parse(e)),
        Ok(stmts) => exists|t: SRuntime, x: Result<SValue, SStatementError>|
            #[trigger] step2(t, x) && block_rel(EVALUATION_FUEL as int, stmts, 0, start_runtime(), t, x) && match x {
                Err(e) => r == Err::<SLoaded, SWidgetError>(SWidgetError::Execution(e)),
                Ok(_) => match function_named(t, "init"@) {
                    None => r == Err::<SLoaded, SWidgetError>(SWidgetError::MissingInit),
                    Some(init) => match function_named(t, "view"@) {
                        None => r == Err::<SLoaded, SWidgetError>(SWidgetError::MissingView),
                        Some(view) => exists|t2: SRuntime, y: Result<SValue, SFunctionError>|
                            #[trigger] step2(t2, y) && call_rel(
                                EVALUATION_FUEL as int,
                                init,
                                default_call_args(init.params),
                                t,
                                t2,
                                y,
                            ) && match y {
                                Err(e) => r == Err::<SLoaded, SWidgetError>(SWidgetError::FunctionExecution(e)),
                                Ok(v) => r == Ok::<SLoaded, SWidgetError>(
                                    SLoaded {
                                        id,
                                        environment: 0,
                                        runtime: t2,
                                        settings: SWidgetSettings { name: Some(name), ..settings_of(resolved(t2, v)) },
                                        style_function: function_named(t, "style"@),
                                        view_function: view,
                                    },
                                ),
                            },
                    },
                },
            },
    }
}

/// What handling a message does to a loaded widget: a callback is called with its default
/// arguments, or with one value as its only argument (when it cannot take one, nothing
/// happens); only the runtime changes.
pub open spec fn message_rel(a: SLoaded, m: WidgetMessage, b: SLoaded) -> bool {
    &&& b.id == a.id
    &&& b.environment == a.environment
    &&& b.settings == a.settings
    &&& b.style_function == a.style_function
    &&& b.view_function == a.view_function
    &&& match m {
        WidgetMessage::Callback(f) => exists|y: Result<SValue, SFunctionError>|
            #[trigger] step1(y) && default_call(f@, a.runtime, b.runtime, y),
        WidgetMessage::CallbackWith { function, value } => match call_args_set_singular(
            default_call_args(function@.params),
            value@,
        ) {
            Ok(args) => exists|y: Result<SValue, SFunctionError>|
                #[trigger] step1(y) && call_rel(EVALUATION_FUEL as int, function@, args, a.runtime, b.runtime, y),
            Err(_) => b.runtime == a.runtime,
        },
    }
}

/// The style a style function gives, in the runtime `t` it ended in: the style its result
/// describes, the empty style when it fails; `None` when its result cannot be read as a style.
pub open spec fn style_result(t: SRuntime, y: Result<SValue, SFunctionError>) -> Option<SCommonStyle> {
    let v = match y {
        Ok(v) => resolved(t, v),
        Err(_) => SValue::Null,
    };
    if style_readable(v) {
        Some(style_of(v))
    } else {
        None
    }
}

/* Loading */

fn function_named_of(runtime: &Runtime, name: &str) -> (r: Option<Function>)
    ensures
        match r {
            Some(f) => function_named(runtime@, name@) == Some(f@),
            None => function_named(runtime@, name@) is None,
        },
{
    match runtime.lookup(0, &String::from_str(name)) {
        Some(v) => resolve(runtime, &v),
        None => None,
    }
}

/// Calls a function with every parameter bound to its default value.
pub open spec fn default_call(f: SFunction, s: SRuntime, t: SRuntime, y: Result<SValue, SFunctionError>) -> bool {
    call_rel(EVALUATION_FUEL as int, f, default_call_args(f.params), s, t, y)
}

impl WidgetInstance {
    /// Loads a widget from the text of its script (see `load_rel`).
    pub fn init<H: Host>(id: WidgetId, source: &String, host: &mut H) -> (r: Result<WidgetInstance, WidgetError>)
        ensures
            load_rel(source@, id@, widget_name(id@), load_result_view(r)),
    {
        let name = match file_stem(id.path()) {
            Some(n) => n,
            None => String::from_str("none"),
        };
        let program = match scan_and_parse(source) {
            Ok(b) => b,
            Err(e) => return Err(WidgetError::Parse(e)),
        };
        let ghost stmts = program@;
        let mut runtime = Runtime::new();
        proof {
            assert(runtime@.environments =~= Seq::empty());
            assert(runtime@.closures =~= Seq::empty());
            assert(runtime@.host_calls =~= Seq::empty());
            assert(runtime@.cells =~= Seq::empty());
        }
        let environment = root_environment().into_shared(&mut runtime);
        proof {
            assert(runtime@ == start_runtime());
        }
        let x = program.execute(&environment, &mut runtime, host);
        let ghost t = runtime@;
        let ghost xv = crate::language::statement::statement_result_view(x);
        proof {
            assert(step2(t, xv));
        }
        match x {
            Err(e) => return Err(WidgetError::Execution(e)),
            Ok(_) => {},
        }
        let init = match function_named_of(&runtime, "init") {
            Some(f) => f,
            None => return Err(WidgetError::MissingInit),
        };
        let style_function = function_named_of(&runtime, "style");
        let view_function = match function_named_of(&runtime, "view") {
            Some(f) => f,
            None => return Err(WidgetError::MissingView),
        };
        let y = init.call_with_default_args(&mut runtime, host);
        proof {
            assert(step2(runtime@, function_result_view(y)));
        }
        let v = match y {
            Ok(v) => v,
            Err(e) => return Err(WidgetError::FunctionExecution(e)),
        };
        let tree = runtime.resolve(&v);
        let mut settings = WidgetSettings::from_value(&tree);
        settings.name = Some(name);
        Ok(WidgetInstance { id, runtime, environment, settings, style_function, view_function })
    }

    /// Handles a message of the widget: a callback is called (see `message_rel`), and what
    /// it returns is dropped.
    pub fn update<H: Host>(&mut self, message: WidgetMessage, host: &mut H)
        ensures
            final(self).id@ == old(self).id@,
            final(self).environment == old(self).environment,
            message_rel(loaded_view(*old(self)), message, loaded_view(*final(self))),
    {
        match message {
            WidgetMessage::Callback(function) => {
                let y = function.call_with_default_args(&mut self.runtime, host);
                proof {
                    assert(step1(function_result_view(y)));
                }
            },
            WidgetMessage::CallbackWith { function, value } => {
                let mut args = function.default_args();
                match args.set_singular_arg(value) {
                    Ok(()) => {
                        let y = function.call(args, &mut self.runtime, host);
                        proof {
                            assert(step1(function_result_view(y)));
                        }
                    },
                    Err(_) => {},
                }
            },
        }
    }

    /// Calls the view function; its result, resolved into a tree of plain values, describes
    /// what the widget shows.
    pub fn view_value<H: Host>(&mut self, host: &mut H) -> (r: Result<Value, FunctionError>)
        ensures
            final(self).id@ == old(self).id@,
            final(self).environment == old(self).environment,
            final(self).settings@ == old(self).settings@,
            loaded_view(*final(self)).style_function == loaded_view(*old(self)).style_function,
            final(self).view_function@ == old(self).view_function@,
            exists|y: Result<SValue, SFunctionError>|
                #[trigger] step1(y) && default_call(old(self).view_function@, old(self).runtime@, final(self).runtime@, y)
                    && function_result_view(r) == match y {
                    Ok(v) => Ok::<SValue, SFunctionError>(resolved(final(self).runtime@, v)),
                    Err(e) => Err(e),
                },
    {
        let y = self.view_function.call_with_default_args(&mut self.runtime, host);
        proof {
            assert(step1(function_result_view(y)));
        }
        match y {
            Ok(v) => Ok(self.runtime.resolve(&v)),
            Err(e) => Err(e),
        }
    }

    /// The style the widget's elements start from: what its style function returns, read
    /// as a style (see `style_result`); the empty style when it has no style function.
    pub fn default_style<H: Host>(&mut self, host: &mut H) -> (r: Option<CommonStyle>)
        ensures
            final(self).id@ == old(self).id@,
            final(self).environment == old(self).environment,
            final(self).settings@ == old(self).settings@,
            loaded_view(*final(self)).style_function == loaded_view(*old(self)).style_function,
            final(self).view_function@ == old(self).view_function@,
            match old(self).style_function {
                None => final(self).runtime@ == old(self).runtime@ && (r matches Some(s) && s@ == empty_style()),
                Some(f) => exists|y: Result<SValue, SFunctionError>|
                    #[trigger] step1(y) && default_call(f@, old(self).runtime@, final(self).runtime@, y) && match r {
                        Some(s) => style_result(final(self).runtime@, y) == Some(s@),
                        None => style_result(final(self).runtime@, y) is None,
                    },
            },
    {
        match &self.style_function {
            None => Some(CommonStyle::empty()),
            Some(f) => {
                let y = f.call_with_default_args(&mut self.runtime, host);
                proof {
                    assert(step1(function_result_view(y)));
                }
                let v = match y {
                    Ok(v) => self.runtime.resolve(&v),
                    Err(_) => Value::Null,
                };
                if style_readable_of(&v) {
                    Some(CommonStyle::from_value(&v))
                } else {
                    None
                }
            },
        }
    }
}

/// Whether a value can be read as a style (see `style_readable`).
pub fn style_readable_of(v: &Value) -> (r: bool)
    ensures
        r == style_readable(v@),
{
    match v {
        Value::HashMap(pairs) => crate::style::common::style_entry_of(pairs, "opacity").is_none(),
        _ => true,
    }
}

/// A message for a widget.
#[derive(Debug)]
pub enum WidgetMessage {
    /// A function of the widget to call, such as the handler of a button.
    Callback(Function),
    /// A function of the widget to call with one value, such as the handler of a
    /// subscription with the value that came in.
    CallbackWith { function: Function, value: Value },
}

} // verus!
