//! The built-in functions: their parameters, the libraries they are found in,
//! and what the ones computed by the interpreter itself return.
use vstd::prelude::*;

use crate::language::environment::{resolved, rt_lookup_or_null, Runtime, SharedEnvironment, SRuntime};
use crate::language::expression::Operator;
use crate::language::format::{format_string_with_args, format_value};
use crate::language::function::{ExternalFunction, HostFunction, SCode, SFunction, SParams};
use crate::language::operators::{binary_op, language_equals};
use crate::language::semantics::{binary_result, language_eq, or_null};
use crate::language::text::{
    display, display_of, parse_int, parse_int_of, replace_of, split_of, str_less, str_less_of,
    str_replace, str_split, string_values, trim, trim_of, utf8_len, utf8_len_of,
};
use crate::language::function::{FunctionCode, FunctionParams, Function};
use crate::language::library::Library;
use crate::language::assoc::{assoc_extend, lemma_assoc_index};
use crate::language::value::{
    clone_pairs, clone_values, lemma_view_variant, named_values_view, pairs_view, truthy,
    values_view, FunctionRef, SValue, Value,
};

verus! {

/* Parameters */

pub open spec fn tail_only() -> SParams {
    SParams { params: Seq::empty(), tail_param: Some("tail"@) }
}

pub open spec fn no_params() -> SParams {
    SParams { params: Seq::empty(), tail_param: None }
}

pub open spec fn one_and_tail(name: Seq<char>, default: SValue) -> SParams {
    SParams { params: seq![(name, default)], tail_param: Some("tail"@) }
}

/// The parameters of each built-in function, with their default values.
pub open spec fn builtin_params(h: HostFunction) -> SParams {
    match h {
        HostFunction::Sum => one_and_tail("sep"@, SValue::Null),
        HostFunction::Clamp => SParams {
            params: seq![("min"@, SValue::Int(i64::MIN)), ("max"@, SValue::Int(i64::MAX))],
            tail_param: Some("tail"@),
        },
        HostFunction::Replace => SParams {
            params: seq![("from"@, SValue::Null), ("to"@, SValue::Null)],
            tail_param: Some("tail"@),
        },
        HostFunction::Split => one_and_tail("delim"@, SValue::String(" "@)),
        HostFunction::MapValues => one_and_tail("func"@, SValue::Null),
        HostFunction::Filter => one_and_tail("func"@, SValue::Null),
        HostFunction::Repeat => SParams {
            params: seq![("value"@, SValue::Null), ("times"@, SValue::Int(1))],
            tail_param: None,
        },
        HostFunction::External(x) => match x {
            ExternalFunction::Date | ExternalFunction::Refresh | ExternalFunction::MprisPlayer
            | ExternalFunction::MprisTrack | ExternalFunction::MprisPlay
            | ExternalFunction::MprisPause | ExternalFunction::MprisPlayPause
            | ExternalFunction::MprisNext | ExternalFunction::MprisPrevious
            | ExternalFunction::MprisEvents | ExternalFunction::HyprlandEvents => no_params(),
            ExternalFunction::TimeEvents => SParams {
                params: seq![("onEvery"@, SValue::String("second"@))],
                tail_param: None,
            },
            ExternalFunction::Send => one_and_tail("value"@, SValue::Null),
            ExternalFunction::Subscribe => one_and_tail("callback"@, SValue::Null),
            _ => tail_only(),
        },
        _ => tail_only(),
    }
}

pub open spec fn builtin_function(h: HostFunction) -> SFunction {
    SFunction { params: builtin_params(h), code: SCode::Host(h), closure: None }
}

/* Libraries */

pub open spec fn entry(name: Seq<char>, h: HostFunction) -> (Seq<char>, SValue) {
    (name, SValue::Function(FunctionRef::Builtin(h)))
}

pub open spec fn external_entry(name: Seq<char>, x: ExternalFunction) -> (Seq<char>, SValue) {
    entry(name, HostFunction::External(x))
}

/// The standard library, in the order its parts are merged.
pub open spec fn standard_library_entries() -> Seq<(Seq<char>, SValue)> {
    seq![
        external_entry("print"@, ExternalFunction::Print),
        entry("clone"@, HostFunction::Clone),
        entry("sum"@, HostFunction::Sum),
        external_entry("exec"@, ExternalFunction::Exec),
        external_entry("date_str"@, ExternalFunction::DateStr),
        external_entry("date"@, ExternalFunction::Date),
        external_entry("timeEvents"@, ExternalFunction::TimeEvents),
        entry("bool"@, HostFunction::Bool),
        entry("int"@, HostFunction::Int),
        entry("string"@, HostFunction::String),
        external_entry("refresh"@, ExternalFunction::Refresh),
        external_entry("spawn"@, ExternalFunction::Spawn),
        external_entry("sleep"@, ExternalFunction::Sleep),
        entry("min"@, HostFunction::Min),
        entry("max"@, HostFunction::Max),
        entry("clamp"@, HostFunction::Clamp),
        entry("to_upper"@, HostFunction::ToUpper),
        entry("to_lower"@, HostFunction::ToLower),
        entry("trim"@, HostFunction::Trim),
        entry("len"@, HostFunction::Len),
        entry("replace"@, HostFunction::Replace),
        entry("split"@, HostFunction::Split),
        entry("format"@, HostFunction::Format),
        entry("map"@, HostFunction::MapValues),
        entry("filter"@, HostFunction::Filter),
        entry("repeat"@, HostFunction::Repeat),
        external_entry("recv"@, ExternalFunction::Recv),
        external_entry("tryRecv"@, ExternalFunction::TryRecv),
        external_entry("send"@, ExternalFunction::Send),
        external_entry("subscribe"@, ExternalFunction::Subscribe),
    ]
}

pub open spec fn mpris_entries() -> Seq<(Seq<char>, SValue)> {
    seq![
        external_entry("player"@, ExternalFunction::MprisPlayer),
        external_entry("track"@, ExternalFunction::MprisTrack),
        external_entry("play"@, ExternalFunction::MprisPlay),
        external_entry("pause"@, ExternalFunction::MprisPause),
        external_entry("playPause"@, ExternalFunction::MprisPlayPause),
        external_entry("next"@, ExternalFunction::MprisNext),
        external_entry("previous"@, ExternalFunction::MprisPrevious),
        external_entry("events"@, ExternalFunction::MprisEvents),
    ]
}

pub open spec fn hyprland_entries() -> Seq<(Seq<char>, SValue)> {
    seq![
        external_entry("events"@, ExternalFunction::HyprlandEvents),
        external_entry("focusWorkspace"@, ExternalFunction::HyprlandFocusWorkspace),
    ]
}

/// The libraries that `import` finds.
pub open spec fn builtin_library(name: Seq<char>) -> Option<Seq<(Seq<char>, SValue)>> {
    if name == "mpris"@ {
        Some(mpris_entries())
    } else if name == "hyprland"@ {
        Some(hyprland_entries())
    } else {
        None
    }
}

/* What the built-in functions return */

/// An argument of a built-in, resolved into a tree of plain values: a built-in reads what
/// arrays and maps hold, and what it builds from them is new.
pub open spec fn frame_arg(s: SRuntime, frame: usize, name: Seq<char>) -> SValue {
    resolved(s, rt_lookup_or_null(s, frame, name))
}

pub open spec fn add_or_null(a: SValue, b: SValue) -> SValue {
    or_null(binary_result(Operator::Add, a, b))
}

/// One step of `sum`: the separator, if any, then the next value.
pub open spec fn sum_step(acc: SValue, v: SValue, sep: SValue) -> SValue {
    let acc2 = if sep is Null {
        acc
    } else {
        add_or_null(acc, sep)
    };
    add_or_null(acc2, v)
}

/// The values of a non-empty sequence added up from the left.
pub open spec fn sum_fold(a: Seq<SValue>, sep: SValue) -> SValue
    decreases a.len(),
{
    if a.len() <= 1 {
        a[0]
    } else {
        sum_step(sum_fold(a.drop_last(), sep), a.last(), sep)
    }
}

pub open spec fn sum_value(tail: SValue, sep: SValue) -> SValue {
    match tail {
        SValue::Array(a) => if a.len() == 0 {
            SValue::Array(Seq::empty())
        } else {
            sum_fold(a, sep)
        },
        _ => tail,
    }
}

/// `a < b` for two integers, two strings or two booleans; false otherwise.
pub open spec fn value_less(a: SValue, b: SValue) -> bool {
    match (a, b) {
        (SValue::Int(x), SValue::Int(y)) => x < y,
        (SValue::String(x), SValue::String(y)) => str_less(x, y),
        (SValue::Bool(x), SValue::Bool(y)) => !x && y,
        _ => false,
    }
}

/// The first smallest (or largest) value of a non-empty sequence, comparing only values
/// of the same kind with the current best.
pub open spec fn extreme(a: Seq<SValue>, largest: bool) -> SValue
    decreases a.len(),
{
    if a.len() <= 1 {
        a[0]
    } else {
        let best = extreme(a.drop_last(), largest);
        let v = a.last();
        if (if largest {
            value_less(best, v)
        } else {
            value_less(v, best)
        }) {
            v
        } else {
            best
        }
    }
}

pub open spec fn map_values(m: Seq<(SValue, SValue)>) -> Seq<SValue> {
    Seq::new(m.len(), |i: int| m[i].1)
}

pub open spec fn extreme_value(tail: SValue, largest: bool) -> SValue {
    match tail {
        SValue::Array(a) => if a.len() == 0 {
            SValue::Null
        } else {
            extreme(a, largest)
        },
        SValue::HashMap(m) => if m.len() == 0 {
            SValue::Null
        } else {
            extreme(map_values(m), largest)
        },
        SValue::Bool(_) | SValue::Int(_) | SValue::String(_) => tail,
        _ => SValue::Null,
    }
}

/// `tail` limited to `[min, max]`; null unless all three are integers with `min <= max`.
pub open spec fn clamp_value(tail: SValue, min: SValue, max: SValue) -> SValue {
    match (tail, min, max) {
        (SValue::Int(v), SValue::Int(lo), SValue::Int(hi)) => if lo > hi {
            SValue::Null
        } else if v < lo {
            SValue::Int(lo)
        } else if v > hi {
            SValue::Int(hi)
        } else {
            SValue::Int(v)
        },
        _ => SValue::Null,
    }
}

/// The name of what `str::to_uppercase` returns.
pub uninterp spec fn upper_case(s: Seq<char>) -> Seq<char>;

/// The name of what `str::to_lowercase` returns.
pub uninterp spec fn lower_case(s: Seq<char>) -> Seq<char>;

/// Calls `str::to_uppercase`, which maps every character to its upper case form by the
/// Unicode case tables; its result depends on the string alone and is named `upper_case`.
#[verifier::external_body]
fn to_upper_case(s: &String) -> (r: String)
    ensures
        r@ == upper_case(s@),
{
    s.to_uppercase()
}

/// Calls `str::to_lowercase`, which maps every character to its lower case form by the
/// Unicode case tables; its result depends on the string alone and is named `lower_case`.
#[verifier::external_body]
fn to_lower_case(s: &String) -> (r: String)
    ensures
        r@ == lower_case(s@),
{
    s.to_lowercase()
}

pub open spec fn len_value(tail: SValue) -> SValue {
    match tail {
        SValue::String(s) => SValue::Int(utf8_len(s) as i64),
        SValue::Array(a) => SValue::Int(a.len() as i64),
        SValue::HashMap(m) => SValue::Int(m.len() as i64),
        _ => SValue::Null,
    }
}

pub open spec fn replace_value(tail: SValue, from: SValue, to: SValue) -> SValue {
    match (tail, from, to) {
        (SValue::String(s), SValue::String(f), SValue::String(t)) => SValue::String(str_replace(s, f, t)),
        (SValue::Array(a), _, _) => SValue::Array(
            Seq::new(a.len(), |i: int| if language_eq(a[i], from) { to } else { a[i] }),
        ),
        _ => tail,
    }
}

/// The non-empty runs of `a` between the elements equal to `delim`; `cur` is the run read so far.
pub open spec fn array_chunks(a: Seq<SValue>, delim: SValue, cur: Seq<SValue>) -> Seq<SValue>
    decreases a.len(),
{
    let closed = if cur.len() > 0 {
        seq![SValue::Array(cur)]
    } else {
        Seq::empty()
    };
    if a.len() == 0 {
        closed
    } else if language_eq(a[0], delim) {
        closed + array_chunks(a.drop_first(), delim, Seq::empty())
    } else {
        array_chunks(a.drop_first(), delim, cur.push(a[0]))
    }
}

pub open spec fn split_value(tail: SValue, delim: SValue) -> SValue {
    match (tail, delim) {
        (SValue::String(s), SValue::String(d)) => SValue::Array(string_values(str_split(s, d))),
        (SValue::Array(a), _) => SValue::Array(array_chunks(a, delim, Seq::empty())),
        _ => tail,
    }
}

pub open spec fn repeat_value(value: SValue, times: SValue) -> SValue {
    match times {
        SValue::Int(n) => SValue::Array(Seq::new(if n > 0 { n as nat } else { 0 }, |i: int| value)),
        _ => SValue::Null,
    }
}

pub open spec fn int_value(tail: SValue) -> SValue {
    match tail {
        SValue::Int(i) => SValue::Int(i),
        SValue::Bool(b) => SValue::Int(if b { 1 } else { 0 }),
        SValue::String(s) => match parse_int(s) {
            Some(n) => SValue::Int(n),
            None => SValue::Null,
        },
        _ => SValue::Null,
    }
}

/// What a built-in that the interpreter computes itself returns, given its call environment.
pub open spec fn builtin_value(h: HostFunction, s: SRuntime, frame: usize) -> SValue {
    let tail = frame_arg(s, frame, "tail"@);
    match h {
        // The argument resolved into a tree shares nothing; the interpreter stores the
        // copy into a cell of its own.
        HostFunction::Clone => tail,
        HostFunction::Sum => sum_value(tail, frame_arg(s, frame, "sep"@)),
        HostFunction::Min => extreme_value(tail, false),
        HostFunction::Max => extreme_value(tail, true),
        HostFunction::Clamp => clamp_value(tail, frame_arg(s, frame, "min"@), frame_arg(s, frame, "max"@)),
        HostFunction::ToUpper => match tail {
            SValue::String(x) => SValue::String(upper_case(x)),
            _ => SValue::Null,
        },
        HostFunction::ToLower => match tail {
            SValue::String(x) => SValue::String(lower_case(x)),
            _ => SValue::Null,
        },
        HostFunction::Trim => match tail {
            SValue::String(x) => SValue::String(trim(x)),
            _ => SValue::Null,
        },
        HostFunction::Len => len_value(tail),
        HostFunction::Replace => replace_value(tail, frame_arg(s, frame, "from"@), frame_arg(s, frame, "to"@)),
        HostFunction::Split => split_value(tail, frame_arg(s, frame, "delim"@)),
        HostFunction::Repeat => repeat_value(frame_arg(s, frame, "value"@), frame_arg(s, frame, "times"@)),
        HostFunction::Format => format_value(tail, s, frame),
        HostFunction::Bool => SValue::Bool(truthy(tail)),
        HostFunction::Int => int_value(tail),
        HostFunction::String => SValue::String(display(tail)),
        _ => SValue::Null,
    }
}

/* The built-in functions as values */

fn name(s: &str) -> (r: String)
    ensures
        r@ == s@,
{
    String::from_str(s)
}

/// The parameters of a built-in function.
pub fn host_params(h: HostFunction) -> (r: FunctionParams)
    ensures
        r@ == builtin_params(h),
{
    match h {
        HostFunction::Sum => one_param_and_tail("sep", None),
        HostFunction::Clamp => {
            proof {
                reveal_strlit("min");
                reveal_strlit("max");
                assert("min"@[1] == 'i' && "max"@[1] == 'a');
                lemma_assoc_index(seq![("min"@, SValue::Int(i64::MIN))], "max"@);
            }
            let r = FunctionParams::new().with_param(name("min"), Some(Value::Int(i64::MIN))).with_param(
                name("max"),
                Some(Value::Int(i64::MAX)),
            ).with_tail(name("tail"));
            assert(r@.params =~= builtin_params(h).params);
            r
        },
        HostFunction::Replace => {
            proof {
                reveal_strlit("from");
                reveal_strlit("to");
                assert("from"@.len() == 4 && "to"@.len() == 2);
                lemma_assoc_index(seq![("from"@, SValue::Null)], "to"@);
            }
            let r = FunctionParams::new().with_param(name("from"), None).with_param(name("to"), None).with_tail(
                name("tail"),
            );
            assert(r@.params =~= builtin_params(h).params);
            r
        },
        HostFunction::Split => one_param_and_tail("delim", Some(Value::String(name(" ")))),
        HostFunction::MapValues | HostFunction::Filter => one_param_and_tail("func", None),
        HostFunction::Repeat => {
            proof {
                reveal_strlit("value");
                reveal_strlit("times");
                assert("value"@[0] == 'v' && "times"@[0] == 't');
                lemma_assoc_index(seq![("value"@, SValue::Null)], "times"@);
            }
            let r = FunctionParams::new().with_param(name("value"), None).with_param(
                name("times"),
                Some(Value::Int(1)),
            );
            assert(r@.params =~= builtin_params(h).params);
            r
        },
        HostFunction::External(x) => match x {
            ExternalFunction::Date | ExternalFunction::Refresh | ExternalFunction::MprisPlayer
            | ExternalFunction::MprisTrack | ExternalFunction::MprisPlay
            | ExternalFunction::MprisPause | ExternalFunction::MprisPlayPause
            | ExternalFunction::MprisNext | ExternalFunction::MprisPrevious
            | ExternalFunction::MprisEvents | ExternalFunction::HyprlandEvents => FunctionParams::new(),
            ExternalFunction::TimeEvents => {
                let r = FunctionParams::new().with_param(name("onEvery"), Some(Value::String(name("second"))));
                assert(r@.params =~= builtin_params(h).params);
                r
            },
            ExternalFunction::Send => one_param_and_tail("value", None),
            ExternalFunction::Subscribe => one_param_and_tail("callback", None),
            _ => FunctionParams::new().with_tail(name("tail")),
        },
        _ => FunctionParams::new().with_tail(name("tail")),
    }
}

fn one_param_and_tail(n: &str, default: Option<Value>) -> (r: FunctionParams)
    ensures
        r@ == one_and_tail(
            n@,
            match default {
                Some(v) => v@,
                None => SValue::Null,
            },
        ),
{
    let r = FunctionParams::new().with_param(name(n), default).with_tail(name("tail"));
    assert(r@.params =~= seq![(n@, match default { Some(v) => v@, None => SValue::Null })]);
    r
}

/// The function a built-in stands for.
pub fn host_function(h: HostFunction) -> (r: Function)
    ensures
        r@ == builtin_function(h),
{
    Function { params: host_params(h), code: FunctionCode::Host(h), closure: None }
}

fn push_entry(v: &mut Vec<(String, Value)>, n: &str, h: HostFunction)
    ensures
        named_values_view(final(v)@) == named_values_view(old(v)@).push(entry(n@, h)),
{
    let ghost v0 = v@;
    v.push((name(n), Value::Function(FunctionRef::Builtin(h))));
    proof {
        assert(named_values_view(v@) =~= named_values_view(v0).push(entry(n@, h)));
    }
}

fn push_external(v: &mut Vec<(String, Value)>, n: &str, x: ExternalFunction)
    ensures
        named_values_view(final(v)@) == named_values_view(old(v)@).push(external_entry(n@, x)),
{
    push_entry(v, n, HostFunction::External(x));
}

/// The standard library, which every program starts with.
pub fn standard_library_entries_vec() -> (r: Vec<(String, Value)>)
    ensures
        named_values_view(r@) == standard_library_entries(),
{
    let mut v: Vec<(String, Value)> = Vec::new();
    proof {
        assert(named_values_view(v@) =~= Seq::<(Seq<char>, SValue)>::empty());
    }
    push_external(&mut v, "print", ExternalFunction::Print);
    push_entry(&mut v, "clone", HostFunction::Clone);
    push_entry(&mut v, "sum", HostFunction::Sum);
    push_external(&mut v, "exec", ExternalFunction::Exec);
    push_external(&mut v, "date_str", ExternalFunction::DateStr);
    push_external(&mut v, "date", ExternalFunction::Date);
    push_external(&mut v, "timeEvents", ExternalFunction::TimeEvents);
    push_entry(&mut v, "bool", HostFunction::Bool);
    push_entry(&mut v, "int", HostFunction::Int);
    push_entry(&mut v, "string", HostFunction::String);
    push_external(&mut v, "refresh", ExternalFunction::Refresh);
    push_external(&mut v, "spawn", ExternalFunction::Spawn);
    push_external(&mut v, "sleep", ExternalFunction::Sleep);
    push_entry(&mut v, "min", HostFunction::Min);
    push_entry(&mut v, "max", HostFunction::Max);
    push_entry(&mut v, "clamp", HostFunction::Clamp);
    push_entry(&mut v, "to_upper", HostFunction::ToUpper);
    push_entry(&mut v, "to_lower", HostFunction::ToLower);
    push_entry(&mut v, "trim", HostFunction::Trim);
    push_entry(&mut v, "len", HostFunction::Len);
    push_entry(&mut v, "replace", HostFunction::Replace);
    push_entry(&mut v, "split", HostFunction::Split);
    push_entry(&mut v, "format", HostFunction::Format);
    push_entry(&mut v, "map", HostFunction::MapValues);
    push_entry(&mut v, "filter", HostFunction::Filter);
    push_entry(&mut v, "repeat", HostFunction::Repeat);
    push_external(&mut v, "recv", ExternalFunction::Recv);
    push_external(&mut v, "tryRecv", ExternalFunction::TryRecv);
    push_external(&mut v, "send", ExternalFunction::Send);
    push_external(&mut v, "subscribe", ExternalFunction::Subscribe);
    proof {
        assert(named_values_view(v@) =~= standard_library_entries());
    }
    v
}

/// The standard library as a `Library`.
pub fn standard_library() -> (r: Library)
    ensures
        r@ == standard_library_entries(),
{
    Library::from_entries(standard_library_entries_vec())
}

pub fn mpris_library() -> (r: Vec<(String, Value)>)
    ensures
        named_values_view(r@) == mpris_entries(),
{
    let mut v: Vec<(String, Value)> = Vec::new();
    proof {
        assert(named_values_view(v@) =~= Seq::<(Seq<char>, SValue)>::empty());
    }
    push_external(&mut v, "player", ExternalFunction::MprisPlayer);
    push_external(&mut v, "track", ExternalFunction::MprisTrack);
    push_external(&mut v, "play", ExternalFunction::MprisPlay);
    push_external(&mut v, "pause", ExternalFunction::MprisPause);
    push_external(&mut v, "playPause", ExternalFunction::MprisPlayPause);
    push_external(&mut v, "next", ExternalFunction::MprisNext);
    push_external(&mut v, "previous", ExternalFunction::MprisPrevious);
    push_external(&mut v, "events", ExternalFunction::MprisEvents);
    proof {
        assert(named_values_view(v@) =~= mpris_entries());
    }
    v
}

pub fn hyprland_library() -> (r: Vec<(String, Value)>)
    ensures
        named_values_view(r@) == hyprland_entries(),
{
    let mut v: Vec<(String, Value)> = Vec::new();
    proof {
        assert(named_values_view(v@) =~= Seq::<(Seq<char>, SValue)>::empty());
    }
    push_external(&mut v, "events", ExternalFunction::HyprlandEvents);
    push_external(&mut v, "focusWorkspace", ExternalFunction::HyprlandFocusWorkspace);
    proof {
        assert(named_values_view(v@) =~= hyprland_entries());
    }
    v
}

/* Computing the built-in functions */

/// The value of the variable `n` seen from environment `frame`, or null.
fn frame_arg_of(rt: &Runtime, frame: usize, n: &str) -> (r: Value)
    ensures
        r@ == frame_arg(rt@, frame, n@),
{
    match rt.lookup(frame, &name(n)) {
        Some(v) => rt.resolve(&v),
        None => rt.resolve(&Value::Null),
    }
}

fn add_or_null_of(a: Value, b: Value) -> (r: Value)
    ensures
        r@ == add_or_null(a@, b@),
{
    match binary_op(Operator::Add, a, b) {
        Ok(v) => v,
        Err(_) => Value::Null,
    }
}

fn sum_of(tail: &Value, sep: &Value) -> (r: Value)
    ensures
        r@ == sum_value(tail@, sep@),
{
    match tail {
        Value::Array(a) => {
            if a.len() == 0 {
                let e: Vec<Value> = Vec::new();
                assert(values_view(e@) =~= Seq::<SValue>::empty());
                return Value::Array(e);
            }
            let ghost av = values_view(a@);
            let mut acc = a[0].deep_clone();
            let mut i: usize = 1;
            proof {
                assert(av.take(1).len() == 1);
            }
            while i < a.len()
                invariant
                    1 <= i <= a.len(),
                    av == values_view(a@),
                    acc@ == sum_fold(av.take(i as int), sep@),
                decreases a.len() - i,
            {
                let acc2 = if sep.is_null() {
                    acc
                } else {
                    add_or_null_of(acc, sep.deep_clone())
                };
                acc = add_or_null_of(acc2, a[i].deep_clone());
                i = i + 1;
                proof {
                    assert(av.take(i as int).drop_last() =~= av.take(i as int - 1));
                }
            }
            proof {
                assert(av.take(i as int) =~= av);
            }
            acc
        },
        _ => tail.deep_clone(),
    }
}

fn value_less_of(a: &Value, b: &Value) -> (r: bool)
    ensures
        r == value_less(a@, b@),
{
    match (a, b) {
        (Value::Int(x), Value::Int(y)) => *x < *y,
        (Value::String(x), Value::String(y)) => str_less_of(x, y),
        (Value::Bool(x), Value::Bool(y)) => !*x && *y,
        _ => {
            proof {
                lemma_view_variant(*a);
                lemma_view_variant(*b);
            }
            false
        },
    }
}

/// The first smallest (or largest) value of a non-empty sequence.
fn extreme_of(a: &Vec<Value>, largest: bool) -> (r: Value)
    requires
        a.len() > 0,
    ensures
        r@ == extreme(values_view(a@), largest),
{
    let ghost av = values_view(a@);
    let mut best: usize = 0;
    let mut i: usize = 1;
    proof {
        assert(av.take(1).len() == 1);
    }
    while i < a.len()
        invariant
            1 <= i <= a.len(),
            best < i,
            av == values_view(a@),
            av[best as int] == extreme(av.take(i as int), largest),
        decreases a.len() - i,
    {
        let better = if largest {
            value_less_of(&a[best], &a[i])
        } else {
            value_less_of(&a[i], &a[best])
        };
        if better {
            best = i;
        }
        i = i + 1;
        proof {
            assert(av.take(i as int).drop_last() =~= av.take(i as int - 1));
        }
    }
    proof {
        assert(av.take(i as int) =~= av);
    }
    a[best].deep_clone()
}

fn extreme_value_of(tail: &Value, largest: bool) -> (r: Value)
    ensures
        r@ == extreme_value(tail@, largest),
{
    proof {
        lemma_view_variant(*tail);
    }
    match tail {
        Value::Array(a) => if a.len() == 0 {
            Value::Null
        } else {
            extreme_of(a, largest)
        },
        Value::HashMap(m) => if m.len() == 0 {
            Value::Null
        } else {
            let vals = values_of_pairs(m);
            extreme_of(&vals, largest)
        },
        Value::Bool(_) | Value::Int(_) | Value::String(_) => tail.deep_clone(),
        _ => Value::Null,
    }
}

/// Copies of the values of a map, in order.
pub fn values_of_pairs(m: &Vec<(Value, Value)>) -> (r: Vec<Value>)
    ensures
        values_view(r@) == map_values(pairs_view(m@)),
{
    let mut out: Vec<Value> = Vec::new();
    let mut i: usize = 0;
    while i < m.len()
        invariant
            i <= m.len(),
            values_view(out@) == map_values(pairs_view(m@)).take(i as int),
        decreases m.len() - i,
    {
        let ghost before = out@;
        let v = m[i].1.deep_clone();
        out.push(v);
        i = i + 1;
        proof {
            assert(values_view(out@) =~= values_view(before).push(v@));
            assert(values_view(out@) =~= map_values(pairs_view(m@)).take(i as int));
        }
    }
    proof {
        assert(map_values(pairs_view(m@)).take(i as int) =~= map_values(pairs_view(m@)));
    }
    out
}

fn clamp_of(tail: &Value, min: &Value, max: &Value) -> (r: Value)
    ensures
        r@ == clamp_value(tail@, min@, max@),
{
    match (tail, min, max) {
        (Value::Int(v), Value::Int(lo), Value::Int(hi)) => if *lo > *hi {
            Value::Null
        } else if *v < *lo {
            Value::Int(*lo)
        } else if *v > *hi {
            Value::Int(*hi)
        } else {
            Value::Int(*v)
        },
        _ => {
            proof {
                lemma_view_variant(*tail);
                lemma_view_variant(*min);
                lemma_view_variant(*max);
            }
            Value::Null
        },
    }
}

fn len_of(tail: &Value) -> (r: Value)
    ensures
        r@ == len_value(tail@),
{
    match tail {
        Value::String(s) => Value::Int(utf8_len_of(s) as i64),
        Value::Array(a) => Value::Int(a.len() as i64),
        Value::HashMap(m) => Value::Int(m.len() as i64),
        _ => {
            proof {
                lemma_view_variant(*tail);
            }
            Value::Null
        },
    }
}

fn replace_value_of(tail: &Value, from: &Value, to: &Value) -> (r: Value)
    ensures
        r@ == replace_value(tail@, from@, to@),
{
    proof {
        lemma_view_variant(*tail);
        lemma_view_variant(*from);
        lemma_view_variant(*to);
    }
    match (tail, from, to) {
        (Value::String(s), Value::String(f), Value::String(t)) => Value::String(replace_of(s, f, t)),
        (Value::Array(a), _, _) => {
            let ghost av = values_view(a@);
            let ghost want = Seq::new(av.len(), |i: int| if language_eq(av[i], from@) { to@ } else { av[i] });
            let mut out: Vec<Value> = Vec::new();
            let mut i: usize = 0;
            while i < a.len()
                invariant
                    i <= a.len(),
                    av == values_view(a@),
                    want.len() == av.len(),
                    forall|k: int| 0 <= k < av.len() ==> #[trigger] want[k] == if language_eq(av[k], from@) { to@ } else { av[k] },
                    values_view(out@) == want.take(i as int),
                decreases a.len() - i,
            {
                let ghost before = out@;
                let v = if language_equals(&a[i], from) {
                    to.deep_clone()
                } else {
                    a[i].deep_clone()
                };
                out.push(v);
                i = i + 1;
                proof {
                    assert(values_view(out@) =~= values_view(before).push(v@));
                    assert(values_view(out@) =~= want.take(i as int));
                }
            }
            proof {
                assert(want.take(i as int) =~= want);
            }
            Value::Array(out)
        },
        _ => tail.deep_clone(),
    }
}

fn array_chunks_of(a: &Vec<Value>, delim: &Value) -> (r: Vec<Value>)
    ensures
        values_view(r@) == array_chunks(values_view(a@), delim@, Seq::empty()),
{
    let ghost av = values_view(a@);
    let ghost whole = array_chunks(av, delim@, Seq::empty());
    let ghost mut done: Seq<SValue> = Seq::empty();
    let mut out: Vec<Value> = Vec::new();
    let mut cur: Vec<Value> = Vec::new();
    let mut i: usize = 0;
    proof {
        assert(av.skip(0) =~= av);
        assert(values_view(cur@) =~= Seq::<SValue>::empty());
        assert(done + whole =~= whole);
    }
    while i < a.len()
        invariant
            i <= a.len(),
            av == values_view(a@),
            done + array_chunks(av.skip(i as int), delim@, values_view(cur@)) == whole,
            values_view(out@) == done,
        decreases a.len() - i,
    {
        let ghost x = av.skip(i as int);
        proof {
            assert(x.drop_first() =~= av.skip(i as int + 1));
            assert(x[0] == a@[i as int]@);
        }
        if language_equals(&a[i], delim) {
            assert(language_eq(x[0], delim@));
            if cur.len() > 0 {
                let mut chunk: Vec<Value> = Vec::new();
                std::mem::swap(&mut chunk, &mut cur);
                let ghost cv = values_view(chunk@);
                let ghost before = out@;
                out.push(Value::Array(chunk));
                proof {
                    assert(values_view(out@) =~= values_view(before).push(SValue::Array(cv)));
                    assert(done + array_chunks(x, delim@, cv) =~= done.push(SValue::Array(cv))
                        + array_chunks(x.drop_first(), delim@, Seq::empty()));
                    done = done.push(SValue::Array(cv));
                    assert(values_view(cur@) =~= Seq::<SValue>::empty());
                }
                assert(done + array_chunks(x.drop_first(), delim@, values_view(cur@)) == whole);
            } else {
                proof {
                    assert(values_view(cur@) =~= Seq::<SValue>::empty());
                    assert(done + array_chunks(x, delim@, values_view(cur@)) =~= done + array_chunks(
                        x.drop_first(),
                        delim@,
                        Seq::empty(),
                    ));
                }
                assert(done + array_chunks(x.drop_first(), delim@, values_view(cur@)) == whole);
            }
        } else {
            let ghost before = cur@;
            let v = a[i].deep_clone();
            cur.push(v);
            proof {
                assert(values_view(cur@) =~= values_view(before).push(v@));
                assert(x[0] == v@);
                assert(array_chunks(x, delim@, values_view(before)) == array_chunks(
                    x.drop_first(),
                    delim@,
                    values_view(before).push(x[0]),
                ));
            }
            assert(done + array_chunks(x.drop_first(), delim@, values_view(cur@)) == whole);
        }
        i = i + 1;
    }
    proof {
        assert(av.skip(i as int) =~= Seq::<SValue>::empty());
    }
    if cur.len() > 0 {
        let ghost cv = values_view(cur@);
        let ghost before = out@;
        out.push(Value::Array(cur));
        proof {
            assert(values_view(out@) =~= values_view(before).push(SValue::Array(cv)));
            assert(done.push(SValue::Array(cv)) =~= whole);
        }
    } else {
        proof {
            assert(done + Seq::<SValue>::empty() =~= done);
        }
    }
    out
}

fn split_value_of(tail: &Value, delim: &Value) -> (r: Value)
    ensures
        r@ == split_value(tail@, delim@),
{
    proof {
        lemma_view_variant(*tail);
        lemma_view_variant(*delim);
    }
    match (tail, delim) {
        (Value::String(s), Value::String(d)) => Value::Array(split_of(s, d)),
        (Value::Array(a), _) => Value::Array(array_chunks_of(a, delim)),
        _ => tail.deep_clone(),
    }
}

fn repeat_of(value: &Value, times: &Value) -> (r: Value)
    ensures
        r@ == repeat_value(value@, times@),
{
    match times {
        Value::Int(n) => {
            let n = *n;
            let ghost want = Seq::new(if n > 0 { n as nat } else { 0 }, |i: int| value@);
            let mut out: Vec<Value> = Vec::new();
            let mut k: i64 = 0;
            while k < n
                invariant
                    0 <= k,
                    k <= n || n < 0,
                    n <= 0 ==> k == 0,
                    want == Seq::new(if n > 0 { n as nat } else { 0 }, |i: int| value@),
                    values_view(out@) == Seq::new(k as nat, |i: int| value@),
                decreases n - k,
            {
                let ghost before = out@;
                let v = value.deep_clone();
                out.push(v);
                k = k + 1;
                proof {
                    assert(values_view(out@) =~= values_view(before).push(v@));
                    assert(values_view(out@) =~= Seq::new(k as nat, |i: int| value@));
                }
            }
            proof {
                assert(values_view(out@) =~= want);
            }
            Value::Array(out)
        },
        _ => {
            proof {
                lemma_view_variant(*times);
            }
            Value::Null
        },
    }
}

fn int_of(tail: &Value) -> (r: Value)
    ensures
        r@ == int_value(tail@),
{
    match tail {
        Value::Int(i) => Value::Int(*i),
        Value::Bool(b) => Value::Int(if *b { 1 } else { 0 }),
        Value::String(s) => match parse_int_of(s) {
            Some(n) => Value::Int(n),
            None => Value::Null,
        },
        _ => {
            proof {
                lemma_view_variant(*tail);
            }
            Value::Null
        },
    }
}

fn format_value_of(tail: &Value, rt: &Runtime, frame: usize) -> (r: Value)
    ensures
        r@ == format_value(tail@, rt@, frame),
{
    let env = SharedEnvironment { id: frame };
    match tail {
        Value::String(f) => {
            let args: Vec<Value> = Vec::new();
            assert(values_view(args@) =~= Seq::<SValue>::empty());
            Value::String(format_string_with_args(f, &args, &env, rt))
        },
        Value::Array(a) => {
            if a.len() > 0 {
                match &a[0] {
                    Value::String(f) => {
                        let mut args: Vec<Value> = Vec::new();
                        let mut i: usize = 1;
                        while i < a.len()
                            invariant
                                1 <= i <= a.len(),
                                values_view(args@) == values_view(a@).subrange(1, i as int),
                            decreases a.len() - i,
                        {
                            let ghost before = args@;
                            let v = a[i].deep_clone();
                            args.push(v);
                            i = i + 1;
                            proof {
                                assert(values_view(args@) =~= values_view(before).push(v@));
                                assert(values_view(args@) =~= values_view(a@).subrange(1, i as int));
                            }
                        }
                        proof {
                            assert(values_view(a@).subrange(1, i as int) =~= values_view(a@).skip(1));
                        }
                        return Value::String(format_string_with_args(f, &args, &env, rt));
                    },
                    _ => {
                        proof {
                            lemma_view_variant(a@[0]);
                        }
                    },
                }
            }
            Value::Null
        },
        _ => {
            proof {
                lemma_view_variant(*tail);
            }
            Value::Null
        },
    }
}

/// What a built-in that the interpreter computes itself returns, from its call environment.
pub fn builtin_pure(h: HostFunction, frame: usize, rt: &Runtime) -> (r: Value)
    ensures
        r@ == builtin_value(h, rt@, frame),
{
    let tail = frame_arg_of(rt, frame, "tail");
    match h {
        HostFunction::Clone => tail,
        HostFunction::Sum => sum_of(&tail, &frame_arg_of(rt, frame, "sep")),
        HostFunction::Min => extreme_value_of(&tail, false),
        HostFunction::Max => extreme_value_of(&tail, true),
        HostFunction::Clamp => clamp_of(&tail, &frame_arg_of(rt, frame, "min"), &frame_arg_of(rt, frame, "max")),
        HostFunction::ToUpper => match &tail {
            Value::String(x) => Value::String(to_upper_case(x)),
            _ => Value::Null,
        },
        HostFunction::ToLower => match &tail {
            Value::String(x) => Value::String(to_lower_case(x)),
            _ => Value::Null,
        },
        HostFunction::Trim => match &tail {
            Value::String(x) => Value::String(trim_of(x)),
            _ => Value::Null,
        },
        HostFunction::Len => len_of(&tail),
        HostFunction::Replace => replace_value_of(
            &tail,
            &frame_arg_of(rt, frame, "from"),
            &frame_arg_of(rt, frame, "to"),
        ),
        HostFunction::Split => split_value_of(&tail, &frame_arg_of(rt, frame, "delim")),
        HostFunction::Repeat => repeat_of(&frame_arg_of(rt, frame, "value"), &frame_arg_of(rt, frame, "times")),
        HostFunction::Format => format_value_of(&tail, rt, frame),
        HostFunction::Bool => Value::Bool(tail.is_truthy()),
        HostFunction::Int => int_of(&tail),
        HostFunction::String => Value::String(display_of(&tail)),
        _ => Value::Null,
    }
}

} // verus!
