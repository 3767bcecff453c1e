//! The meaning of Kool programs: a big-step semantics as relations between the
//! runtime before and after an evaluation, with a budget (`fuel`) that bounds
//! the depth of the evaluation and the number of loop iterations.
//!
//! Calls of external functions are the only place where the result is not
//! determined by the state: there the relation accepts any response and
//! records the call, with what was handed to it, in the runtime.
use vstd::prelude::*;

use crate::language::assoc::{assoc_extend, assoc_get, assoc_insert};
use crate::language::builtins::{builtin_function, builtin_library, builtin_value, map_values};
use crate::language::environment::{
    deref, resolved, rt_alloc, rt_define, rt_lookup_or_null, rt_push_cell, rt_push_closure, rt_push_env, rt_set,
    rt_set_cell, SEnv, SHostCall, SRuntime,
};
use crate::language::expression::{Operator, SEvalError, SExpr};
use crate::language::function::{
    call_args_add_tail, call_args_set, call_args_set_singular, call_frame_variables,
    default_call_args, HostFunction, SCallArgs, SCode, SFunction, SFunctionError,
};
use crate::language::importer::SLibraryLoadError;
use crate::language::function::ExternalFunction;
use crate::parsing::program_of;
use crate::language::statement::{SStatement, SStatementError};
use crate::language::value::{truthy, FunctionRef, SValue};

verus! {

/* Operators */

pub open spec fn or_null(r: Result<SValue, SEvalError>) -> SValue {
    match r {
        Ok(v) => v,
        Err(_) => SValue::Null,
    }
}

pub open spec fn illegal_unary(op: Operator, v: SValue) -> SEvalError {
    SEvalError::IllegalOperation(SExpr::Unary { operator: op, operand: Box::new(SExpr::Value(v)) })
}

pub open spec fn illegal_binary(op: Operator, l: SValue, r: SValue) -> SEvalError {
    SEvalError::IllegalOperation(
        SExpr::Binary { operator: op, left: Box::new(SExpr::Value(l)), right: Box::new(SExpr::Value(r)) },
    )
}

pub open spec fn in_i64(x: int) -> bool {
    i64::MIN <= x <= i64::MAX
}

/// Integer division that rounds towards zero, as Rust's `/` does.
pub open spec fn trunc_div(a: int, b: int) -> int {
    if a >= 0 {
        if b > 0 {
            a / b
        } else {
            -(a / (-b))
        }
    } else {
        if b > 0 {
            -((-a) / b)
        } else {
            (-a) / (-b)
        }
    }
}

pub open spec fn int_pow(b: int, e: nat) -> int
    decreases e,
{
    if e == 0 {
        1
    } else {
        int_pow(b, (e - 1) as nat) * b
    }
}

pub open spec fn seq_repeat<A>(s: Seq<A>, n: nat) -> Seq<A>
    decreases n,
{
    if n == 0 {
        Seq::empty()
    } else {
        seq_repeat(s, (n - 1) as nat) + s
    }
}

/// An integer used as an index or a count must be non-negative and fit in `usize`.
pub open spec fn is_index(i: i64) -> bool {
    0 <= i && i <= usize::MAX
}

pub open spec fn unary_result(op: Operator, v: SValue) -> Result<SValue, SEvalError> {
    if op == Operator::Not {
        Ok(SValue::Bool(!truthy(v)))
    } else {
        match v {
            SValue::Int(n) => if op == Operator::Sub && in_i64(-n) {
                Ok(SValue::Int((-n) as i64))
            } else {
                Err(illegal_unary(op, v))
            },
            _ => Err(illegal_unary(op, v)),
        }
    }
}

pub open spec fn checked_int(x: int, op: Operator, l: SValue, r: SValue) -> Result<SValue, SEvalError> {
    if in_i64(x) {
        Ok(SValue::Int(x as i64))
    } else {
        Err(illegal_binary(op, l, r))
    }
}

/// `count` copies of a string.
pub open spec fn repeat_string(s: Seq<char>, count: i64, op: Operator, l: SValue, r: SValue) -> Result<SValue, SEvalError> {
    if !is_index(count) {
        Err(SEvalError::UnexpecteNonPositiveInteger(count))
    } else {
        Ok(SValue::String(seq_repeat(s, count as nat)))
    }
}

/// The `==` of the language: arrays are equal element by element, maps when they have as many
/// keys and each key of the one is bound in the other to an equal value, in whatever order;
/// other values when they are the same.
pub open spec fn language_eq(a: SValue, b: SValue) -> bool
    decreases a,
{
    match (a, b) {
        (SValue::Array(x), SValue::Array(y)) => x.len() == y.len() && forall|i: int|
            0 <= i < x.len() ==> language_eq(#[trigger] x[i], y[i]),
        (SValue::HashMap(x), SValue::HashMap(y)) => x.len() == y.len() && forall|i: int|
            0 <= i < x.len() ==> match assoc_get(y, #[trigger] x[i].0) {
                Some(v) => language_eq(x[i].1, v),
                None => false,
            },
        _ => a == b,
    }
}

/// How many bytes UTF-8 takes for a character.
pub open spec fn utf8_len(c: char) -> int {
    if (c as u32) < 0x80 {
        1
    } else if (c as u32) < 0x800 {
        2
    } else if (c as u32) < 0x10000 {
        3
    } else {
        4
    }
}

/// The one-byte piece of a string's UTF-8 bytes that starts at byte `i`: there is one where
/// that byte is a whole character, an ASCII one.
pub open spec fn byte_char(s: Seq<char>, i: int) -> Option<char>
    decreases s.len(),
{
    if s.len() == 0 || i < 0 {
        None
    } else if i == 0 {
        if (s[0] as u32) < 0x80 {
            Some(s[0])
        } else {
            None
        }
    } else if i < utf8_len(s[0]) {
        None
    } else {
        byte_char(s.drop_first(), i - utf8_len(s[0]))
    }
}

/// The result of a binary operator that evaluates both of its operands.
pub open spec fn binary_result(op: Operator, l: SValue, r: SValue) -> Result<SValue, SEvalError> {
    match op {
        Operator::Add => match (l, r) {
            (SValue::Int(a), SValue::Int(b)) => checked_int(a + b, op, l, r),
            (SValue::String(a), SValue::String(b)) => Ok(SValue::String(a + b)),
            (SValue::Array(a), SValue::Array(b)) => Ok(SValue::Array(a + b)),
            (SValue::HashMap(a), SValue::HashMap(b)) => Ok(SValue::HashMap(assoc_extend(a, b))),
            _ => Err(illegal_binary(op, l, r)),
        },
        Operator::Sub => match (l, r) {
            (SValue::Int(a), SValue::Int(b)) => checked_int(a - b, op, l, r),
            _ => Err(illegal_binary(op, l, r)),
        },
        Operator::Mul => match (l, r) {
            (SValue::Int(a), SValue::Int(b)) => checked_int(a * b, op, l, r),
            (SValue::Int(n), SValue::String(s)) => repeat_string(s, n, op, l, r),
            (SValue::String(s), SValue::Int(n)) => repeat_string(s, n, op, l, r),
            _ => Err(illegal_binary(op, l, r)),
        },
        Operator::Div => match (l, r) {
            (SValue::Int(a), SValue::Int(b)) => if b == 0 {
                Err(illegal_binary(op, l, r))
            } else {
                checked_int(trunc_div(a as int, b as int), op, l, r)
            },
            _ => Err(illegal_binary(op, l, r)),
        },
        Operator::Power => match (l, r) {
            (SValue::Int(a), SValue::Int(b)) => if b < 0 || b > u32::MAX {
                Err(SEvalError::UnexpecteNonPositiveInteger(b))
            } else {
                checked_int(int_pow(a as int, b as nat), op, l, r)
            },
            _ => Err(illegal_binary(op, l, r)),
        },
        Operator::Index => match (l, r) {
            (SValue::String(s), SValue::Int(i)) => if !is_index(i) {
                Err(SEvalError::UnexpecteNonPositiveInteger(i))
            } else {
                match byte_char(s, i as int) {
                    None => Err(SEvalError::IndexOutOfBounds { value: l, index: i as usize }),
                    Some(c) => Ok(SValue::String(seq![c])),
                }
            },
            (SValue::Array(a), SValue::Int(i)) => if !is_index(i) {
                Err(SEvalError::UnexpecteNonPositiveInteger(i))
            } else if i >= a.len() {
                Err(SEvalError::IndexOutOfBounds { value: l, index: i as usize })
            } else {
                Ok(a[i as int])
            },
            (SValue::HashMap(m), key) => Ok(
                match assoc_get(m, key) {
                    Some(v) => v,
                    None => SValue::Null,
                },
            ),
            _ => Err(illegal_binary(op, l, r)),
        },
        Operator::Eq => Ok(SValue::Bool(language_eq(l, r))),
        Operator::NotEq => Ok(SValue::Bool(!language_eq(l, r))),
        Operator::Less => match (l, r) {
            (SValue::Int(a), SValue::Int(b)) => Ok(SValue::Bool(a < b)),
            _ => Err(illegal_binary(op, l, r)),
        },
        Operator::LessEq => match (l, r) {
            (SValue::Int(a), SValue::Int(b)) => Ok(SValue::Bool(a <= b)),
            _ => Err(illegal_binary(op, l, r)),
        },
        Operator::Greater => match (l, r) {
            (SValue::Int(a), SValue::Int(b)) => Ok(SValue::Bool(a > b)),
            _ => Err(illegal_binary(op, l, r)),
        },
        Operator::GreaterEq => match (l, r) {
            (SValue::Int(a), SValue::Int(b)) => Ok(SValue::Bool(a >= b)),
            _ => Err(illegal_binary(op, l, r)),
        },
        _ => Err(illegal_binary(op, l, r)),
    }
}

/// Operators whose right operand is evaluated only when the left one does not decide.
pub open spec fn is_short_circuit(op: Operator) -> bool {
    op == Operator::And || op == Operator::Or || op == Operator::IfNull
}

/// `Some(result)` when the left operand decides a short-circuit operator; a reference counts
/// by what its cell holds.
pub open spec fn short_circuit_left(s: SRuntime, op: Operator, l: SValue) -> Option<SValue> {
    if op == Operator::And && !truthy(deref(s, l)) {
        Some(SValue::Bool(false))
    } else if op == Operator::Or && truthy(deref(s, l)) {
        Some(SValue::Bool(true))
    } else if op == Operator::IfNull && !(l is Null) {
        Some(l)
    } else {
        None
    }
}

/// The result of a short-circuit operator from its right operand.
pub open spec fn short_circuit_right(s: SRuntime, op: Operator, r: SValue) -> SValue {
    if op == Operator::IfNull {
        r
    } else {
        SValue::Bool(truthy(deref(s, r)))
    }
}

/// A binary operator that evaluates both operands, in runtime `s`: `==` and `!=` compare what
/// the operands hold all the way down; indexing reads the cell of its left operand and gives
/// the element itself (an array or map in it stays shared); the other operators work on
/// what the operands hold, and an array or map they build goes into a new cell.
pub open spec fn binary_step(s: SRuntime, op: Operator, l: SValue, r: SValue) -> (SRuntime, Result<SValue, SEvalError>) {
    if op == Operator::Eq || op == Operator::NotEq {
        (s, binary_result(op, resolved(s, l), resolved(s, r)))
    } else if op == Operator::Index {
        (s, binary_result(op, deref(s, l), r))
    } else {
        match binary_result(op, deref(s, l), deref(s, r)) {
            Ok(v) => (rt_alloc(s, v).0, Ok(rt_alloc(s, v).1)),
            Err(x) => (s, Err(x)),
        }
    }
}

/* Functions */

/// The function a value calls, if it is callable.
pub open spec fn resolve_function(rt: SRuntime, v: SValue) -> Option<SFunction> {
    match v {
        SValue::Function(FunctionRef::Builtin(h)) => Some(builtin_function(h)),
        SValue::Function(FunctionRef::Closure(i)) => if i < rt.closures.len() {
            Some(rt.closures[i as int])
        } else {
            None
        },
        _ => None,
    }
}

pub open spec fn capture(f: SFunction, env: usize) -> SFunction {
    SFunction { params: f.params, code: f.code, closure: Some(env) }
}

/// The handle the next environment created gets.
pub open spec fn next_env(s: SRuntime) -> usize {
    s.environments.len() as usize
}

/// The runtime with a new environment for a call of `f` with `args`.
pub open spec fn enter_call(rt: SRuntime, f: SFunction, args: SCallArgs) -> SRuntime {
    rt_push_env(rt, SEnv { outer: f.closure, variables: call_frame_variables(args) })
}

/// The runtime with a new, empty environment inside `env`.
pub open spec fn enter_block(rt: SRuntime, env: usize) -> SRuntime {
    rt_push_env(rt, SEnv { outer: Some(env), variables: Seq::empty() })
}

pub open spec fn function_error(e: SFunctionError) -> SEvalError {
    SEvalError::Function(Box::new(e))
}

pub open spec fn out_of_fuel_in_call() -> SFunctionError {
    SFunctionError::Execution(SStatementError::ExpressionEvaluation(SEvalError::OutOfFuel))
}

/// The record of a call of an external function: `t` is `s` with one more host call,
/// made with `args`, whose response is `v`.
pub open spec fn host_call_recorded(
    s: SRuntime,
    t: SRuntime,
    x: crate::language::function::ExternalFunction,
    args: Seq<(Seq<char>, SValue)>,
    v: SValue,
) -> bool {
    &&& t.environments == s.environments
    &&& t.closures == s.closures
    &&& t.host_calls == s.host_calls.push(SHostCall { function: x, args, response: v })
}

/// Variables with their values resolved into trees of plain values.
pub open spec fn resolved_variables(s: SRuntime, vars: Seq<(Seq<char>, SValue)>) -> Seq<(Seq<char>, SValue)> {
    Seq::new(vars.len(), |i: int| (vars[i].0, resolved(s, vars[i].1)))
}

/// The variables of environment `frame`; none when there is no such environment.
pub open spec fn frame_variables(s: SRuntime, frame: usize) -> Seq<(Seq<char>, SValue)> {
    if frame < s.environments.len() {
        s.environments[frame as int].variables
    } else {
        Seq::empty()
    }
}

/* Imports */

pub open spec fn namespace_value(lib: Seq<(Seq<char>, SValue)>) -> SValue {
    SValue::HashMap(Seq::new(lib.len(), |i: int| (SValue::String(lib[i].0), lib[i].1)))
}

/// Defines every variable of `lib` in `env`, in order.
pub open spec fn rt_define_all(rt: SRuntime, env: usize, lib: Seq<(Seq<char>, SValue)>) -> SRuntime
    decreases lib.len(),
{
    if lib.len() == 0 {
        rt
    } else {
        rt_define(rt_define_all(rt, env, lib.drop_last()), env, lib.last().0, lib.last().1).0
    }
}

/// The runtime with a library imported into `env`: its values, or one map under `name`,
/// which lives in a new cell.
pub open spec fn import_into(
    rt: SRuntime,
    env: usize,
    name: Seq<char>,
    lib: Seq<(Seq<char>, SValue)>,
    as_namespace: bool,
) -> SRuntime {
    if as_namespace {
        rt_define(rt_alloc(rt, namespace_value(lib)).0, env, name, rt_alloc(rt, namespace_value(lib)).1).0
    } else {
        rt_define_all(rt, env, lib)
    }
}

/// What the host is asked for a library file.
pub open spec fn library_request(name: Seq<char>) -> Seq<(Seq<char>, SValue)> {
    seq![("name"@, SValue::String(name))]
}

/// The environment a library file runs in: empty, enclosed by none.
pub open spec fn library_env() -> SEnv {
    SEnv { outer: None, variables: Seq::empty() }
}

/* Assignment into an indexed value */

/// The container `c` with the element at `index` replaced by `v`.
pub open spec fn updated_container(c: SValue, index: SValue, v: SValue, target: SExpr) -> Result<SValue, SStatementError> {
    match (c, index) {
        (SValue::Array(a), SValue::Int(i)) => if !is_index(i) {
            Err(SStatementError::ExpressionEvaluation(SEvalError::UnexpecteNonPositiveInteger(i)))
        } else if i >= a.len() {
            Err(SStatementError::ExpressionEvaluation(SEvalError::IndexOutOfBounds { value: c, index: i as usize }))
        } else {
            Ok(SValue::Array(a.update(i as int, v)))
        },
        (SValue::HashMap(m), k) => Ok(SValue::HashMap(assoc_insert(m, k, v))),
        _ => Err(SStatementError::ExpressionEvaluation(SEvalError::IllegalOperation(target))),
    }
}

/// Expressions that denote a place a value can be stored into.
pub open spec fn is_place(e: SExpr) -> bool {
    match e {
        SExpr::Variable(_) => true,
        SExpr::Binary { operator, .. } => operator == Operator::Index,
        _ => false,
    }
}

/* Markers of the intermediate results of a step of a relation: they name the
   values that the existential quantifiers of the relations range over. */

pub open spec fn step1<A>(a: A) -> bool {
    true
}

pub open spec fn step2<A, B>(a: A, b: B) -> bool {
    true
}

pub open spec fn step3<A, B, C>(a: A, b: B, c: C) -> bool {
    true
}

pub open spec fn step5<A, B, C, D, E>(a: A, b: B, c: C, d: D, e: E) -> bool {
    true
}

/* The evaluation relations */

/// Evaluating `e` in environment `env` takes runtime `s` to runtime `t` with result `r`.
pub open spec fn eval_rel(
    fuel: int,
    e: SExpr,
    env: usize,
    s: SRuntime,
    t: SRuntime,
    r: Result<SValue, SEvalError>,
) -> bool
    decreases fuel, 0nat,
{
    if fuel <= 0 {
        t == s && r == Err::<SValue, SEvalError>(SEvalError::OutOfFuel)
    } else {
        let f = fuel - 1;
        match e {
            SExpr::Value(v) => t == s && r == Ok::<SValue, SEvalError>(v),
            SExpr::Variable(name) => t == s && r == Ok::<SValue, SEvalError>(rt_lookup_or_null(s, env, name)),
            SExpr::Unary { operator, operand } => exists|s1: SRuntime, r1: Result<SValue, SEvalError>|
                #[trigger] step2(s1, r1) && eval_rel(f, *operand, env, s, s1, r1) && t == s1 && match r1 {
                    Err(x) => r == Err::<SValue, SEvalError>(x),
                    Ok(v) => r == unary_result(operator, deref(s1, v)),
                },
            SExpr::Binary { operator, left, right } => exists|s1: SRuntime, r1: Result<SValue, SEvalError>|
                #[trigger] step2(s1, r1) && eval_rel(f, *left, env, s, s1, r1) && match r1 {
                    Err(x) => t == s1 && r == Err::<SValue, SEvalError>(x),
                    Ok(lv) => if is_short_circuit(operator) && short_circuit_left(s1, operator, lv) is Some {
                        t == s1 && r == Ok::<SValue, SEvalError>(short_circuit_left(s1, operator, lv)->0)
                    } else {
                        exists|s2: SRuntime, r2: Result<SValue, SEvalError>|
                            #[trigger] step2(s2, r2) && eval_rel(f, *right, env, s1, s2, r2) && match r2 {
                                Err(x) => t == s2 && r == Err::<SValue, SEvalError>(x),
                                Ok(rv) => if is_short_circuit(operator) {
                                    t == s2 && r == Ok::<SValue, SEvalError>(short_circuit_right(s2, operator, rv))
                                } else {
                                    (t, r) == binary_step(s2, operator, lv, rv)
                                },
                            }
                    },
                },
            SExpr::Array(es) => exists|s1: SRuntime, vs: Seq<SValue>|
                #[trigger] step2(s1, vs) && list_rel(f, es, env, s, s1, vs) && t == rt_push_cell(s1, SValue::Array(vs))
                    && r == Ok::<SValue, SEvalError>(SValue::Reference(s1.cells.len() as usize)),
            SExpr::Function(func) => t == rt_push_closure(s, capture(func, env)) && r == Ok::<SValue, SEvalError>(
                SValue::Function(FunctionRef::Closure(s.closures.len() as usize)),
            ),
            SExpr::FunctionCall { callee, args, tail } => exists|s1: SRuntime, r1: Result<SValue, SEvalError>|
                #[trigger] step2(s1, r1) && eval_rel(f, *callee, env, s, s1, r1) && match r1 {
                    Err(x) => t == s1 && r == Err::<SValue, SEvalError>(x),
                    Ok(cv) => match resolve_function(s1, cv) {
                        None => t == s1 && r == Err::<SValue, SEvalError>(SEvalError::NotCallable(cv)),
                        Some(func) => exists|s2: SRuntime, ra: Result<SCallArgs, SEvalError>|
                            #[trigger] step2(s2, ra) && args_rel(f, args, env, s1, s2, default_call_args(func.params), ra) && match ra {
                                Err(x) => t == s2 && r == Err::<SValue, SEvalError>(x),
                                Ok(ca) => exists|s3: SRuntime, rt: Result<SCallArgs, SEvalError>|
                                    #[trigger] step2(s3, rt) && tail_rel(f, tail, env, s2, s3, ca, rt) && match rt {
                                        Err(x) => t == s3 && r == Err::<SValue, SEvalError>(x),
                                        Ok(ca2) => exists|rc: Result<SValue, SFunctionError>|
                                            #[trigger] step1(rc) && call_rel(f, func, ca2, s3, t, rc) && r == match rc {
                                                Ok(v) => Ok::<SValue, SEvalError>(v),
                                                Err(x) => Err(function_error(x)),
                                            },
                                    },
                            },
                    },
                },
            SExpr::HashMap(ps) => exists|s1: SRuntime, m: Seq<(SValue, SValue)>|
                #[trigger] step2(s1, m) && map_literal_rel(f, ps, env, s, s1, m) && t == rt_push_cell(s1, SValue::HashMap(m))
                    && r == Ok::<SValue, SEvalError>(SValue::Reference(s1.cells.len() as usize)),
            SExpr::IfElse { condition, then_branch, else_branch } => exists|s1: SRuntime, r1: Result<SValue, SEvalError>|
                #[trigger] step2(s1, r1) && eval_rel(f, *condition, env, s, s1, r1) && match r1 {
                    Err(x) => t == s1 && r == Err::<SValue, SEvalError>(x),
                    Ok(c) => if truthy(deref(s1, c)) || else_branch is Some {
                        let b = if truthy(deref(s1, c)) {
                            then_branch
                        } else {
                            else_branch->0
                        };
                        exists|rb: Result<SValue, SStatementError>|
                            #[trigger] step1(rb) && block_rel(f, b, next_env(s1), enter_block(s1, env), t, rb)
                                && r == match rb {
                                Ok(v) => Ok::<SValue, SEvalError>(v),
                                Err(x) => Err(SEvalError::Statement(Box::new(x))),
                            }
                    } else {
                        t == s1 && r == Ok::<SValue, SEvalError>(SValue::Null)
                    },
                },
            SExpr::WhileLoop { condition, body } => while_rel(f, *condition, body, env, s, t, SValue::Null, r),
        }
    }
}

/// A `while` loop whose last body gave `last`.
pub open spec fn while_rel(
    fuel: int,
    condition: SExpr,
    body: Seq<SStatement>,
    env: usize,
    s: SRuntime,
    t: SRuntime,
    last: SValue,
    r: Result<SValue, SEvalError>,
) -> bool
    decreases fuel, 0nat,
{
    if fuel <= 0 {
        t == s && r == Err::<SValue, SEvalError>(SEvalError::OutOfFuel)
    } else {
        let f = fuel - 1;
        exists|s1: SRuntime, r1: Result<SValue, SEvalError>|
            #[trigger] step2(s1, r1) && eval_rel(f, condition, env, s, s1, r1) && match r1 {
                Err(x) => t == s1 && r == Err::<SValue, SEvalError>(x),
                Ok(c) => if !truthy(deref(s1, c)) {
                    t == s1 && r == Ok::<SValue, SEvalError>(last)
                } else {
                    exists|s2: SRuntime, rb: Result<SValue, SStatementError>|
                        #[trigger] step2(s2, rb) && block_rel(f, body, next_env(s1), enter_block(s1, env), s2, rb)
                            && match rb {
                            Err(x) => t == s2 && r == Err::<SValue, SEvalError>(SEvalError::Statement(Box::new(x))),
                            Ok(bv) => while_rel(f, condition, body, env, s2, t, bv, r),
                        }
                },
            }
    }
}

/// Evaluating the elements of an array literal; an element whose evaluation fails is null.
pub open spec fn list_rel(
    fuel: int,
    es: Seq<SExpr>,
    env: usize,
    s: SRuntime,
    t: SRuntime,
    vs: Seq<SValue>,
) -> bool
    decreases fuel, es.len(),
{
    if es.len() == 0 {
        t == s && vs == Seq::<SValue>::empty()
    } else {
        exists|s1: SRuntime, vs0: Seq<SValue>, r: Result<SValue, SEvalError>|
            #[trigger] step3(s1, vs0, r) && list_rel(fuel, es.drop_last(), env, s, s1, vs0) && eval_rel(
                fuel,
                es.last(),
                env,
                s1,
                t,
                r,
            ) && vs == vs0.push(or_null(r))
    }
}

/// Evaluating the pairs of a hash map literal; a key or value whose evaluation fails is null.
pub open spec fn map_literal_rel(
    fuel: int,
    ps: Seq<(SExpr, SExpr)>,
    env: usize,
    s: SRuntime,
    t: SRuntime,
    m: Seq<(SValue, SValue)>,
) -> bool
    decreases fuel, ps.len(),
{
    if ps.len() == 0 {
        t == s && m == Seq::<(SValue, SValue)>::empty()
    } else {
        exists|s1: SRuntime, m0: Seq<(SValue, SValue)>, s2: SRuntime, rk: Result<SValue, SEvalError>, rv: Result<SValue, SEvalError>|
            #[trigger] step5(s1, m0, s2, rk, rv) && map_literal_rel(fuel, ps.drop_last(), env, s, s1, m0)
                && eval_rel(fuel, ps.last().0, env, s1, s2, rk)
                && eval_rel(fuel, ps.last().1, env, s2, t, rv)
                && m == assoc_insert(m0, or_null(rk), or_null(rv))
    }
}

/// Evaluating the named arguments of a call into `ca0`.
pub open spec fn args_rel(
    fuel: int,
    ps: Seq<(Seq<char>, SExpr)>,
    env: usize,
    s: SRuntime,
    t: SRuntime,
    ca0: SCallArgs,
    r: Result<SCallArgs, SEvalError>,
) -> bool
    decreases fuel, ps.len(),
{
    if ps.len() == 0 {
        t == s && r == Ok::<SCallArgs, SEvalError>(ca0)
    } else {
        exists|s1: SRuntime, r1: Result<SCallArgs, SEvalError>|
            #[trigger] step2(s1, r1) && args_rel(fuel, ps.drop_last(), env, s, s1, ca0, r1) && match r1 {
                Err(x) => t == s1 && r == Err::<SCallArgs, SEvalError>(x),
                Ok(ca1) => exists|r2: Result<SValue, SEvalError>|
                    #[trigger] step1(r2) && eval_rel(fuel, ps.last().1, env, s1, t, r2) && r == match r2 {
                        Err(x) => Err::<SCallArgs, SEvalError>(x),
                        Ok(v) => match call_args_set(ca1, ps.last().0, v) {
                            Ok(ca2) => Ok(ca2),
                            Err(x) => Err(function_error(x)),
                        },
                    },
            }
    }
}

/// Evaluating the tail arguments of a call into `ca0`.
pub open spec fn tail_rel(
    fuel: int,
    es: Seq<SExpr>,
    env: usize,
    s: SRuntime,
    t: SRuntime,
    ca0: SCallArgs,
    r: Result<SCallArgs, SEvalError>,
) -> bool
    decreases fuel, es.len(),
{
    if es.len() == 0 {
        t == s && r == Ok::<SCallArgs, SEvalError>(ca0)
    } else {
        exists|s1: SRuntime, r1: Result<SCallArgs, SEvalError>|
            #[trigger] step2(s1, r1) && tail_rel(fuel, es.drop_last(), env, s, s1, ca0, r1) && match r1 {
                Err(x) => t == s1 && r == Err::<SCallArgs, SEvalError>(x),
                Ok(ca1) => exists|r2: Result<SValue, SEvalError>|
                    #[trigger] step1(r2) && eval_rel(fuel, es.last(), env, s1, t, r2) && r == match r2 {
                        Err(x) => Err::<SCallArgs, SEvalError>(x),
                        Ok(v) => match call_args_add_tail(ca1, v) {
                            Ok(ca2) => Ok(ca2),
                            Err(x) => Err(function_error(x)),
                        },
                    },
            }
    }
}

/// Calling `func` with `args`.
pub open spec fn call_rel(
    fuel: int,
    func: SFunction,
    args: SCallArgs,
    s: SRuntime,
    t: SRuntime,
    r: Result<SValue, SFunctionError>,
) -> bool
    decreases fuel, 1nat,
{
    if fuel <= 0 {
        t == s && r == Err::<SValue, SFunctionError>(out_of_fuel_in_call())
    } else {
        let f = fuel - 1;
        let frame = next_env(s);
        let s1 = enter_call(s, func, args);
        match func.code {
            SCode::Block(stmts) => exists|rb: Result<SValue, SStatementError>|
                #[trigger] step1(rb) && block_rel(f, stmts, frame, s1, t, rb) && r == match rb {
                    Ok(v) => Ok::<SValue, SFunctionError>(v),
                    Err(x) => Err(SFunctionError::Execution(x)),
                },
            SCode::Host(h) => exists|v: SValue| #[trigger] step1(v) && host_rel(f, h, frame, s1, t, v) && r == Ok::<SValue, SFunctionError>(v),
        }
    }
}

/// Running the built-in `h` in its call environment `frame`.
pub open spec fn host_rel(fuel: int, h: HostFunction, frame: usize, s: SRuntime, t: SRuntime, v: SValue) -> bool
    decreases fuel + 1, 0nat,
{
    if fuel < 0 {
        t == s && v == SValue::Null
    } else {
    match h {
        HostFunction::External(x) => exists|s1: SRuntime, v0: SValue|
            #[trigger] step2(s1, v0) && host_call_recorded(s, s1, x, resolved_variables(s, frame_variables(s, frame)), v0)
                && (t, v) == rt_alloc(s1, v0),
        HostFunction::MapValues => match resolve_function(s, rt_lookup_or_null(s, frame, "func"@)) {
            None => t == s && v == SValue::Null,
            Some(func) => match deref(s, rt_lookup_or_null(s, frame, "tail"@)) {
                SValue::Array(items) => exists|s1: SRuntime, out: Seq<SValue>|
                    #[trigger] step2(s1, out) && map_rel(fuel, func, items, s, s1, out) && (t, v) == rt_alloc(
                        s1,
                        SValue::Array(out),
                    ),
                SValue::HashMap(m) => exists|s1: SRuntime, out: Seq<SValue>|
                    #[trigger] step2(s1, out) && map_rel(fuel, func, map_values(m), s, s1, out) && (t, v) == rt_alloc(
                        s1,
                        SValue::HashMap(Seq::new(m.len(), |i: int| (m[i].0, out[i]))),
                    ),
                _ => t == s && v == SValue::Null,
            },
        },
        HostFunction::Filter => match resolve_function(s, rt_lookup_or_null(s, frame, "func"@)) {
            None => t == s && v == SValue::Null,
            Some(func) => match deref(s, rt_lookup_or_null(s, frame, "tail"@)) {
                SValue::Array(items) => exists|s1: SRuntime, keep: Seq<bool>|
                    #[trigger] step2(s1, keep) && filter_rel(fuel, func, items, s, s1, keep) && (t, v) == rt_alloc(
                        s1,
                        SValue::Array(kept(items, keep)),
                    ),
                SValue::HashMap(m) => exists|s1: SRuntime, keep: Seq<bool>|
                    #[trigger] step2(s1, keep) && filter_rel(fuel, func, map_values(m), s, s1, keep) && (t, v) == rt_alloc(
                        s1,
                        SValue::HashMap(kept(m, keep)),
                    ),
                _ => t == s && v == SValue::Null,
            },
        },
        _ => (t, v) == rt_alloc(s, builtin_value(h, s, frame)),
    }
    }
}

/// The items whose flag is set, in order.
pub open spec fn kept<A>(items: Seq<A>, keep: Seq<bool>) -> Seq<A>
    decreases items.len(),
{
    if items.len() == 0 || keep.len() != items.len() {
        Seq::empty()
    } else if keep.last() {
        kept(items.drop_last(), keep.drop_last()).push(items.last())
    } else {
        kept(items.drop_last(), keep.drop_last())
    }
}

/// The arguments of a call of `func` with `v` as its only argument.
pub open spec fn singular_args(func: SFunction, v: SValue) -> SCallArgs {
    match call_args_set_singular(default_call_args(func.params), v) {
        Ok(a) => a,
        Err(_) => default_call_args(func.params),
    }
}

pub open spec fn call_or_null(r: Result<SValue, SFunctionError>) -> SValue {
    match r {
        Ok(v) => v,
        Err(_) => SValue::Null,
    }
}

/// Calling `func` on each item in turn; a failed call gives null.
pub open spec fn map_rel(fuel: int, func: SFunction, items: Seq<SValue>, s: SRuntime, t: SRuntime, out: Seq<SValue>) -> bool
    decreases fuel, items.len() + 1,
{
    if items.len() == 0 {
        t == s && out == Seq::<SValue>::empty()
    } else {
        exists|s1: SRuntime, out0: Seq<SValue>, rc: Result<SValue, SFunctionError>|
            #[trigger] step3(s1, out0, rc) && map_rel(fuel, func, items.drop_last(), s, s1, out0) && call_rel(
                fuel,
                func,
                singular_args(func, items.last()),
                s1,
                t,
                rc,
            ) && out == out0.push(call_or_null(rc))
    }
}

/// Calling `func` on each item in turn; an item is kept when the call gives a true value.
pub open spec fn filter_rel(fuel: int, func: SFunction, items: Seq<SValue>, s: SRuntime, t: SRuntime, keep: Seq<bool>) -> bool
    decreases fuel, items.len() + 1,
{
    if items.len() == 0 {
        t == s && keep == Seq::<bool>::empty()
    } else {
        exists|s1: SRuntime, keep0: Seq<bool>, rc: Result<SValue, SFunctionError>|
            #[trigger] step3(s1, keep0, rc) && filter_rel(fuel, func, items.drop_last(), s, s1, keep0) && call_rel(
                fuel,
                func,
                singular_args(func, items.last()),
                s1,
                t,
                rc,
            ) && keep == keep0.push(truthy(deref(t, call_or_null(rc))))
    }
}

/// Running the statements of a block in `env`; the result is the value of the last one.
pub open spec fn block_rel(
    fuel: int,
    stmts: Seq<SStatement>,
    env: usize,
    s: SRuntime,
    t: SRuntime,
    r: Result<SValue, SStatementError>,
) -> bool
    decreases fuel, stmts.len() + 1,
{
    if stmts.len() == 0 {
        t == s && r == Ok::<SValue, SStatementError>(SValue::Null)
    } else {
        exists|s1: SRuntime, r1: Result<SValue, SStatementError>|
            #[trigger] step2(s1, r1) && block_rel(fuel, stmts.drop_last(), env, s, s1, r1) && match r1 {
                Err(x) => t == s1 && r == Err::<SValue, SStatementError>(x),
                Ok(_) => stmt_rel(fuel, stmts.last(), env, s1, t, r),
            }
    }
}

pub open spec fn evaluation_failed(x: SEvalError) -> SStatementError {
    SStatementError::ExpressionEvaluation(x)
}

/// Running one statement.
pub open spec fn stmt_rel(
    fuel: int,
    st: SStatement,
    env: usize,
    s: SRuntime,
    t: SRuntime,
    r: Result<SValue, SStatementError>,
) -> bool
    decreases fuel, 0nat,
{
    if fuel <= 0 {
        t == s && r == Err::<SValue, SStatementError>(evaluation_failed(SEvalError::OutOfFuel))
    } else {
        let f = fuel - 1;
        match st {
            SStatement::VariableDeclaration { variable, right_side } => exists|s1: SRuntime, r1: Result<SValue, SEvalError>|
                #[trigger] step2(s1, r1) && eval_rel(f, right_side, env, s, s1, r1) && match r1 {
                    Err(x) => t == s1 && r == Err::<SValue, SStatementError>(evaluation_failed(x)),
                    Ok(v) => t == rt_define(s1, env, variable, v).0 && r == if rt_define(s1, env, variable, v).1 is Some {
                        Err::<SValue, SStatementError>(SStatementError::VariableRedeclaration(variable))
                    } else {
                        Ok(v)
                    },
                },
            SStatement::Assignment { target, right_side } => exists|s1: SRuntime, r1: Result<SValue, SEvalError>|
                #[trigger] step2(s1, r1) && eval_rel(f, right_side, env, s, s1, r1) && match r1 {
                    Err(x) => t == s1 && r == Err::<SValue, SStatementError>(evaluation_failed(x)),
                    Ok(v) => assign_rel(f, target, v, env, s1, t, r),
                },
            SStatement::Expression { expression } => exists|r1: Result<SValue, SEvalError>|
                #[trigger] step1(r1) && eval_rel(f, expression, env, s, t, r1) && r == match r1 {
                    Ok(v) => Ok::<SValue, SStatementError>(v),
                    Err(x) => Err(evaluation_failed(x)),
                },
            SStatement::Import { library_name, as_namespace } => match builtin_library(library_name) {
                Some(lib) => t == import_into(s, env, library_name, lib, as_namespace) && r == Ok::<
                    SValue,
                    SStatementError,
                >(SValue::Null),
                None => exists|s1: SRuntime, text: SValue|
                    #[trigger] step2(s1, text) && host_call_recorded(
                        s,
                        s1,
                        ExternalFunction::LibrarySource,
                        library_request(library_name),
                        text,
                    ) && match text {
                        SValue::String(src) => match program_of(src) {
                            Err(e) => t == s1 && r == Err::<SValue, SStatementError>(
                                SStatementError::Import(SLibraryLoadError::ParsingFailed(e)),
                            ),
                            Ok(stmts) => exists|s2: SRuntime, x: Result<SValue, SStatementError>|
                                #[trigger] step2(s2, x) && block_rel(
                                    f,
                                    stmts,
                                    next_env(s1),
                                    rt_push_env(s1, library_env()),
                                    s2,
                                    x,
                                ) && t == import_into(
                                    s2,
                                    env,
                                    library_name,
                                    crate::language::environment::rt_variables(s2, next_env(s1)),
                                    as_namespace,
                                ) && r == Ok::<SValue, SStatementError>(SValue::Null),
                        },
                        _ => t == s1 && r == Err::<SValue, SStatementError>(
                            SStatementError::Import(SLibraryLoadError::NotFound),
                        ),
                    },
            },
        }
    }
}

/// Storing `v` into the place that `target` denotes.
pub open spec fn assign_rel(
    fuel: int,
    target: SExpr,
    v: SValue,
    env: usize,
    s: SRuntime,
    t: SRuntime,
    r: Result<SValue, SStatementError>,
) -> bool
    decreases fuel, 0nat,
{
    match target {
        SExpr::Variable(name) => t == rt_set(s, env, name, v).0 && r == if rt_set(s, env, name, v).1 is None {
            Err::<SValue, SStatementError>(SStatementError::UnknownVariable(name))
        } else {
            Ok(v)
        },
        SExpr::Binary { operator, left, right } => if operator != Operator::Index {
            t == s && r == Err::<SValue, SStatementError>(evaluation_failed(SEvalError::IllegalOperation(target)))
        } else if fuel <= 0 {
            t == s && r == Err::<SValue, SStatementError>(evaluation_failed(SEvalError::OutOfFuel))
        } else {
            let f = fuel - 1;
            exists|s1: SRuntime, rl: Result<SValue, SEvalError>|
                #[trigger] step2(s1, rl) && eval_rel(f, *left, env, s, s1, rl) && match rl {
                    Err(x) => t == s1 && r == Err::<SValue, SStatementError>(evaluation_failed(x)),
                    Ok(c) => exists|s2: SRuntime, ri: Result<SValue, SEvalError>|
                        #[trigger] step2(s2, ri) && eval_rel(f, *right, env, s1, s2, ri) && match ri {
                            Err(x) => t == s2 && r == Err::<SValue, SStatementError>(evaluation_failed(x)),
                            Ok(i) => if c is Reference {
                                match updated_container(deref(s2, c), i, v, target) {
                                    Err(x) => t == s2 && r == Err::<SValue, SStatementError>(x),
                                    Ok(nc) => t == rt_set_cell(s2, c->Reference_0, nc) && r == Ok::<SValue, SStatementError>(v),
                                }
                            } else { match updated_container(c, i, v, target) {
                                Err(x) => t == s2 && r == Err::<SValue, SStatementError>(x),
                                Ok(nc) => if is_place(*left) {
                                    exists|r3: Result<SValue, SStatementError>|
                                        #[trigger] step1(r3) && assign_rel(f, *left, nc, env, s2, t, r3) && r == match r3 {
                                            Err(x) => Err::<SValue, SStatementError>(x),
                                            Ok(_) => Ok(v),
                                        }
                                } else {
                                    t == s2 && r == Ok::<SValue, SStatementError>(v)
                                },
                            } },
                        },
                }
        },
        _ => t == s && r == Err::<SValue, SStatementError>(evaluation_failed(SEvalError::IllegalOperation(target))),
    }
}

/// Running code `c` in environment `env`, which holds the arguments of a call.
pub open spec fn code_rel(
    fuel: int,
    c: SCode,
    env: usize,
    s: SRuntime,
    t: SRuntime,
    r: Result<SValue, SFunctionError>,
) -> bool {
    match c {
        SCode::Block(stmts) => exists|rb: Result<SValue, SStatementError>|
            #[trigger] step1(rb) && block_rel(fuel, stmts, env, s, t, rb) && r == match rb {
                Ok(v) => Ok::<SValue, SFunctionError>(v),
                Err(x) => Err(SFunctionError::Execution(x)),
            },
        SCode::Host(h) => exists|v: SValue| #[trigger] step1(v) && host_rel(fuel, h, env, s, t, v) && r == Ok::<SValue, SFunctionError>(v),
    }
}

} // verus!
