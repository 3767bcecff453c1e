use vstd::prelude::*;

use std::rc::Rc;

use crate::language::assoc::{assoc_index, assoc_insert, find_name, insert_named, lemma_assoc_index};
use crate::language::statement::{StatementBlock, StatementExecutionError, SStatement, SStatementError};
use crate::language::value::{clone_named_values, clone_values, named_values_view, values_view, value_view, SValue, Value};
use crate::language::environment::SharedEnvironment;

verus! {

/// The built-in functions of the language.
#[derive(Clone, Copy, Debug, PartialEq, Eq, Structural)]
pub enum HostFunction {
    Clone,
    Sum,
    Min,
    Max,
    Clamp,
    ToUpper,
    ToLower,
    Trim,
    Len,
    Replace,
    Split,
    Repeat,
    Format,
    MapValues,
    Filter,
    Bool,
    Int,
    String,
    /// A function whose work is done by the host (see `Host`).
    External(ExternalFunction),
}

/// The built-in functions whose work is done outside the interpreter.
#[derive(Clone, Copy, Debug, PartialEq, Eq, Structural)]
pub enum ExternalFunction {
    Print,
    Exec,
    DateStr,
    Date,
    TimeEvents,
    Spawn,
    Sleep,
    Refresh,
    Recv,
    TryRecv,
    Send,
    Subscribe,
    MprisPlayer,
    MprisTrack,
    MprisPlay,
    MprisPause,
    MprisPlayPause,
    MprisNext,
    MprisPrevious,
    MprisEvents,
    HyprlandEvents,
    HyprlandFocusWorkspace,
    /// The text of the library file `name.kool`, looked for in the current directory and
    /// then in the user's Kool directory; null when there is none.
    LibrarySource,
}

/// Defined in function definition.
#[derive(Debug)]
pub struct FunctionParams {
    /// Named parameters along with their default values, in the order of definition.
    params: Vec<(String, Value)>,
    /// Name of the optional _tail_ parameter.
    /// Its default value is always null.
    tail_param: Option<String>,
}

pub struct SParams {
    pub params: Seq<(Seq<char>, SValue)>,
    pub tail_param: Option<Seq<char>>,
}

pub open spec fn opt_string_view(o: Option<String>) -> Option<Seq<char>> {
    match o {
        Some(s) => Some(s@),
        None => None,
    }
}

impl View for FunctionParams {
    type V = SParams;

    closed spec fn view(&self) -> SParams {
        SParams { params: named_values_view(self.params@), tail_param: opt_string_view(self.tail_param) }
    }
}

#[derive(Debug)]
pub struct Function {
    pub params: FunctionParams,
    pub code: FunctionCode,
    /// The environment a user function was created in.
    pub closure: Option<SharedEnvironment>,
}

#[derive(Debug)]
pub enum FunctionCode {
    /// The statements of a user function, shared by the copies of the function.
    Block(Rc<StatementBlock>),
    Host(HostFunction),
}

pub enum SCode {
    Block(Seq<SStatement>),
    Host(HostFunction),
}

pub struct SFunction {
    pub params: SParams,
    pub code: SCode,
    pub closure: Option<usize>,
}

pub open spec fn code_view(c: FunctionCode) -> SCode
    decreases c,
{
    match c {
        FunctionCode::Block(b) => SCode::Block(crate::language::statement::statements_view(b.statements@)),
        FunctionCode::Host(h) => SCode::Host(h),
    }
}

pub open spec fn function_view(f: Function) -> SFunction
    decreases f,
{
    SFunction {
        params: f.params@,
        code: code_view(f.code),
        closure: match f.closure {
            Some(e) => Some(e.id),
            None => None,
        },
    }
}

impl View for Function {
    type V = SFunction;

    open spec fn view(&self) -> SFunction {
        function_view(*self)
    }
}

impl View for FunctionCode {
    type V = SCode;

    open spec fn view(&self) -> SCode {
        code_view(*self)
    }
}

/// A set of evaluated arguments to be passed into a function.
/// Can only be obtained from a function definition (`Function`).
#[derive(Debug)]
pub struct FunctionCallArgs {
    /// Arguments passed in as param name and value pairs.
    args: Vec<(String, Value)>,
    /// Rest of the arguments passed in without any params names.
    tail: Option<(String, Vec<Value>)>,
}

pub struct SCallArgs {
    pub args: Seq<(Seq<char>, SValue)>,
    pub tail: Option<(Seq<char>, Seq<SValue>)>,
}

impl View for FunctionCallArgs {
    type V = SCallArgs;

    closed spec fn view(&self) -> SCallArgs {
        SCallArgs {
            args: named_values_view(self.args@),
            tail: match self.tail {
                Some((n, v)) => Some((n@, values_view(v@))),
                None => None,
            },
        }
    }
}

#[derive(Debug)]
pub enum FunctionError {
    Execution(StatementExecutionError),
    InvalidParameter(String),
    NoTailParameter,
}

pub enum SFunctionError {
    Execution(SStatementError),
    InvalidParameter(Seq<char>),
    NoTailParameter,
}

pub open spec fn function_error_view(e: FunctionError) -> SFunctionError
    decreases e,
{
    match e {
        FunctionError::Execution(s) => SFunctionError::Execution(
            crate::language::statement::statement_error_view(s),
        ),
        FunctionError::InvalidParameter(n) => SFunctionError::InvalidParameter(n@),
        FunctionError::NoTailParameter => SFunctionError::NoTailParameter,
    }
}

impl View for FunctionError {
    type V = SFunctionError;

    open spec fn view(&self) -> SFunctionError {
        function_error_view(*self)
    }
}

pub open spec fn function_result_view(r: Result<Value, FunctionError>) -> Result<SValue, SFunctionError> {
    match r {
        Ok(v) => Ok(v@),
        Err(e) => Err(e@),
    }
}

/* The model of the operations on parameters and arguments */

pub open spec fn params_with_param(p: SParams, name: Seq<char>, default: SValue) -> SParams {
    SParams { params: assoc_insert(p.params, name, default), tail_param: p.tail_param }
}

pub open spec fn params_with_tail(p: SParams, tail: Seq<char>) -> SParams {
    SParams { params: p.params, tail_param: Some(tail) }
}

/// The arguments a call starts from: every parameter with its default value.
pub open spec fn default_call_args(p: SParams) -> SCallArgs {
    SCallArgs {
        args: p.params,
        tail: match p.tail_param {
            Some(t) => Some((t, Seq::empty())),
            None => None,
        },
    }
}

pub open spec fn call_args_set(a: SCallArgs, name: Seq<char>, v: SValue) -> Result<SCallArgs, SFunctionError> {
    let i = assoc_index(a.args, name);
    if i < 0 {
        Err(SFunctionError::InvalidParameter(name))
    } else {
        Ok(SCallArgs { args: a.args.update(i, (name, v)), tail: a.tail })
    }
}

pub open spec fn call_args_add_tail(a: SCallArgs, v: SValue) -> Result<SCallArgs, SFunctionError> {
    match a.tail {
        Some((t, vs)) => Ok(SCallArgs { args: a.args, tail: Some((t, vs.push(v))) }),
        None => Err(SFunctionError::NoTailParameter),
    }
}

/// Passes `v` as the only argument: into the tail when there is one, else into the first parameter.
pub open spec fn call_args_set_singular(a: SCallArgs, v: SValue) -> Result<SCallArgs, SFunctionError> {
    match a.tail {
        Some((t, vs)) => Ok(SCallArgs { args: a.args, tail: Some((t, vs.push(v))) }),
        None => if a.args.len() > 0 {
            Ok(SCallArgs { args: a.args.update(0, (a.args[0].0, v)), tail: None })
        } else {
            Err(SFunctionError::NoTailParameter)
        },
    }
}

/// The value the tail parameter is bound to: the single value, null, or an array of the values.
pub open spec fn tail_value(vs: Seq<SValue>) -> SValue {
    if vs.len() == 0 {
        SValue::Null
    } else if vs.len() == 1 {
        vs[0]
    } else {
        SValue::Array(vs)
    }
}

/// The variables of the environment a call runs in.
pub open spec fn call_frame_variables(a: SCallArgs) -> Seq<(Seq<char>, SValue)> {
    match a.tail {
        Some((t, vs)) => assoc_insert(a.args, t, tail_value(vs)),
        None => a.args,
    }
}

/* Operations */

impl FunctionParams {
    /// No parameters and no tail parameter.
    pub fn new() -> (r: Self)
        ensures
            r@ == (SParams { params: Seq::empty(), tail_param: None }),
    {
        let r = FunctionParams { params: Vec::new(), tail_param: None };
        assert(named_values_view(r.params@) =~= Seq::empty());
        r
    }

    /// Builder method for adding a parameter along with its default value.
    pub fn with_param(self, param: String, default: Option<Value>) -> (r: Self)
        ensures
            r@ == params_with_param(
                self@,
                param@,
                match default {
                    Some(v) => v@,
                    None => SValue::Null,
                },
            ),
    {
        let mut params = self.params;
        let value = match default {
            Some(v) => v,
            None => Value::Null,
        };
        insert_named(&mut params, param, value);
        FunctionParams { params, tail_param: self.tail_param }
    }

    /// Builder method for adding the tail parameter.
    pub fn with_tail(self, tail: String) -> (r: Self)
        ensures
            r@ == params_with_tail(self@, tail@),
    {
        FunctionParams { params: self.params, tail_param: Some(tail) }
    }

    pub fn deep_clone(&self) -> (r: Self)
        ensures
            r@ == self@,
    {
        let tail_param = match &self.tail_param {
            Some(t) => Some(t.clone()),
            None => None,
        };
        FunctionParams { params: clone_named_values(&self.params), tail_param }
    }
}

/// Calls `Rc::clone`, which gives another handle of the same allocation: the statements
/// it points to are the same.
#[verifier::external_body]
fn share_block(b: &Rc<StatementBlock>) -> (r: Rc<StatementBlock>)
    ensures
        r == *b,
{
    Rc::clone(b)
}

impl FunctionCode {
    pub fn deep_clone(&self) -> (r: Self)
        ensures
            r@ == self@,
    {
        match self {
            FunctionCode::Block(b) => FunctionCode::Block(share_block(b)),
            FunctionCode::Host(h) => FunctionCode::Host(*h),
        }
    }

    /// The code of a built-in function.
    pub fn new_host(function: HostFunction) -> (r: Self)
        ensures
            r@ == SCode::Host(function),
    {
        FunctionCode::Host(function)
    }
}

impl Function {
    pub fn deep_clone(&self) -> (r: Self)
        ensures
            r@ == self@,
    {
        Function { params: self.params.deep_clone(), code: self.code.deep_clone(), closure: self.closure }
    }

    /// The arguments a call starts from: every parameter bound to its default value.
    pub fn default_args(&self) -> (r: FunctionCallArgs)
        ensures
            r@ == default_call_args(self@.params),
    {
        let args = clone_named_values(&self.params.params);
        let tail = match &self.params.tail_param {
            Some(t) => {
                let v: Vec<Value> = Vec::new();
                assert(values_view(v@) =~= Seq::empty());
                Some((t.clone(), v))
            },
            None => None,
        };
        FunctionCallArgs { args, tail }
    }
}

impl FunctionCallArgs {
    /// Binds the parameter `name`; fails when the function has no such parameter.
    pub fn set_arg(&mut self, name: &String, value: Value) -> (r: Result<(), FunctionError>)
        ensures
            match call_args_set(old(self)@, name@, value@) {
                Ok(a) => r is Ok && final(self)@ == a,
                Err(e) => match r {
                    Err(x) => x@ == e && final(self)@ == old(self)@,
                    Ok(_) => false,
                },
            },
    {
        let ghost s = named_values_view(self.args@);
        proof {
            lemma_assoc_index(s, name@);
        }
        match find_name(&self.args, name) {
            Some(i) => {
                let mut pair = (name.clone(), value);
                std::mem::swap(&mut self.args[i], &mut pair);
                proof {
                    assert(named_values_view(self.args@) =~= s.update(i as int, (name@, value@)));
                }
                Ok(())
            },
            None => Err(FunctionError::InvalidParameter(name.clone())),
        }
    }

    /// Adds a value to the tail; fails when the function has no tail parameter.
    pub fn add_tail(&mut self, value: Value) -> (r: Result<(), FunctionError>)
        ensures
            match call_args_add_tail(old(self)@, value@) {
                Ok(a) => r is Ok && final(self)@ == a,
                Err(e) => match r {
                    Err(x) => x@ == e && final(self)@ == old(self)@,
                    Ok(_) => false,
                },
            },
    {
        match &mut self.tail {
            Some(pair) => {
                let ghost vs = pair.1@;
                pair.1.push(value);
                proof {
                    assert(values_view(pair.1@) =~= values_view(vs).push(value@));
                }
                Ok(())
            },
            None => Err(FunctionError::NoTailParameter),
        }
    }

    /// Passes `value` as the only argument: into the tail when the function has one,
    /// else into its first parameter.
    pub fn set_singular_arg(&mut self, value: Value) -> (r: Result<(), FunctionError>)
        ensures
            match call_args_set_singular(old(self)@, value@) {
                Ok(a) => r is Ok && final(self)@ == a,
                Err(e) => match r {
                    Err(x) => x@ == e && final(self)@ == old(self)@,
                    Ok(_) => false,
                },
            },
    {
        if self.tail.is_some() {
            return self.add_tail(value);
        }
        if self.args.len() == 0 {
            return Err(FunctionError::NoTailParameter);
        }
        let ghost s = named_values_view(self.args@);
        let name = self.args[0].0.clone();
        let mut pair = (name, value);
        std::mem::swap(&mut self.args[0], &mut pair);
        proof {
            assert(named_values_view(self.args@) =~= s.update(0, (s[0].0, value@)));
        }
        Ok(())
    }

    /// The variables of the environment the call runs in: the arguments, and the tail
    /// parameter bound to its single value, to null, or to an array of its values.
    pub fn into_frame_variables(self) -> (r: Vec<(String, Value)>)
        ensures
            named_values_view(r@) == call_frame_variables(self@),
    {
        let mut vars = self.args;
        match self.tail {
            Some((name, values)) => {
                let ghost vs = values_view(values@);
                let v = if values.len() == 0 {
                    Value::Null
                } else if values.len() == 1 {
                    let mut values = values;
                    let x = values.pop().unwrap();
                    proof {
                        assert(values_view(values@.push(x)) == vs);
                        assert(vs[0] == value_view(x));
                    }
                    x
                } else {
                    Value::Array(values)
                };
                insert_named(&mut vars, name, v);
            },
            None => {},
        }
        vars
    }
}

} // verus!
