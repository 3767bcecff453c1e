use vstd::prelude::*;

use crate::language::assoc::{assoc_extend, assoc_get, assoc_index, assoc_insert, find_name, insert_named, lemma_assoc_index};
use crate::language::function::{ExternalFunction, Function, SFunction};
use crate::language::library::Library;
use crate::language::semantics::{namespace_value, rt_define_all};
use crate::language::value::{
    clone_named_values, lemma_view_variant, named_values_view, opt_value_view, pairs_view, value_view, values_view, SValue, Value,
};

verus! {

/// A handle of an environment that lives in a `Runtime`.
#[derive(Clone, Copy, Debug, PartialEq, Eq, Structural)]
pub struct SharedEnvironment {
    pub id: usize,
}

/// A scope: its variables and the scope that encloses it.
#[derive(Debug)]
pub struct Environment {
    outer: Option<SharedEnvironment>,
    variables: Vec<(String, Value)>,
}

pub struct SEnv {
    pub outer: Option<usize>,
    pub variables: Seq<(Seq<char>, SValue)>,
}

impl View for Environment {
    type V = SEnv;

    closed spec fn view(&self) -> SEnv {
        SEnv {
            outer: match self.outer {
                Some(o) => Some(o.id),
                None => None,
            },
            variables: named_values_view(self.variables@),
        }
    }
}

/// One call of an external function: what was handed to the host and what it answered.
#[derive(Debug)]
pub struct HostCall {
    pub function: ExternalFunction,
    pub args: Vec<(String, Value)>,
    pub response: Value,
}

pub struct SHostCall {
    pub function: ExternalFunction,
    pub args: Seq<(Seq<char>, SValue)>,
    pub response: SValue,
}

impl View for HostCall {
    type V = SHostCall;

    open spec fn view(&self) -> SHostCall {
        SHostCall { function: self.function, args: named_values_view(self.args@), response: self.response@ }
    }
}

/// All the state of a running program: its environments, the closures it
/// created, the calls it made to the host, and the cells that hold its arrays and maps.
#[derive(Debug)]
pub struct Runtime {
    pub environments: Vec<Environment>,
    pub closures: Vec<Function>,
    pub host_calls: Vec<HostCall>,
    pub cells: Vec<Value>,
}

pub struct SRuntime {
    pub environments: Seq<SEnv>,
    pub closures: Seq<SFunction>,
    pub host_calls: Seq<SHostCall>,
    pub cells: Seq<SValue>,
}

impl View for Runtime {
    type V = SRuntime;

    open spec fn view(&self) -> SRuntime {
        SRuntime {
            environments: Seq::new(self.environments@.len(), |i: int| self.environments@[i]@),
            closures: Seq::new(self.closures@.len(), |i: int| self.closures@[i]@),
            host_calls: Seq::new(self.host_calls@.len(), |i: int| self.host_calls@[i]@),
            cells: Seq::new(self.cells@.len(), |i: int| self.cells@[i]@),
        }
    }
}

/* The model of the environment operations */

/// Looks a variable up in environment `env` and then in its enclosing environments.
/// An enclosing environment counts only when it was created before the one it encloses.
pub open spec fn rt_lookup(rt: SRuntime, env: usize, name: Seq<char>) -> Option<SValue>
    decreases env,
{
    if env >= rt.environments.len() {
        None
    } else {
        match assoc_get(rt.environments[env as int].variables, name) {
            Some(v) => Some(v),
            None => match rt.environments[env as int].outer {
                Some(o) => if o < env {
                    rt_lookup(rt, o, name)
                } else {
                    None
                },
                None => None,
            },
        }
    }
}

pub open spec fn rt_lookup_or_null(rt: SRuntime, env: usize, name: Seq<char>) -> SValue {
    match rt_lookup(rt, env, name) {
        Some(v) => v,
        None => SValue::Null,
    }
}

pub open spec fn rt_with_env(rt: SRuntime, env: usize, e: SEnv) -> SRuntime {
    SRuntime { environments: rt.environments.update(env as int, e), ..rt }
}

/// Defines a variable in environment `env`; gives the new runtime and the previous value.
pub open spec fn rt_define(rt: SRuntime, env: usize, name: Seq<char>, v: SValue) -> (SRuntime, Option<SValue>) {
    if env >= rt.environments.len() {
        (rt, None)
    } else {
        let e = rt.environments[env as int];
        (
            rt_with_env(rt, env, SEnv { outer: e.outer, variables: assoc_insert(e.variables, name, v) }),
            assoc_get(e.variables, name),
        )
    }
}

/// Sets the variable in the innermost environment that defines it; gives the new runtime and
/// the previous value (`None` when no environment defines it, and then nothing changes).
pub open spec fn rt_set(rt: SRuntime, env: usize, name: Seq<char>, v: SValue) -> (SRuntime, Option<SValue>)
    decreases env,
{
    if env >= rt.environments.len() {
        (rt, None)
    } else {
        let e = rt.environments[env as int];
        match assoc_get(e.variables, name) {
            Some(old) => (
                rt_with_env(rt, env, SEnv { outer: e.outer, variables: assoc_insert(e.variables, name, v) }),
                Some(old),
            ),
            None => match e.outer {
                Some(o) => if o < env {
                    rt_set(rt, o, name, v)
                } else {
                    (rt, None)
                },
                None => (rt, None),
            },
        }
    }
}

pub open spec fn rt_push_env(rt: SRuntime, e: SEnv) -> SRuntime {
    SRuntime { environments: rt.environments.push(e), ..rt }
}

pub open spec fn rt_push_closure(rt: SRuntime, f: SFunction) -> SRuntime {
    SRuntime { closures: rt.closures.push(f), ..rt }
}

/* Cells: where arrays and maps live */

pub open spec fn rt_push_cell(rt: SRuntime, v: SValue) -> SRuntime {
    SRuntime { cells: rt.cells.push(v), ..rt }
}

pub open spec fn rt_set_cell(rt: SRuntime, k: usize, v: SValue) -> SRuntime {
    SRuntime { cells: rt.cells.update(k as int, v), ..rt }
}

/// What a value holds at its top: the contents of the cell it refers to (null for a
/// reference to no cell), or the value itself.
pub open spec fn deref(rt: SRuntime, v: SValue) -> SValue {
    match v {
        SValue::Reference(k) => if k < rt.cells.len() {
            rt.cells[k as int]
        } else {
            SValue::Null
        },
        _ => v,
    }
}

/// The value with every reference replaced by the contents of its cell, following at most
/// `n` references along any path; past that, and for a reference to no cell, null.
pub open spec fn resolve_in(cells: Seq<SValue>, v: SValue, n: nat) -> SValue
    decreases n, v,
{
    match v {
        SValue::Reference(k) => if n == 0 || k >= cells.len() {
            SValue::Null
        } else {
            resolve_in(cells, cells[k as int], (n - 1) as nat)
        },
        SValue::Array(es) => SValue::Array(
            Seq::new(es.len(), |i: int| if 0 <= i < es.len() { resolve_in(cells, es[i], n) } else { SValue::Null }),
        ),
        SValue::HashMap(ps) => SValue::HashMap(
            Seq::new(
                ps.len(),
                |i: int|
                    if 0 <= i < ps.len() {
                        (resolve_in(cells, ps[i].0, n), resolve_in(cells, ps[i].1, n))
                    } else {
                        (SValue::Null, SValue::Null)
                    },
            ),
        ),
        _ => v,
    }
}

/// The value as a tree of plain values: each reference replaced by what its cell holds. A
/// path of references longer than there are cells goes round a cycle; it is cut there.
pub open spec fn resolved(rt: SRuntime, v: SValue) -> SValue {
    resolve_in(rt.cells, v, rt.cells.len())
}

/// An array or map put into a new cell, and the reference to it; other values stay.
pub open spec fn rt_alloc(rt: SRuntime, v: SValue) -> (SRuntime, SValue) {
    match v {
        SValue::Array(_) => (rt_push_cell(rt, v), SValue::Reference(rt.cells.len() as usize)),
        SValue::HashMap(_) => (rt_push_cell(rt, v), SValue::Reference(rt.cells.len() as usize)),
        _ => (rt, v),
    }
}


impl Environment {
    pub fn new(outer: Option<SharedEnvironment>) -> (r: Self)
        ensures
            r@ == (SEnv {
                outer: match outer {
                    Some(o) => Some(o.id),
                    None => None,
                },
                variables: Seq::empty(),
            }),
    {
        let r = Environment { outer, variables: Vec::new() };
        assert(r@.variables =~= Seq::empty());
        r
    }

    /// An environment holding the given variables.
    pub fn with_variables(outer: Option<SharedEnvironment>, variables: Vec<(String, Value)>) -> (r: Self)
        ensures
            r@ == (SEnv {
                outer: match outer {
                    Some(o) => Some(o.id),
                    None => None,
                },
                variables: named_values_view(variables@),
            }),
    {
        Environment { outer, variables }
    }

    /// A copy of the variables of this environment.
    pub fn copy_variables(&self) -> (r: Vec<(String, Value)>)
        ensures
            named_values_view(r@) == self@.variables,
    {
        clone_named_values(&self.variables)
    }

    /// Moves the environment into the runtime, where closures can share it.
    pub fn into_shared(self, runtime: &mut Runtime) -> (r: SharedEnvironment)
        ensures
            final(runtime)@ == rt_push_env(old(runtime)@, self@),
            r.id == old(runtime)@.environments.len(),
    {
        let id = runtime.environments.len();
        runtime.environments.push(self);
        proof {
            assert(final(runtime)@.environments =~= old(runtime)@.environments.push(self@));
        }
        SharedEnvironment { id }
    }

    /// Defines a variable and returns its previous value for error handling purposes.
    pub fn define_variable(&mut self, name: String, value: Value) -> (r: Option<Value>)
        ensures
            final(self)@ == (SEnv {
                outer: old(self)@.outer,
                variables: assoc_insert(old(self)@.variables, name@, value@),
            }),
            opt_value_view(r) == assoc_get(old(self)@.variables, name@),
    {
        insert_named(&mut self.variables, name, value)
    }
}


impl Runtime {
    pub fn new() -> (r: Self)
        ensures
            r@.environments.len() == 0,
            r@.closures.len() == 0,
            r@.host_calls.len() == 0,
            r@.cells.len() == 0,
    {
        Runtime { environments: Vec::new(), closures: Vec::new(), host_calls: Vec::new(), cells: Vec::new() }
    }

    /// Looks a variable up (see `rt_lookup`) and returns a copy of its value.
    pub fn lookup(&self, env: usize, name: &String) -> (r: Option<Value>)
        ensures
            opt_value_view(r) == rt_lookup(self@, env, name@),
        decreases env,
    {
        if env >= self.environments.len() {
            return None;
        }
        let e = &self.environments[env];
        proof {
            assert(self@.environments[env as int] == e@);
            lemma_assoc_index(e@.variables, name@);
        }
        match find_name(&e.variables, name) {
            Some(i) => Some(e.variables[i].1.deep_clone()),
            None => match e.outer {
                Some(o) => if o.id < env {
                    self.lookup(o.id, name)
                } else {
                    None
                },
                None => None,
            },
        }
    }

    /// Defines a variable in environment `env` (see `rt_define`).
    pub fn define(&mut self, env: usize, name: String, value: Value) -> (r: Option<Value>)
        ensures
            (final(self)@, opt_value_view(r)) == rt_define(old(self)@, env, name@, value@),
    {
        if env >= self.environments.len() {
            return None;
        }
        let ghost e = old(self)@.environments[env as int];
        let r = self.environments[env].define_variable(name, value);
        proof {
            assert(final(self)@.environments =~= old(self)@.environments.update(
                env as int,
                SEnv { outer: e.outer, variables: assoc_insert(e.variables, name@, value@) },
            ));
        }
        r
    }

    /// Sets a variable where it is defined (see `rt_set`).
    pub fn set(&mut self, env: usize, name: &String, value: Value) -> (r: Option<Value>)
        ensures
            (final(self)@, opt_value_view(r)) == rt_set(old(self)@, env, name@, value@),
        decreases env,
    {
        if env >= self.environments.len() {
            return None;
        }
        let ghost e = old(self)@.environments[env as int];
        proof {
            lemma_assoc_index(e.variables, name@);
        }
        match find_name(&self.environments[env].variables, name) {
            Some(_) => self.define(env, name.clone(), value),
            None => match self.environments[env].outer {
                Some(o) => if o.id < env {
                    self.set(o.id, name, value)
                } else {
                    None
                },
                None => None,
            },
        }
    }

    /// Stores a closure and returns its index.
    pub fn push_closure(&mut self, f: Function) -> (r: usize)
        ensures
            final(self)@ == rt_push_closure(old(self)@, f@),
            r == old(self)@.closures.len(),
    {
        let r = self.closures.len();
        self.closures.push(f);
        proof {
            assert(final(self)@.closures =~= old(self)@.closures.push(f@));
            assert(final(self)@.environments =~= old(self)@.environments);
            assert(final(self)@.host_calls =~= old(self)@.host_calls);
        }
        r
    }

    /// Stores a value in a new cell and returns the cell's number.
    pub fn push_cell(&mut self, v: Value) -> (r: usize)
        ensures
            final(self)@ == rt_push_cell(old(self)@, v@),
            r == old(self)@.cells.len(),
    {
        let r = self.cells.len();
        self.cells.push(v);
        proof {
            assert(final(self)@.cells =~= old(self)@.cells.push(v@));
        }
        r
    }

    /// Replaces what cell `k` holds.
    pub fn set_cell(&mut self, k: usize, v: Value)
        requires
            k < old(self)@.cells.len(),
        ensures
            final(self)@ == rt_set_cell(old(self)@, k, v@),
    {
        self.cells.set(k, v);
        proof {
            assert(final(self)@.cells =~= old(self)@.cells.update(k as int, v@));
        }
    }

    /// Puts an array or map into a new cell and gives the reference to it (see `rt_alloc`).
    pub fn allocate(&mut self, v: Value) -> (r: Value)
        ensures
            (final(self)@, r@) == rt_alloc(old(self)@, v@),
    {
        proof {
            lemma_view_variant(v);
        }
        match v {
            Value::Array(_) => {
                let k = self.push_cell(v);
                Value::Reference(k)
            },
            Value::HashMap(_) => {
                let k = self.push_cell(v);
                Value::Reference(k)
            },
            _ => v,
        }
    }

    /// A copy of what a value holds at its top (see `deref`).
    pub fn deref(&self, v: &Value) -> (r: Value)
        ensures
            r@ == deref(self@, v@),
    {
        match v {
            Value::Reference(k) => if *k < self.cells.len() {
                self.cells[*k].deep_clone()
            } else {
                Value::Null
            },
            _ => v.deep_clone(),
        }
    }

    /// The value as a tree of plain values (see `resolved`).
    pub fn resolve(&self, v: &Value) -> (r: Value)
        ensures
            r@ == resolved(self@, v@),
    {
        self.resolve_with(v, self.cells.len())
    }

    fn resolve_with(&self, v: &Value, n: usize) -> (r: Value)
        ensures
            r@ == resolve_in(self@.cells, v@, n as nat),
        decreases n, v,
    {
        match v {
            Value::Reference(k) => if n == 0 || *k >= self.cells.len() {
                Value::Null
            } else {
                assert(self@.cells.len() == self.cells@.len());
                assert(self@.cells[*k as int] == self.cells@[*k as int]@);
                let r = self.resolve_with(&self.cells[*k], n - 1);
                assert(r@ == resolve_in(self@.cells, self@.cells[*k as int], (n - 1) as nat));
                r
            },
            Value::Array(es) => {
                let out = self.resolve_values(es, n);
                assert(v@ == SValue::Array(values_view(es@)));
                assert(resolve_in(self@.cells, v@, n as nat)->Array_0 =~= values_view(out@));
                Value::Array(out)
            },
            Value::HashMap(ps) => {
                let out = self.resolve_pairs(ps, n);
                assert(v@ == SValue::HashMap(pairs_view(ps@)));
                assert(resolve_in(self@.cells, v@, n as nat)->HashMap_0 =~= pairs_view(out@));
                Value::HashMap(out)
            },
            _ => v.deep_clone(),
        }
    }

    fn resolve_values(&self, es: &Vec<Value>, n: usize) -> (r: Vec<Value>)
        ensures
            values_view(r@) == Seq::new(
                values_view(es@).len(),
                |i: int| if 0 <= i < values_view(es@).len() { resolve_in(self@.cells, values_view(es@)[i], n as nat) } else { SValue::Null },
            ),
        decreases n, es,
    {
        let mut out: Vec<Value> = Vec::new();
        let mut i: usize = 0;
        while i < es.len()
            invariant
                i <= es.len(),
                out@.len() == i,
                forall|j: int| 0 <= j < i ==> value_view(#[trigger] out@[j]) == resolve_in(self@.cells, es@[j]@, n as nat),
            decreases es.len() - i,
        {
            let v = self.resolve_with(&es[i], n);
            out.push(v);
            i = i + 1;
        }
        assert(values_view(out@) =~= Seq::new(
            values_view(es@).len(),
            |i: int| if 0 <= i < values_view(es@).len() { resolve_in(self@.cells, values_view(es@)[i], n as nat) } else { SValue::Null },
        ));
        out
    }

    fn resolve_pairs(&self, ps: &Vec<(Value, Value)>, n: usize) -> (r: Vec<(Value, Value)>)
        ensures
            pairs_view(r@) == Seq::new(
                pairs_view(ps@).len(),
                |i: int| if 0 <= i < pairs_view(ps@).len() { (resolve_in(self@.cells, pairs_view(ps@)[i].0, n as nat), resolve_in(self@.cells, pairs_view(ps@)[i].1, n as nat)) } else { (SValue::Null, SValue::Null) },
            ),
        decreases n, ps,
    {
        let mut out: Vec<(Value, Value)> = Vec::new();
        let mut i: usize = 0;
        while i < ps.len()
            invariant
                i <= ps.len(),
                out@.len() == i,
                forall|j: int|
                    0 <= j < i ==> value_view(#[trigger] out@[j].0) == resolve_in(self@.cells, ps@[j].0@, n as nat)
                        && value_view(out@[j].1) == resolve_in(self@.cells, ps@[j].1@, n as nat),
            decreases ps.len() - i,
        {
            let k = self.resolve_with(&ps[i].0, n);
            let v = self.resolve_with(&ps[i].1, n);
            out.push((k, v));
            i = i + 1;
        }
        assert(pairs_view(out@) =~= Seq::new(
            pairs_view(ps@).len(),
            |i: int| if 0 <= i < pairs_view(ps@).len() { (resolve_in(self@.cells, pairs_view(ps@)[i].0, n as nat), resolve_in(self@.cells, pairs_view(ps@)[i].1, n as nat)) } else { (SValue::Null, SValue::Null) },
        ));
        out
    }
}

/// The variables of environment `env`; none when there is no such environment.
pub open spec fn rt_variables(rt: SRuntime, env: usize) -> Seq<(Seq<char>, SValue)> {
    if env < rt.environments.len() {
        rt.environments[env as int].variables
    } else {
        Seq::empty()
    }
}

/// The map a library is imported as under a namespace: its names as string keys.
fn namespace_of(entries: &Vec<(String, Value)>) -> (r: Value)
    ensures
        r@ == namespace_value(named_values_view(entries@)),
{
    let ghost lv = named_values_view(entries@);
    let mut pairs: Vec<(Value, Value)> = Vec::new();
    let mut i: usize = 0;
    while i < entries.len()
        invariant
            i <= entries.len(),
            lv == named_values_view(entries@),
            crate::language::value::pairs_view(pairs@) == Seq::new(lv.len(), |k: int| (SValue::String(lv[k].0), lv[k].1)).take(
                i as int,
            ),
        decreases entries.len() - i,
    {
        let ghost before = pairs@;
        let k = Value::String(entries[i].0.clone());
        let v = entries[i].1.deep_clone();
        pairs.push((k, v));
        i = i + 1;
        proof {
            assert(crate::language::value::pairs_view(pairs@) =~= crate::language::value::pairs_view(before).push(
                (k@, v@),
            ));
            assert(crate::language::value::pairs_view(pairs@) =~= Seq::new(
                lv.len(),
                |k: int| (SValue::String(lv[k].0), lv[k].1),
            ).take(i as int));
        }
    }
    proof {
        assert(crate::language::value::pairs_view(pairs@) =~= Seq::new(
            lv.len(),
            |k: int| (SValue::String(lv[k].0), lv[k].1),
        ));
    }
    Value::HashMap(pairs)
}

impl SharedEnvironment {
    /// Looks a variable up here and then in the enclosing environments.
    pub fn get_variable(&self, runtime: &Runtime, name: &String) -> (r: Option<Value>)
        ensures
            opt_value_view(r) == rt_lookup(runtime@, self.id, name@),
    {
        runtime.lookup(self.id, name)
    }

    /// Defines a variable here and returns its previous value. The handle must be one of
    /// the runtime's environments.
    pub fn define_variable(&self, runtime: &mut Runtime, name: String, value: Value) -> (r: Option<Value>)
        requires
            self.id < old(runtime)@.environments.len(),
        ensures
            (final(runtime)@, opt_value_view(r)) == rt_define(old(runtime)@, self.id, name@, value@),
    {
        runtime.define(self.id, name, value)
    }

    /// Sets a variable in the innermost environment that defines it and returns its old value.
    /// The handle must be one of the runtime's environments.
    pub fn set_variable(&self, runtime: &mut Runtime, name: &String, value: Value) -> (r: Option<Value>)
        requires
            self.id < old(runtime)@.environments.len(),
        ensures
            (final(runtime)@, opt_value_view(r)) == rt_set(old(runtime)@, self.id, name@, value@),
    {
        runtime.set(self.id, name, value)
    }

    /// A copy of the variables of this environment, as a library.
    pub fn as_library(&self, runtime: &Runtime) -> (r: Library)
        ensures
            r@ == rt_variables(runtime@, self.id),
    {
        if self.id < runtime.environments.len() {
            Library::from_entries(runtime.environments[self.id].copy_variables())
        } else {
            let v: Vec<(String, Value)> = Vec::new();
            assert(named_values_view(v@) =~= Seq::empty());
            Library::from_entries(v)
        }
    }

    /// Defines each value of `library` here, in order. The handle must be one of the
    /// runtime's environments.
    pub fn import(&self, runtime: &mut Runtime, library: Library)
        requires
            self.id < old(runtime)@.environments.len(),
        ensures
            final(runtime)@ == rt_define_all(old(runtime)@, self.id, library@),
    {
        let ghost lv = library@;
        let ghost s0 = runtime@;
        let entries = library.into_entries();
        let mut i: usize = 0;
        while i < entries.len()
            invariant
                i <= entries.len(),
                lv == named_values_view(entries@),
                runtime@ == rt_define_all(s0, self.id, lv.take(i as int)),
            decreases entries.len() - i,
        {
            let n = entries[i].0.clone();
            let v = entries[i].1.deep_clone();
            runtime.define(self.id, n, v);
            i = i + 1;
            proof {
                assert(lv.take(i as int).drop_last() =~= lv.take(i as int - 1));
            }
        }
        proof {
            assert(lv.take(i as int) =~= lv);
        }
    }

    /// Defines `name` here as a map from the names of `library` to its values, in a new
    /// cell. The handle must be one of the runtime's environments.
    pub fn import_namespace(&self, runtime: &mut Runtime, name: String, library: Library)
        requires
            self.id < old(runtime)@.environments.len(),
        ensures
            final(runtime)@ == rt_define(
                rt_alloc(old(runtime)@, namespace_value(library@)).0,
                self.id,
                name@,
                rt_alloc(old(runtime)@, namespace_value(library@)).1,
            ).0,
    {
        let entries = library.into_entries();
        let ns = namespace_of(&entries);
        let r = runtime.allocate(ns);
        runtime.define(self.id, name, r);
    }
}

impl Environment {
    /// Looks a variable up here and then, through the runtime, in the enclosing environments.
    pub fn get_variable(&self, runtime: &Runtime, name: &String) -> (r: Option<Value>)
        ensures
            opt_value_view(r) == match assoc_get(self@.variables, name@) {
                Some(v) => Some(v),
                None => match self@.outer {
                    Some(o) => rt_lookup(runtime@, o as usize, name@),
                    None => None,
                },
            },
    {
        proof {
            lemma_assoc_index(self@.variables, name@);
        }
        match find_name(&self.variables, name) {
            Some(i) => Some(self.variables[i].1.deep_clone()),
            None => match self.outer {
                Some(o) => runtime.lookup(o.id, name),
                None => None,
            },
        }
    }

    /// Sets a variable here when it is defined here, else in the enclosing environments;
    /// returns its old value, `None` when no environment defines it.
    pub fn set_variable(&mut self, runtime: &mut Runtime, name: &String, value: Value) -> (r: Option<Value>)
        ensures
            match assoc_get(old(self)@.variables, name@) {
                Some(v) => final(self)@ == (SEnv {
                    outer: old(self)@.outer,
                    variables: assoc_insert(old(self)@.variables, name@, value@),
                }) && final(runtime)@ == old(runtime)@ && opt_value_view(r) == Some(v),
                None => final(self)@ == old(self)@ && match old(self)@.outer {
                    Some(o) => (final(runtime)@, opt_value_view(r)) == rt_set(old(runtime)@, o as usize, name@, value@),
                    None => final(runtime)@ == old(runtime)@ && r is None,
                },
            },
    {
        proof {
            lemma_assoc_index(self@.variables, name@);
        }
        match find_name(&self.variables, name) {
            Some(_) => self.define_variable(name.clone(), value),
            None => match self.outer {
                Some(o) => runtime.set(o.id, name, value),
                None => None,
            },
        }
    }

    /// The variables of this environment, as a library.
    pub fn into_library(self) -> (r: Library)
        ensures
            r@ == self@.variables,
    {
        Library::from_entries(self.variables)
    }

    /// Defines each value of `library` here, in order.
    pub fn import(&mut self, library: Library)
        ensures
            final(self)@ == (SEnv { outer: old(self)@.outer, variables: assoc_extend(old(self)@.variables, library@) }),
    {
        let ghost lv = library@;
        let ghost v0 = self@.variables;
        let entries = library.into_entries();
        let mut i: usize = 0;
        while i < entries.len()
            invariant
                i <= entries.len(),
                lv == named_values_view(entries@),
                self@ == (SEnv { outer: old(self)@.outer, variables: assoc_extend(v0, lv.take(i as int)) }),
            decreases entries.len() - i,
        {
            let n = entries[i].0.clone();
            let v = entries[i].1.deep_clone();
            self.define_variable(n, v);
            i = i + 1;
            proof {
                assert(lv.take(i as int).drop_last() =~= lv.take(i as int - 1));
            }
        }
        proof {
            assert(lv.take(i as int) =~= lv);
        }
    }

    /// Defines `name` here as a map from the names of `library` to its values.
    pub fn import_namespace(&mut self, name: String, library: Library)
        ensures
            final(self)@ == (SEnv {
                outer: old(self)@.outer,
                variables: assoc_insert(old(self)@.variables, name@, namespace_value(library@)),
            }),
    {
        let entries = library.into_entries();
        let ns = namespace_of(&entries);
        self.define_variable(name, ns);
    }
}

} // verus!
