use vstd::prelude::*;

use crate::language::function::HostFunction;

verus! {

broadcast use vstd::std_specs::vec::group_vec_axioms;

/// A reference to something callable: a built-in function, or a closure that
/// lives in the runtime (see `Runtime::closures`).
#[derive(Clone, Copy, Debug, PartialEq, Eq, Structural)]
pub enum FunctionRef {
    Builtin(HostFunction),
    Closure(usize),
}

/// A value of the Kool language.
#[derive(Debug)]
pub enum Value {
    Null,
    Bool(bool),
    Int(i64),
    String(String),
    Array(Vec<Value>),
    /// Key and value pairs; a key occurs at most once when built by the language.
    HashMap(Vec<(Value, Value)>),
    Function(FunctionRef),
    /// A handle of a channel owned by the host.
    Channel(u64),
    /// An array or map that lives in a cell of the runtime, shared by every value that holds
    /// the same cell: a write through one of them is seen through all.
    Reference(usize),
}

/// The mathematical model of a `Value`.
pub enum SValue {
    Null,
    Bool(bool),
    Int(i64),
    String(Seq<char>),
    Array(Seq<SValue>),
    HashMap(Seq<(SValue, SValue)>),
    Function(FunctionRef),
    Channel(u64),
    Reference(usize),
}

pub open spec fn value_view(v: Value) -> SValue
    decreases v,
{
    match v {
        Value::Null => SValue::Null,
        Value::Bool(b) => SValue::Bool(b),
        Value::Int(i) => SValue::Int(i),
        Value::String(s) => SValue::String(s@),
        Value::Array(a) => SValue::Array(values_view(a@)),
        Value::HashMap(p) => SValue::HashMap(pairs_view(p@)),
        Value::Function(f) => SValue::Function(f),
        Value::Channel(c) => SValue::Channel(c),
        Value::Reference(c) => SValue::Reference(c),
    }
}

pub open spec fn values_view(s: Seq<Value>) -> Seq<SValue>
    decreases s,
{
    Seq::new(s.len(), |i: int| if 0 <= i < s.len() { value_view(s[i]) } else { SValue::Null })
}

pub open spec fn pairs_view(s: Seq<(Value, Value)>) -> Seq<(SValue, SValue)>
    decreases s,
{
    Seq::new(
        s.len(),
        |i: int|
            if 0 <= i < s.len() {
                (value_view(s[i].0), value_view(s[i].1))
            } else {
                (SValue::Null, SValue::Null)
            },
    )
}

pub open spec fn opt_value_view(o: Option<Value>) -> Option<SValue> {
    match o {
        Some(v) => Some(v@),
        None => None,
    }
}

impl View for Value {
    type V = SValue;

    open spec fn view(&self) -> SValue {
        value_view(*self)
    }
}

pub open spec fn named_values_view(s: Seq<(String, Value)>) -> Seq<(Seq<char>, SValue)> {
    Seq::new(s.len(), |i: int| (s[i].0@, value_view(s[i].1)))
}

/// Truthiness of a value, as used by `if`, `while`, `!`, `&&` and `||`. These look through a
/// reference to what its cell holds first (see `deref`), so an empty array is false wherever
/// it lives.
pub open spec fn truthy(v: SValue) -> bool {
    match v {
        SValue::Null => false,
        SValue::Bool(b) => b,
        SValue::Int(i) => i != 0,
        SValue::String(s) => s.len() > 0,
        SValue::Array(a) => a.len() > 0,
        SValue::HashMap(m) => m.len() > 0,
        SValue::Function(_) => true,
        SValue::Channel(_) => true,
        SValue::Reference(_) => true,
    }
}

impl Value {
    pub fn is_null(&self) -> (r: bool)
        ensures
            r == (self@ is Null),
    {
        match self {
            Value::Null => true,
            _ => false,
        }
    }

    /// Whether the value counts as true in a condition.
    pub fn is_truthy(&self) -> (r: bool)
        ensures
            r == truthy(self@),
    {
        match self {
            Value::Null => false,
            Value::Bool(b) => *b,
            Value::Int(i) => *i != 0,
            Value::String(s) => s.unicode_len() > 0,
            Value::Array(a) => a.len() > 0,
            Value::HashMap(m) => m.len() > 0,
            Value::Function(_) => true,
            Value::Channel(_) => true,
            Value::Reference(_) => true,
        }
    }

    /// A copy of the value.
    pub fn deep_clone(&self) -> (r: Value)
        ensures
            r@ == self@,
        decreases self,
    {
        match self {
            Value::Null => Value::Null,
            Value::Bool(b) => Value::Bool(*b),
            Value::Int(i) => Value::Int(*i),
            Value::String(s) => Value::String(s.clone()),
            Value::Array(a) => Value::Array(clone_values(a)),
            Value::HashMap(p) => Value::HashMap(clone_pairs(p)),
            Value::Function(f) => Value::Function(*f),
            Value::Channel(c) => Value::Channel(*c),
            Value::Reference(c) => Value::Reference(*c),
        }
    }
}

/// Copies a sequence of values.
pub fn clone_values(a: &Vec<Value>) -> (r: Vec<Value>)
    ensures
        values_view(r@) == values_view(a@),
        r@.len() == a@.len(),
    decreases a,
{
    let mut out: Vec<Value> = Vec::new();
    let mut i: usize = 0;
    while i < a.len()
        invariant
            i <= a.len(),
            out@.len() == i,
            forall|j: int| 0 <= j < i ==> value_view(#[trigger] out@[j]) == value_view(a@[j]),
        decreases a.len() - i,
    {
        let v = a[i].deep_clone();
        out.push(v);
        i = i + 1;
    }
    assert(values_view(out@) =~= values_view(a@));
    out
}

/// Copies a sequence of named values.
pub fn clone_named_values(a: &Vec<(String, Value)>) -> (r: Vec<(String, Value)>)
    ensures
        named_values_view(r@) == named_values_view(a@),
{
    let mut out: Vec<(String, Value)> = Vec::new();
    let mut i: usize = 0;
    while i < a.len()
        invariant
            i <= a.len(),
            out@.len() == i,
            forall|j: int| 0 <= j < i ==> (#[trigger] out@[j]).0@ == a@[j].0@ && value_view(out@[j].1) == value_view(a@[j].1),
        decreases a.len() - i,
    {
        let n = a[i].0.clone();
        let v = a[i].1.deep_clone();
        out.push((n, v));
        i = i + 1;
    }
    assert(named_values_view(out@) =~= named_values_view(a@));
    out
}

/// The model of a value has the variant of the value.
pub proof fn lemma_view_variant(v: Value)
    ensures
        (v@ is Null) == (v is Null),
        (v@ is Bool) == (v is Bool),
        (v@ is Int) == (v is Int),
        (v@ is String) == (v is String),
        (v@ is Array) == (v is Array),
        (v@ is HashMap) == (v is HashMap),
        (v@ is Function) == (v is Function),
        (v@ is Channel) == (v is Channel),
        (v@ is Reference) == (v is Reference),
{
    match v {
        Value::Null => {},
        Value::Bool(_) => {},
        Value::Int(_) => {},
        Value::String(_) => {},
        Value::Array(_) => {},
        Value::HashMap(_) => {},
        Value::Function(_) => {},
        Value::Channel(_) => {},
        Value::Reference(_) => {},
    }
}

/// Copies a sequence of key and value pairs.
pub fn clone_pairs(p: &Vec<(Value, Value)>) -> (r: Vec<(Value, Value)>)
    ensures
        pairs_view(r@) == pairs_view(p@),
        r@.len() == p@.len(),
    decreases p,
{
    let mut out: Vec<(Value, Value)> = Vec::new();
    let mut i: usize = 0;
    while i < p.len()
        invariant
            i <= p.len(),
            out@.len() == i,
            forall|j: int|
                0 <= j < i ==> value_view(#[trigger] out@[j].0) == value_view(p@[j].0) && value_view(
                    out@[j].1,
                ) == value_view(p@[j].1),
        decreases p.len() - i,
    {
        let k = p[i].0.deep_clone();
        let v = p[i].1.deep_clone();
        out.push((k, v));
        i = i + 1;
    }
    assert(pairs_view(out@) =~= pairs_view(p@));
    out
}

/// Structural equality of two values: the same variant with the same contents, map pairs in
/// the same order. Keys are found by it; the `==` of the language is `language_equals`.
pub fn value_eq(a: &Value, b: &Value) -> (r: bool)
    ensures
        r == (a@ == b@),
    decreases a,
{
    proof {
        lemma_view_variant(*a);
        lemma_view_variant(*b);
    }
    match (a, b) {
        (Value::Null, Value::Null) => true,
        (Value::Bool(x), Value::Bool(y)) => { let r = *x == *y; assert(r == (a@ == b@)); r },
        (Value::Int(x), Value::Int(y)) => { let r = *x == *y; assert(r == (a@ == b@)); r },
        (Value::String(x), Value::String(y)) => { let r = *x == *y; assert(r == (a@ == b@)); r },
        (Value::Array(x), Value::Array(y)) => { let r = values_eq(x, y); assert(r == (a@ == b@)); r },
        (Value::HashMap(x), Value::HashMap(y)) => { let r = pairs_eq(x, y); assert(r == (a@ == b@)); r },
        (Value::Function(x), Value::Function(y)) => *x == *y,
        (Value::Channel(x), Value::Channel(y)) => *x == *y,
        (Value::Reference(x), Value::Reference(y)) => *x == *y,
        _ => false,
    }
}

/// Elementwise equality of two sequences of values.
pub fn values_eq(x: &Vec<Value>, y: &Vec<Value>) -> (r: bool)
    ensures
        r == (values_view(x@) == values_view(y@)),
    decreases x,
{
    if x.len() != y.len() {
        assert(values_view(x@).len() != values_view(y@).len());
        return false;
    }
    let mut i: usize = 0;
    while i < x.len()
        invariant
            i <= x.len(),
            x.len() == y.len(),
            forall|j: int| 0 <= j < i ==> value_view(#[trigger] x@[j]) == value_view(y@[j]),
        decreases x.len() - i,
    {
        if !value_eq(&x[i], &y[i]) {
            assert(values_view(x@)[i as int] != values_view(y@)[i as int]);
            return false;
        }
        i = i + 1;
    }
    assert(values_view(x@) =~= values_view(y@));
    true
}

/// Pairwise equality of two sequences of key and value pairs.
pub fn pairs_eq(x: &Vec<(Value, Value)>, y: &Vec<(Value, Value)>) -> (r: bool)
    ensures
        r == (pairs_view(x@) == pairs_view(y@)),
    decreases x,
{
    if x.len() != y.len() {
        assert(pairs_view(x@).len() != pairs_view(y@).len());
        return false;
    }
    let mut i: usize = 0;
    while i < x.len()
        invariant
            i <= x.len(),
            x.len() == y.len(),
            forall|j: int|
                0 <= j < i ==> value_view(#[trigger] x@[j].0) == value_view(y@[j].0) && value_view(
                    x@[j].1,
                ) == value_view(y@[j].1),
        decreases x.len() - i,
    {
        if !value_eq(&x[i].0, &y[i].0) || !value_eq(&x[i].1, &y[i].1) {
            assert(pairs_view(x@)[i as int] != pairs_view(y@)[i as int]);
            return false;
        }
        i = i + 1;
    }
    assert(pairs_view(x@) =~= pairs_view(y@));
    true
}

/// The integer at position `i` of an array, if it is one.
pub open spec fn int_at(vs: Seq<SValue>, i: int) -> Option<i64> {
    if 0 <= i < vs.len() {
        match vs[i] {
            SValue::Int(n) => Some(n),
            _ => None,
        }
    } else {
        None
    }
}

/// The integer at position `i` of an array, if it is one.
pub fn int_at_of(vs: &Vec<Value>, i: usize) -> (r: Option<i64>)
    ensures
        r == int_at(values_view(vs@), i as int),
{
    if i < vs.len() {
        match &vs[i] {
            Value::Int(n) => Some(*n),
            _ => None,
        }
    } else {
        None
    }
}

} // verus!
