//! The operators of the language on values.
use vstd::prelude::*;

use crate::language::assoc::{assoc_extend, assoc_get, find_key, insert_pair, lemma_assoc_index};
use crate::language::expression::{eval_result_view, EvaluationError, Expression, Operator, SExpr};
use crate::language::semantics::{
    binary_result, language_eq, byte_char, utf8_len, checked_int, illegal_binary, illegal_unary, in_i64, int_pow, is_index, seq_repeat,
    trunc_div, unary_result,
};
use crate::language::text::{append_str, push_char};
use crate::language::value::{
    clone_pairs, clone_values, lemma_view_variant, pairs_view, value_eq, values_view, SValue, Value,
};

verus! {

pub fn illegal_unary_error(op: Operator, v: Value) -> (r: EvaluationError)
    ensures
        r@ == illegal_unary(op, v@),
{
    let e = Expression::Value(v);
    assert(e@ == SExpr::Value(v@));
    EvaluationError::IllegalOperation(Expression::Unary { operator: op, operand: Box::new(e) })
}

pub fn illegal_binary_error(op: Operator, l: Value, r: Value) -> (e: EvaluationError)
    ensures
        e@ == illegal_binary(op, l@, r@),
{
    let a = Expression::Value(l);
    let b = Expression::Value(r);
    assert(a@ == SExpr::Value(l@));
    assert(b@ == SExpr::Value(r@));
    EvaluationError::IllegalOperation(Expression::Binary { operator: op, left: Box::new(a), right: Box::new(b) })
}

/// The result of a prefix operator.
pub fn unary_op(op: Operator, v: Value) -> (r: Result<Value, EvaluationError>)
    ensures
        eval_result_view(r) == unary_result(op, v@),
{
    proof {
        lemma_view_variant(v);
    }
    if op == Operator::Not {
        return Ok(Value::Bool(!v.is_truthy()));
    }
    match v {
        Value::Int(n) => if op == Operator::Sub && n != i64::MIN {
            Ok(Value::Int(-n))
        } else {
            Err(illegal_unary_error(op, Value::Int(n)))
        },
        _ => Err(illegal_unary_error(op, v)),
    }
}

/// An integer result, or an error when it does not fit in 64 bits.
fn checked_int_result(x: i128, op: Operator, l: Value, r: Value) -> (res: Result<Value, EvaluationError>)
    ensures
        eval_result_view(res) == checked_int(x as int, op, l@, r@),
{
    if i64::MIN as i128 <= x && x <= i64::MAX as i128 {
        Ok(Value::Int(x as i64))
    } else {
        Err(illegal_binary_error(op, l, r))
    }
}

/// Division rounding towards zero, computed on the magnitudes.
fn div_int(a: i64, b: i64) -> (q: i128)
    requires
        b != 0,
    ensures
        q == trunc_div(a as int, b as int),
{
    let ua: u64 = if a < 0 {
        (0i128 - a as i128) as u64
    } else {
        a as u64
    };
    let ub: u64 = if b < 0 {
        (0i128 - b as i128) as u64
    } else {
        b as u64
    };
    let q: u64 = ua / ub;
    if (a < 0) == (b < 0) {
        q as i128
    } else {
        0i128 - q as i128
    }
}

pub proof fn lemma_pow_small(b: nat)
    ensures
        int_pow(1, b) == 1,
        b > 0 ==> int_pow(0, b) == 0,
        int_pow(-1, b) == if b % 2 == 0 {
            1int
        } else {
            -1int
        },
    decreases b,
{
    if b > 0 {
        lemma_pow_small((b - 1) as nat);
    }
}

/// Once a power of `a` with `|a| >= 2` leaves the 64-bit range, the later ones stay out of it.
pub proof fn lemma_pow_stays_out(a: int, k: nat, m: nat)
    requires
        a >= 2 || a <= -2,
        k <= m,
        !in_i64(int_pow(a, k)),
    ensures
        !in_i64(int_pow(a, m)),
    decreases m - k,
{
    if k < m {
        let x = int_pow(a, k);
        assert(int_pow(a, k + 1) == x * a);
        assert(!in_i64(x * a)) by (nonlinear_arith)
            requires
                a >= 2 || a <= -2,
                x > 0x7fff_ffff_ffff_ffff || x < -0x8000_0000_0000_0000,
        ;
        lemma_pow_stays_out(a, k + 1, m);
    }
}

/// `a` to the power `b`, or `None` when it does not fit in 64 bits.
fn pow_int(a: i64, b: i64) -> (r: Option<i64>)
    requires
        0 <= b <= u32::MAX,
    ensures
        match r {
            Some(x) => x == int_pow(a as int, b as nat),
            None => !in_i64(int_pow(a as int, b as nat)),
        },
{
    proof {
        lemma_pow_small(b as nat);
    }
    if a == 0 {
        return if b == 0 {
            Some(1)
        } else {
            Some(0)
        };
    }
    if a == 1 {
        return Some(1);
    }
    if a == -1 {
        return if b % 2 == 0 {
            Some(1)
        } else {
            Some(-1)
        };
    }
    let mut acc: i64 = 1;
    let mut k: i64 = 0;
    while k < b
        invariant
            0 <= k <= b,
            a >= 2 || a <= -2,
            acc == int_pow(a as int, k as nat),
        decreases b - k,
    {
        assert(-0x8000_0000_0000_0000 * 0x8000_0000_0000_0000 <= acc * a <= 0x8000_0000_0000_0000 * 0x8000_0000_0000_0000) by (nonlinear_arith)
            requires
                -0x8000_0000_0000_0000 <= acc <= 0x7fff_ffff_ffff_ffff,
                -0x8000_0000_0000_0000 <= a <= 0x7fff_ffff_ffff_ffff,
        ;
        let next: i128 = acc as i128 * a as i128;
        assert(int_pow(a as int, (k + 1) as nat) == acc * a);
        if next < i64::MIN as i128 || next > i64::MAX as i128 {
            proof {
                lemma_pow_stays_out(a as int, (k + 1) as nat, b as nat);
            }
            return None;
        }
        acc = next as i64;
        k = k + 1;
    }
    Some(acc)
}

pub proof fn lemma_repeat_empty(n: nat)
    ensures
        seq_repeat(Seq::<char>::empty(), n) == Seq::<char>::empty(),
    decreases n,
{
    if n > 0 {
        lemma_repeat_empty((n - 1) as nat);
        assert(seq_repeat(Seq::<char>::empty(), (n - 1) as nat) + Seq::<char>::empty() =~= Seq::<char>::empty());
    }
}

/// `n` copies of `s`.
pub fn repeat_str(s: &String, n: usize) -> (r: String)
    ensures
        r@ == seq_repeat(s@, n as nat),
{
    let mut out = String::new();
    if s.as_str().unicode_len() == 0 {
        proof {
            assert(s@ =~= Seq::<char>::empty());
            lemma_repeat_empty(n as nat);
        }
        return out;
    }
    let mut k: usize = 0;
    while k < n
        invariant
            k <= n,
            out@ == seq_repeat(s@, k as nat),
        decreases n - k,
    {
        append_str(&mut out, s);
        k = k + 1;
    }
    out
}

fn in_index_range(i: i64) -> (r: bool)
    ensures
        r == is_index(i),
{
    i >= 0 && (i as u128) <= (usize::MAX as u128)
}

/// `+`: integers, strings, arrays and maps.
fn add_values(l: Value, r: Value) -> (res: Result<Value, EvaluationError>)
    ensures
        eval_result_view(res) == binary_result(Operator::Add, l@, r@),
{
    proof {
        lemma_view_variant(l);
        lemma_view_variant(r);
    }
    match (&l, &r) {
        (Value::Int(a), Value::Int(b)) => {
            let x: i128 = *a as i128 + *b as i128;
            return checked_int_result(x, Operator::Add, l, r);
        },
        (Value::String(a), Value::String(b)) => {
            let mut s = a.clone();
            append_str(&mut s, b);
            return Ok(Value::String(s));
        },
        (Value::Array(a), Value::Array(b)) => {
            let mut out = clone_values(a);
            let tail = clone_values(b);
            let ghost va = values_view(out@);
            let mut i: usize = 0;
            while i < tail.len()
                invariant
                    i <= tail.len(),
                    va == values_view(a@),
                    values_view(tail@) == values_view(b@),
                    values_view(out@) == va + values_view(tail@).take(i as int),
                decreases tail.len() - i,
            {
                let v = tail[i].deep_clone();
                let ghost before = out@;
                out.push(v);
                i = i + 1;
                proof {
                    assert(values_view(out@) =~= values_view(before).push(v@));
                    assert(values_view(out@) =~= va + values_view(tail@).take(i as int));
                }
            }
            proof {
                assert(values_view(tail@).take(i as int) =~= values_view(tail@));
            }
            return Ok(Value::Array(out));
        },
        (Value::HashMap(a), Value::HashMap(b)) => {
            let mut out = clone_pairs(a);
            let ghost pa = pairs_view(a@);
            let ghost pb = pairs_view(b@);
            let mut i: usize = 0;
            while i < b.len()
                invariant
                    i <= b.len(),
                    pb == pairs_view(b@),
                    pairs_view(out@) == assoc_extend(pa, pb.take(i as int)),
                decreases b.len() - i,
            {
                let k = b[i].0.deep_clone();
                let v = b[i].1.deep_clone();
                insert_pair(&mut out, k, v);
                i = i + 1;
                proof {
                    assert(pb.take(i as int).drop_last() =~= pb.take(i as int - 1));
                }
            }
            proof {
                assert(pb.take(i as int) =~= pb);
            }
            return Ok(Value::HashMap(out));
        },
        _ => {},
    }
    Err(illegal_binary_error(Operator::Add, l, r))
}

/// `*`: integers, and a string repeated a number of times.
fn mul_values(l: Value, r: Value) -> (res: Result<Value, EvaluationError>)
    ensures
        eval_result_view(res) == binary_result(Operator::Mul, l@, r@),
{
    proof {
        lemma_view_variant(l);
        lemma_view_variant(r);
    }
    match (&l, &r) {
        (Value::Int(a), Value::Int(b)) => {
            let (a, b) = (*a, *b);
            assert(-0x8000_0000_0000_0000 * 0x8000_0000_0000_0000 <= a * b <= 0x8000_0000_0000_0000 * 0x8000_0000_0000_0000) by (nonlinear_arith)
                requires
                    -0x8000_0000_0000_0000 <= a <= 0x7fff_ffff_ffff_ffff,
                    -0x8000_0000_0000_0000 <= b <= 0x7fff_ffff_ffff_ffff,
            ;
            let x: i128 = a as i128 * b as i128;
            return checked_int_result(x, Operator::Mul, l, r);
        },
        (Value::Int(n), Value::String(s)) => {
            if !in_index_range(*n) {
                return Err(EvaluationError::UnexpecteNonPositiveInteger(*n));
            }
            return Ok(Value::String(repeat_str(s, *n as usize)));
        },
        (Value::String(s), Value::Int(n)) => {
            if !in_index_range(*n) {
                return Err(EvaluationError::UnexpecteNonPositiveInteger(*n));
            }
            return Ok(Value::String(repeat_str(s, *n as usize)));
        },
        _ => {},
    }
    Err(illegal_binary_error(Operator::Mul, l, r))
}

/// The `==` of the language.
pub fn language_equals(a: &Value, b: &Value) -> (r: bool)
    ensures
        r == language_eq(a@, b@),
    decreases a,
{
    proof {
        lemma_view_variant(*a);
        lemma_view_variant(*b);
    }
    match (a, b) {
        (Value::Array(x), Value::Array(y)) => arrays_equal(x, y),
        (Value::HashMap(x), Value::HashMap(y)) => maps_equal(x, y),
        _ => value_eq(a, b),
    }
}

/// The `==` of the language on two arrays.
fn arrays_equal(x: &Vec<Value>, y: &Vec<Value>) -> (r: bool)
    ensures
        r == language_eq(SValue::Array(values_view(x@)), SValue::Array(values_view(y@))),
    decreases x,
{
    let ghost xs = values_view(x@);
    let ghost ys = values_view(y@);
    if x.len() != y.len() {
        return false;
    }
    let mut i: usize = 0;
    while i < x.len()
        invariant
            i <= x.len(),
            x.len() == y.len(),
            xs == values_view(x@),
            ys == values_view(y@),
            forall|j: int| 0 <= j < i ==> language_eq(#[trigger] xs[j], ys[j]),
        decreases x.len() - i,
    {
        if !language_equals(&x[i], &y[i]) {
            assert(!language_eq(xs[i as int], ys[i as int]));
            return false;
        }
        i = i + 1;
    }
    true
}

/// The `==` of the language on two maps.
fn maps_equal(x: &Vec<(Value, Value)>, y: &Vec<(Value, Value)>) -> (r: bool)
    ensures
        r == language_eq(SValue::HashMap(pairs_view(x@)), SValue::HashMap(pairs_view(y@))),
    decreases x,
{
    let ghost xs = pairs_view(x@);
    let ghost ys = pairs_view(y@);
    if x.len() != y.len() {
        return false;
    }
    let mut i: usize = 0;
    while i < x.len()
        invariant
            i <= x.len(),
            x.len() == y.len(),
            xs == pairs_view(x@),
            ys == pairs_view(y@),
            forall|j: int| 0 <= j < i ==> match assoc_get(ys, #[trigger] xs[j].0) {
                Some(v) => language_eq(xs[j].1, v),
                None => false,
            },
        decreases x.len() - i,
    {
        proof {
            lemma_assoc_index(ys, xs[i as int].0);
        }
        match find_key(y, &x[i].0) {
            None => {
                assert(assoc_get(ys, xs[i as int].0) is None);
                return false;
            },
            Some(k) => {
                if !language_equals(&x[i].1, &y[k].1) {
                    assert(assoc_get(ys, xs[i as int].0) == Some(ys[k as int].1));
                    return false;
                }
            },
        }
        i = i + 1;
    }
    true
}

/// The character that is the byte at `i` of the string's UTF-8 bytes, where that byte is a
/// whole character.
fn char_at_byte(s: &str, i: u64) -> (r: Option<char>)
    requires
        i <= i64::MAX,
    ensures
        r == byte_char(s@, i as int),
{
    let n = s.unicode_len();
    let mut k: usize = 0;
    let mut off: u64 = 0;
    assert(s@.subrange(0, n as int) =~= s@);
    while k < n
        invariant
            n == s@.len(),
            k <= n,
            off <= i,
            i <= i64::MAX,
            byte_char(s@, i as int) == byte_char(s@.subrange(k as int, n as int), i - off),
        decreases n - k,
    {
        let c = s.get_char(k);
        let code: u32 = c as u32;
        let width: u64 = if code < 0x80 {
            1
        } else if code < 0x800 {
            2
        } else if code < 0x10000 {
            3
        } else {
            4
        };
        let ghost rest = s@.subrange(k as int, n as int);
        assert(rest[0] == c);
        assert(width == utf8_len(c));
        if i == off {
            return if code < 0x80 {
                Some(c)
            } else {
                None
            };
        }
        if i - off < width {
            return None;
        }
        assert(rest.drop_first() =~= s@.subrange(k + 1, n as int));
        off = off + width;
        k = k + 1;
    }
    assert(s@.subrange(k as int, n as int).len() == 0);
    None
}

/// Indexing: a character of a string, an element of an array, or the value of a key.
fn index_values(l: Value, r: Value) -> (res: Result<Value, EvaluationError>)
    ensures
        eval_result_view(res) == binary_result(Operator::Index, l@, r@),
{
    proof {
        lemma_view_variant(l);
        lemma_view_variant(r);
    }
    match (&l, &r) {
        (Value::String(s), Value::Int(i)) => {
            if !in_index_range(*i) {
                return Err(EvaluationError::UnexpecteNonPositiveInteger(*i));
            }
            let idx = *i as usize;
            return match char_at_byte(s.as_str(), *i as u64) {
                None => Err(EvaluationError::IndexOutOfBounds { value: l, index: idx }),
                Some(c) => {
                    let mut out = String::new();
                    push_char(&mut out, c);
                    proof {
                        assert(out@ =~= seq![c]);
                    }
                    Ok(Value::String(out))
                },
            };
        },
        (Value::Array(a), Value::Int(i)) => {
            if !in_index_range(*i) {
                return Err(EvaluationError::UnexpecteNonPositiveInteger(*i));
            }
            let idx = *i as usize;
            if idx >= a.len() {
                return Err(EvaluationError::IndexOutOfBounds { value: l, index: idx });
            }
            return Ok(a[idx].deep_clone());
        },
        (Value::HashMap(m), _) => {
            proof {
                lemma_assoc_index(pairs_view(m@), r@);
            }
            return match find_key(m, &r) {
                Some(k) => Ok(m[k].1.deep_clone()),
                None => Ok(Value::Null),
            };
        },
        _ => {},
    }
    Err(illegal_binary_error(Operator::Index, l, r))
}

/// The result of an operator that evaluates both of its operands.
pub fn binary_op(op: Operator, l: Value, r: Value) -> (res: Result<Value, EvaluationError>)
    ensures
        eval_result_view(res) == binary_result(op, l@, r@),
{
    proof {
        lemma_view_variant(l);
        lemma_view_variant(r);
    }
    match op {
        Operator::Add => add_values(l, r),
        Operator::Mul => mul_values(l, r),
        Operator::Index => index_values(l, r),
        Operator::Eq => Ok(Value::Bool(language_equals(&l, &r))),
        Operator::NotEq => Ok(Value::Bool(!language_equals(&l, &r))),
        _ => {
            match (&l, &r) {
                (Value::Int(a), Value::Int(b)) => {
                    let a = *a;
                    let b = *b;
                    match op {
                        Operator::Sub => {
                            let x: i128 = a as i128 - b as i128;
                            return checked_int_result(x, op, l, r);
                        },
                        Operator::Div => {
                            if b == 0 {
                                return Err(illegal_binary_error(op, l, r));
                            }
                            let q = div_int(a, b);
                            return checked_int_result(q, op, l, r);
                        },
                        Operator::Power => {
                            if b < 0 || b > u32::MAX as i64 {
                                return Err(EvaluationError::UnexpecteNonPositiveInteger(b));
                            }
                            return match pow_int(a, b) {
                                Some(x) => Ok(Value::Int(x)),
                                None => Err(illegal_binary_error(op, l, r)),
                            };
                        },
                        Operator::Less => return Ok(Value::Bool(a < b)),
                        Operator::LessEq => return Ok(Value::Bool(a <= b)),
                        Operator::Greater => return Ok(Value::Bool(a > b)),
                        Operator::GreaterEq => return Ok(Value::Bool(a >= b)),
                        _ => {},
                    }
                },
                _ => {},
            }
            Err(illegal_binary_error(op, l, r))
        },
    }
}

} // verus!
