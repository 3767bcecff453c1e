//! What the operators and built-ins of the language compute, stated over the integers,
//! truth values and texts they are given.
use vstd::prelude::*;

use crate::language::builtins::{clamp_value, extreme, extreme_value, len_value, sum_fold, sum_value};
use crate::language::environment::SRuntime;
use crate::language::expression::Operator;
use crate::language::semantics::{binary_result, short_circuit_left, short_circuit_right, unary_result};
use crate::language::format::{parse_value_format, render_value};
use crate::language::text::{is_whitespace, trim, trim_end, trim_start, occurs_at, split_pieces, str_split, repeat_char, zero_padded, twos_complement, all_digits, decimal, digit_char, digits_value, display, is_digit, nat_digits, parse_int};
use crate::language::value::SValue;

verus! {

/// The comparisons of two integers are those of the integers: `<=` holds exactly when the
/// first is not greater (so `a <= a`), `<=` is `<` or `==`, `>` and `>=` are `<` and `<=` with
/// the operands swapped, and exactly one of `<`, `==`, `>` holds.
pub proof fn law_integer_comparisons(a: i64, b: i64)
    ensures
        binary_result(Operator::Less, SValue::Int(a), SValue::Int(b)) == Ok::<SValue, crate::language::expression::SEvalError>(SValue::Bool(a < b)),
        binary_result(Operator::LessEq, SValue::Int(a), SValue::Int(b)) == Ok::<SValue, crate::language::expression::SEvalError>(SValue::Bool(a <= b)),
        binary_result(Operator::Greater, SValue::Int(a), SValue::Int(b)) == Ok::<SValue, crate::language::expression::SEvalError>(SValue::Bool(a > b)),
        binary_result(Operator::GreaterEq, SValue::Int(a), SValue::Int(b)) == Ok::<SValue, crate::language::expression::SEvalError>(SValue::Bool(a >= b)),
        binary_result(Operator::Eq, SValue::Int(a), SValue::Int(b)) == Ok::<SValue, crate::language::expression::SEvalError>(SValue::Bool(a == b)),
        binary_result(Operator::NotEq, SValue::Int(a), SValue::Int(b)) == Ok::<SValue, crate::language::expression::SEvalError>(SValue::Bool(a != b)),
        binary_result(Operator::LessEq, SValue::Int(a), SValue::Int(a)) == Ok::<SValue, crate::language::expression::SEvalError>(SValue::Bool(true)),
        binary_result(Operator::Less, SValue::Int(a), SValue::Int(a)) == Ok::<SValue, crate::language::expression::SEvalError>(SValue::Bool(false)),
        binary_result(Operator::LessEq, SValue::Int(a), SValue::Int(b))->Ok_0->Bool_0 == (binary_result(
            Operator::Less,
            SValue::Int(a),
            SValue::Int(b),
        )->Ok_0->Bool_0 || binary_result(Operator::Eq, SValue::Int(a), SValue::Int(b))->Ok_0->Bool_0),
        binary_result(Operator::Greater, SValue::Int(a), SValue::Int(b)) == binary_result(
            Operator::Less,
            SValue::Int(b),
            SValue::Int(a),
        ),
        binary_result(Operator::GreaterEq, SValue::Int(a), SValue::Int(b)) == binary_result(
            Operator::LessEq,
            SValue::Int(b),
            SValue::Int(a),
        ),
        binary_result(Operator::Less, SValue::Int(a), SValue::Int(b))->Ok_0->Bool_0 as int + binary_result(
            Operator::Eq,
            SValue::Int(a),
            SValue::Int(b),
        )->Ok_0->Bool_0 as int + binary_result(Operator::Greater, SValue::Int(a), SValue::Int(b))->Ok_0->Bool_0 as int
            == 1,
{
}

/// `+`, `-` and `*` on integers give the sum, difference and product whenever it fits in
/// 64 bits, and refuse the operation when it does not; `/` by a non-zero integer gives the
/// quotient rounded towards zero: `a == q * b + m` with `|m| < |b|` and `m` zero or of the
/// sign of `a`.
pub proof fn law_integer_arithmetic(a: i64, b: i64)
    ensures
        i64::MIN <= a + b <= i64::MAX <==> binary_result(Operator::Add, SValue::Int(a), SValue::Int(b)) is Ok,
        i64::MIN <= a + b <= i64::MAX ==> binary_result(Operator::Add, SValue::Int(a), SValue::Int(b)) == Ok::<
            SValue,
            crate::language::expression::SEvalError,
        >(SValue::Int((a + b) as i64)),
        i64::MIN <= a - b <= i64::MAX <==> binary_result(Operator::Sub, SValue::Int(a), SValue::Int(b)) is Ok,
        i64::MIN <= a - b <= i64::MAX ==> binary_result(Operator::Sub, SValue::Int(a), SValue::Int(b)) == Ok::<
            SValue,
            crate::language::expression::SEvalError,
        >(SValue::Int((a - b) as i64)),
        i64::MIN <= a * b <= i64::MAX <==> binary_result(Operator::Mul, SValue::Int(a), SValue::Int(b)) is Ok,
        i64::MIN <= a * b <= i64::MAX ==> binary_result(Operator::Mul, SValue::Int(a), SValue::Int(b)) == Ok::<
            SValue,
            crate::language::expression::SEvalError,
        >(SValue::Int((a * b) as i64)),
        b == 0 ==> binary_result(Operator::Div, SValue::Int(a), SValue::Int(b)) is Err,
        binary_result(Operator::Div, SValue::Int(a), SValue::Int(b)) matches Ok(SValue::Int(q)) ==> b != 0 && {
            let m = a - q * b;
            &&& (if m >= 0 { m } else { -m }) < (if b >= 0 { b as int } else { -b })
            &&& (m == 0 || (m > 0) == (a > 0))
        },
        b != 0 && !(a == i64::MIN && b == -1) ==> binary_result(Operator::Div, SValue::Int(a), SValue::Int(b)) is Ok,
{
    if b != 0 {
        let (x, y) = (a as int, b as int);
        if x >= 0 && y > 0 {
            assert(0 <= x - (x / y) * y < y) by (nonlinear_arith) requires x >= 0, y > 0;
            assert(0 <= x / y <= x) by (nonlinear_arith) requires x >= 0, y > 0;
        } else if x >= 0 && y < 0 {
            assert(0 <= x - (x / -y) * -y < -y) by (nonlinear_arith) requires x >= 0, y < 0;
            assert(0 <= x / -y <= x) by (nonlinear_arith) requires x >= 0, y < 0;
            assert(x - (-(x / -y)) * y == x - (x / -y) * -y) by (nonlinear_arith);
        } else if x < 0 && y > 0 {
            assert(0 <= -x - (-x / y) * y < y) by (nonlinear_arith) requires x < 0, y > 0;
            assert(0 <= -x / y <= -x) by (nonlinear_arith) requires x < 0, y > 0;
            assert(x - (-(-x / y)) * y == -(-x - (-x / y) * y)) by (nonlinear_arith);
        } else {
            assert(0 <= -x - (-x / -y) * -y < -y) by (nonlinear_arith) requires x < 0, y < 0;
            assert(0 <= -x / -y <= -x) by (nonlinear_arith) requires x < 0, y < 0;
            assert(x - (-x / -y) * y == -(-x - (-x / -y) * -y)) by (nonlinear_arith);
            if x == i64::MIN && y != -1 {
                assert(-x / -y <= -x / 2) by (nonlinear_arith) requires x < 0, y <= -2;
            }
        }
    }
}

/// `&&` and `||` on truth values are conjunction and disjunction: the left operand alone
/// decides when it is false for `&&` or true for `||`; otherwise the right operand's truth is
/// the result.
pub proof fn law_logic(s: SRuntime, x: bool, y: bool)
    ensures
        match short_circuit_left(s, Operator::And, SValue::Bool(x)) {
            Some(v) => v,
            None => short_circuit_right(s, Operator::And, SValue::Bool(y)),
        } == SValue::Bool(x && y),
        match short_circuit_left(s, Operator::Or, SValue::Bool(x)) {
            Some(v) => v,
            None => short_circuit_right(s, Operator::Or, SValue::Bool(y)),
        } == SValue::Bool(x || y),
        short_circuit_left(s, Operator::And, SValue::Bool(x)) is Some <==> !x,
        short_circuit_left(s, Operator::Or, SValue::Bool(x)) is Some <==> x,
        unary_result(Operator::Not, SValue::Bool(x)) == Ok::<SValue, crate::language::expression::SEvalError>(SValue::Bool(!x)),
{
}

/// `clamp` of an integer between a lower and a higher bound lies between them, is the integer
/// itself when it already does, and is the nearer bound otherwise.
pub proof fn law_clamp(v: i64, lo: i64, hi: i64)
    requires
        lo <= hi,
    ensures
        clamp_value(SValue::Int(v), SValue::Int(lo), SValue::Int(hi)) matches SValue::Int(r) && lo <= r <= hi && (lo <= v
            <= hi ==> r == v) && (v < lo ==> r == lo) && (v > hi ==> r == hi),
{
}

/// `^` gives powers: anything to the power 0 is 1, to the power 1 is itself, and raising to
/// one more multiplies by the base, while the results fit; a negative exponent is refused.
pub proof fn law_integer_power(a: i64, b: i64)
    ensures
        binary_result(Operator::Power, SValue::Int(a), SValue::Int(0)) == Ok::<SValue, crate::language::expression::SEvalError>(SValue::Int(1)),
        binary_result(Operator::Power, SValue::Int(a), SValue::Int(1)) == Ok::<SValue, crate::language::expression::SEvalError>(SValue::Int(a)),
        b < 0 ==> binary_result(Operator::Power, SValue::Int(a), SValue::Int(b)) == Err::<SValue, crate::language::expression::SEvalError>(
            crate::language::expression::SEvalError::UnexpecteNonPositiveInteger(b),
        ),
        0 <= b < u32::MAX ==> match binary_result(Operator::Power, SValue::Int(a), SValue::Int(b)) {
            Ok(SValue::Int(p)) => i64::MIN <= p * a <= i64::MAX ==> binary_result(
                Operator::Power,
                SValue::Int(a),
                SValue::Int((b + 1) as i64),
            ) == Ok::<SValue, crate::language::expression::SEvalError>(SValue::Int((p * a) as i64)),
            _ => true,
        },
{
    assert(crate::language::semantics::int_pow(a as int, 1) == a) by {
        assert(crate::language::semantics::int_pow(a as int, 0) == 1);
    }
}

/// Unary `-` negates an integer whose negation fits, and `!` negates truth.
pub proof fn law_unary(n: i64, v: SValue)
    ensures
        n != i64::MIN ==> unary_result(Operator::Sub, SValue::Int(n)) == Ok::<SValue, crate::language::expression::SEvalError>(SValue::Int((-n) as i64)),
        n == i64::MIN ==> unary_result(Operator::Sub, SValue::Int(n)) is Err,
        unary_result(Operator::Not, SValue::Bool(true)) == Ok::<SValue, crate::language::expression::SEvalError>(SValue::Bool(false)),
        unary_result(Operator::Not, SValue::Bool(false)) == Ok::<SValue, crate::language::expression::SEvalError>(SValue::Bool(true)),
        unary_result(Operator::Not, SValue::Int(n)) == Ok::<SValue, crate::language::expression::SEvalError>(SValue::Bool(n == 0)),
{
}

/// `+` on two strings or two arrays joins them: the left one first, then the right one.
pub proof fn law_concatenation(x: Seq<char>, y: Seq<char>, a: Seq<SValue>, b: Seq<SValue>)
    ensures
        binary_result(Operator::Add, SValue::String(x), SValue::String(y)) matches Ok(SValue::String(z)) && z.len()
            == x.len() + y.len() && z.take(x.len() as int) == x && z.skip(x.len() as int) == y,
        binary_result(Operator::Add, SValue::Array(a), SValue::Array(b)) matches Ok(SValue::Array(c)) && c.len()
            == a.len() + b.len() && c.take(a.len() as int) == a && c.skip(a.len() as int) == b,
{
    assert((x + y).take(x.len() as int) =~= x);
    assert((x + y).skip(x.len() as int) =~= y);
    assert((a + b).take(a.len() as int) =~= a);
    assert((a + b).skip(a.len() as int) =~= b);
}

/// Indexing an array by a position inside it gives the element there; past its end it is
/// refused as out of bounds, and a negative position as not a position.
pub proof fn law_array_index(a: Seq<SValue>, i: i64)
    ensures
        0 <= i < a.len() && i <= usize::MAX ==> binary_result(Operator::Index, SValue::Array(a), SValue::Int(i)) == Ok::<SValue, crate::language::expression::SEvalError>(a[i as int]),
        i < 0 ==> binary_result(Operator::Index, SValue::Array(a), SValue::Int(i)) == Err::<SValue, crate::language::expression::SEvalError>(
            crate::language::expression::SEvalError::UnexpecteNonPositiveInteger(i),
        ),
        a.len() <= i <= usize::MAX ==> binary_result(Operator::Index, SValue::Array(a), SValue::Int(i)) matches Err(
            crate::language::expression::SEvalError::IndexOutOfBounds { .. },
        ),
{
}

/// `string * n` (and `n * string`) is the string `n` times over: `n` times as long, with the
/// string's characters in turn; a negative count is refused.
pub proof fn law_string_repetition(x: Seq<char>, n: i64)
    ensures
        n < 0 ==> binary_result(Operator::Mul, SValue::String(x), SValue::Int(n)) == Err::<SValue, crate::language::expression::SEvalError>(
            crate::language::expression::SEvalError::UnexpecteNonPositiveInteger(n),
        ),
        0 <= n <= usize::MAX ==> (binary_result(Operator::Mul, SValue::String(x), SValue::Int(n)) matches Ok(
            SValue::String(z),
        ) && z.len() == n * x.len() && forall|k: int| 0 <= k < z.len() ==> #[trigger] z[k] == x[k % x.len() as int]),
        binary_result(Operator::Mul, SValue::Int(n), SValue::String(x)) == binary_result(
            Operator::Mul,
            SValue::String(x),
            SValue::Int(n),
        ),
{
    if 0 <= n {
        lemma_repeat(x, n as nat);
    }
}

proof fn lemma_repeat(x: Seq<char>, n: nat)
    ensures
        crate::language::semantics::seq_repeat(x, n).len() == n * x.len(),
        forall|k: int|
            0 <= k < crate::language::semantics::seq_repeat(x, n).len() ==> #[trigger] crate::language::semantics::seq_repeat(
                x,
                n,
            )[k] == x[k % x.len() as int],
    decreases n,
{
    if n == 0 {
        assert(0 * x.len() == 0);
    } else {
        lemma_repeat(x, (n - 1) as nat);
        let r0 = crate::language::semantics::seq_repeat(x, (n - 1) as nat);
        let r = crate::language::semantics::seq_repeat(x, n);
        assert(r == r0 + x);
        assert(r.len() == n * x.len()) by (nonlinear_arith)
            requires r.len() == r0.len() + x.len(), r0.len() == (n - 1) * x.len(), n > 0;
        assert forall|k: int| 0 <= k < r.len() implies #[trigger] r[k] == x[k % x.len() as int] by {
            if k >= r0.len() {
                let j = k - r0.len();
                assert(r[k] == x[j]);
                assert(k % x.len() as int == j) by (nonlinear_arith)
                    requires k == (n - 1) * x.len() + j, 0 <= j < x.len();
            }
        }
    }
}

/// The integers of a sequence added up.
pub open spec fn int_total(a: Seq<i64>) -> int
    decreases a.len(),
{
    if a.len() == 0 {
        0
    } else {
        int_total(a.drop_last()) + a.last()
    }
}

/// Every running total of a sequence of integers fits in 64 bits.
pub open spec fn totals_fit(a: Seq<i64>) -> bool {
    forall|k: int| 1 <= k <= a.len() ==> i64::MIN <= #[trigger] int_total(a.take(k)) <= i64::MAX
}

/// `sum` of integers, without a separator, is their total, while every running total fits.
pub proof fn law_sum_of_integers(a: Seq<i64>)
    requires
        a.len() > 0,
        totals_fit(a),
    ensures
        sum_value(SValue::Array(a.map_values(|x: i64| SValue::Int(x))), SValue::Null) == SValue::Int(int_total(a) as i64),
    decreases a.len(),
{
    let vs = a.map_values(|x: i64| SValue::Int(x));
    lemma_sum_fold(a);
}

proof fn lemma_sum_fold(a: Seq<i64>)
    requires
        a.len() > 0,
        totals_fit(a),
    ensures
        sum_fold(a.map_values(|x: i64| SValue::Int(x)), SValue::Null) == SValue::Int(int_total(a) as i64),
    decreases a.len(),
{
    let vs = a.map_values(|x: i64| SValue::Int(x));
    assert(a.take(a.len() as int) =~= a);
    if a.len() == 1 {
        assert(a.drop_last() =~= Seq::<i64>::empty());
        assert(int_total(a.drop_last()) == 0);
        assert(int_total(a) == a[0]);
        assert(vs[0] == SValue::Int(a[0]));
    } else {
        let d = a.drop_last();
        assert forall|k: int| 1 <= k <= d.len() implies i64::MIN <= #[trigger] int_total(d.take(k)) <= i64::MAX by {
            assert(d.take(k) =~= a.take(k));
        }
        lemma_sum_fold(d);
        assert(vs.drop_last() =~= d.map_values(|x: i64| SValue::Int(x)));
        assert(vs.last() == SValue::Int(a.last()));
        assert(i64::MIN <= int_total(a.take(a.len() as int)) <= i64::MAX);
    }
}

/// `min` and `max` of integers give one of them, and none of them is smaller (larger).
pub proof fn law_min_max_of_integers(a: Seq<i64>)
    requires
        a.len() > 0,
    ensures
        extreme_value(SValue::Array(a.map_values(|x: i64| SValue::Int(x))), false) matches SValue::Int(m) && a.contains(m)
            && forall|i: int| 0 <= i < a.len() ==> m <= #[trigger] a[i],
        extreme_value(SValue::Array(a.map_values(|x: i64| SValue::Int(x))), true) matches SValue::Int(m) && a.contains(m)
            && forall|i: int| 0 <= i < a.len() ==> m >= #[trigger] a[i],
{
    lemma_extreme(a, false);
    lemma_extreme(a, true);
}

proof fn lemma_extreme(a: Seq<i64>, largest: bool)
    requires
        a.len() > 0,
    ensures
        extreme(a.map_values(|x: i64| SValue::Int(x)), largest) matches SValue::Int(m) && a.contains(m) && forall|i: int|
            0 <= i < a.len() ==> if largest { m >= #[trigger] a[i] } else { m <= a[i] },
    decreases a.len(),
{
    let vs = a.map_values(|x: i64| SValue::Int(x));
    if a.len() == 1 {
        assert(vs[0] == SValue::Int(a[0]));
        assert(a.contains(a[0]));
    } else {
        let d = a.drop_last();
        lemma_extreme(d, largest);
        assert(vs.drop_last() =~= d.map_values(|x: i64| SValue::Int(x)));
        let m0 = extreme(vs.drop_last(), largest)->Int_0;
        assert(extreme(vs.drop_last(), largest) == SValue::Int(m0));
        assert(d.contains(m0));
        let j = choose|j: int| 0 <= j < d.len() && d[j] == m0;
        assert(a[j] == m0);
        let last = a[a.len() - 1];
        assert(vs.last() == SValue::Int(last));
        assert(a.contains(last));
        assert forall|i: int| 0 <= i < a.len() - 1 implies a[i] == #[trigger] d[i] by {}
        let m = extreme(vs, largest)->Int_0;
        if largest {
            if m0 < last {
                assert(extreme(vs, largest) == SValue::Int(last));
            } else {
                assert(extreme(vs, largest) == SValue::Int(m0));
            }
        } else {
            if last < m0 {
                assert(extreme(vs, largest) == SValue::Int(last));
            } else {
                assert(extreme(vs, largest) == SValue::Int(m0));
            }
        }
        assert forall|i: int| 0 <= i < a.len() implies if largest { m >= #[trigger] a[i] } else { m <= a[i] } by {
            if i < a.len() - 1 {
                assert(a[i] == d[i]);
            }
        }
    }
}

/// `len` of an array or map is how many elements or pairs it holds.
pub proof fn law_len(a: Seq<SValue>, m: Seq<(SValue, SValue)>)
    requires
        a.len() <= i64::MAX,
        m.len() <= i64::MAX,
    ensures
        len_value(SValue::Array(a)) == SValue::Int(a.len() as i64),
        len_value(SValue::HashMap(m)) == SValue::Int(m.len() as i64),
{
}

/// The value of a digit character: `0`-`9`, then `a`-`z` or `A`-`Z` for ten and up.
pub open spec fn digit_value(c: char) -> int {
    if '0' <= c <= '9' {
        c as u32 - 48
    } else if 'a' <= c <= 'z' {
        c as u32 - 97 + 10
    } else if 'A' <= c <= 'Z' {
        c as u32 - 65 + 10
    } else {
        -1
    }
}

/// The number that digits in `base` denote, most significant first.
pub open spec fn read_digits(ds: Seq<char>, base: int) -> int
    decreases ds.len(),
{
    if ds.len() == 0 {
        0
    } else {
        read_digits(ds.drop_last(), base) * base + digit_value(ds.last())
    }
}

/// The digits a number is written with (in decimal by `print` and `string`, in binary and
/// hexadecimal by `format`'s `0b`, `0x` and `0X`) denote that number: each is a digit of the
/// base, the first is not zero unless the number is, and read back they give the number.
pub proof fn law_digits_read_back(n: nat, base: nat, upper: bool)
    requires
        2 <= base <= 36,
    ensures
        read_digits(nat_digits(n, base, upper), base as int) == n,
        nat_digits(n, base, upper).len() > 0,
        forall|i: int|
            0 <= i < nat_digits(n, base, upper).len() ==> 0 <= #[trigger] digit_value(nat_digits(n, base, upper)[i])
                < base,
        n > 0 ==> digit_value(nat_digits(n, base, upper)[0]) != 0,
    decreases n,
{
    let ds = nat_digits(n, base, upper);
    if n < base {
        assert(ds == seq![digit_char(n, upper)]);
        assert(ds.drop_last() =~= Seq::<char>::empty());
        assert(digit_value(digit_char(n, upper)) == n);
        assert(read_digits(ds.drop_last(), base as int) == 0);
        assert(0 * (base as int) == 0);
        assert(read_digits(ds, base as int) == read_digits(ds.drop_last(), base as int) * base + digit_value(ds.last()));
    } else {
        assert(n / base < n) by (nonlinear_arith)
            requires
                base >= 2,
                n >= base,
        ;
        assert(n / base > 0) by (nonlinear_arith)
            requires
                base >= 2,
                n >= base,
        ;
        law_digits_read_back(n / base, base, upper);
        let hi = nat_digits(n / base, base, upper);
        assert(ds == hi.push(digit_char(n % base, upper)));
        assert(ds.drop_last() =~= hi);
        assert(n % base < base) by (nonlinear_arith)
            requires
                base >= 2,
        ;
        assert(digit_value(digit_char(n % base, upper)) == n % base);
        assert((n / base) * base + n % base == n) by (nonlinear_arith)
            requires
                base >= 2,
        ;
        assert forall|i: int| 0 <= i < ds.len() implies 0 <= #[trigger] digit_value(ds[i]) < base by {
            if i < hi.len() {
                assert(ds[i] == hi[i]);
            }
        }
        assert(ds[0] == hi[0]);
        assert(ds.last() == digit_char(n % base, upper));
        assert(read_digits(ds, base as int) == read_digits(hi, base as int) * base + digit_value(ds.last()));
    }
}

proof fn lemma_decimal_digits(ds: Seq<char>)
    requires
        forall|i: int| 0 <= i < ds.len() ==> 0 <= #[trigger] digit_value(ds[i]) < 10,
    ensures
        all_digits(ds),
        digits_value(ds) == read_digits(ds, 10),
    decreases ds.len(),
{
    assert forall|i: int| 0 <= i < ds.len() implies #[trigger] is_digit(ds[i]) by {
        assert(0 <= digit_value(ds[i]) < 10);
    }
    if ds.len() > 0 {
        let d = ds.drop_last();
        assert forall|i: int| 0 <= i < d.len() implies 0 <= #[trigger] digit_value(d[i]) < 10 by {
            assert(d[i] == ds[i]);
        }
        lemma_decimal_digits(d);
        assert(0 <= digit_value(ds[ds.len() - 1]) < 10);
    }
}

/// Writing an integer in decimal and reading it back gives the integer: `int(string(n))` is
/// `n` for every 64-bit integer.
pub proof fn law_decimal_round_trip(n: i64)
    ensures
        parse_int(decimal(n as int)) == Some(n),
        display(SValue::Int(n)) == decimal(n as int),
{
    let m: nat = if n < 0 { (-n) as nat } else { n as nat };
    law_digits_read_back(m, 10, false);
    let ds = nat_digits(m, 10, false);
    lemma_decimal_digits(ds);
    assert(digit_value(ds[0]) >= 0);
    let s = decimal(n as int);
    if n < 0 {
        assert(s == seq!['-'] + ds);
        assert(s[0] == '-');
        assert(s.drop_first() =~= ds);
    } else {
        assert(s == ds);
        assert(ds[0] != '-' && ds[0] != '+');
    }
}

/// `format`'s `0b`, `0x` and `0X` write an integer in binary, lower-case and upper-case
/// hexadecimal: the digits read back in that base give the integer, a negative one taken as
/// its 64 bits in two's complement; with no spec it is written as `display` writes it.
pub proof fn law_format_bases(i: i64, v: SValue)
    ensures
        read_digits(render_value(SValue::Int(i), parse_value_format(seq!['0', 'b'])), 2) == if i < 0 {
            i + 0x1_0000_0000_0000_0000int
        } else {
            i as int
        },
        read_digits(render_value(SValue::Int(i), parse_value_format(seq!['0', 'x'])), 16) == if i < 0 {
            i + 0x1_0000_0000_0000_0000int
        } else {
            i as int
        },
        read_digits(render_value(SValue::Int(i), parse_value_format(seq!['0', 'X'])), 16) == if i < 0 {
            i + 0x1_0000_0000_0000_0000int
        } else {
            i as int
        },
        render_value(v, parse_value_format(Seq::empty())) == display(v),
{
    assert(seq!['0', 'b'].drop_first() =~= seq!['b']);
    assert(seq!['0', 'x'].drop_first() =~= seq!['x']);
    assert(seq!['0', 'X'].drop_first() =~= seq!['X']);
    assert(seq!['b'] != seq!['x']) by {
        assert(seq!['b'][0] != seq!['x'][0]);
    }
    assert(seq!['X'] != seq!['x']) by {
        assert(seq!['X'][0] != seq!['x'][0]);
    }
    assert(seq!['X'] != seq!['b']) by {
        assert(seq!['X'][0] != seq!['b'][0]);
    }
    law_digits_read_back(twos_complement(i), 2, false);
    law_digits_read_back(twos_complement(i), 16, false);
    law_digits_read_back(twos_complement(i), 16, true);
}

proof fn lemma_zeros(n: nat)
    ensures
        repeat_char('0', n).len() == n,
        forall|k: int| 0 <= k < n ==> #[trigger] repeat_char('0', n)[k] == '0',
        read_digits(repeat_char('0', n), 10) == 0,
    decreases n,
{
    if n > 0 {
        lemma_zeros((n - 1) as nat);
        let z = repeat_char('0', n);
        assert(z.drop_last() =~= repeat_char('0', (n - 1) as nat));
        assert forall|k: int| 0 <= k < n implies #[trigger] z[k] == '0' by {
            if k < n - 1 {
                assert(z[k] == repeat_char('0', (n - 1) as nat)[k]);
            }
        }
    }
}

proof fn lemma_leading_zeros(z: Seq<char>, ds: Seq<char>)
    requires
        read_digits(z, 10) == 0,
    ensures
        read_digits(z + ds, 10) == read_digits(ds, 10),
    decreases ds.len(),
{
    if ds.len() == 0 {
        assert(z + ds =~= z);
    } else {
        lemma_leading_zeros(z, ds.drop_last());
        assert((z + ds).drop_last() =~= z + ds.drop_last());
        assert((z + ds).last() == ds.last());
    }
}

/// `format`'s `0N` writes an integer in decimal, padded with zeros after its sign to at least
/// `N` characters: as long as that or as the plain form, whichever is longer, and its digits
/// read back give the integer's magnitude.
pub proof fn law_zero_padding(n: i64, width: nat)
    ensures
        ({
            let z = zero_padded(n, width);
            let sign: int = if n < 0 { 1 } else { 0 };
            let digits = z.skip(sign);
            let plain = decimal(n as int);
            &&& z.len() == if width > plain.len() { width as int } else { plain.len() as int }
            &&& (n < 0 <==> z[0] == '-')
            &&& forall|k: int| 0 <= k < digits.len() ==> 0 <= #[trigger] digit_value(digits[k]) < 10
            &&& read_digits(digits, 10) == if n < 0 { -(n as int) } else { n as int }
        }),
{
    let m: nat = if n < 0 { (-n) as nat } else { n as nat };
    law_digits_read_back(m, 10, false);
    let ds = nat_digits(m, 10, false);
    let sign: Seq<char> = if n < 0 { seq!['-'] } else { Seq::empty() };
    let used = sign.len() + ds.len();
    let pad: nat = if width > used { (width - used) as nat } else { 0 };
    lemma_zeros(pad);
    let zs = repeat_char('0', pad);
    let z = zero_padded(n, width);
    assert(z == sign + zs + ds);
    let k0: int = if n < 0 { 1 } else { 0 };
    assert(z.skip(k0) =~= zs + ds);
    lemma_leading_zeros(zs, ds);
    assert forall|k: int| 0 <= k < (zs + ds).len() implies 0 <= #[trigger] digit_value((zs + ds)[k]) < 10 by {
        if k < zs.len() {
            assert((zs + ds)[k] == '0');
        } else {
            assert((zs + ds)[k] == ds[k - zs.len()]);
        }
    }
    if n < 0 {
        assert(z[0] == '-');
        assert(decimal(n as int) == seq!['-'] + ds);
    } else {
        assert(decimal(n as int) == ds);
        if zs.len() > 0 {
            assert(z[0] == zs[0]);
        } else {
            assert(z[0] == ds[0]);
            assert(digit_value(ds[0]) >= 0);
        }
    }
}

/// Texts joined with a separator between each two.
pub open spec fn joined(xs: Seq<Seq<char>>, sep: Seq<char>) -> Seq<char>
    decreases xs.len(),
{
    if xs.len() == 0 {
        Seq::empty()
    } else if xs.len() == 1 {
        xs[0]
    } else {
        joined(xs.drop_last(), sep) + sep + xs.last()
    }
}

/// `sum` of strings with a string separator joins them with the separator between each two;
/// without a separator it joins them as they are.
pub proof fn law_sum_of_strings(xs: Seq<Seq<char>>, sep: Seq<char>)
    requires
        xs.len() > 0,
    ensures
        sum_value(SValue::Array(xs.map_values(|x: Seq<char>| SValue::String(x))), SValue::String(sep)) == SValue::String(
            joined(xs, sep),
        ),
        sum_value(SValue::Array(xs.map_values(|x: Seq<char>| SValue::String(x))), SValue::Null) == SValue::String(
            joined(xs, Seq::empty()),
        ),
    decreases xs.len(),
{
    lemma_sum_strings(xs, SValue::String(sep), sep);
    lemma_sum_strings(xs, SValue::Null, Seq::empty());
}

proof fn lemma_sum_strings(xs: Seq<Seq<char>>, sv: SValue, sep: Seq<char>)
    requires
        xs.len() > 0,
        sv == SValue::String(sep) || (sv is Null && sep.len() == 0),
    ensures
        sum_fold(xs.map_values(|x: Seq<char>| SValue::String(x)), sv) == SValue::String(joined(xs, sep)),
    decreases xs.len(),
{
    let vs = xs.map_values(|x: Seq<char>| SValue::String(x));
    if xs.len() == 1 {
        assert(vs[0] == SValue::String(xs[0]));
    } else {
        let d = xs.drop_last();
        lemma_sum_strings(d, sv, sep);
        assert(vs.drop_last() =~= d.map_values(|x: Seq<char>| SValue::String(x)));
        assert(vs.last() == SValue::String(xs.last()));
        let acc = joined(d, sep);
        if sv is Null {
            assert(acc + sep =~= acc);
        }
    }
}

proof fn lemma_joined_front(x: Seq<char>, ys: Seq<Seq<char>>, d: Seq<char>)
    requires
        ys.len() > 0,
    ensures
        joined(seq![x] + ys, d) == x + d + joined(ys, d),
    decreases ys.len(),
{
    let w = seq![x] + ys;
    if ys.len() == 1 {
        assert(w.drop_last() =~= seq![x]);
        assert(w.last() == ys[0]);
        assert(joined(seq![x], d) == x);
        assert(joined(ys, d) == ys[0]);
        assert(joined(w, d) == joined(w.drop_last(), d) + d + w.last());
    } else {
        lemma_joined_front(x, ys.drop_last(), d);
        assert(w.drop_last() =~= seq![x] + ys.drop_last());
        assert(w.last() == ys.last());
        assert(joined(w, d) == joined(w.drop_last(), d) + d + w.last());
        assert(joined(ys, d) == joined(ys.drop_last(), d) + d + ys.last());
        assert(x + d + joined(ys.drop_last(), d) + d + ys.last() =~= x + d + (joined(ys.drop_last(), d) + d + ys.last()));
    }
}

proof fn lemma_split_rejoins(s: Seq<char>, d: Seq<char>, cur: Seq<char>)
    requires
        d.len() > 0,
    ensures
        split_pieces(s, d, cur).len() > 0,
        joined(split_pieces(s, d, cur), d) == cur + s,
    decreases s.len(),
{
    if s.len() < d.len() {
    } else if occurs_at(s, d, 0) {
        let rest = s.subrange(d.len() as int, s.len() as int);
        lemma_split_rejoins(rest, d, Seq::empty());
        lemma_joined_front(cur, split_pieces(rest, d, Seq::empty()), d);
        assert(s.subrange(0, d.len() as int) == d);
        assert(s =~= d + rest);
        assert(cur + d + (Seq::<char>::empty() + rest) =~= cur + s);
    } else {
        lemma_split_rejoins(s.drop_first(), d, cur.push(s[0]));
        assert(cur.push(s[0]) + s.drop_first() =~= cur + s);
    }
}

/// Splitting a text at a non-empty separator and joining the pieces with it gives the text
/// back.
pub proof fn law_split_then_join(s: Seq<char>, d: Seq<char>)
    requires
        d.len() > 0,
    ensures
        joined(str_split(s, d), d) == s,
{
    lemma_split_rejoins(s, d, Seq::empty());
    assert(Seq::<char>::empty() + s =~= s);
}

proof fn lemma_trim_start(s: Seq<char>)
    ensures
        exists|i: int|
            0 <= i <= s.len() && #[trigger] s.skip(i) == trim_start(s) && forall|k: int| 0 <= k < i ==> is_whitespace(s[k]),
        trim_start(s).len() == 0 || !is_whitespace(trim_start(s)[0]),
    decreases s.len(),
{
    if s.len() > 0 && is_whitespace(s[0]) {
        lemma_trim_start(s.drop_first());
        let i = choose|i: int|
            0 <= i <= s.drop_first().len() && #[trigger] s.drop_first().skip(i) == trim_start(s.drop_first()) && forall|k: int|
                0 <= k < i ==> is_whitespace(s.drop_first()[k]);
        assert(s.skip(i + 1) =~= s.drop_first().skip(i));
        assert forall|k: int| 0 <= k < i + 1 implies is_whitespace(s[k]) by {
            if k > 0 {
                assert(s[k] == s.drop_first()[k - 1]);
            }
        }
    } else {
        assert(s.skip(0) =~= s);
    }
}

proof fn lemma_trim_end(s: Seq<char>)
    ensures
        exists|j: int|
            0 <= j <= s.len() && #[trigger] s.take(j) == trim_end(s) && forall|k: int| j <= k < s.len() ==> is_whitespace(s[k]),
        trim_end(s).len() == 0 || !is_whitespace(trim_end(s).last()),
    decreases s.len(),
{
    if s.len() > 0 && is_whitespace(s.last()) {
        lemma_trim_end(s.drop_last());
        let j = choose|j: int|
            0 <= j <= s.drop_last().len() && #[trigger] s.drop_last().take(j) == trim_end(s.drop_last()) && forall|k: int|
                j <= k < s.drop_last().len() ==> is_whitespace(s.drop_last()[k]);
        assert(s.take(j) =~= s.drop_last().take(j));
        assert forall|k: int| j <= k < s.len() implies is_whitespace(s[k]) by {
            if k < s.len() - 1 {
                assert(s[k] == s.drop_last()[k]);
            }
        }
    } else {
        assert(s.take(s.len() as int) =~= s);
    }
}

/// `trim` removes white space from both ends and nothing else: what is left is a stretch of
/// the text between white space only, and it neither starts nor ends with white space.
pub proof fn law_trim(s: Seq<char>)
    ensures
        exists|i: int, j: int|
            0 <= i <= j <= s.len() && #[trigger] s.subrange(i, j) == trim(s) && (forall|k: int|
                0 <= k < i ==> is_whitespace(s[k])) && (forall|k: int| j <= k < s.len() ==> is_whitespace(s[k])),
        trim(s).len() == 0 || (!is_whitespace(trim(s)[0]) && !is_whitespace(trim(s).last())),
{
    lemma_trim_start(s);
    let a = trim_start(s);
    let i = choose|i: int| 0 <= i <= s.len() && #[trigger] s.skip(i) == trim_start(s) && forall|k: int| 0 <= k < i ==> is_whitespace(s[k]);
    lemma_trim_end(a);
    let j = choose|j: int| 0 <= j <= a.len() && #[trigger] a.take(j) == trim_end(a) && forall|k: int| j <= k < a.len() ==> is_whitespace(a[k]);
    assert(s.subrange(i, i + j) =~= a.take(j));
    assert forall|k: int| i + j <= k < s.len() implies is_whitespace(s[k]) by {
        assert(s[k] == a[k - i]);
    }
    assert(s.subrange(i, i + j) == trim(s));
    let t = trim(s);
    if t.len() > 0 {
        assert(t[0] == a[0]);
    }
}

} // verus!
