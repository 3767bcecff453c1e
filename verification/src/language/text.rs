//! Text: how values are written out, and the string operations of the standard library.
use vstd::prelude::*;

use vstd::std_specs::iter::IteratorSpec;

use crate::language::value::{pairs_view, values_view, SValue, Value};

verus! {

/* Digits */

pub open spec fn digit_char(d: nat, upper: bool) -> char {
    if d < 10 {
        ((d + 48) as u32) as char
    } else if upper {
        ((d - 10 + 65) as u32) as char
    } else {
        ((d - 10 + 97) as u32) as char
    }
}

/// The digits of `n` in `base`, most significant first, without leading zeros ("0" for zero).
pub open spec fn nat_digits(n: nat, base: nat, upper: bool) -> Seq<char>
    recommends
        base >= 2,
    decreases n,
{
    if base < 2 {
        Seq::empty()
    } else if n < base {
        seq![digit_char(n, upper)]
    } else {
        proof {
            assert(n / base < n) by (nonlinear_arith)
                requires
                    base >= 2,
                    n >= base,
            ;
        }
        nat_digits(n / base, base, upper).push(digit_char(n % base, upper))
    }
}

/// The decimal form of an integer, with a leading minus sign when it is negative.
pub open spec fn decimal(n: int) -> Seq<char> {
    if n < 0 {
        seq!['-'] + nat_digits((-n) as nat, 10, false)
    } else {
        nat_digits(n as nat, 10, false)
    }
}

/// The bits of a 64-bit integer in two's complement, read as an unsigned number.
pub open spec fn twos_complement(n: i64) -> nat {
    if n < 0 {
        (n + 0x1_0000_0000_0000_0000int) as nat
    } else {
        n as nat
    }
}

/// Repeats a character.
pub open spec fn repeat_char(c: char, n: nat) -> Seq<char>
    decreases n,
{
    if n == 0 {
        Seq::empty()
    } else {
        repeat_char(c, (n - 1) as nat).push(c)
    }
}

/// The decimal form of `n` padded with zeros after its sign to at least `width` characters.
pub open spec fn zero_padded(n: i64, width: nat) -> Seq<char> {
    let sign: Seq<char> = if n < 0 {
        seq!['-']
    } else {
        Seq::empty()
    };
    let digits = nat_digits(if n < 0 {
        (-n) as nat
    } else {
        n as nat
    }, 10, false);
    let used = sign.len() + digits.len();
    let pad: nat = if width > used {
        (width - used) as nat
    } else {
        0
    };
    sign + repeat_char('0', pad) + digits
}

/* Writing values */

/// How a value is written out (by `print`, `string` and `format`, which write a value out
/// once its references are resolved).
pub open spec fn display(v: SValue) -> Seq<char>
    decreases v,
{
    match v {
        SValue::Null => "null"@,
        SValue::Bool(b) => if b {
            "true"@
        } else {
            "false"@
        },
        SValue::Int(i) => decimal(i as int),
        SValue::String(s) => s,
        SValue::Array(a) => "["@ + item_texts(a).flatten_alt() + "]"@,
        SValue::HashMap(m) => "{"@ + pair_texts(m).flatten_alt() + "}"@,
        SValue::Function(_) => "function"@,
        SValue::Channel(_) => "channel"@,
        SValue::Reference(_) => "reference"@,
    }
}

/// The text of each element of an array, followed by a comma.
pub open spec fn item_texts(a: Seq<SValue>) -> Seq<Seq<char>>
    decreases a,
{
    Seq::new(
        a.len(),
        |i: int|
            if 0 <= i < a.len() {
                display(a[i]) + ", "@
            } else {
                Seq::empty()
            },
    )
}

/// The text of each key and value of a map, followed by a comma.
pub open spec fn pair_texts(m: Seq<(SValue, SValue)>) -> Seq<Seq<char>>
    decreases m,
{
    Seq::new(
        m.len(),
        |i: int|
            if 0 <= i < m.len() {
                display(m[i].0) + ": "@ + display(m[i].1) + ", "@
            } else {
                Seq::empty()
            },
    )
}

/* Characters */

/// The characters with the Unicode `White_Space` property.
pub open spec fn is_whitespace(c: char) -> bool {
    let u = c as u32;
    (0x9 <= u <= 0xd) || u == 0x20 || u == 0x85 || u == 0xa0 || u == 0x1680 || (0x2000 <= u
        <= 0x200a) || u == 0x2028 || u == 0x2029 || u == 0x202f || u == 0x205f || u == 0x3000
}

/// The number of bytes of a character in UTF-8.
pub open spec fn utf8_width(c: char) -> nat {
    let u = c as u32;
    if u < 0x80 {
        1
    } else if u < 0x800 {
        2
    } else if u < 0x10000 {
        3
    } else {
        4
    }
}

/// The number of bytes of a string in UTF-8.
pub open spec fn utf8_len(s: Seq<char>) -> nat
    decreases s.len(),
{
    if s.len() == 0 {
        0
    } else {
        utf8_len(s.drop_last()) + utf8_width(s.last())
    }
}

/* String operations */

pub open spec fn trim_start(s: Seq<char>) -> Seq<char>
    decreases s.len(),
{
    if s.len() > 0 && is_whitespace(s[0]) {
        trim_start(s.drop_first())
    } else {
        s
    }
}

pub open spec fn trim_end(s: Seq<char>) -> Seq<char>
    decreases s.len(),
{
    if s.len() > 0 && is_whitespace(s.last()) {
        trim_end(s.drop_last())
    } else {
        s
    }
}

/// The string without leading and trailing white space.
pub open spec fn trim(s: Seq<char>) -> Seq<char> {
    trim_end(trim_start(s))
}

/// Whether `pat` occurs in `s` at position `i`.
pub open spec fn occurs_at(s: Seq<char>, pat: Seq<char>, i: int) -> bool {
    0 <= i && i + pat.len() <= s.len() && s.subrange(i, i + pat.len()) == pat
}

/// Every non-overlapping occurrence of `from`, from left to right, replaced by `to`.
/// An empty `from` occurs before every character and at the end.
pub open spec fn str_replace(s: Seq<char>, from: Seq<char>, to: Seq<char>) -> Seq<char>
    decreases s.len(),
{
    if from.len() == 0 {
        if s.len() == 0 {
            to
        } else {
            to + seq![s[0]] + str_replace(s.drop_first(), from, to)
        }
    } else if s.len() < from.len() {
        s
    } else if occurs_at(s, from, 0) {
        to + str_replace(s.subrange(from.len() as int, s.len() as int), from, to)
    } else {
        seq![s[0]] + str_replace(s.drop_first(), from, to)
    }
}

/// The pieces of `s` between the non-overlapping occurrences of a non-empty `delim`;
/// `cur` is the piece read so far.
pub open spec fn split_pieces(s: Seq<char>, delim: Seq<char>, cur: Seq<char>) -> Seq<Seq<char>>
    recommends
        delim.len() > 0,
    decreases s.len(),
{
    if delim.len() == 0 || s.len() < delim.len() {
        seq![cur + s]
    } else if occurs_at(s, delim, 0) {
        seq![cur] + split_pieces(s.subrange(delim.len() as int, s.len() as int), delim, Seq::empty())
    } else {
        split_pieces(s.drop_first(), delim, cur.push(s[0]))
    }
}

/// The pieces of `s` between the occurrences of `delim`. An empty `delim` gives an
/// empty piece, then each character, then an empty piece.
pub open spec fn str_split(s: Seq<char>, delim: Seq<char>) -> Seq<Seq<char>> {
    if delim.len() == 0 {
        seq![Seq::<char>::empty()] + Seq::new(s.len(), |i: int| seq![s[i]]) + seq![
            Seq::<char>::empty(),
        ]
    } else {
        split_pieces(s, delim, Seq::empty())
    }
}

/// Lexicographic order of strings by code point.
pub open spec fn str_less(a: Seq<char>, b: Seq<char>) -> bool
    decreases a.len(),
{
    if a.len() == 0 {
        b.len() > 0
    } else if b.len() == 0 {
        false
    } else if a[0] != b[0] {
        (a[0] as u32) < (b[0] as u32)
    } else {
        str_less(a.drop_first(), b.drop_first())
    }
}

/* Numbers in text */

pub open spec fn is_digit(c: char) -> bool {
    '0' <= c <= '9'
}

pub open spec fn all_digits(s: Seq<char>) -> bool {
    forall|i: int| 0 <= i < s.len() ==> #[trigger] is_digit(s[i])
}

pub open spec fn digits_value(s: Seq<char>) -> nat
    decreases s.len(),
{
    if s.len() == 0 {
        0
    } else {
        digits_value(s.drop_last()) * 10 + ((s.last() as u32) - 48) as nat
    }
}

/// The integer a string denotes: an optional sign, then one or more decimal digits,
/// and a value that fits in 64 bits.
pub open spec fn parse_int(s: Seq<char>) -> Option<i64> {
    let neg = s.len() > 0 && s[0] == '-';
    let digits = if s.len() > 0 && (s[0] == '-' || s[0] == '+') {
        s.drop_first()
    } else {
        s
    };
    let v: int = if neg {
        -digits_value(digits)
    } else {
        digits_value(digits) as int
    };
    if digits.len() == 0 || !all_digits(digits) || v < i64::MIN || v > i64::MAX {
        None
    } else {
        Some(v as i64)
    }
}

/// The unsigned number a string denotes: an optional `+`, then one or more decimal digits,
/// and a value that fits in `usize`.
pub open spec fn parse_usize(s: Seq<char>) -> Option<usize> {
    let digits = if s.len() > 0 && s[0] == '+' {
        s.drop_first()
    } else {
        s
    };
    if digits.len() == 0 || !all_digits(digits) || digits_value(digits) > usize::MAX {
        None
    } else {
        Some(digits_value(digits) as usize)
    }
}

/* Building strings */

/// Calls `String::push`, which appends the character to the string.
#[verifier::external_body]
pub(crate) fn push_char(s: &mut String, c: char)
    ensures
        final(s)@ == old(s)@.push(c),
{
    s.push(c);
}

/// The characters of a string.
pub fn chars_of(s: &String) -> (r: Vec<char>)
    ensures
        r@ == s@,
{
    let t = s.as_str();
    let n = t.unicode_len();
    let mut out: Vec<char> = Vec::new();
    let mut i: usize = 0;
    let mut it = t.chars();
    while i < n
        invariant
            i <= n,
            n == s@.len(),
            t@ == s@,
            out@ == s@.take(i as int),
            it.remaining() == s@.skip(i as int),
        decreases n - i,
    {
        proof {
            broadcast use vstd::string::group_string_axioms;
        }
        let c = it.next();
        match c {
            Some(c) => {
                proof {
                    assert(c == s@[i as int]);
                }
                out.push(c);
            },
            None => {
                proof {
                    assert(false);
                }
            },
        }
        i = i + 1;
        proof {
            assert(out@ =~= s@.take(i as int));
            assert(it.remaining() =~= s@.skip(i as int));
        }
    }
    proof {
        assert(out@ =~= s@);
    }
    out
}

/// The string made of the characters.
pub fn string_of(chars: &Vec<char>) -> (r: String)
    ensures
        r@ == chars@,
{
    let mut out = String::new();
    let mut i: usize = 0;
    while i < chars.len()
        invariant
            i <= chars.len(),
            out@ == chars@.take(i as int),
        decreases chars.len() - i,
    {
        push_char(&mut out, chars[i]);
        i = i + 1;
        proof {
            assert(out@ =~= chars@.take(i as int));
        }
    }
    proof {
        assert(out@ =~= chars@);
    }
    out
}

/// Appends `t` to `s`.
pub fn append_str(s: &mut String, t: &String)
    ensures
        final(s)@ == old(s)@ + t@,
{
    let cs = chars_of(t);
    let ghost s0 = s@;
    let mut i: usize = 0;
    while i < cs.len()
        invariant
            i <= cs.len(),
            cs@ == t@,
            s@ == s0 + t@.take(i as int),
        decreases cs.len() - i,
    {
        push_char(s, cs[i]);
        i = i + 1;
        proof {
            assert(s@ =~= s0 + t@.take(i as int));
        }
    }
    proof {
        assert(t@.take(i as int) =~= t@);
    }
}

/* Writing numbers and values */

fn digit(d: u128, upper: bool) -> (c: char)
    requires
        d < 16,
    ensures
        c == digit_char(d as nat, upper),
{
    if d < 10 {
        ((d + 48) as u8) as char
    } else if upper {
        ((d - 10 + 65) as u8) as char
    } else {
        ((d - 10 + 97) as u8) as char
    }
}

/// The digits of `n` in `base` (2 to 16).
pub fn digits_of(n: u128, base: u128, upper: bool) -> (r: String)
    requires
        2 <= base <= 16,
    ensures
        r@ == nat_digits(n as nat, base as nat, upper),
    decreases n,
{
    if n < base {
        let mut s = String::new();
        push_char(&mut s, digit(n, upper));
        assert(s@ =~= seq![digit_char(n as nat, upper)]);
        s
    } else {
        assert(n / base < n) by (nonlinear_arith)
            requires
                base >= 2,
                n >= base,
        ;
        let mut s = digits_of(n / base, base, upper);
        push_char(&mut s, digit(n % base, upper));
        s
    }
}

/// The magnitude of a 64-bit integer.
fn magnitude(n: i64) -> (r: u128)
    ensures
        r as int == if n < 0 {
            -n
        } else {
            n as int
        },
{
    if n < 0 {
        (0i128 - n as i128) as u128
    } else {
        n as u128
    }
}

pub fn decimal_of(n: i64) -> (r: String)
    ensures
        r@ == decimal(n as int),
{
    let digits = digits_of(magnitude(n), 10, false);
    if n < 0 {
        let mut s = String::new();
        push_char(&mut s, '-');
        append_str(&mut s, &digits);
        assert(s@ =~= seq!['-'] + digits@);
        s
    } else {
        digits
    }
}

pub fn twos_complement_of(n: i64) -> (r: u128)
    ensures
        r as nat == twos_complement(n),
{
    if n < 0 {
        (n as i128 + 0x1_0000_0000_0000_0000i128) as u128
    } else {
        n as u128
    }
}

pub fn zero_padded_of(n: i64, width: usize) -> (r: String)
    ensures
        r@ == zero_padded(n, width as nat),
{
    let digits = digits_of(magnitude(n), 10, false);
    let mut s = String::new();
    let mut used: usize = 0;
    if n < 0 {
        push_char(&mut s, '-');
        used = 1;
    }
    let dl = digits.as_str().unicode_len();
    let ghost sign = s@;
    assert(sign.len() == used);
    let pad: usize = if width > used && width - used > dl {
        width - used - dl
    } else {
        0
    };
    let mut k: usize = 0;
    while k < pad
        invariant
            k <= pad,
            s@ == sign + repeat_char('0', k as nat),
        decreases pad - k,
    {
        push_char(&mut s, '0');
        k = k + 1;
    }
    append_str(&mut s, &digits);
    s
}

/// How a value is written out.
pub fn display_of(v: &Value) -> (r: String)
    ensures
        r@ == display(v@),
    decreases v,
{
    match v {
        Value::Null => String::from_str("null"),
        Value::Bool(b) => if *b {
            String::from_str("true")
        } else {
            String::from_str("false")
        },
        Value::Int(i) => decimal_of(*i),
        Value::String(s) => s.clone(),
        Value::Array(a) => {
            let mut out = String::from_str("[");
            let items = display_items_of(a);
            append_str(&mut out, &items);
            append_str(&mut out, &String::from_str("]"));
            out
        },
        Value::HashMap(m) => {
            let mut out = String::from_str("{");
            let items = display_pairs_of(m);
            append_str(&mut out, &items);
            append_str(&mut out, &String::from_str("}"));
            out
        },
        Value::Function(_) => String::from_str("function"),
        Value::Channel(_) => String::from_str("channel"),
        Value::Reference(_) => String::from_str("reference"),
    }
}

fn display_items_of(a: &Vec<Value>) -> (r: String)
    ensures
        r@ == item_texts(values_view(a@)).flatten_alt(),
    decreases a,
{
    let ghost parts = item_texts(values_view(a@));
    let mut out = String::new();
    let sep = String::from_str(", ");
    let mut i: usize = 0;
    while i < a.len()
        invariant
            i <= a.len(),
            parts == item_texts(values_view(a@)),
            sep@ == ", "@,
            out@ == parts.take(i as int).flatten_alt(),
        decreases a.len() - i,
    {
        let d = display_of(&a[i]);
        append_str(&mut out, &d);
        append_str(&mut out, &sep);
        i = i + 1;
        proof {
            assert(parts.take(i as int).drop_last() =~= parts.take(i as int - 1));
            assert(parts[i as int - 1] == display(values_view(a@)[i as int - 1]) + ", "@);
            assert(out@ =~= parts.take(i as int).flatten_alt());
        }
    }
    proof {
        assert(parts.take(i as int) =~= parts);
    }
    out
}

fn display_pairs_of(m: &Vec<(Value, Value)>) -> (r: String)
    ensures
        r@ == pair_texts(pairs_view(m@)).flatten_alt(),
    decreases m,
{
    let ghost parts = pair_texts(pairs_view(m@));
    let mut out = String::new();
    let colon = String::from_str(": ");
    let sep = String::from_str(", ");
    let mut i: usize = 0;
    while i < m.len()
        invariant
            i <= m.len(),
            parts == pair_texts(pairs_view(m@)),
            sep@ == ", "@,
            colon@ == ": "@,
            out@ == parts.take(i as int).flatten_alt(),
        decreases m.len() - i,
    {
        let dk = display_of(&m[i].0);
        let dv = display_of(&m[i].1);
        append_str(&mut out, &dk);
        append_str(&mut out, &colon);
        append_str(&mut out, &dv);
        append_str(&mut out, &sep);
        i = i + 1;
        proof {
            assert(parts.take(i as int).drop_last() =~= parts.take(i as int - 1));
            assert(parts[i as int - 1] == display(pairs_view(m@)[i as int - 1].0) + ": "@ + display(
                pairs_view(m@)[i as int - 1].1,
            ) + ", "@);
            assert(out@ =~= parts.take(i as int).flatten_alt());
        }
    }
    proof {
        assert(parts.take(i as int) =~= parts);
    }
    out
}

/* Characters and string operations */

pub fn is_whitespace_char(c: char) -> (r: bool)
    ensures
        r == is_whitespace(c),
{
    let u = c as u32;
    (0x9 <= u && u <= 0xd) || u == 0x20 || u == 0x85 || u == 0xa0 || u == 0x1680 || (0x2000 <= u && u
        <= 0x200a) || u == 0x2028 || u == 0x2029 || u == 0x202f || u == 0x205f || u == 0x3000
}

/// The string made of `cs[from..to]`.
pub fn string_of_range(cs: &Vec<char>, from: usize, to: usize) -> (r: String)
    requires
        from <= to <= cs.len(),
    ensures
        r@ == cs@.subrange(from as int, to as int),
{
    let mut out = String::new();
    let mut i: usize = from;
    while i < to
        invariant
            from <= i <= to,
            to <= cs.len(),
            out@ == cs@.subrange(from as int, i as int),
        decreases to - i,
    {
        push_char(&mut out, cs[i]);
        i = i + 1;
        proof {
            assert(out@ =~= cs@.subrange(from as int, i as int));
        }
    }
    out
}

/// The string without leading and trailing white space.
pub fn trim_of(s: &String) -> (r: String)
    ensures
        r@ == trim(s@),
{
    let cs = chars_of(s);
    let n = cs.len();
    let mut i: usize = 0;
    assert(s@.skip(0) =~= s@);
    while i < n && is_whitespace_char(cs[i])
        invariant
            i <= n,
            n == cs@.len(),
            cs@ == s@,
            trim_start(s@) == trim_start(s@.skip(i as int)),
        decreases n - i,
    {
        proof {
            assert(s@.skip(i as int).drop_first() =~= s@.skip(i as int + 1));
        }
        i = i + 1;
    }
    let ghost t = s@.skip(i as int);
    assert(trim_start(s@) == t);
    let mut j: usize = n;
    while j > i && is_whitespace_char(cs[j - 1])
        invariant
            i <= j <= n,
            n == cs@.len(),
            cs@ == s@,
            t == s@.skip(i as int),
            trim_end(t) == trim_end(s@.subrange(i as int, j as int)),
        decreases j,
    {
        proof {
            assert(s@.subrange(i as int, j as int).drop_last() =~= s@.subrange(i as int, j as int - 1));
        }
        j = j - 1;
    }
    proof {
        assert(t =~= s@.subrange(i as int, n as int));
    }
    string_of_range(&cs, i, j)
}

/// The number of bytes of the string in UTF-8.
pub fn utf8_len_of(s: &String) -> (r: u128)
    ensures
        r == utf8_len(s@),
{
    let cs = chars_of(s);
    let mut count: u128 = 0;
    let mut i: usize = 0;
    while i < cs.len()
        invariant
            i <= cs.len(),
            cs@ == s@,
            count == utf8_len(s@.take(i as int)),
            count <= 4 * i,
        decreases cs.len() - i,
    {
        let u = cs[i] as u32;
        let w: u128 = if u < 0x80 {
            1
        } else if u < 0x800 {
            2
        } else if u < 0x10000 {
            3
        } else {
            4
        };
        count = count + w;
        i = i + 1;
        proof {
            assert(s@.take(i as int).drop_last() =~= s@.take(i as int - 1));
        }
    }
    proof {
        assert(s@.take(i as int) =~= s@);
    }
    count
}

/// Whether `pat` occurs in `cs` at position `pos`.
pub fn occurs_at_of(cs: &Vec<char>, pat: &Vec<char>, pos: usize) -> (r: bool)
    requires
        pos <= cs.len(),
    ensures
        r == occurs_at(cs@, pat@, pos as int),
{
    if pat.len() > cs.len() - pos {
        return false;
    }
    let mut k: usize = 0;
    while k < pat.len()
        invariant
            k <= pat.len(),
            pos + pat.len() <= cs.len(),
            cs@.subrange(pos as int, pos + k) == pat@.take(k as int),
        decreases pat.len() - k,
    {
        if cs[pos + k] != pat[k] {
            proof {
                assert(cs@.subrange(pos as int, pos + pat.len())[k as int] != pat@[k as int]);
            }
            return false;
        }
        k = k + 1;
        proof {
            assert(cs@.subrange(pos as int, pos + k) =~= pat@.take(k as int));
        }
    }
    proof {
        assert(pat@.take(k as int) =~= pat@);
    }
    true
}

pub proof fn lemma_replace_step(x: Seq<char>, from: Seq<char>, to: Seq<char>)
    requires
        from.len() > 0,
        x.len() > 0,
        !occurs_at(x, from, 0),
    ensures
        str_replace(x, from, to) == seq![x[0]] + str_replace(x.drop_first(), from, to),
{
    if x.len() < from.len() {
        assert(str_replace(x.drop_first(), from, to) == x.drop_first());
        assert(x =~= seq![x[0]] + x.drop_first());
    }
}

/// Every non-overlapping occurrence of `from` replaced by `to`.
pub fn replace_of(s: &String, from: &String, to: &String) -> (r: String)
    ensures
        r@ == str_replace(s@, from@, to@),
{
    let cs = chars_of(s);
    let fs = chars_of(from);
    let n = cs.len();
    let mut out = String::new();
    let mut pos: usize = 0;
    proof {
        assert(s@.skip(0) =~= s@);
        assert(out@ + str_replace(s@, from@, to@) =~= str_replace(s@, from@, to@));
    }
    if fs.len() == 0 {
        while pos < n
            invariant
                pos <= n,
                n == cs@.len(),
                cs@ == s@,
                fs@.len() == 0,
                fs@ == from@,
                out@ + str_replace(s@.skip(pos as int), from@, to@) == str_replace(s@, from@, to@),
            decreases n - pos,
        {
            let ghost x = s@.skip(pos as int);
            proof {
                assert(x.drop_first() =~= s@.skip(pos as int + 1));
            }
            let ghost before = out@;
            append_str(&mut out, to);
            push_char(&mut out, cs[pos]);
            pos = pos + 1;
            proof {
                assert(out@ + str_replace(s@.skip(pos as int), from@, to@) =~= before + (to@ + seq![x[0]]
                    + str_replace(x.drop_first(), from@, to@)));
            }
        }
        let ghost before = out@;
        append_str(&mut out, to);
        proof {
            assert(s@.skip(pos as int) =~= Seq::<char>::empty());
        }
        return out;
    }
    while pos < n
        invariant
            pos <= n,
            n == cs@.len(),
            cs@ == s@,
            fs@ == from@,
            fs@.len() > 0,
            out@ + str_replace(s@.skip(pos as int), from@, to@) == str_replace(s@, from@, to@),
        decreases n - pos,
    {
        let ghost x = s@.skip(pos as int);
        let ghost before = out@;
        if occurs_at_of(&cs, &fs, pos) {
            proof {
                assert(x.subrange(0, fs@.len() as int) =~= s@.subrange(pos as int, pos + fs@.len()));
                assert(occurs_at(x, from@, 0));
                assert(x.subrange(from@.len() as int, x.len() as int) =~= s@.skip(pos + fs@.len()));
            }
            append_str(&mut out, to);
            pos = pos + fs.len();
            proof {
                assert(out@ + str_replace(s@.skip(pos as int), from@, to@) =~= before + str_replace(x, from@, to@));
            }
        } else {
            proof {
                if x.len() >= from@.len() {
                    assert(x.subrange(0, fs@.len() as int) =~= s@.subrange(pos as int, pos + fs@.len()));
                }
                assert(!occurs_at(x, from@, 0));
                lemma_replace_step(x, from@, to@);
                assert(x.drop_first() =~= s@.skip(pos as int + 1));
            }
            push_char(&mut out, cs[pos]);
            pos = pos + 1;
            proof {
                assert(out@ + str_replace(s@.skip(pos as int), from@, to@) =~= before + str_replace(x, from@, to@));
            }
        }
    }
    proof {
        assert(s@.skip(pos as int) =~= Seq::<char>::empty());
        assert(out@ + Seq::<char>::empty() =~= out@);
    }
    out
}

/// Strings as values.
pub open spec fn string_values(p: Seq<Seq<char>>) -> Seq<SValue> {
    Seq::new(p.len(), |i: int| SValue::String(p[i]))
}

pub proof fn lemma_split_short(x: Seq<char>, d: Seq<char>, cur: Seq<char>)
    requires
        d.len() > 0,
        x.len() > 0,
        !occurs_at(x, d, 0),
    ensures
        split_pieces(x, d, cur) == split_pieces(x.drop_first(), d, cur.push(x[0])),
{
    if x.len() < d.len() {
        assert(cur + x =~= cur.push(x[0]) + x.drop_first());
    }
}

/// The pieces of `s` between the occurrences of `delim`, as string values.
pub fn split_of(s: &String, delim: &String) -> (r: Vec<Value>)
    ensures
        values_view(r@) == string_values(str_split(s@, delim@)),
{
    let cs = chars_of(s);
    let ds = chars_of(delim);
    let n = cs.len();
    let mut out: Vec<Value> = Vec::new();
    if ds.len() == 0 {
        let ghost pieces = str_split(s@, delim@);
        out.push(Value::String(String::new()));
        let mut i: usize = 0;
        while i < n
            invariant
                i <= n,
                n == cs@.len(),
                cs@ == s@,
                values_view(out@) == string_values(pieces.take(i as int + 1)),
                pieces == str_split(s@, delim@),
                pieces.len() == n + 2,
                delim@.len() == 0,
            decreases n - i,
        {
            let mut one = String::new();
            push_char(&mut one, cs[i]);
            let ghost before = out@;
            out.push(Value::String(one));
            i = i + 1;
            proof {
                assert(pieces[i as int] == seq![s@[i as int - 1]]);
                assert(values_view(out@) =~= values_view(before).push(SValue::String(one@)));
                assert(values_view(out@) =~= string_values(pieces.take(i as int + 1)));
            }
        }
        let ghost before = out@;
        out.push(Value::String(String::new()));
        proof {
            assert(values_view(out@) =~= values_view(before).push(SValue::String(Seq::empty())));
            assert(values_view(out@) =~= string_values(pieces));
        }
        return out;
    }
    let ghost whole = split_pieces(s@, delim@, Seq::empty());
    let ghost mut done: Seq<Seq<char>> = Seq::empty();
    let mut cur = String::new();
    let mut pos: usize = 0;
    proof {
        assert(s@.skip(0) =~= s@);
        assert(done + whole =~= whole);
        assert(values_view(out@) =~= string_values(done));
    }
    while pos < n
        invariant
            pos <= n,
            n == cs@.len(),
            cs@ == s@,
            ds@ == delim@,
            ds@.len() > 0,
            done + split_pieces(s@.skip(pos as int), delim@, cur@) == whole,
            values_view(out@) == string_values(done),
        decreases n - pos,
    {
        let ghost x = s@.skip(pos as int);
        if occurs_at_of(&cs, &ds, pos) {
            proof {
                assert(x.subrange(0, ds@.len() as int) =~= s@.subrange(pos as int, pos + ds@.len()));
                assert(occurs_at(x, delim@, 0));
                assert(x.subrange(delim@.len() as int, x.len() as int) =~= s@.skip(pos + ds@.len()));
            }
            let mut piece = String::new();
            std::mem::swap(&mut piece, &mut cur);
            let ghost before = out@;
            proof {
                assert(done + split_pieces(x, delim@, piece@) =~= done.push(piece@) + split_pieces(
                    s@.skip(pos + ds@.len()),
                    delim@,
                    Seq::empty(),
                ));
                done = done.push(piece@);
            }
            let ghost pv = piece@;
            out.push(Value::String(piece));
            pos = pos + ds.len();
            proof {
                assert(values_view(out@) =~= values_view(before).push(SValue::String(pv)));
                assert(values_view(out@) =~= string_values(done));
            }
        } else {
            proof {
                if x.len() >= delim@.len() {
                    assert(x.subrange(0, ds@.len() as int) =~= s@.subrange(pos as int, pos + ds@.len()));
                }
                lemma_split_short(x, delim@, cur@);
                assert(x.drop_first() =~= s@.skip(pos as int + 1));
            }
            push_char(&mut cur, cs[pos]);
            pos = pos + 1;
        }
    }
    proof {
        assert(s@.skip(pos as int) =~= Seq::<char>::empty());
        assert(cur@ + Seq::<char>::empty() =~= cur@);
        assert(done.push(cur@) =~= whole);
    }
    let ghost before = out@;
    let ghost cv = cur@;
    out.push(Value::String(cur));
    proof {
        assert(values_view(out@) =~= values_view(before).push(SValue::String(cv)));
        assert(values_view(out@) =~= string_values(whole));
    }
    out
}

pub proof fn lemma_digits_prefix(s: Seq<char>, k: int)
    requires
        all_digits(s),
        0 <= k <= s.len(),
    ensures
        digits_value(s.take(k)) <= digits_value(s),
    decreases s.len(),
{
    if k < s.len() {
        assert(s.drop_last().take(k) =~= s.take(k));
        assert(all_digits(s.drop_last()));
        lemma_digits_prefix(s.drop_last(), k);
    } else {
        assert(s.take(k) =~= s);
    }
}

/// The number that the digits `cs[start..]` denote, when they are all digits
/// and it is at most `bound`.
pub fn digits_number(cs: &Vec<char>, start: usize, bound: u128) -> (r: Option<u128>)
    requires
        start <= cs.len(),
        bound <= 0x1_0000_0000_0000_0000,
    ensures
        match r {
            Some(v) => cs@.skip(start as int).len() > 0 && all_digits(cs@.skip(start as int)) && v
                == digits_value(cs@.skip(start as int)) && v <= bound,
            None => cs@.skip(start as int).len() == 0 || !all_digits(cs@.skip(start as int))
                || digits_value(cs@.skip(start as int)) > bound,
        },
{
    let ghost d = cs@.skip(start as int);
    if start == cs.len() {
        return None;
    }
    let mut acc: u128 = 0;
    let mut i: usize = start;
    while i < cs.len()
        invariant
            start <= i <= cs.len(),
            d == cs@.skip(start as int),
            acc == digits_value(d.take(i - start)),
            acc <= bound,
            bound <= 0x1_0000_0000_0000_0000,
            all_digits(d.take(i - start)),
        decreases cs.len() - i,
    {
        let c = cs[i];
        if !('0' <= c && c <= '9') {
            proof {
                assert(d[i - start] == c);
                assert(!is_digit(d[i - start]));
            }
            return None;
        }
        let next: u128 = acc * 10 + ((c as u32) - 48) as u128;
        proof {
            assert(d.take(i - start + 1).drop_last() =~= d.take(i - start));
            assert(d.take(i - start + 1).last() == c);
            assert(all_digits(d.take(i - start + 1)));
        }
        if next > bound {
            proof {
                if all_digits(d) {
                    lemma_digits_prefix(d, i - start + 1);
                }
            }
            return None;
        }
        acc = next;
        i = i + 1;
    }
    proof {
        assert(d.take(i - start) =~= d);
    }
    Some(acc)
}

/// The integer a string denotes, if it denotes one (see `parse_int`).
pub fn parse_int_of(s: &String) -> (r: Option<i64>)
    ensures
        r == parse_int(s@),
{
    let cs = chars_of(s);
    let neg = cs.len() > 0 && cs[0] == '-';
    let start: usize = if cs.len() > 0 && (cs[0] == '-' || cs[0] == '+') {
        1
    } else {
        0
    };
    proof {
        assert(cs@.skip(start as int) =~= (if s@.len() > 0 && (s@[0] == '-' || s@[0] == '+') {
            s@.drop_first()
        } else {
            s@
        }));
    }
    let bound: u128 = if neg {
        0x8000_0000_0000_0000
    } else {
        0x7fff_ffff_ffff_ffff
    };
    match digits_number(&cs, start, bound) {
        Some(v) => if neg {
            Some((0i128 - v as i128) as i64)
        } else {
            Some(v as i64)
        },
        None => None,
    }
}

/// The unsigned number a string denotes, if it denotes one (see `parse_usize`).
pub fn parse_usize_of(s: &String) -> (r: Option<usize>)
    ensures
        r == parse_usize(s@),
{
    let cs = chars_of(s);
    let start: usize = if cs.len() > 0 && cs[0] == '+' {
        1
    } else {
        0
    };
    proof {
        assert(cs@.skip(start as int) =~= (if s@.len() > 0 && s@[0] == '+' {
            s@.drop_first()
        } else {
            s@
        }));
    }
    match digits_number(&cs, start, usize::MAX as u128) {
        Some(v) => Some(v as usize),
        None => None,
    }
}

/// Whether `a` comes before `b` in the order of code points.
pub fn str_less_of(a: &String, b: &String) -> (r: bool)
    ensures
        r == str_less(a@, b@),
{
    let xs = chars_of(a);
    let ys = chars_of(b);
    let mut k: usize = 0;
    proof {
        assert(a@.skip(0) =~= a@);
        assert(b@.skip(0) =~= b@);
    }
    while k < xs.len() && k < ys.len() && xs[k] == ys[k]
        invariant
            k <= xs.len(),
            k <= ys.len(),
            xs@ == a@,
            ys@ == b@,
            str_less(a@, b@) == str_less(a@.skip(k as int), b@.skip(k as int)),
        decreases xs.len() - k,
    {
        proof {
            assert(a@.skip(k as int).drop_first() =~= a@.skip(k as int + 1));
            assert(b@.skip(k as int).drop_first() =~= b@.skip(k as int + 1));
        }
        k = k + 1;
    }
    if k == xs.len() {
        k < ys.len()
    } else if k == ys.len() {
        false
    } else {
        (xs[k] as u32) < (ys[k] as u32)
    }
}

} // verus!
