//! Colors, written as hexadecimal text or as arrays of integers.
use vstd::prelude::*;

use crate::language::text::chars_of;
use crate::language::value::{int_at, int_at_of, values_view, SValue, Value};

verus! {

broadcast use vstd::std_specs::vec::group_vec_axioms;

/// A color. Red, green, blue and alpha, or all four packed into one number as `0xRRGGBBAA`.
#[derive(Clone, Copy, Debug, PartialEq, Eq, Structural)]
pub enum Color {
    /// Like `(255, 255, 255, 255)`
    RgbaU8(u8, u8, u8, u8),
    /// Like `(0xFFFFFFFF)`
    Hex(u32),
}

/// The text was no hexadecimal number that fits in 32 bits.
#[derive(Debug)]
pub struct ParseHexError;

/// Opaque black.
pub open spec fn default_color() -> Color {
    Color::Hex(0x000000FF)
}

pub open spec fn is_hex_digit(c: char) -> bool {
    ('0' <= c <= '9') || ('a' <= c <= 'f') || ('A' <= c <= 'F')
}

pub open spec fn hex_digit_value(c: char) -> nat {
    if '0' <= c <= '9' {
        (c as u32 - 48) as nat
    } else if 'a' <= c <= 'f' {
        (c as u32 - 87) as nat
    } else if 'A' <= c <= 'F' {
        (c as u32 - 55) as nat
    } else {
        0
    }
}

/// The number that hexadecimal digits denote.
pub open spec fn hex_value(s: Seq<char>) -> nat
    decreases s.len(),
{
    if s.len() == 0 {
        0
    } else {
        hex_value(s.drop_last()) * 16 + hex_digit_value(s.last())
    }
}

/// The text without its first character when that is `c`.
pub open spec fn strip_first(s: Seq<char>, c: char) -> Seq<char> {
    if s.len() > 0 && s[0] == c {
        s.drop_first()
    } else {
        s
    }
}

/// What `u32::from_str_radix(s, 16)` gives: an optional `+`, then one or more hexadecimal
/// digits whose number fits in 32 bits.
pub open spec fn parse_hex_u32(s: Seq<char>) -> Option<u32> {
    let d = strip_first(s, '+');
    if d.len() == 0 || !(forall|i: int| 0 <= i < d.len() ==> #[trigger] is_hex_digit(d[i])) || hex_value(d) > u32::MAX {
        None
    } else {
        Some(hex_value(d) as u32)
    }
}

/// The color a text names: an optional `#`, then a hexadecimal number; one of up to six
/// characters is an RGB value and gets the alpha `FF` below it.
pub open spec fn color_from_text(s: Seq<char>) -> Option<Color> {
    let t = strip_first(s, '#');
    match parse_hex_u32(t) {
        None => None,
        Some(v) => Some(
            if t.len() > 6 {
                Color::Hex(v)
            } else {
                Color::Hex((v << 8u32) | 0xFFu32)
            },
        ),
    }
}

/// The color a value stands for: a text as above, or an array of red, green, blue and an
/// optional alpha (255 when left out), each cut to 8 bits; opaque black otherwise.
pub open spec fn color_of_value(v: SValue) -> Color {
    match v {
        SValue::String(s) => match color_from_text(s) {
            Some(c) => c,
            None => default_color(),
        },
        SValue::Array(vs) => {
            let alpha = if vs.len() > 3 {
                int_at(vs, 3)
            } else {
                Some(255i64)
            };
            if int_at(vs, 0) is Some && int_at(vs, 1) is Some && int_at(vs, 2) is Some && alpha is Some {
                Color::RgbaU8(int_at(vs, 0)->0 as u8, int_at(vs, 1)->0 as u8, int_at(vs, 2)->0 as u8, alpha->0 as u8)
            } else {
                default_color()
            }
        },
        _ => default_color(),
    }
}

proof fn lemma_hex_value_grows(s: Seq<char>, k: int)
    requires
        0 <= k <= s.len(),
    ensures
        hex_value(s.take(k)) <= hex_value(s),
    decreases s.len() - k,
{
    if k < s.len() {
        lemma_hex_value_grows(s, k + 1);
        assert(s.take(k + 1).drop_last() =~= s.take(k));
    } else {
        assert(s.take(k) =~= s);
    }
}

fn hex_digit_of(c: char) -> (r: Option<u32>)
    ensures
        match r {
            Some(v) => is_hex_digit(c) && v == hex_digit_value(c),
            None => !is_hex_digit(c),
        },
{
    if '0' <= c && c <= '9' {
        Some((c as u32) - 48)
    } else if 'a' <= c && c <= 'f' {
        Some((c as u32) - 87)
    } else if 'A' <= c && c <= 'F' {
        Some((c as u32) - 55)
    } else {
        None
    }
}

/// The number of hexadecimal digits from position `start` on, when it fits in 32 bits.
fn hex_number(cs: &Vec<char>, start: usize) -> (r: Option<u32>)
    requires
        start <= cs@.len(),
    ensures
        ({
            let d = cs@.skip(start as int);
            match r {
                Some(v) => d.len() > 0 && (forall|i: int| 0 <= i < d.len() ==> #[trigger] is_hex_digit(d[i]))
                    && hex_value(d) <= u32::MAX && v == hex_value(d),
                None => d.len() == 0 || !(forall|i: int| 0 <= i < d.len() ==> #[trigger] is_hex_digit(d[i]))
                    || hex_value(d) > u32::MAX,
            }
        }),
{
    let ghost d = cs@.skip(start as int);
    if start == cs.len() {
        return None;
    }
    let mut acc: u64 = 0;
    let mut i: usize = start;
    while i < cs.len()
        invariant
            start <= i <= cs@.len(),
            d == cs@.skip(start as int),
            acc == hex_value(d.take(i - start)),
            acc <= u32::MAX,
            forall|j: int| 0 <= j < i - start ==> #[trigger] is_hex_digit(d[j]),
        decreases cs.len() - i,
    {
        proof {
            assert(d.take(i - start + 1).drop_last() =~= d.take(i - start));
        }
        match hex_digit_of(cs[i]) {
            None => {
                assert(!is_hex_digit(d[i - start]));
                return None;
            },
            Some(v) => {
                acc = acc * 16 + v as u64;
                if acc > 0xFFFF_FFFF {
                    proof {
                        lemma_hex_value_grows(d, i - start + 1);
                    }
                    return None;
                }
            },
        }
        i = i + 1;
    }
    proof {
        assert(d.take(i - start) =~= d);
    }
    Some(acc as u32)
}

impl Color {
    /// Opaque black.
    pub fn default_color() -> (r: Color)
        ensures
            r == default_color(),
    {
        Color::Hex(0x000000FF)
    }

    /// The color a text names (see `color_from_text`).
    pub fn parse(string: &str) -> (r: Result<Color, ParseHexError>)
        ensures
            match r {
                Ok(c) => color_from_text(string@) == Some(c),
                Err(_) => color_from_text(string@) is None,
            },
    {
        let owned = string.to_owned();
        let cs = chars_of(&owned);
        let start: usize = if cs.len() > 0 && cs[0] == '#' {
            1
        } else {
            0
        };
        let digits_from: usize = if cs.len() > start && cs[start] == '+' {
            start + 1
        } else {
            start
        };
        proof {
            assert(strip_first(string@, '#') =~= cs@.skip(start as int));
            assert(strip_first(strip_first(string@, '#'), '+') =~= cs@.skip(digits_from as int));
        }
        match hex_number(&cs, digits_from) {
            None => Err(ParseHexError),
            Some(v) => {
                if cs.len() - start > 6 {
                    Ok(Color::Hex(v))
                } else {
                    Ok(Color::Hex((v << 8u32) | 0xFFu32))
                }
            },
        }
    }

    /// The color a value stands for (see `color_of_value`).
    pub fn from_value(value: &Value) -> (r: Color)
        ensures
            r == color_of_value(value@),
    {
        match value {
            Value::String(s) => match Color::parse(s.as_str()) {
                Ok(c) => c,
                Err(_) => Color::default_color(),
            },
            Value::Array(vs) => {
                let ghost sv = values_view(vs@);
                let r = int_at_of(vs, 0);
                let g = int_at_of(vs, 1);
                let b = int_at_of(vs, 2);
                let a = if vs.len() > 3 {
                    int_at_of(vs, 3)
                } else {
                    Some(255i64)
                };
                match (r, g, b, a) {
                    (Some(r), Some(g), Some(b), Some(a)) => Color::RgbaU8(r as u8, g as u8, b as u8, a as u8),
                    _ => Color::default_color(),
                }
            },
            _ => Color::default_color(),
        }
    }
}

} // verus!
