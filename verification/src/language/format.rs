//! The `format` function: text with `{}` sections filled in from arguments and variables.
//!
//! A section is `{name}` or `{name:spec}`; an empty name takes the next positional argument.
//! The spec `0b` writes an integer in binary, `0x` and `0X` in hexadecimal, and `0N` pads it
//! with zeros to `N` characters; any other spec writes `invalid`.
use vstd::prelude::*;

use crate::language::environment::{resolved, rt_lookup_or_null, Runtime, SharedEnvironment, SRuntime};
use crate::language::text::{
    append_str, chars_of, decimal_of, digits_of, display, display_of, nat_digits, parse_usize,
    parse_usize_of, push_char, string_of_range, twos_complement, twos_complement_of, zero_padded,
    zero_padded_of,
};
use crate::language::value::{values_view, Value};
use crate::language::value::SValue;

verus! {

/// How a value in a section is written.
#[derive(Clone, Copy, Debug, PartialEq, Eq, Structural)]
pub enum ValueFormat {
    Plain,
    Invalid,
    ZeroPadding(usize),
    Binary,
    Hex,
    HexCapital,
}

pub open spec fn parse_value_format(spec: Seq<char>) -> ValueFormat {
    if spec.len() == 0 {
        ValueFormat::Plain
    } else if spec[0] != '0' {
        ValueFormat::Invalid
    } else {
        let rest = spec.drop_first();
        if rest == seq!['b'] {
            ValueFormat::Binary
        } else if rest == seq!['x'] {
            ValueFormat::Hex
        } else if rest == seq!['X'] {
            ValueFormat::HexCapital
        } else {
            match parse_usize(rest) {
                Some(n) => ValueFormat::ZeroPadding(n),
                None => ValueFormat::Invalid,
            }
        }
    }
}

pub open spec fn render_value(v: SValue, f: ValueFormat) -> Seq<char> {
    match (v, f) {
        (_, ValueFormat::Plain) => display(v),
        (SValue::Int(i), ValueFormat::Binary) => nat_digits(twos_complement(i), 2, false),
        (SValue::Int(i), ValueFormat::Hex) => nat_digits(twos_complement(i), 16, false),
        (SValue::Int(i), ValueFormat::HexCapital) => nat_digits(twos_complement(i), 16, true),
        (SValue::Int(i), ValueFormat::ZeroPadding(w)) => zero_padded(i, w as nat),
        _ => "invalid"@,
    }
}

/// The position of the first `c` in `s`, or -1.
pub open spec fn index_of_char(s: Seq<char>, c: char) -> int
    decreases s.len(),
{
    if s.len() == 0 {
        -1
    } else if s[0] == c {
        0
    } else if index_of_char(s.drop_first(), c) < 0 {
        -1
    } else {
        index_of_char(s.drop_first(), c) + 1
    }
}

pub open spec fn trim_open_braces(s: Seq<char>) -> Seq<char>
    decreases s.len(),
{
    if s.len() > 0 && s[0] == '{' {
        trim_open_braces(s.drop_first())
    } else {
        s
    }
}

/// The text of one section and the index of the next positional argument.
pub open spec fn render_section(section: Seq<char>, args: Seq<SValue>, s: SRuntime, env: usize, next: nat) -> (Seq<char>, nat) {
    let colon = index_of_char(section, ':');
    let name = trim_open_braces(if colon < 0 {
        section
    } else {
        section.take(colon)
    });
    let spec = if colon < 0 {
        Seq::empty()
    } else {
        section.skip(colon + 1)
    };
    let (value, next2) = if name.len() == 0 {
        (if next < args.len() {
            args[next as int]
        } else {
            SValue::Null
        }, next + 1)
    } else {
        (resolved(s, rt_lookup_or_null(s, env, name)), next)
    };
    (render_value(value, parse_value_format(spec)), next2)
}

/// Reads the format text `f` from left to right: `out` is the text written so far,
/// `pending` the text read since the last section or brace, `next` the next positional argument.
pub open spec fn format_scan(
    f: Seq<char>,
    args: Seq<SValue>,
    s: SRuntime,
    env: usize,
    out: Seq<char>,
    pending: Seq<char>,
    next: nat,
) -> Seq<char>
    decreases f.len(),
{
    if f.len() == 0 {
        out + pending
    } else {
        let c = f[0];
        let rest = f.drop_first();
        if c == '{' {
            if pending.len() > 0 {
                format_scan(rest, args, s, env, out + pending, Seq::empty(), next)
            } else {
                format_scan(rest, args, s, env, out, seq!['{'], next)
            }
        } else if c == '}' {
            let (text, next2) = render_section(pending, args, s, env, next);
            format_scan(rest, args, s, env, out + text, Seq::empty(), next2)
        } else {
            format_scan(rest, args, s, env, out, pending.push(c), next)
        }
    }
}

/// The formatted text, with named sections read from environment `env`.
pub open spec fn format_text(f: Seq<char>, args: Seq<SValue>, s: SRuntime, env: usize) -> Seq<char> {
    format_scan(f, args, s, env, Seq::empty(), Seq::empty(), 0)
}

/// What the built-in `format` returns for its tail argument.
pub open spec fn format_value(tail: SValue, s: SRuntime, env: usize) -> SValue {
    match tail {
        SValue::String(f) => SValue::String(format_text(f, Seq::empty(), s, env)),
        SValue::Array(a) => if a.len() > 0 && a[0] is String {
            SValue::String(format_text(a[0]->String_0, a.skip(1), s, env))
        } else {
            SValue::Null
        },
        _ => SValue::Null,
    }
}

/* Formatting */

fn value_format_of(spec: &Vec<char>, from: usize) -> (r: ValueFormat)
    requires
        from <= spec.len(),
    ensures
        r == parse_value_format(spec@.skip(from as int)),
{
    let ghost sp = spec@.skip(from as int);
    if from == spec.len() {
        return ValueFormat::Plain;
    }
    if spec[from] != '0' {
        return ValueFormat::Invalid;
    }
    let rest_len = spec.len() - from - 1;
    proof {
        assert(sp.drop_first() =~= spec@.skip(from + 1));
    }
    if rest_len == 1 {
        let c = spec[from + 1];
        proof {
            assert(spec@.skip(from + 1) =~= seq![c]);
        }
        if c == 'b' {
            return ValueFormat::Binary;
        } else if c == 'x' {
            return ValueFormat::Hex;
        } else if c == 'X' {
            return ValueFormat::HexCapital;
        }
    } else {
        proof {
            assert(spec@.skip(from + 1).len() != 1);
            assert(spec@.skip(from + 1) != seq!['b']);
            assert(spec@.skip(from + 1) != seq!['x']);
            assert(spec@.skip(from + 1) != seq!['X']);
        }
    }
    let rest = string_of_range(spec, from + 1, spec.len());
    proof {
        assert(rest@ =~= spec@.skip(from + 1));
    }
    match parse_usize_of(&rest) {
        Some(n) => ValueFormat::ZeroPadding(n),
        None => ValueFormat::Invalid,
    }
}

fn render_value_of(v: &Value, f: ValueFormat) -> (r: String)
    ensures
        r@ == render_value(v@, f),
{
    match (v, f) {
        (_, ValueFormat::Plain) => display_of(v),
        (Value::Int(i), ValueFormat::Binary) => digits_of(twos_complement_of(*i), 2, false),
        (Value::Int(i), ValueFormat::Hex) => digits_of(twos_complement_of(*i), 16, false),
        (Value::Int(i), ValueFormat::HexCapital) => digits_of(twos_complement_of(*i), 16, true),
        (Value::Int(i), ValueFormat::ZeroPadding(w)) => zero_padded_of(*i, w),
        _ => String::from_str("invalid"),
    }
}

/// The position of the first `c` in `s`, if any.
fn find_char(s: &Vec<char>, c: char) -> (r: Option<usize>)
    ensures
        match r {
            Some(i) => i == index_of_char(s@, c) && i < s@.len(),
            None => index_of_char(s@, c) < 0,
        },
{
    let mut k: usize = 0;
    assert(s@.skip(0) =~= s@);
    while k < s.len()
        invariant
            k <= s@.len(),
            index_of_char(s@, c) == if index_of_char(s@.skip(k as int), c) < 0 {
                -1
            } else {
                index_of_char(s@.skip(k as int), c) + k
            },
        decreases s.len() - k,
    {
        if s[k] == c {
            return Some(k);
        }
        proof {
            assert(s@.skip(k as int).drop_first() =~= s@.skip(k as int + 1));
        }
        k = k + 1;
    }
    None
}

fn render_section_of(
    section: &Vec<char>,
    args: &Vec<Value>,
    runtime: &Runtime,
    env: usize,
    next: usize,
) -> (r: (String, usize))
    requires
        next < usize::MAX,
    ensures
        (r.0@, r.1 as nat) == render_section(section@, values_view(args@), runtime@, env, next as nat),
{
    let colon = find_char(section, ':');
    let name_end: usize = match colon {
        Some(i) => i,
        None => section.len(),
    };
    let mut start: usize = 0;
    let ghost name0 = section@.take(name_end as int);
    proof {
        assert(name0 == if index_of_char(section@, ':') < 0 {
            section@
        } else {
            section@.take(index_of_char(section@, ':'))
        }) by {
            if colon is None {
                assert(section@.take(name_end as int) =~= section@);
            }
        }
        assert(name0.skip(0) =~= name0);
    }
    while start < name_end && section[start] == '{'
        invariant
            start <= name_end <= section.len(),
            name0 == section@.take(name_end as int),
            trim_open_braces(name0) == trim_open_braces(name0.skip(start as int)),
        decreases name_end - start,
    {
        proof {
            assert(name0.skip(start as int).drop_first() =~= name0.skip(start as int + 1));
        }
        start = start + 1;
    }
    proof {
        assert(name0.skip(start as int) =~= section@.subrange(start as int, name_end as int));
    }
    let format = match colon {
        Some(i) => value_format_of(section, i + 1),
        None => {
            proof {
                assert(section@.skip(section@.len() as int) =~= Seq::<char>::empty());
            }
            value_format_of(section, section.len())
        },
    };
    if start == name_end {
        let value = if next < args.len() {
            args[next].deep_clone()
        } else {
            Value::Null
        };
        (render_value_of(&value, format), next + 1)
    } else {
        let name = string_of_range(section, start, name_end);
        let value = match runtime.lookup(env, &name) {
            Some(v) => runtime.resolve(&v),
            None => runtime.resolve(&Value::Null),
        };
        (render_value_of(&value, format), next)
    }
}

/// Formats `format`, filling in each section from `args` or from the variables
/// visible in `environment`.
pub fn format_string_with_args(
    format: &String,
    args: &Vec<Value>,
    environment: &SharedEnvironment,
    runtime: &Runtime,
) -> (r: String)
    ensures
        r@ == format_text(format@, values_view(args@), runtime@, environment.id),
{
    let fs = chars_of(format);
    let ghost av = values_view(args@);
    let env = environment.id;
    let mut out = String::new();
    let mut pending: Vec<char> = Vec::new();
    let mut next: usize = 0;
    let mut i: usize = 0;
    proof {
        assert(format@.skip(0) =~= format@);
    }
    while i < fs.len()
        invariant
            i <= fs.len(),
            fs@ == format@,
            av == values_view(args@),
            next <= i,
            format_scan(format@.skip(i as int), av, runtime@, env, out@, pending@, next as nat) == format_text(
                format@,
                av,
                runtime@,
                env,
            ),
        decreases fs.len() - i,
    {
        let c = fs[i];
        proof {
            assert(format@.skip(i as int).drop_first() =~= format@.skip(i as int + 1));
        }
        if c == '{' {
            if pending.len() > 0 {
                let text = string_of_range(&pending, 0, pending.len());
                proof {
                    assert(pending@.subrange(0, pending@.len() as int) =~= pending@);
                }
                append_str(&mut out, &text);
                pending = Vec::new();
            } else {
                pending.push('{');
                proof {
                    assert(pending@ =~= seq!['{']);
                }
            }
        } else if c == '}' {
            let (text, next2) = render_section_of(&pending, args, runtime, env, next);
            append_str(&mut out, &text);
            next = next2;
            pending = Vec::new();
        } else {
            pending.push(c);
        }
        i = i + 1;
        proof {
            assert(pending@ =~= pending@);
        }
    }
    let text = string_of_range(&pending, 0, pending.len());
    proof {
        assert(pending@.subrange(0, pending@.len() as int) =~= pending@);
        assert(format@.skip(i as int) =~= Seq::<char>::empty());
    }
    append_str(&mut out, &text);
    out
}

/// The positional argument at `next`, or null past the last.
pub open spec fn positional(args: Seq<SValue>, next: nat) -> SValue {
    if next < args.len() {
        args[next as int]
    } else {
        SValue::Null
    }
}

/// Each empty section `{}` takes the next positional argument in turn: the one at `next`,
/// written out as `display` writes it, and the section after it takes the one after.
pub proof fn law_empty_sections_in_turn(
    f: Seq<char>,
    args: Seq<SValue>,
    s: SRuntime,
    env: usize,
    out: Seq<char>,
    next: nat,
)
    ensures
        format_scan(seq!['{', '}'] + f, args, s, env, out, Seq::empty(), next) == format_scan(
            f,
            args,
            s,
            env,
            out + display(positional(args, next)),
            Seq::empty(),
            next + 1,
        ),
{
    let w = seq!['{', '}'] + f;
    let e = Seq::<char>::empty();
    let open = e.push('{');
    assert(w[0] == '{');
    assert(w.drop_first() =~= seq!['}'] + f);
    let w1 = w.drop_first();
    assert(format_scan(w, args, s, env, out, e, next) == format_scan(w1, args, s, env, out, open, next));
    assert(w1[0] == '}');
    assert(w1.drop_first() =~= f);
    assert(open.drop_first() =~= e);
    assert(open[0] == '{');
    assert(trim_open_braces(open) == trim_open_braces(e));
    assert(trim_open_braces(e) == e);
    assert(index_of_char(open, ':') == -1) by {
        assert(index_of_char(e, ':') == -1);
    }
    assert(parse_value_format(e) == ValueFormat::Plain);
    assert(render_section(open, args, s, env, next) == (display(positional(args, next)), next + 1));
    assert(format_scan(w1, args, s, env, out, open, next) == format_scan(
        f,
        args,
        s,
        env,
        out + display(positional(args, next)),
        e,
        next + 1,
    ));
}

/// `format("{}-{}", x, y)` writes `x`, a dash and `y`, whatever `x` and `y` are.
pub proof fn law_two_sections(x: SValue, y: SValue, s: SRuntime, env: usize)
    ensures
        format_text(seq!['{', '}', '-', '{', '}'], seq![x, y], s, env) == display(x) + seq!['-'] + display(y),
{
    let args = seq![x, y];
    let e = Seq::<char>::empty();
    assert(seq!['{', '}', '-', '{', '}'] =~= seq!['{', '}'] + seq!['-', '{', '}']);
    law_empty_sections_in_turn(seq!['-', '{', '}'], args, s, env, e, 0);
    let o1 = e + display(x);
    let f1 = seq!['-', '{', '}'];
    assert(f1[0] == '-');
    assert(f1.drop_first() =~= seq!['{', '}']);
    assert(format_scan(f1, args, s, env, o1, e, 1) == format_scan(seq!['{', '}'], args, s, env, o1, e.push('-'), 1));
    let f2 = seq!['{', '}'];
    assert(f2[0] == '{');
    assert(f2.drop_first() =~= seq!['}']);
    assert(format_scan(f2, args, s, env, o1, e.push('-'), 1) == format_scan(seq!['}'], args, s, env, o1 + e.push('-'), e, 1));
    assert(seq!['}'] =~= seq!['{', '}'].drop_first());
    assert(seq!['}'] =~= seq!['}'] + e);
    law_empty_sections_in_turn(e, args, s, env, o1 + e.push('-'), 1);
    assert(seq!['{', '}'] + e =~= seq!['{', '}']);
    assert(format_scan(seq!['}'], args, s, env, o1 + e.push('-'), Seq::<char>::empty(), 1) == format_scan(
        seq!['{', '}'] + e,
        args,
        s,
        env,
        o1 + e.push('-'),
        Seq::empty(),
        1,
    )) by {
        // `{` with nothing pending only opens a section: both texts write the same.
        let g = seq!['{', '}'] + e;
        assert(g[0] == '{');
        assert(g.drop_first() =~= seq!['}']);
        let h = seq!['}'];
        assert(h[0] == '}');
        assert(h.drop_first() =~= e);
        assert(trim_open_braces(Seq::<char>::empty()) == Seq::<char>::empty());
        assert(trim_open_braces(seq!['{']) == trim_open_braces(seq!['{'].drop_first()));
        assert(seq!['{'].drop_first() =~= Seq::<char>::empty());
        assert(index_of_char(seq!['{'], ':') == -1) by {
            reveal_with_fuel(index_of_char, 3);
        }
        assert(index_of_char(Seq::<char>::empty(), ':') == -1);
    }
    assert(positional(args, 0) == x);
    assert(positional(args, 1) == y);
    assert(o1 + e.push('-') + display(y) + e =~= display(x) + seq!['-'] + display(y));
}

} // verus!
