//! The scanner: the characters of a program to tokens.
//!
//! Positions count characters. Line comments start with `//`. Strings are quoted with
//! `"` or `'` and end on the line they start; `"""` starts a string that may span lines,
//! whose runs of white space become single spaces.
use vstd::prelude::*;

use crate::language::text::{
    all_digits, chars_of, digits_number, digits_value, is_whitespace, is_whitespace_char, push_char,
    occurs_at, replace_of, str_replace, string_of_range,
};
use crate::parsing::token::{Metadata, SToken, STokenWithMeta, Token, TokenWithMeta, tokens_view};

verus! {

/// A character and where it stands.
#[derive(Clone, Copy, Debug)]
pub struct CharWithMeta {
    pub char: char,
    pub meta: Metadata,
}

#[derive(Debug)]
pub enum ScannerError {
    /// A number too large for 64 bits, with its digits.
    NumberParse(String),
    UnexpectedChar(CharWithMeta),
    UnterminatedString(Metadata),
}

pub enum SScannerError {
    NumberParse(Seq<char>),
    UnexpectedChar(char, Metadata),
    UnterminatedString(Metadata),
}

impl View for ScannerError {
    type V = SScannerError;

    open spec fn view(&self) -> SScannerError {
        match self {
            ScannerError::NumberParse(s) => SScannerError::NumberParse(s@),
            ScannerError::UnexpectedChar(c) => SScannerError::UnexpectedChar(c.char, c.meta),
            ScannerError::UnterminatedString(m) => SScannerError::UnterminatedString(*m),
        }
    }
}

/// The name of what `char::is_alphabetic` returns (the Unicode `Alphabetic` property).
pub uninterp spec fn alphabetic(c: char) -> bool;

/// Calls `char::is_alphabetic`, which tells whether the character has the Unicode
/// `Alphabetic` property; its result depends on the character alone. Among the ASCII
/// characters exactly the letters have it.
#[verifier::external_body]
fn is_alphabetic(c: char) -> (r: bool)
    ensures
        r == alphabetic(c),
        (c as u32) < 128 ==> (r <==> (('a' <= c && c <= 'z') || ('A' <= c && c <= 'Z'))),
{
    c.is_alphabetic()
}

/* The model */

/// The line and column of character `i` (counts that would pass `usize::MAX` wrap, as
/// `usize::wrapping_add` does).
pub open spec fn meta_at(cs: Seq<char>, i: int) -> Metadata
    decreases i,
{
    if i <= 0 {
        Metadata { line: 1, col: 1 }
    } else {
        let m = meta_at(cs, i - 1);
        if cs[i - 1] == '\n' {
            Metadata { line: vstd::wrapping::usize_specs::wrapping_add(m.line, 1), col: 1 }
        } else {
            Metadata { line: m.line, col: vstd::wrapping::usize_specs::wrapping_add(m.col, 1) }
        }
    }
}

pub open spec fn is_ident_char(c: char) -> bool {
    alphabetic(c) || c == '_'
}

pub open spec fn is_ascii_digit(c: char) -> bool {
    '0' <= c <= '9'
}

pub open spec fn char_at(cs: Seq<char>, i: int) -> Option<char> {
    if 0 <= i < cs.len() {
        Some(cs[i])
    } else {
        None
    }
}

/// The first position at or after `i` that holds a new line, or the end.
pub open spec fn line_end(cs: Seq<char>, i: int) -> int
    decreases cs.len() - i,
{
    if i < 0 || i >= cs.len() || cs[i] == '\n' {
        if i < 0 { 0 } else { i }
    } else {
        line_end(cs, i + 1)
    }
}

/// The first position at or after `i` whose character fails `digit` (`true`: a digit,
/// `false`: an identifier character), or the end.
pub open spec fn run_end(cs: Seq<char>, i: int, digits: bool) -> int
    decreases cs.len() - i,
{
    if i < 0 || i >= cs.len() || !(if digits {
        is_ascii_digit(cs[i])
    } else {
        is_ident_char(cs[i])
    }) {
        if i < 0 { 0 } else { i }
    } else {
        run_end(cs, i + 1, digits)
    }
}

/// The position of the quote that ends a string whose text starts at `j`, if it ends on its
/// line. A backslash escapes a quote; a character other than a backslash, the quote and
/// a new line ends the escape.
pub open spec fn string_end(cs: Seq<char>, j: int, quote: char, escaped: bool) -> Option<int>
    decreases cs.len() - j,
{
    if j < 0 || j >= cs.len() {
        None
    } else if cs[j] == '\\' {
        string_end(cs, j + 1, quote, true)
    } else if cs[j] == quote && !escaped {
        Some(j)
    } else if cs[j] == '\n' {
        None
    } else {
        string_end(cs, j + 1, quote, false)
    }
}

pub open spec fn triple_quote_at(cs: Seq<char>, i: int) -> bool {
    0 <= i && i + 3 <= cs.len() && cs[i] == '"' && cs[i + 1] == '"' && cs[i + 2] == '"'
}

/// Looking for the `"""` that ends a string from position `index` on: `end` is the
/// position before the last one looked at, where the text is cut.
pub open spec fn multiline_end(cs: Seq<char>, index: int, end: int) -> Option<int>
    decreases cs.len() - index,
{
    if index < 0 || index + 2 >= cs.len() {
        None
    } else if triple_quote_at(cs, index) {
        Some(end)
    } else {
        multiline_end(cs, index + 1, index)
    }
}

/// Runs of white space as single spaces; white space at the start is dropped.
/// `last_space` tells whether the text so far ends in white space (or is empty).
pub open spec fn squeeze_spaces(s: Seq<char>, last_space: bool) -> Seq<char>
    decreases s.len(),
{
    if s.len() == 0 {
        Seq::empty()
    } else if is_whitespace(s[0]) {
        if last_space {
            squeeze_spaces(s.drop_first(), true)
        } else {
            seq![' '] + squeeze_spaces(s.drop_first(), true)
        }
    } else {
        seq![s[0]] + squeeze_spaces(s.drop_first(), false)
    }
}

/// The escapes `\n`, `\"`, `\'` and `\t`, replaced in that order.
pub open spec fn unescape(s: Seq<char>) -> Seq<char> {
    str_replace(
        str_replace(
            str_replace(str_replace(s, seq!['\\', 'n'], seq!['\n']), seq!['\\', '"'], seq!['"']),
            seq!['\\', '\''],
            seq!['\''],
        ),
        seq!['\\', 't'],
        seq!['\t'],
    )
}

/// A token of one or two characters: the token, and how many characters it takes.
pub open spec fn operator_token(cs: Seq<char>, i: int) -> Option<(SToken, int)> {
    let c = cs[i];
    let next_is = |x: char| char_at(cs, i + 1) == Some(x);
    if c == '(' {
        Some((SToken::LeftParen, 1))
    } else if c == ')' {
        Some((SToken::RightParen, 1))
    } else if c == '[' {
        Some((SToken::LeftBracket, 1))
    } else if c == ']' {
        Some((SToken::RightBracket, 1))
    } else if c == '{' {
        Some((SToken::LeftBrace, 1))
    } else if c == '}' {
        Some((SToken::RightBrace, 1))
    } else if c == ':' {
        Some((SToken::Colon, 1))
    } else if c == ',' {
        Some((SToken::Comma, 1))
    } else if c == '.' {
        Some((SToken::Dot, 1))
    } else if c == '+' {
        Some((SToken::Plus, 1))
    } else if c == '-' {
        Some((SToken::Minus, 1))
    } else if c == '?' {
        Some((SToken::QuestionMark, 1))
    } else if c == '/' {
        Some((SToken::Slash, 1))
    } else if c == '*' {
        Some((SToken::Star, 1))
    } else if c == '^' {
        Some((SToken::Caret, 1))
    } else if c == '=' {
        if next_is('=') {
            Some((SToken::EqualEqual, 2))
        } else {
            Some((SToken::Equal, 1))
        }
    } else if c == '!' {
        if next_is('=') {
            Some((SToken::BangEqual, 2))
        } else {
            Some((SToken::Bang, 1))
        }
    } else if c == '<' {
        if next_is('=') {
            Some((SToken::LessEqual, 2))
        } else {
            Some((SToken::Less, 1))
        }
    } else if c == '>' {
        if next_is('=') {
            Some((SToken::GreaterEqual, 2))
        } else {
            Some((SToken::Greater, 1))
        }
    } else if c == '&' && next_is('&') {
        Some((SToken::And, 2))
    } else if c == '|' && next_is('|') {
        Some((SToken::Or, 2))
    } else {
        None
    }
}

/// The token that starts at `i` and the position after it; `None` for white space and
/// comments, which are skipped up to the returned position.
pub open spec fn token_at(cs: Seq<char>, i: int) -> Result<(Option<SToken>, int), SScannerError> {
    let c = cs[i];
    let meta = meta_at(cs, i);
    if c == '/' && char_at(cs, i + 1) == Some('/') {
        Ok((None, line_end(cs, i + 2)))
    } else if operator_token(cs, i) is Some {
        let (t, n) = operator_token(cs, i)->0;
        Ok((Some(t), i + n))
    } else if c == '&' || c == '|' {
        Err(SScannerError::UnexpectedChar(c, meta))
    } else if c == '"' || c == '\'' {
        if triple_quote_at(cs, i) {
            let start = i + 3;
            if start >= cs.len() {
                Err(SScannerError::UnterminatedString(meta))
            } else {
                match multiline_end(cs, start, start) {
                    None => Err(SScannerError::UnterminatedString(meta)),
                    Some(end) => {
                        let raw = cs.subrange(start, end);
                        let after = i + 7 + raw.len();
                        Ok((
                            Some(SToken::String(unescape(squeeze_spaces(raw, true)))),
                            if after > cs.len() { cs.len() as int } else { after },
                        ))
                    },
                }
            }
        } else {
            match string_end(cs, i + 1, c, false) {
                None => Err(SScannerError::UnterminatedString(meta)),
                Some(end) => Ok((Some(SToken::String(unescape(cs.subrange(i + 1, end)))), end + 1)),
            }
        }
    } else if is_ascii_digit(c) {
        let end = run_end(cs, i, true);
        let digits = cs.subrange(i, end);
        if crate::language::text::digits_value(digits) > i64::MAX {
            Err(SScannerError::NumberParse(digits))
        } else {
            Ok((Some(SToken::Int(crate::language::text::digits_value(digits) as i64)), end))
        }
    } else if is_whitespace(c) {
        Ok((None, i + 1))
    } else if is_ident_char(c) {
        let end = run_end(cs, i, false);
        Ok((Some(SToken::Ident(cs.subrange(i, end))), end))
    } else {
        Err(SScannerError::UnexpectedChar(c, meta))
    }
}

/// The tokens from position `i` on, after `acc`.
pub open spec fn scan_from(cs: Seq<char>, i: int, acc: Seq<STokenWithMeta>) -> Result<Seq<STokenWithMeta>, SScannerError>
    decreases cs.len() - i,
{
    if i < 0 || i >= cs.len() {
        Ok(acc)
    } else {
        match token_at(cs, i) {
            Err(e) => Err(e),
            Ok((t, next)) => if next <= i {
                Ok(acc)
            } else {
                let acc2 = match t {
                    Some(t) => acc.push(STokenWithMeta { token: t, meta: meta_at(cs, i) }),
                    None => acc,
                };
                scan_from(cs, if next > cs.len() { cs.len() as int } else { next }, acc2)
            },
        }
    }
}

/// The tokens of a program.
pub open spec fn scan_text(cs: Seq<char>) -> Result<Seq<STokenWithMeta>, SScannerError> {
    scan_from(cs, 0, Seq::empty())
}

/* Scanning */

/// The line and column of each character.
fn metas_of(cs: &Vec<char>) -> (r: Vec<Metadata>)
    ensures
        r@.len() == cs@.len(),
        forall|k: int| 0 <= k < cs@.len() ==> #[trigger] r@[k] == meta_at(cs@, k),
{
    let mut out: Vec<Metadata> = Vec::new();
    let mut line: usize = 1;
    let mut col: usize = 1;
    let mut i: usize = 0;
    while i < cs.len()
        invariant
            i <= cs@.len(),
            out@.len() == i,
            forall|k: int| 0 <= k < i ==> #[trigger] out@[k] == meta_at(cs@, k),
            (Metadata { line, col }) == meta_at(cs@, i as int),
        decreases cs.len() - i,
    {
        out.push(Metadata { line, col });
        if cs[i] == '\n' {
            line = line.wrapping_add(1);
            col = 1;
        } else {
            col = col.wrapping_add(1);
        }
        i = i + 1;
    }
    out
}

fn line_end_of(cs: &Vec<char>, i: usize) -> (r: usize)
    requires
        i <= cs@.len(),
    ensures
        r == line_end(cs@, i as int),
        i <= r <= cs@.len(),
{
    let mut j = i;
    while j < cs.len() && cs[j] != '\n'
        invariant
            i <= j <= cs@.len(),
            line_end(cs@, i as int) == line_end(cs@, j as int),
        decreases cs.len() - j,
    {
        j = j + 1;
    }
    j
}

fn in_run(c: char, digits: bool) -> (r: bool)
    ensures
        r == (if digits { is_ascii_digit(c) } else { is_ident_char(c) }),
{
    if digits {
        '0' <= c && c <= '9'
    } else {
        is_alphabetic(c) || c == '_'
    }
}

fn run_end_of(cs: &Vec<char>, i: usize, digits: bool) -> (r: usize)
    requires
        i <= cs@.len(),
    ensures
        r == run_end(cs@, i as int, digits),
        i <= r <= cs@.len(),
{
    let mut j = i;
    while j < cs.len() && in_run(cs[j], digits)
        invariant
            i <= j <= cs@.len(),
            run_end(cs@, i as int, digits) == run_end(cs@, j as int, digits),
        decreases cs.len() - j,
    {
        j = j + 1;
    }
    j
}

fn string_end_of(cs: &Vec<char>, start: usize, quote: char) -> (r: Option<usize>)
    requires
        start <= cs@.len(),
    ensures
        match r {
            Some(j) => string_end(cs@, start as int, quote, false) == Some(j as int) && start <= j < cs@.len(),
            None => string_end(cs@, start as int, quote, false) is None,
        },
{
    let mut j = start;
    let mut escaped = false;
    while j < cs.len()
        invariant
            start <= j <= cs@.len(),
            string_end(cs@, start as int, quote, false) == string_end(cs@, j as int, quote, escaped),
        decreases cs.len() - j,
    {
        let c = cs[j];
        if c == '\\' {
            escaped = true;
        } else if c == quote && !escaped {
            return Some(j);
        } else if c == '\n' {
            return None;
        } else {
            escaped = false;
        }
        j = j + 1;
    }
    None
}

fn triple_quote_of(cs: &Vec<char>, i: usize) -> (r: bool)
    ensures
        r == triple_quote_at(cs@, i as int),
{
    i < cs.len() && cs.len() - i >= 3 && cs[i] == '"' && cs[i + 1] == '"' && cs[i + 2] == '"'
}

fn multiline_end_of(cs: &Vec<char>, start: usize) -> (r: Option<usize>)
    requires
        start <= cs@.len(),
    ensures
        match r {
            Some(e) => multiline_end(cs@, start as int, start as int) == Some(e as int) && start <= e <= cs@.len(),
            None => multiline_end(cs@, start as int, start as int) is None,
        },
{
    let mut index = start;
    let mut end = start;
    while cs.len() - index > 2
        invariant
            start <= end <= index,
            index <= cs@.len(),
            multiline_end(cs@, start as int, start as int) == multiline_end(cs@, index as int, end as int),
        decreases cs.len() - index,
    {
        if triple_quote_of(cs, index) {
            return Some(end);
        }
        end = index;
        index = index + 1;
    }
    None
}

fn squeeze_spaces_of(s: &Vec<char>, from: usize, to: usize) -> (r: String)
    requires
        from <= to <= s@.len(),
    ensures
        r@ == squeeze_spaces(s@.subrange(from as int, to as int), true),
{
    let ghost whole = s@.subrange(from as int, to as int);
    let mut out = String::new();
    let mut last_space = true;
    let mut i = from;
    proof {
        assert(whole.skip(0) =~= whole);
        assert(out@ + squeeze_spaces(whole, true) =~= squeeze_spaces(whole, true));
    }
    while i < to
        invariant
            from <= i <= to,
            to <= s@.len(),
            whole == s@.subrange(from as int, to as int),
            out@ + squeeze_spaces(s@.subrange(i as int, to as int), last_space) == squeeze_spaces(whole, true),
        decreases to - i,
    {
        let ghost x = s@.subrange(i as int, to as int);
        let ghost before = out@;
        proof {
            assert(x.drop_first() =~= s@.subrange(i as int + 1, to as int));
        }
        let c = s[i];
        if is_whitespace_char(c) {
            if !last_space {
                push_char(&mut out, ' ');
                proof {
                    assert(before + (seq![' '] + squeeze_spaces(x.drop_first(), true)) =~= out@ + squeeze_spaces(x.drop_first(), true));
                }
            }
            last_space = true;
        } else {
            push_char(&mut out, c);
            last_space = false;
            proof {
                assert(before + (seq![c] + squeeze_spaces(x.drop_first(), false)) =~= out@ + squeeze_spaces(x.drop_first(), false));
            }
        }
        i = i + 1;
    }
    proof {
        assert(s@.subrange(i as int, to as int) =~= Seq::<char>::empty());
        assert(out@ + Seq::<char>::empty() =~= out@);
    }
    out
}

fn two_chars(a: char, b: char) -> (r: String)
    ensures
        r@ == seq![a, b],
{
    let mut s = String::new();
    push_char(&mut s, a);
    push_char(&mut s, b);
    assert(s@ =~= seq![a, b]);
    s
}

fn one_char(a: char) -> (r: String)
    ensures
        r@ == seq![a],
{
    let mut s = String::new();
    push_char(&mut s, a);
    assert(s@ =~= seq![a]);
    s
}

/// The escapes `\n`, `\"`, `\'` and `\t` replaced.
fn unescape_of(s: &String) -> (r: String)
    ensures
        r@ == unescape(s@),
{
    let a = replace_of(s, &two_chars('\\', 'n'), &one_char('\n'));
    let b = replace_of(&a, &two_chars('\\', '"'), &one_char('"'));
    let c = replace_of(&b, &two_chars('\\', '\''), &one_char('\''));
    replace_of(&c, &two_chars('\\', 't'), &one_char('\t'))
}

fn operator_token_of(cs: &Vec<char>, i: usize) -> (r: Option<(Token, usize)>)
    requires
        i < cs@.len(),
    ensures
        match r {
            Some((t, n)) => operator_token(cs@, i as int) == Some((t@, n as int)) && 1 <= n <= 2
                && i + n <= cs@.len(),
            None => operator_token(cs@, i as int) is None,
        },
{
    let c = cs[i];
    let next = if cs.len() - i > 1 {
        Some(cs[i + 1])
    } else {
        None
    };
    let next_eq = next == Some('=');
    if c == '(' {
        Some((Token::LeftParen, 1))
    } else if c == ')' {
        Some((Token::RightParen, 1))
    } else if c == '[' {
        Some((Token::LeftBracket, 1))
    } else if c == ']' {
        Some((Token::RightBracket, 1))
    } else if c == '{' {
        Some((Token::LeftBrace, 1))
    } else if c == '}' {
        Some((Token::RightBrace, 1))
    } else if c == ':' {
        Some((Token::Colon, 1))
    } else if c == ',' {
        Some((Token::Comma, 1))
    } else if c == '.' {
        Some((Token::Dot, 1))
    } else if c == '+' {
        Some((Token::Plus, 1))
    } else if c == '-' {
        Some((Token::Minus, 1))
    } else if c == '?' {
        Some((Token::QuestionMark, 1))
    } else if c == '/' {
        Some((Token::Slash, 1))
    } else if c == '*' {
        Some((Token::Star, 1))
    } else if c == '^' {
        Some((Token::Caret, 1))
    } else if c == '=' {
        if next_eq {
            Some((Token::EqualEqual, 2))
        } else {
            Some((Token::Equal, 1))
        }
    } else if c == '!' {
        if next_eq {
            Some((Token::BangEqual, 2))
        } else {
            Some((Token::Bang, 1))
        }
    } else if c == '<' {
        if next_eq {
            Some((Token::LessEqual, 2))
        } else {
            Some((Token::Less, 1))
        }
    } else if c == '>' {
        if next_eq {
            Some((Token::GreaterEqual, 2))
        } else {
            Some((Token::Greater, 1))
        }
    } else if c == '&' && next == Some('&') {
        Some((Token::And, 2))
    } else if c == '|' && next == Some('|') {
        Some((Token::Or, 2))
    } else {
        None
    }
}

/// The token that starts at `i` (see `token_at`).
fn token_at_of(cs: &Vec<char>, metas: &Vec<Metadata>, i: usize) -> (r: Result<(Option<Token>, usize), ScannerError>)
    requires
        i < cs@.len(),
        metas@.len() == cs@.len(),
        forall|k: int| 0 <= k < cs@.len() ==> #[trigger] metas@[k] == meta_at(cs@, k),
    ensures
        match r {
            Ok((t, n)) => token_at(cs@, i as int) == Ok::<(Option<SToken>, int), SScannerError>((
                match t {
                    Some(t) => Some(t@),
                    None => None,
                },
                n as int,
            )) && n <= cs@.len(),
            Err(e) => token_at(cs@, i as int) == Err::<(Option<SToken>, int), SScannerError>(e@),
        },
{
    let len = cs.len();
    let c = cs[i];
    let meta = metas[i];
    if c == '/' && len - i > 1 && cs[i + 1] == '/' {
        return Ok((None, line_end_of(cs, i + 2)));
    }
    match operator_token_of(cs, i) {
        Some((t, n)) => return Ok((Some(t), i + n)),
        None => {},
    }
    if c == '&' || c == '|' {
        return Err(ScannerError::UnexpectedChar(CharWithMeta { char: c, meta }));
    }
    if c == '"' || c == '\'' {
        if triple_quote_of(cs, i) {
            let start = i + 3;
            if start >= cs.len() {
                return Err(ScannerError::UnterminatedString(meta));
            }
            return match multiline_end_of(cs, start) {
                None => Err(ScannerError::UnterminatedString(meta)),
                Some(end) => {
                    let text = unescape_of(&squeeze_spaces_of(cs, start, end));
                    let rest = cs.len() - i;
                    let raw_len = end - start;
                    let after = if rest < 7 || raw_len > rest - 7 {
                        cs.len()
                    } else {
                        i + 7 + raw_len
                    };
                    Ok((Some(Token::String(text)), after))
                },
            };
        }
        return match string_end_of(cs, i + 1, c) {
            None => Err(ScannerError::UnterminatedString(meta)),
            Some(end) => {
                let raw = string_of_range(cs, i + 1, end);
                Ok((Some(Token::String(unescape_of(&raw))), end + 1))
            },
        };
    }
    if '0' <= c && c <= '9' {
        let end = run_end_of(cs, i, true);
        let digits = string_of_range(cs, i, end);
        proof {
            assert forall|k: int| 0 <= k < cs@.subrange(i as int, end as int).len() implies crate::language::text::is_digit(
                #[trigger] cs@.subrange(i as int, end as int)[k],
            ) by {
                lemma_run_digits(cs@, i as int, i as int + k);
            }
            assert(cs@.subrange(i as int, end as int) =~= cs@.subrange(i as int, cs@.len() as int).take(end - i));
        }
        let ds = chars_of(&digits);
        proof {
            assert(ds@.skip(0) =~= ds@);
            lemma_run_end_from(cs@, i as int + 1, true);
            assert(end > i);
            assert(ds@ == cs@.subrange(i as int, end as int));
            assert(all_digits(ds@));
        }
        return match digits_number(&ds, 0, 0x7fff_ffff_ffff_ffff) {
            Some(v) => Ok((Some(Token::Int(v as i64)), end)),
            None => Err(ScannerError::NumberParse(digits)),
        };
    }
    if is_whitespace_char(c) {
        return Ok((None, i + 1));
    }
    if is_alphabetic(c) || c == '_' {
        let end = run_end_of(cs, i, false);
        return Ok((Some(Token::Ident(string_of_range(cs, i, end))), end));
    }
    Err(ScannerError::UnexpectedChar(CharWithMeta { char: c, meta }))
}

/// A run that is looked for from `i` ends at `i` or after it.
proof fn lemma_run_end_from(cs: Seq<char>, i: int, digits: bool)
    requires
        0 <= i,
    ensures
        run_end(cs, i, digits) >= i,
    decreases cs.len() - i,
{
    if i < cs.len() {
        lemma_run_end_from(cs, i + 1, digits);
    }
}

/// The characters from `i` up to the end of a run of digits are digits.
proof fn lemma_run_digits(cs: Seq<char>, i: int, k: int)
    requires
        0 <= i <= k < run_end(cs, i, true),
    ensures
        crate::language::text::is_digit(cs[k]),
    decreases cs.len() - i,
{
    if i < k {
        lemma_run_digits(cs, i + 1, k);
    }
}

/// The tokens of a program, or the first error in it.
pub fn scan(input: &String) -> (r: Result<Vec<TokenWithMeta>, ScannerError>)
    ensures
        match r {
            Ok(ts) => scan_text(input@) == Ok::<Seq<STokenWithMeta>, SScannerError>(tokens_view(ts@))
                && ts@.len() <= input@.len(),
            Err(e) => scan_text(input@) == Err::<Seq<STokenWithMeta>, SScannerError>(e@),
        },
{
    let cs = chars_of(input);
    let metas = metas_of(&cs);
    let mut acc: Vec<TokenWithMeta> = Vec::new();
    let mut i: usize = 0;
    proof {
        assert(tokens_view(acc@) =~= Seq::<STokenWithMeta>::empty());
    }
    while i < cs.len()
        invariant
            i <= cs@.len(),
            cs@ == input@,
            metas@.len() == cs@.len(),
            forall|k: int| 0 <= k < cs@.len() ==> #[trigger] metas@[k] == meta_at(cs@, k),
            scan_from(cs@, i as int, tokens_view(acc@)) == scan_text(cs@),
            acc@.len() <= i,
        ensures
            scan_from(cs@, i as int, tokens_view(acc@)) == Ok::<Seq<STokenWithMeta>, SScannerError>(tokens_view(acc@)),
            scan_from(cs@, i as int, tokens_view(acc@)) == scan_text(cs@),
            acc@.len() <= cs@.len(),
        decreases cs.len() - i,
    {
        match token_at_of(&cs, &metas, i) {
            Err(e) => return Err(e),
            Ok((t, next)) => {
                if next <= i {
                    break;
                }
                match t {
                    Some(t) => {
                        let ghost a0 = tokens_view(acc@);
                        let tm = TokenWithMeta { token: t, meta: metas[i] };
                        let ghost tv = tm@;
                        acc.push(tm);
                        proof {
                            assert(tokens_view(acc@) =~= a0.push(tv));
                        }
                    },
                    None => {},
                }
                i = next;
            },
        }
    }
    Ok(acc)
}

/// Text without a backslash.
pub open spec fn no_backslash(s: Seq<char>) -> bool {
    forall|i: int| 0 <= i < s.len() ==> s[i] != '\\'
}

/// A backslash followed by `e`.
pub open spec fn escape_pair(e: char) -> Seq<char> {
    seq!['\\', e]
}

/// The character an escape `\e` stands for, if `e` is one.
pub open spec fn escaped(e: char) -> Option<char> {
    if e == 'n' {
        Some('\n')
    } else if e == 't' {
        Some('\t')
    } else if e == '"' {
        Some('"')
    } else if e == '\'' {
        Some('\'')
    } else {
        None
    }
}

proof fn lemma_replace_absent(w: Seq<char>, from: Seq<char>, to: Seq<char>)
    requires
        from.len() > 0,
        forall|i: int| !#[trigger] occurs_at(w, from, i),
    ensures
        str_replace(w, from, to) == w,
    decreases w.len(),
{
    if w.len() >= from.len() {
        assert(!occurs_at(w, from, 0));
        let d = w.drop_first();
        assert forall|i: int| !#[trigger] occurs_at(d, from, i) by {
            if occurs_at(d, from, i) {
                assert(w.subrange(i + 1, i + 1 + from.len()) =~= d.subrange(i, i + from.len()));
                assert(occurs_at(w, from, i + 1));
            }
        }
        lemma_replace_absent(d, from, to);
        assert(seq![w[0]] + d =~= w);
    }
}

proof fn lemma_no_backslash_no_escape(w: Seq<char>, e: char)
    requires
        no_backslash(w),
    ensures
        forall|i: int| !#[trigger] occurs_at(w, escape_pair(e), i),
{
    assert forall|i: int| !#[trigger] occurs_at(w, escape_pair(e), i) by {
        if occurs_at(w, escape_pair(e), i) {
            assert(w.subrange(i, i + 2)[0] == w[i]);
        }
    }
}

proof fn lemma_replace_one(s: Seq<char>, e: char, t: Seq<char>, to: Seq<char>)
    requires
        no_backslash(s),
        no_backslash(t),
    ensures
        str_replace(s + escape_pair(e) + t, escape_pair(e), to) == s + to + t,
    decreases s.len(),
{
    let from = escape_pair(e);
    let w = s + from + t;
    if s.len() == 0 {
        assert(w =~= from + t);
        assert(w.subrange(0, 2) =~= from);
        assert(w.subrange(2, w.len() as int) =~= t);
        lemma_no_backslash_no_escape(t, e);
        lemma_replace_absent(t, from, to);
        assert(s + to + t =~= to + t);
    } else {
        assert(w[0] == s[0]);
        assert(w.subrange(0, 2)[0] == s[0]);
        assert(!occurs_at(w, from, 0));
        assert(w.drop_first() =~= s.drop_first() + from + t);
        lemma_replace_one(s.drop_first(), e, t, to);
        assert(seq![s[0]] + (s.drop_first() + to + t) =~= s + to + t);
    }
}

/// Unescaping leaves text without a backslash as it is, and turns each escape `\n`, `\t`,
/// `\"` and `\'` into the character it stands for (a newline for `\n`): text around it that
/// has no backslash stays as it is.
pub proof fn law_unescape(s: Seq<char>, e: char, t: Seq<char>)
    requires
        no_backslash(s),
        no_backslash(t),
    ensures
        unescape(s) == s,
        escaped(e) matches Some(c) ==> unescape(s + escape_pair(e) + t) == s + seq![c] + t,
{
    let n = escape_pair('n');
    let q = escape_pair('"');
    let a = escape_pair('\'');
    let tb = escape_pair('t');
    lemma_no_backslash_no_escape(s, 'n');
    lemma_no_backslash_no_escape(s, '"');
    lemma_no_backslash_no_escape(s, '\'');
    lemma_no_backslash_no_escape(s, 't');
    lemma_replace_absent(s, n, seq!['\n']);
    lemma_replace_absent(s, q, seq!['"']);
    lemma_replace_absent(s, a, seq!['\'']);
    lemma_replace_absent(s, tb, seq!['\t']);
    if let Some(c) = escaped(e) {
        let w = s + escape_pair(e) + t;
        let r = s + seq![c] + t;
        assert(no_backslash(r)) by {
            assert forall|i: int| 0 <= i < r.len() implies r[i] != '\\' by {
                if i < s.len() {
                    assert(r[i] == s[i]);
                } else if i == s.len() {
                    assert(r[i] == c);
                } else {
                    assert(r[i] == t[i - s.len() - 1]);
                }
            }
        }
        lemma_no_backslash_no_escape(r, 'n');
        lemma_no_backslash_no_escape(r, '"');
        lemma_no_backslash_no_escape(r, '\'');
        lemma_no_backslash_no_escape(r, 't');
        lemma_replace_absent(r, n, seq!['\n']);
        lemma_replace_absent(r, q, seq!['"']);
        lemma_replace_absent(r, a, seq!['\'']);
        lemma_replace_absent(r, tb, seq!['\t']);
        // The escapes before `e` in the order of replacement do not occur in `w`.
        assert forall|f: char, i: int| f != e implies !#[trigger] occurs_at(w, escape_pair(f), i) by {
            if occurs_at(w, escape_pair(f), i) {
                let sub = w.subrange(i, i + 2);
                assert(sub[0] == w[i]);
                assert(sub[1] == w[i + 1]);
                if i < s.len() {
                    assert(w[i] == s[i]);
                } else if i > s.len() {
                    assert(w[i] == t[i - s.len() - 2]);
                } else {
                    assert(w[i + 1] == e);
                }
            }
        }
        if e == 'n' {
            lemma_replace_one(s, e, t, seq!['\n']);
        } else if e == '"' {
            lemma_replace_absent(w, n, seq!['\n']);
            lemma_replace_one(s, e, t, seq!['"']);
        } else if e == '\'' {
            lemma_replace_absent(w, n, seq!['\n']);
            lemma_replace_absent(w, q, seq!['"']);
            lemma_replace_one(s, e, t, seq!['\'']);
        } else {
            lemma_replace_absent(w, n, seq!['\n']);
            lemma_replace_absent(w, q, seq!['"']);
            lemma_replace_absent(w, a, seq!['\'']);
            lemma_replace_one(s, e, t, seq!['\t']);
        }
    }
}

/// A backslash and `n` in a quoted string become one newline character.
pub proof fn law_unescape_newline(s: Seq<char>, t: Seq<char>)
    requires
        no_backslash(s),
        no_backslash(t),
    ensures
        unescape(s + seq!['\\', 'n'] + t) == s + seq!['\n'] + t,
{
    law_unescape(s, 'n', t);
}

/// How many new lines a text holds.
pub open spec fn newlines(s: Seq<char>) -> nat
    decreases s.len(),
{
    if s.len() == 0 {
        0
    } else {
        newlines(s.drop_last()) + if s.last() == '\n' { 1nat } else { 0nat }
    }
}

/// How many characters a text has after its last new line (all of them when it has none).
pub open spec fn since_newline(s: Seq<char>) -> nat
    decreases s.len(),
{
    if s.len() == 0 {
        0
    } else if s.last() == '\n' {
        0
    } else {
        since_newline(s.drop_last()) + 1
    }
}

/// The position of character `i` is its line, one more than the new lines before it, and its
/// column, one more than the characters between the last of those and it.
pub proof fn law_positions(cs: Seq<char>, i: int)
    requires
        0 <= i <= cs.len(),
        i < usize::MAX,
    ensures
        meta_at(cs, i).line == 1 + newlines(cs.take(i)),
        meta_at(cs, i).col == 1 + since_newline(cs.take(i)),
    decreases i,
{
    if i == 0 {
        assert(cs.take(0) =~= Seq::<char>::empty());
    } else {
        law_positions(cs, i - 1);
        assert(cs.take(i).drop_last() =~= cs.take(i - 1));
        assert(cs.take(i).last() == cs[i - 1]);
        lemma_counts_bounded(cs.take(i - 1));
    }
}

proof fn lemma_counts_bounded(s: Seq<char>)
    ensures
        newlines(s) <= s.len(),
        since_newline(s) <= s.len(),
    decreases s.len(),
{
    if s.len() > 0 {
        lemma_counts_bounded(s.drop_last());
    }
}

/// The operator texts scan to their tokens: `<=`, `>=`, `==`, `!=`, `&&` and `||` take two
/// characters whatever follows; `<`, `>`, `=` and `!` not followed by `=` take one.
pub proof fn law_operator_texts(rest: Seq<char>)
    ensures
        operator_token(seq!['<', '='] + rest, 0) == Some((SToken::LessEqual, 2int)),
        operator_token(seq!['>', '='] + rest, 0) == Some((SToken::GreaterEqual, 2int)),
        operator_token(seq!['=', '='] + rest, 0) == Some((SToken::EqualEqual, 2int)),
        operator_token(seq!['!', '='] + rest, 0) == Some((SToken::BangEqual, 2int)),
        operator_token(seq!['&', '&'] + rest, 0) == Some((SToken::And, 2int)),
        operator_token(seq!['|', '|'] + rest, 0) == Some((SToken::Or, 2int)),
        rest.len() == 0 || rest[0] != '=' ==> operator_token(seq!['<'] + rest, 0) == Some((SToken::Less, 1int))
            && operator_token(seq!['>'] + rest, 0) == Some((SToken::Greater, 1int)) && operator_token(seq!['='] + rest, 0)
            == Some((SToken::Equal, 1int)) && operator_token(seq!['!'] + rest, 0) == Some((SToken::Bang, 1int)),
        operator_token(seq!['+'] + rest, 0) == Some((SToken::Plus, 1int)),
        operator_token(seq!['-'] + rest, 0) == Some((SToken::Minus, 1int)),
        operator_token(seq!['*'] + rest, 0) == Some((SToken::Star, 1int)),
        operator_token(seq!['/'] + rest, 0) == Some((SToken::Slash, 1int)),
        operator_token(seq!['^'] + rest, 0) == Some((SToken::Caret, 1int)),
        operator_token(seq!['?'] + rest, 0) == Some((SToken::QuestionMark, 1int)),
{
    assert((seq!['<', '='] + rest)[1] == '=');
    assert((seq!['>', '='] + rest)[1] == '=');
    assert((seq!['=', '='] + rest)[1] == '=');
    assert((seq!['!', '='] + rest)[1] == '=');
    assert((seq!['&', '&'] + rest)[1] == '&');
    assert((seq!['|', '|'] + rest)[1] == '|');
    if rest.len() > 0 {
        assert((seq!['<'] + rest)[1] == rest[0]);
        assert((seq!['>'] + rest)[1] == rest[0]);
        assert((seq!['='] + rest)[1] == rest[0]);
        assert((seq!['!'] + rest)[1] == rest[0]);
    }
}

} // verus!
