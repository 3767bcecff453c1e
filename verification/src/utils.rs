//! Small helpers: ASCII case, the simple case of keys, and values read back from the
//! language.
use vstd::prelude::*;

use std::rc::Rc;

use crate::language::text::{chars_of, push_char};
use crate::language::value::{SValue, Value};

verus! {

broadcast use vstd::std_specs::vec::group_vec_axioms;

pub open spec fn is_ascii_upper(c: char) -> bool {
    'A' <= c <= 'Z'
}

pub open spec fn is_ascii_alphanumeric(c: char) -> bool {
    ('0' <= c <= '9') || ('a' <= c <= 'z') || ('A' <= c <= 'Z')
}

/// The code of a character with ASCII upper case letters taken to lower case.
pub open spec fn lower_code(c: char) -> u32 {
    if is_ascii_upper(c) {
        (c as u32 + 32) as u32
    } else {
        c as u32
    }
}

/// A character with an ASCII upper case letter taken to lower case.
pub open spec fn ascii_lower(c: char) -> char {
    if is_ascii_upper(c) {
        ((c as u8) + 32) as u8 as char
    } else {
        c
    }
}

/// Equal when ASCII letters are compared without their case.
pub open spec fn eq_ignore_ascii_case(a: Seq<char>, b: Seq<char>) -> bool {
    a.len() == b.len() && forall|i: int| 0 <= i < a.len() ==> #[trigger] lower_code(a[i]) == lower_code(b[i])
}

/// The ASCII letters and digits of a text, letters in lower case; everything else dropped.
pub open spec fn simple_case(s: Seq<char>) -> Seq<char>
    decreases s.len(),
{
    if s.len() == 0 {
        Seq::empty()
    } else if is_ascii_alphanumeric(s.last()) {
        simple_case(s.drop_last()).push(ascii_lower(s.last()))
    } else {
        simple_case(s.drop_last())
    }
}

fn lower_code_of(c: char) -> (r: u32)
    ensures
        r == lower_code(c),
{
    if 'A' <= c && c <= 'Z' {
        (c as u32) + 32
    } else {
        c as u32
    }
}

/// Whether two texts are equal when ASCII letters are compared without their case.
pub fn eq_ignore_ascii_case_of(a: &String, b: &String) -> (r: bool)
    ensures
        r == eq_ignore_ascii_case(a@, b@),
{
    let x = chars_of(a);
    let y = chars_of(b);
    if x.len() != y.len() {
        return false;
    }
    let mut i: usize = 0;
    while i < x.len()
        invariant
            i <= x@.len(),
            x@ == a@,
            y@ == b@,
            x@.len() == y@.len(),
            forall|j: int| 0 <= j < i ==> #[trigger] lower_code(x@[j]) == lower_code(y@[j]),
        decreases x.len() - i,
    {
        if lower_code_of(x[i]) != lower_code_of(y[i]) {
            return false;
        }
        i = i + 1;
    }
    true
}

/// A text written in its simple case: only its ASCII letters, in lower case, and digits.
#[derive(Clone, Copy, Debug)]
pub struct SimpleCase<'a> {
    text: &'a str,
}

impl<'a> SimpleCase<'a> {
    pub fn new(string: &'a str) -> (r: Self)
        ensures
            r.text() == string@,
    {
        SimpleCase { text: string }
    }

    pub closed spec fn text(&self) -> Seq<char> {
        self.text@
    }

    /// The text in its simple case.
    pub fn to_simple_string(&self) -> (r: String)
        ensures
            r@ == simple_case(self.text()),
    {
        let owned = self.text.to_owned();
        let cs = chars_of(&owned);
        let mut out = String::new();
        let mut i: usize = 0;
        while i < cs.len()
            invariant
                i <= cs@.len(),
                cs@ == self.text(),
                out@ == simple_case(cs@.take(i as int)),
            decreases cs.len() - i,
        {
            let c = cs[i];
            proof {
                assert(cs@.take(i as int + 1).drop_last() =~= cs@.take(i as int));
            }
            if ('0' <= c && c <= '9') || ('a' <= c && c <= 'z') {
                push_char(&mut out, c);
            } else if 'A' <= c && c <= 'Z' {
                let lower = ((c as u8) + 32) as char;
                push_char(&mut out, lower);
            }
            i = i + 1;
        }
        proof {
            assert(cs@.take(i as int) =~= cs@);
        }
        out
    }
}

/// A value of the language read as a value of the library.
pub trait TryFromValue: Sized {
    fn try_from_value(value: &Value) -> Option<Self>;
}

impl TryFromValue for Value {
    fn try_from_value(value: &Value) -> (r: Option<Self>)
        ensures
            r matches Some(v) && v@ == value@,
    {
        Some(value.deep_clone())
    }
}

/// A copy of the value behind a shared pointer.
pub trait CloneInner {
    type Inner;

    fn clone_inner(&self) -> Self::Inner;
}

impl CloneInner for Rc<String> {
    type Inner = String;

    fn clone_inner(&self) -> (r: String)
        ensures
            r == **self,
    {
        (**self).clone()
    }
}

} // verus!
