//! Keys of styles: names joined by dots, such as `button.hovered`.
use vstd::prelude::*;

use crate::language::text::{append_str, chars_of, string_of_range};

verus! {

broadcast use vstd::std_specs::vec::group_vec_axioms;

/// The position of the first dot of a key, or -1.
pub open spec fn dot_index(s: Seq<char>) -> int
    decreases s.len(),
{
    if s.len() == 0 {
        -1
    } else if s[0] == '.' {
        0
    } else {
        let i = dot_index(s.drop_first());
        if i < 0 {
            -1
        } else {
            i + 1
        }
    }
}

/// Two keys joined by a dot; a key joined with the empty key is itself.
pub open spec fn key_join(a: Seq<char>, b: Seq<char>) -> Seq<char> {
    if b.len() == 0 {
        a
    } else {
        a + seq!['.'] + b
    }
}

/// The part of a key before its first dot (all of it when it has none).
pub open spec fn key_base(s: Seq<char>) -> Seq<char> {
    if dot_index(s) < 0 {
        s
    } else {
        s.take(dot_index(s))
    }
}

/// The part of a key after its first dot, if it has one.
pub open spec fn key_rest(s: Seq<char>) -> Option<Seq<char>> {
    if dot_index(s) < 0 {
        None
    } else {
        Some(s.skip(dot_index(s) + 1))
    }
}

/// The part after the first dot, or the empty key.
pub open spec fn key_rest_or_empty(s: Seq<char>) -> Seq<char> {
    match key_rest(s) {
        Some(r) => r,
        None => Seq::empty(),
    }
}

pub proof fn lemma_dot_index(s: Seq<char>)
    ensures
        -1 <= dot_index(s) < s.len(),
        dot_index(s) >= 0 ==> s[dot_index(s)] == '.',
        forall|j: int| 0 <= j < dot_index(s) ==> s[j] != '.',
        dot_index(s) == -1 ==> forall|j: int| 0 <= j < s.len() ==> s[j] != '.',
    decreases s.len(),
{
    if s.len() > 0 && s[0] != '.' {
        lemma_dot_index(s.drop_first());
        assert forall|j: int| 1 <= j < s.len() implies s[j] == s.drop_first()[j - 1] by {}
    }
}

pub proof fn lemma_dot_index_is(s: Seq<char>, i: int)
    requires
        0 <= i < s.len(),
        s[i] == '.',
        forall|j: int| 0 <= j < i ==> s[j] != '.',
    ensures
        dot_index(s) == i,
{
    lemma_dot_index(s);
}

/// What is left after the first dot is shorter than the key.
pub proof fn lemma_rest_shorter(s: Seq<char>)
    requires
        s.len() > 0,
    ensures
        key_rest_or_empty(s).len() < s.len(),
{
    lemma_dot_index(s);
}

/// The key of a style, such as `button.hovered`.
#[derive(Clone, Debug, Default, Hash, PartialEq, Eq, PartialOrd, Ord)]
pub struct StyleKey {
    key: String,
}

impl View for StyleKey {
    type V = Seq<char>;

    closed spec fn view(&self) -> Seq<char> {
        self.key@
    }
}

fn dot_index_of(cs: &Vec<char>) -> (r: Option<usize>)
    ensures
        match r {
            Some(i) => i == dot_index(cs@) && i < cs@.len(),
            None => dot_index(cs@) == -1,
        },
{
    let mut i: usize = 0;
    while i < cs.len()
        invariant
            i <= cs@.len(),
            forall|j: int| 0 <= j < i ==> cs@[j] != '.',
        decreases cs.len() - i,
    {
        if cs[i] == '.' {
            proof {
                lemma_dot_index_is(cs@, i as int);
            }
            return Some(i);
        }
        i = i + 1;
    }
    proof {
        lemma_dot_index(cs@);
    }
    None
}

impl StyleKey {
    pub fn new(key: String) -> (r: Self)
        ensures
            r@ == key@,
    {
        StyleKey { key }
    }

    /// The key made of the given text.
    pub fn from_text(value: &str) -> (r: Self)
        ensures
            r@ == value@,
    {
        StyleKey { key: value.to_owned() }
    }

    pub fn as_str(&self) -> (r: &str)
        ensures
            r@ == self@,
    {
        self.key.as_str()
    }

    /// Another key with the same text.
    pub fn copied(&self) -> (r: Self)
        ensures
            r@ == self@,
    {
        StyleKey { key: self.key.clone() }
    }

    /// Whether the two keys have the same text.
    pub fn same(&self, other: &StyleKey) -> (r: bool)
        ensures
            r == (self@ == other@),
    {
        self.key == other.key
    }

    /// This key, a dot and `other`; this key alone when `other` is empty.
    pub fn join(self, other: &StyleKey) -> (r: Self)
        ensures
            r@ == key_join(self@, other@),
    {
        if other.is_empty() {
            return self;
        }
        let mut key = self.key;
        append_str(&mut key, &String::from_str("."));
        append_str(&mut key, &other.key);
        proof {
            reveal_strlit(".");
        }
        StyleKey { key }
    }

    /// Whether the key has no dot.
    pub fn is_base(&self) -> (r: bool)
        ensures
            r == (dot_index(self@) < 0),
    {
        let cs = chars_of(&self.key);
        dot_index_of(&cs).is_none()
    }

    pub fn is_empty(&self) -> (r: bool)
        ensures
            r == (self@.len() == 0),
    {
        self.key.unicode_len() == 0
    }

    /// The part before the first dot and, if there is a dot, the part after it.
    pub fn base_and_rest(&self) -> (r: (StyleKey, Option<StyleKey>))
        ensures
            r.0@ == key_base(self@),
            match r.1 {
                Some(rest) => key_rest(self@) == Some(rest@),
                None => key_rest(self@) is None,
            },
    {
        let cs = chars_of(&self.key);
        match dot_index_of(&cs) {
            Some(i) => {
                let base = string_of_range(&cs, 0, i);
                let rest = string_of_range(&cs, i + 1, cs.len());
                proof {
                    assert(cs@.subrange(0, i as int) =~= cs@.take(i as int));
                    assert(cs@.subrange(i as int + 1, cs@.len() as int) =~= cs@.skip(i as int + 1));
                }
                (StyleKey { key: base }, Some(StyleKey { key: rest }))
            },
            None => (self.copied(), None),
        }
    }
}

/// What a status of an interactive element is called in a style key.
pub trait AsStyleKey {
    fn as_style_key(&self) -> StyleKey;
}

/// The states an interactive element can be in.
#[derive(Clone, Copy, Debug, PartialEq, Eq, Structural)]
pub enum Status {
    Active,
    Hovered,
    Pressed,
    Disabled,
    Focused,
    Dragged,
}

pub open spec fn status_name(s: Status) -> Seq<char> {
    match s {
        Status::Active => "active"@,
        Status::Hovered => "hovered"@,
        Status::Pressed => "pressed"@,
        Status::Disabled => "disabled"@,
        Status::Focused => "focused"@,
        Status::Dragged => "dragged"@,
    }
}

impl AsStyleKey for Status {
    fn as_style_key(&self) -> (r: StyleKey)
        ensures
            r@ == status_name(*self),
    {
        match self {
            Status::Active => StyleKey::from_text("active"),
            Status::Hovered => StyleKey::from_text("hovered"),
            Status::Pressed => StyleKey::from_text("pressed"),
            Status::Disabled => StyleKey::from_text("disabled"),
            Status::Focused => StyleKey::from_text("focused"),
            Status::Dragged => StyleKey::from_text("dragged"),
        }
    }
}

/// Joining a key without a dot to a non-empty key, and then parting the result at its
/// first dot, gives the two keys back.
pub proof fn law_base_and_rest_undo_join(a: Seq<char>, b: Seq<char>)
    requires
        dot_index(a) < 0,
        b.len() > 0,
    ensures
        key_base(key_join(a, b)) == a,
        key_rest(key_join(a, b)) == Some(b),
{
    let j = key_join(a, b);
    lemma_dot_index(a);
    assert(j[a.len() as int] == '.');
    assert forall|k: int| 0 <= k < a.len() implies j[k] != '.' by {
        assert(j[k] == a[k]);
    }
    lemma_dot_index_is(j, a.len() as int);
    assert(j.take(a.len() as int) =~= a);
    assert(j.skip(a.len() as int + 1) =~= b);
}

/// Joining the empty key changes nothing.
pub proof fn law_join_empty(a: Seq<char>)
    ensures
        key_join(a, Seq::empty()) == a,
{
}

/// Joining a key's base and rest gives the key back, unless the key ends in its first dot
/// (then the rest is empty and the dot is lost); a key without a dot is its own base.
pub proof fn law_join_base_and_rest(k: Seq<char>)
    ensures
        key_rest(k) is None ==> key_base(k) == k,
        key_rest(k) is Some && key_rest(k)->0.len() > 0 ==> key_join(key_base(k), key_rest(k)->0) == k,
{
    lemma_dot_index(k);
    if dot_index(k) >= 0 {
        let i = dot_index(k);
        assert(k.take(i) + seq!['.'] + k.skip(i + 1) =~= k);
    }
}

} // verus!
