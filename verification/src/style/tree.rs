//! Trees of styles: a style at each node, and child trees under the names of a key.
//!
//! A key such as `button.hovered` names the path from a node to one of its descendants.
use vstd::prelude::*;

use crate::language::assoc::{assoc_get, assoc_index, assoc_insert, lemma_assoc_index, lemma_assoc_index_is};
use crate::language::laws::lemma_assoc_get_insert;
use crate::style::common::{empty_style, gives_all_of, merge_styles, CommonStyle, SCommonStyle};
use crate::style::key::{dot_index, key_base, key_rest_or_empty, lemma_dot_index, lemma_rest_shorter, StyleKey};

verus! {

broadcast use vstd::std_specs::vec::group_vec_axioms;

/// A node of a style tree: its style and its children, each under a key without a dot.
#[derive(Debug)]
pub struct StyleTree {
    style: CommonStyle,
    subtrees: Vec<(StyleKey, StyleTree)>,
}

pub struct STree {
    pub style: SCommonStyle,
    pub subtrees: Seq<(Seq<char>, STree)>,
}

pub closed spec fn tree_view(t: StyleTree) -> STree
    decreases t,
{
    STree { style: t.style@, subtrees: subtrees_view(t.subtrees@) }
}

pub closed spec fn subtrees_view(s: Seq<(StyleKey, StyleTree)>) -> Seq<(Seq<char>, STree)>
    decreases s,
{
    Seq::new(
        s.len(),
        |i: int|
            if 0 <= i < s.len() {
                (s[i].0@, tree_view(s[i].1))
            } else {
                (Seq::empty(), empty_tree())
            },
    )
}

impl View for StyleTree {
    type V = STree;

    closed spec fn view(&self) -> STree {
        tree_view(*self)
    }
}

/* The model */

pub open spec fn empty_tree() -> STree {
    STree { style: empty_style(), subtrees: Seq::empty() }
}

/// The child under `name`, or an empty tree.
pub open spec fn child_or_empty(t: STree, name: Seq<char>) -> STree {
    match assoc_get(t.subtrees, name) {
        Some(c) => c,
        None => empty_tree(),
    }
}

/// The tree with `style` set at the node that `key` names; the nodes on the way that are
/// missing are added, empty.
pub open spec fn tree_insert(t: STree, key: Seq<char>, style: SCommonStyle) -> STree
    decreases key.len(),
{
    if key.len() == 0 {
        STree { style: style, subtrees: t.subtrees }
    } else {
        proof {
            lemma_rest_shorter(key);
        }
        let b = key_base(key);
        STree {
            style: t.style,
            subtrees: assoc_insert(t.subtrees, b, tree_insert(child_or_empty(t, b), key_rest_or_empty(key), style)),
        }
    }
}

/// The tree with `sub` put under the last name of `key`; the nodes on the way that are
/// missing are added, empty.
pub open spec fn tree_nest(t: STree, key: Seq<char>, sub: STree) -> STree
    decreases key.len(),
{
    if dot_index(key) < 0 {
        STree { style: t.style, subtrees: assoc_insert(t.subtrees, key, sub) }
    } else {
        proof {
            lemma_rest_shorter(key);
        }
        let b = key_base(key);
        STree {
            style: t.style,
            subtrees: assoc_insert(t.subtrees, b, tree_nest(child_or_empty(t, b), key_rest_or_empty(key), sub)),
        }
    }
}

/// The style at the node that `key` names, its missing properties taken from the nodes
/// above it; where the path stops, the style of the last node reached.
pub open spec fn tree_get(t: STree, key: Seq<char>) -> SCommonStyle
    decreases key.len(),
{
    if key.len() == 0 {
        t.style
    } else {
        proof {
            lemma_rest_shorter(key);
        }
        match assoc_get(t.subtrees, key_base(key)) {
            Some(c) => merge_styles(tree_get(c, key_rest_or_empty(key)), t.style),
            None => t.style,
        }
    }
}

/// The node that `key` names; where the path stops, the last node reached.
pub open spec fn tree_subtree(t: STree, key: Seq<char>) -> STree
    decreases key.len(),
{
    if key.len() == 0 {
        t
    } else {
        proof {
            lemma_rest_shorter(key);
        }
        match assoc_get(t.subtrees, key_base(key)) {
            Some(c) => tree_subtree(c, key_rest_or_empty(key)),
            None => t,
        }
    }
}

/* The tree */

fn find_subtree(subtrees: &Vec<(StyleKey, StyleTree)>, name: &StyleKey) -> (r: Option<usize>)
    ensures
        match r {
            Some(i) => i == assoc_index(subtrees_view(subtrees@), name@) && i < subtrees@.len(),
            None => assoc_index(subtrees_view(subtrees@), name@) == -1,
        },
{
    let ghost s = subtrees_view(subtrees@);
    let mut i: usize = 0;
    while i < subtrees.len()
        invariant
            i <= subtrees@.len(),
            s == subtrees_view(subtrees@),
            forall|j: int| 0 <= j < i ==> s[j].0 != name@,
        decreases subtrees.len() - i,
    {
        if subtrees[i].0.same(name) {
            proof {
                lemma_assoc_index_is(s, name@, i as int);
            }
            return Some(i);
        }
        i = i + 1;
    }
    proof {
        lemma_assoc_index(s, name@);
    }
    None
}

fn rest_key(rest: Option<StyleKey>) -> (r: StyleKey)
    ensures
        r@ == match rest {
            Some(k) => k@,
            None => Seq::<char>::empty(),
        },
{
    match rest {
        Some(k) => k,
        None => StyleKey::new(String::new()),
    }
}

impl StyleTree {
    /// A node with the empty style and no children.
    pub fn new() -> (r: Self)
        ensures
            r@ == empty_tree(),
    {
        let r = StyleTree { style: CommonStyle::empty(), subtrees: Vec::new() };
        assert(r@.subtrees =~= Seq::<(Seq<char>, STree)>::empty());
        r
    }

    /// Sets the `style` for this style tree node.
    pub fn set_style(&mut self, style: CommonStyle)
        ensures
            final(self)@ == (STree { style: style@, subtrees: old(self)@.subtrees }),
    {
        self.style = style;
    }

    /// Returns the style of this style tree node.
    pub fn style(&self) -> (r: CommonStyle)
        ensures
            r@ == self@.style,
    {
        self.style.copied()
    }

    /// Sets `style` at the node that `key` names (see `tree_insert`).
    pub fn insert(&mut self, key: StyleKey, style: CommonStyle)
        ensures
            final(self)@ == tree_insert(old(self)@, key@, style@),
        decreases key@.len(),
    {
        if key.is_empty() {
            self.set_style(style);
            return;
        }
        proof {
            lemma_rest_shorter(key@);
        }
        let ghost t0 = self@;
        let (base, rest) = key.base_and_rest();
        let rest = rest_key(rest);
        proof {
            lemma_assoc_index(t0.subtrees, base@);
        }
        match find_subtree(&self.subtrees, &base) {
            Some(i) => {
                let ghost before = self.subtrees@;
                let mut pair = (StyleKey::new(String::new()), StyleTree::new());
                std::mem::swap(&mut self.subtrees[i], &mut pair);
                pair.1.insert(rest, style);
                std::mem::swap(&mut self.subtrees[i], &mut pair);
                proof {
                    assert(subtrees_view(self.subtrees@) =~= subtrees_view(before).update(
                        i as int,
                        (base@, tree_insert(child_or_empty(t0, base@), key_rest_or_empty(key@), style@)),
                    ));
                }
            },
            None => {
                let ghost before = self.subtrees@;
                let mut sub = StyleTree::new();
                sub.insert(rest, style);
                self.subtrees.push((base, sub));
                proof {
                    assert(subtrees_view(self.subtrees@) =~= subtrees_view(before).push(
                        (key_base(key@), tree_insert(empty_tree(), key_rest_or_empty(key@), style@)),
                    ));
                }
            },
        }
    }

    /// Puts `subtree` under the last name of `key` (see `tree_nest`).
    pub fn nest(&mut self, key: StyleKey, subtree: StyleTree)
        ensures
            final(self)@ == tree_nest(old(self)@, key@, subtree@),
        decreases key@.len(),
    {
        let ghost t0 = self@;
        if key.is_base() {
            proof {
                lemma_assoc_index(t0.subtrees, key@);
            }
            match find_subtree(&self.subtrees, &key) {
                Some(i) => {
                    let ghost before = self.subtrees@;
                    let mut pair = (key, subtree);
                    std::mem::swap(&mut self.subtrees[i], &mut pair);
                    proof {
                        assert(subtrees_view(self.subtrees@) =~= subtrees_view(before).update(
                            i as int,
                            (key@, subtree@),
                        ));
                    }
                },
                None => {
                    let ghost before = self.subtrees@;
                    let ghost kv = key@;
                    let ghost sv = subtree@;
                    self.subtrees.push((key, subtree));
                    proof {
                        assert(subtrees_view(self.subtrees@) =~= subtrees_view(before).push((kv, sv)));
                    }
                },
            }
            return;
        }
        proof {
            lemma_dot_index(key@);
            lemma_rest_shorter(key@);
        }
        let (base, rest) = key.base_and_rest();
        let rest = rest_key(rest);
        proof {
            lemma_assoc_index(t0.subtrees, base@);
        }
        match find_subtree(&self.subtrees, &base) {
            Some(i) => {
                let ghost before = self.subtrees@;
                let mut pair = (StyleKey::new(String::new()), StyleTree::new());
                std::mem::swap(&mut self.subtrees[i], &mut pair);
                pair.1.nest(rest, subtree);
                std::mem::swap(&mut self.subtrees[i], &mut pair);
                proof {
                    assert(subtrees_view(self.subtrees@) =~= subtrees_view(before).update(
                        i as int,
                        (base@, tree_nest(child_or_empty(t0, base@), key_rest_or_empty(key@), subtree@)),
                    ));
                }
            },
            None => {
                let ghost before = self.subtrees@;
                let mut middle = StyleTree::new();
                middle.nest(rest, subtree);
                self.subtrees.push((base, middle));
                proof {
                    assert(subtrees_view(self.subtrees@) =~= subtrees_view(before).push(
                        (key_base(key@), tree_nest(empty_tree(), key_rest_or_empty(key@), subtree@)),
                    ));
                }
            },
        }
    }

    /// Gets the style from this style tree.
    /// If key is not found, then the style of this node is returned.
    /// Non-defined properties of children styles get overriden by their parents.
    pub fn get(&self, key: StyleKey) -> (r: CommonStyle)
        ensures
            r@ == tree_get(self@, key@),
        decreases key@.len(),
    {
        if key.is_empty() {
            return self.style();
        }
        proof {
            lemma_rest_shorter(key@);
        }
        let (base, rest) = key.base_and_rest();
        let rest = rest_key(rest);
        proof {
            lemma_assoc_index(self@.subtrees, base@);
        }
        match find_subtree(&self.subtrees, &base) {
            Some(i) => {
                let below = self.subtrees[i].1.get(rest);
                below.merge(&self.style)
            },
            None => self.style(),
        }
    }

    /// Returns the whole subtree belonging to the `key`.
    /// Other queries can be made inside this subtree with it acting as a root.
    pub fn subtree(&self, key: StyleKey) -> (r: &StyleTree)
        ensures
            r@ == tree_subtree(self@, key@),
        decreases key@.len(),
    {
        if key.is_empty() {
            return self;
        }
        proof {
            lemma_rest_shorter(key@);
        }
        let (base, rest) = key.base_and_rest();
        let rest = rest_key(rest);
        proof {
            lemma_assoc_index(self@.subtrees, base@);
        }
        match find_subtree(&self.subtrees, &base) {
            Some(i) => self.subtrees[i].1.subtree(rest),
            None => self,
        }
    }
}

/* Laws */

proof fn lemma_gives_all_of_transitive(a: SCommonStyle, b: SCommonStyle, c: SCommonStyle)
    requires
        gives_all_of(a, b),
        gives_all_of(b, c),
    ensures
        gives_all_of(a, c),
{
}

/// After a style is set at a key, the style got at that key gives every property of it.
pub proof fn law_insert_then_get(t: STree, key: Seq<char>, style: SCommonStyle)
    ensures
        gives_all_of(style, tree_get(tree_insert(t, key, style), key)),
    decreases key.len(),
{
    if key.len() > 0 {
        lemma_rest_shorter(key);
        let b = key_base(key);
        let r = key_rest_or_empty(key);
        let c = tree_insert(child_or_empty(t, b), r, style);
        law_insert_then_get(child_or_empty(t, b), r, style);
        lemma_assoc_get_insert(t.subtrees, b, c, b);
        lemma_gives_all_of_transitive(style, tree_get(c, r), merge_styles(tree_get(c, r), t.style));
    }
}

/// Setting a style at a key leaves the style got at a key under another first name, or at
/// the empty key, as it was.
pub proof fn law_insert_keeps_others(t: STree, key: Seq<char>, style: SCommonStyle, other: Seq<char>)
    requires
        key.len() > 0,
        other.len() == 0 || key_base(other) != key_base(key),
    ensures
        tree_get(tree_insert(t, key, style), other) == tree_get(t, other),
{
    if other.len() > 0 {
        let b = key_base(key);
        lemma_assoc_get_insert(
            t.subtrees,
            b,
            tree_insert(child_or_empty(t, b), key_rest_or_empty(key), style),
            key_base(other),
        );
    }
}

/// A tree put under a key is the subtree found at that key, when the key does not end in a
/// dot.
pub proof fn law_nest_then_subtree(t: STree, key: Seq<char>, sub: STree)
    requires
        key.len() > 0,
        key.last() != '.',
    ensures
        tree_subtree(tree_nest(t, key, sub), key) == sub,
    decreases key.len(),
{
    lemma_dot_index(key);
    if dot_index(key) < 0 {
        assert(key_base(key) == key);
        assert(key_rest_or_empty(key) == Seq::<char>::empty());
        assert(tree_subtree(sub, Seq::<char>::empty()) == sub);
        lemma_assoc_get_insert(t.subtrees, key, sub, key);
    } else {
        lemma_rest_shorter(key);
        let b = key_base(key);
        let r = key_rest_or_empty(key);
        assert(r.len() > 0);
        assert(r.last() == key.last());
        law_nest_then_subtree(child_or_empty(t, b), r, sub);
        lemma_assoc_get_insert(t.subtrees, b, tree_nest(child_or_empty(t, b), r, sub), b);
    }
}

/// A key whose first name has no child gets the style of the node itself.
pub proof fn law_get_missing(t: STree, key: Seq<char>)
    requires
        key.len() == 0 || assoc_get(t.subtrees, key_base(key)) is None,
    ensures
        tree_get(t, key) == t.style,
{
}

} // verus!
