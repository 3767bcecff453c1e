//! A sequence that can be looked ahead into before its items are taken.
use vstd::prelude::*;

verus! {

/// The items not taken yet, in order.
pub struct MultiPeekable<T> {
    items: Vec<T>,
}

impl<T> View for MultiPeekable<T> {
    type V = Seq<T>;

    closed spec fn view(&self) -> Seq<T> {
        self.items@
    }
}

impl<T> MultiPeekable<T> {
    pub fn new(items: Vec<T>) -> (r: Self)
        ensures
            r@ == items@,
    {
        MultiPeekable { items }
    }

    /// The next item, without taking it.
    pub fn peek(&self) -> (r: Option<&T>)
        ensures
            r == if self@.len() > 0 {
                Some(&self@[0])
            } else {
                None::<&T>
            },
    {
        if self.items.len() > 0 {
            Some(&self.items[0])
        } else {
            None
        }
    }

    /// The next `count` items (fewer when fewer are left), without taking them.
    pub fn multi_peek(&self, count: usize) -> (r: &[T])
        ensures
            r@ == self@.take(if count < self@.len() { count as int } else { self@.len() as int }),
    {
        let n = if count < self.items.len() {
            count
        } else {
            self.items.len()
        };
        vstd::slice::slice_subrange(self.items.as_slice(), 0, n)
    }

    /// Takes the next item.
    pub fn next(&mut self) -> (r: Option<T>)
        ensures
            old(self)@.len() == 0 ==> r is None && final(self)@ == old(self)@,
            old(self)@.len() > 0 ==> r == Some(old(self)@[0]) && final(self)@ == old(self)@.drop_first(),
    {
        if self.items.len() == 0 {
            None
        } else {
            let first = self.items.remove(0);
            proof {
                assert(self.items@ =~= old(self)@.drop_first());
            }
            Some(first)
        }
    }
}

/// The items left after `k` items were taken.
pub open spec fn after_taking<T>(s: Seq<T>, k: nat) -> Seq<T>
    decreases k,
{
    if k == 0 || s.len() == 0 {
        s
    } else {
        after_taking(s.drop_first(), (k - 1) as nat)
    }
}

proof fn lemma_after_taking<T>(s: Seq<T>, k: nat)
    requires
        k <= s.len(),
    ensures
        after_taking(s, k) == s.skip(k as int),
    decreases k,
{
    if k == 0 {
        assert(s.skip(0) =~= s);
    } else {
        lemma_after_taking(s.drop_first(), (k - 1) as nat);
        assert(s.drop_first().skip(k - 1) =~= s.skip(k as int));
    }
}

/// Peeking neither drops, repeats nor reorders items: the `k`-th item of a peek at `count`
/// items is the item that the next call of `next` gives after `k` items were taken, and the
/// peek holds as many items as that many calls give.
pub proof fn law_peek_agrees_with_next<T>(s: Seq<T>, count: nat, k: nat)
    requires
        k < count,
        k < s.len(),
    ensures
        s.take(if count < s.len() { count as int } else { s.len() as int })[k as int] == after_taking(s, k)[0],
        s.take(if count < s.len() { count as int } else { s.len() as int }).len() == if count < s.len() {
            count
        } else {
            s.len()
        },
{
    lemma_after_taking(s, k);
}

/// A call on a `MultiPeekable`: `peek`, `multi_peek` with a count, or `next`.
pub enum PeekStep {
    Peek,
    MultiPeek(usize),
    Next,
}

/// The items left, and the items `next` gave in order, after the calls `steps` in turn on a
/// sequence holding `s` (as the contracts of the three methods say).
pub open spec fn run_steps<T>(s: Seq<T>, steps: Seq<PeekStep>) -> (Seq<T>, Seq<T>)
    decreases steps.len(),
{
    if steps.len() == 0 {
        (s, Seq::empty())
    } else {
        match steps[0] {
            PeekStep::Next => if s.len() > 0 {
                let (left, given) = run_steps(s.drop_first(), steps.drop_first());
                (left, seq![s[0]] + given)
            } else {
                run_steps(s, steps.drop_first())
            },
            _ => run_steps(s, steps.drop_first()),
        }
    }
}

/// How many of the calls are `next`.
pub open spec fn count_next(steps: Seq<PeekStep>) -> nat
    decreases steps.len(),
{
    if steps.len() == 0 {
        0
    } else {
        (if steps[0] is Next {
            1nat
        } else {
            0nat
        }) + count_next(steps.drop_first())
    }
}

/// Whatever way calls of `peek`, `multi_peek` and `next` are interleaved, the calls of `next`
/// give the items in order, none dropped or repeated: as many of the first items as there
/// were calls (or all of them), and the rest are left.
pub proof fn law_interleaving_keeps_order<T>(s: Seq<T>, steps: Seq<PeekStep>)
    ensures
        run_steps(s, steps).1 == s.take(if count_next(steps) < s.len() { count_next(steps) as int } else { s.len() as int }),
        run_steps(s, steps).0 == s.skip(if count_next(steps) < s.len() { count_next(steps) as int } else { s.len() as int }),
    decreases steps.len(),
{
    if steps.len() == 0 {
        assert(s.take(0) =~= Seq::<T>::empty());
        assert(s.skip(0) =~= s);
    } else {
        let rest = steps.drop_first();
        match steps[0] {
            PeekStep::Next => if s.len() > 0 {
                law_interleaving_keeps_order(s.drop_first(), rest);
                let n = count_next(rest);
                let m = if n < s.len() - 1 { n as int } else { s.len() - 1 };
                assert(seq![s[0]] + s.drop_first().take(m) =~= s.take(m + 1));
                assert(s.drop_first().skip(m) =~= s.skip(m + 1));
            } else {
                law_interleaving_keeps_order(s, rest);
                assert(s.take(0) =~= s.take(count_next(rest) as int).take(0));
            },
            _ => {
                law_interleaving_keeps_order(s, rest);
            },
        }
    }
}

} // verus!
