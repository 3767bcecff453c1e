//! Libraries: named values that can be imported into an environment.
use vstd::prelude::*;

use crate::language::assoc::{assoc_extend, assoc_insert, insert_named};
use crate::language::laws::{keys_unique, law_extend_keeps_keys_unique, law_insert_keeps_keys_unique};
use crate::language::value::{named_values_view, SValue, Value};

verus! {

/// Named values, in order. Adding a value under a name that is there replaces it.
#[derive(Debug)]
pub struct Library {
    values: Vec<(String, Value)>,
}

impl View for Library {
    type V = Seq<(Seq<char>, SValue)>;

    closed spec fn view(&self) -> Seq<(Seq<char>, SValue)> {
        named_values_view(self.values@)
    }
}

impl Library {
    /// The empty library.
    pub fn new() -> (r: Self)
        ensures
            r@ == Seq::<(Seq<char>, SValue)>::empty(),
            keys_unique(r@),
    {
        let r = Library { values: Vec::new() };
        assert(r@ =~= Seq::<(Seq<char>, SValue)>::empty());
        r
    }

    /// Adds a value under `name`, replacing a value of the same name.
    pub fn define(&mut self, name: String, value: Value)
        ensures
            final(self)@ == assoc_insert(old(self)@, name@, value@),
            keys_unique(old(self)@) ==> keys_unique(final(self)@),
    {
        proof {
            if keys_unique(self@) {
                law_insert_keeps_keys_unique(self@, name@, value@);
            }
        }
        insert_named(&mut self.values, name, value);
    }

    /// Adds the values of `other`, which replace values of the same names.
    pub fn extend(&mut self, other: Self)
        ensures
            final(self)@ == assoc_extend(old(self)@, other@),
            keys_unique(old(self)@) ==> keys_unique(final(self)@),
    {
        proof {
            if keys_unique(self@) {
                law_extend_keeps_keys_unique(self@, other@);
            }
        }
        let ghost s0 = self@;
        let ghost o = other@;
        let mut i: usize = 0;
        while i < other.values.len()
            invariant
                i <= other.values@.len(),
                o == named_values_view(other.values@),
                self@ == assoc_extend(s0, o.take(i as int)),
            decreases other.values.len() - i,
        {
            let name = other.values[i].0.clone();
            let value = other.values[i].1.deep_clone();
            self.define(name, value);
            i = i + 1;
            proof {
                assert(o.take(i as int).drop_last() =~= o.take(i as int - 1));
            }
        }
        proof {
            assert(o.take(i as int) =~= o);
        }
    }

    /// This library with the values of `other` added.
    pub fn merge(self, other: Self) -> (r: Self)
        ensures
            r@ == assoc_extend(self@, other@),
            keys_unique(self@) ==> keys_unique(r@),
    {
        let mut lib = self;
        lib.extend(other);
        lib
    }

    /// The named values, in order.
    pub fn into_entries(self) -> (r: Vec<(String, Value)>)
        ensures
            named_values_view(r@) == self@,
    {
        self.values
    }

    /// A library holding the given named values, in order.
    pub fn from_entries(entries: Vec<(String, Value)>) -> (r: Self)
        ensures
            r@ == named_values_view(entries@),
    {
        Library { values: entries }
    }
}

} // verus!
