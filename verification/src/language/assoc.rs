//! Association lists: sequences of key and value pairs in which the first
//! occurrence of a key is the one that counts.
use vstd::prelude::*;

use crate::language::value::{named_values_view, opt_value_view, pairs_view, value_eq, SValue, Value};

verus! {

/// The position of the first pair with key `k`, or -1.
pub open spec fn assoc_index<K, V>(s: Seq<(K, V)>, k: K) -> int
    decreases s.len(),
{
    if s.len() == 0 {
        -1
    } else if s[0].0 == k {
        0
    } else {
        let i = assoc_index(s.drop_first(), k);
        if i < 0 {
            -1
        } else {
            i + 1
        }
    }
}

pub open spec fn assoc_get<K, V>(s: Seq<(K, V)>, k: K) -> Option<V> {
    let i = assoc_index(s, k);
    if i < 0 {
        None
    } else {
        Some(s[i].1)
    }
}

/// Replaces the value of the first pair with key `k`, or appends the pair.
pub open spec fn assoc_insert<K, V>(s: Seq<(K, V)>, k: K, v: V) -> Seq<(K, V)> {
    let i = assoc_index(s, k);
    if i < 0 {
        s.push((k, v))
    } else {
        s.update(i, (k, v))
    }
}

/// Inserts every pair of `t` into `s`, in order.
pub open spec fn assoc_extend<K, V>(s: Seq<(K, V)>, t: Seq<(K, V)>) -> Seq<(K, V)>
    decreases t.len(),
{
    if t.len() == 0 {
        s
    } else {
        assoc_insert(assoc_extend(s, t.drop_last()), t.last().0, t.last().1)
    }
}

pub proof fn lemma_assoc_index<K, V>(s: Seq<(K, V)>, k: K)
    ensures
        -1 <= assoc_index(s, k) < s.len(),
        assoc_index(s, k) == -1 <==> (forall|j: int| 0 <= j < s.len() ==> s[j].0 != k),
        assoc_index(s, k) >= 0 ==> s[assoc_index(s, k)].0 == k,
        forall|j: int| 0 <= j < assoc_index(s, k) ==> s[j].0 != k,
    decreases s.len(),
{
    if s.len() > 0 && s[0].0 != k {
        lemma_assoc_index(s.drop_first(), k);
        assert forall|j: int| 1 <= j < s.len() implies s[j].0 == s.drop_first()[j - 1].0 by {}
        if assoc_index(s.drop_first(), k) == -1 {
            assert forall|j: int| 0 <= j < s.len() implies s[j].0 != k by {
                if j > 0 {
                    assert(s[j] == s.drop_first()[j - 1]);
                }
            }
        }
    }
}

/// The characterisation of the first position.
pub proof fn lemma_assoc_index_is<K, V>(s: Seq<(K, V)>, k: K, i: int)
    requires
        0 <= i < s.len(),
        s[i].0 == k,
        forall|j: int| 0 <= j < i ==> s[j].0 != k,
    ensures
        assoc_index(s, k) == i,
{
    lemma_assoc_index(s, k);
}

/// Finds the first variable called `name`.
pub fn find_name(vars: &Vec<(String, Value)>, name: &String) -> (r: Option<usize>)
    ensures
        match r {
            Some(i) => i == assoc_index(named_values_view(vars@), name@),
            None => assoc_index(named_values_view(vars@), name@) == -1,
        },
{
    let ghost s = named_values_view(vars@);
    let mut i: usize = 0;
    while i < vars.len()
        invariant
            i <= vars.len(),
            s == named_values_view(vars@),
            forall|j: int| 0 <= j < i ==> s[j].0 != name@,
        decreases vars.len() - i,
    {
        if vars[i].0 == *name {
            proof {
                lemma_assoc_index_is(s, name@, i as int);
            }
            return Some(i);
        }
        i = i + 1;
    }
    proof {
        lemma_assoc_index(s, name@);
    }
    None
}

/// Finds the first pair whose key equals `key`.
pub fn find_key(pairs: &Vec<(Value, Value)>, key: &Value) -> (r: Option<usize>)
    ensures
        match r {
            Some(i) => i == assoc_index(pairs_view(pairs@), key@),
            None => assoc_index(pairs_view(pairs@), key@) == -1,
        },
{
    let ghost s = pairs_view(pairs@);
    let mut i: usize = 0;
    while i < pairs.len()
        invariant
            i <= pairs.len(),
            s == pairs_view(pairs@),
            forall|j: int| 0 <= j < i ==> s[j].0 != key@,
        decreases pairs.len() - i,
    {
        if value_eq(&pairs[i].0, key) {
            proof {
                lemma_assoc_index_is(s, key@, i as int);
            }
            return Some(i);
        }
        i = i + 1;
    }
    proof {
        lemma_assoc_index(s, key@);
    }
    None
}

/// Sets the value of the first variable called `name`, or appends the variable;
/// returns the value it replaced.
pub fn insert_named(vars: &mut Vec<(String, Value)>, name: String, value: Value) -> (r: Option<Value>)
    ensures
        named_values_view(final(vars)@) == assoc_insert(named_values_view(old(vars)@), name@, value@),
        opt_value_view(r) == assoc_get(named_values_view(old(vars)@), name@),
{
    let ghost s = named_values_view(vars@);
    proof {
        lemma_assoc_index(s, name@);
    }
    match find_name(vars, &name) {
        Some(i) => {
            let mut old_pair = (name, value);
            std::mem::swap(&mut vars[i], &mut old_pair);
            proof {
                assert(named_values_view(vars@) =~= s.update(i as int, (name@, value@)));
            }
            Some(old_pair.1)
        },
        None => {
            vars.push((name, value));
            proof {
                assert(named_values_view(vars@) =~= s.push((name@, value@)));
            }
            None
        },
    }
}

/// Sets the value of the first pair whose key is `key`, or appends the pair.
pub fn insert_pair(pairs: &mut Vec<(Value, Value)>, key: Value, value: Value)
    ensures
        pairs_view(final(pairs)@) == assoc_insert(pairs_view(old(pairs)@), key@, value@),
{
    let ghost s = pairs_view(pairs@);
    proof {
        lemma_assoc_index(s, key@);
    }
    match find_key(pairs, &key) {
        Some(i) => {
            let mut old_pair = (key, value);
            std::mem::swap(&mut pairs[i], &mut old_pair);
            proof {
                assert(pairs_view(pairs@) =~= s.update(i as int, (key@, value@)));
            }
        },
        None => {
            pairs.push((key, value));
            proof {
                assert(pairs_view(pairs@) =~= s.push((key@, value@)));
            }
        },
    }
}

} // verus!
