//! Arrays and maps live in cells of the runtime and are shared: every value that refers to
//! a cell sees what is written into it.
use vstd::prelude::*;

use crate::language::assoc::{assoc_get, assoc_insert, lemma_assoc_index};
use crate::language::environment::{deref, rt_lookup, rt_set_cell, SRuntime};
use crate::language::expression::{Operator, SEvalError, SExpr};
use crate::language::semantics::{assign_rel, eval_rel, step1, step2, updated_container};
use crate::language::statement::SStatementError;
use crate::language::value::SValue;

verus! {

/// What a variable holds depends on the environments alone.
pub proof fn lemma_lookup_reads_environments(s: SRuntime, t: SRuntime, env: usize, name: Seq<char>)
    requires
        s.environments == t.environments,
    ensures
        rt_lookup(s, env, name) == rt_lookup(t, env, name),
    decreases env,
{
    if env < s.environments.len() {
        match s.environments[env as int].outer {
            Some(o) => if o < env {
                lemma_lookup_reads_environments(s, t, o, name);
            },
            None => {},
        }
    }
}

/// Writing element `i` of the array in cell `k` is seen through every alias: each variable
/// still holds what it held, so every reference to `k` now reads `v` at `i`, the other
/// elements and the length stay, and every other cell stays as it was.
pub proof fn law_array_write_is_shared(s: SRuntime, k: usize, xs: Seq<SValue>, i: int, v: SValue)
    requires
        k < s.cells.len(),
        s.cells[k as int] == SValue::Array(xs),
        0 <= i < xs.len(),
    ensures
        forall|env: usize, name: Seq<char>|
            #[trigger] rt_lookup(rt_set_cell(s, k, SValue::Array(xs.update(i, v))), env, name) == rt_lookup(s, env, name),
        deref(rt_set_cell(s, k, SValue::Array(xs.update(i, v))), SValue::Reference(k)) matches SValue::Array(ys) && ys.len()
            == xs.len() && ys[i] == v && forall|j: int| 0 <= j < xs.len() && j != i ==> ys[j] == xs[j],
        forall|c: int|
            0 <= c < s.cells.len() && c != k ==> #[trigger] rt_set_cell(s, k, SValue::Array(xs.update(i, v))).cells[c]
                == s.cells[c],
{
    let t = rt_set_cell(s, k, SValue::Array(xs.update(i, v)));
    assert forall|env: usize, name: Seq<char>| #[trigger] rt_lookup(t, env, name) == rt_lookup(s, env, name) by {
        lemma_lookup_reads_environments(t, s, env, name);
    }
}

/// Setting a key of the map in cell `k` is seen through every alias: each variable still
/// holds what it held, and every reference to `k` now reads `v` under `key`.
pub proof fn law_map_write_is_shared(s: SRuntime, k: usize, m: Seq<(SValue, SValue)>, key: SValue, v: SValue)
    requires
        k < s.cells.len(),
        s.cells[k as int] == SValue::HashMap(m),
    ensures
        forall|env: usize, name: Seq<char>|
            #[trigger] rt_lookup(rt_set_cell(s, k, SValue::HashMap(assoc_insert(m, key, v))), env, name) == rt_lookup(
                s,
                env,
                name,
            ),
        deref(rt_set_cell(s, k, SValue::HashMap(assoc_insert(m, key, v))), SValue::Reference(k)) matches SValue::HashMap(
            n,
        ) && assoc_get(n, key) == Some(v),
{
    let t = rt_set_cell(s, k, SValue::HashMap(assoc_insert(m, key, v)));
    assert forall|env: usize, name: Seq<char>| #[trigger] rt_lookup(t, env, name) == rt_lookup(s, env, name) by {
        lemma_lookup_reads_environments(t, s, env, name);
    }
    lemma_assoc_index(m, key);
    let n = assoc_insert(m, key, v);
    if assoc_get(m, key) is None {
        lemma_assoc_index(n, key);
        assert(n[m.len() as int].0 == key);
        assert forall|j: int| 0 <= j < m.len() implies n[j].0 != key by {
            assert(n[j] == m[j]);
        }
        crate::language::assoc::lemma_assoc_index_is(n, key, m.len() as int);
    } else {
        let i = crate::language::assoc::assoc_index(m, key);
        assert forall|j: int| 0 <= j < i implies n[j].0 != key by {
            assert(n[j] == m[j]);
        }
        crate::language::assoc::lemma_assoc_index_is(n, key, i);
    }
}

/// An assignment into an indexed place whose container is a reference writes the updated
/// container into that cell and into nothing else: the operands are evaluated once, the
/// left one and then the index, and the runtime after the write is the one they left with
/// that one cell replaced.
pub proof fn law_indexed_assignment_writes_the_cell(
    f: int,
    left: SExpr,
    right: SExpr,
    v: SValue,
    env: usize,
    s: SRuntime,
    t: SRuntime,
    r: Result<SValue, SStatementError>,
)
    requires
        f >= 1,
        assign_rel(f, SExpr::Binary { operator: Operator::Index, left: Box::new(left), right: Box::new(right) }, v, env, s, t, r),
    ensures
        r is Ok ==> exists|w: (SRuntime, SValue, SRuntime, SValue)|
            #[trigger] step1(w) && eval_rel(f - 1, left, env, s, w.0, Ok(w.1)) && eval_rel(f - 1, right, env, w.0, w.2, Ok(w.3))
                && (w.1 matches SValue::Reference(k) ==> r == Ok::<SValue, SStatementError>(v) && t == rt_set_cell(
                w.2,
                k,
                updated_container(
                    deref(w.2, w.1),
                    w.3,
                    v,
                    SExpr::Binary { operator: Operator::Index, left: Box::new(left), right: Box::new(right) },
                )->Ok_0,
            )),
{
    let target = SExpr::Binary { operator: Operator::Index, left: Box::new(left), right: Box::new(right) };
    let g = f - 1;
    if r is Ok {
        let (s1, rl) = choose|s1: SRuntime, rl: Result<SValue, SEvalError>|
            #[trigger] step2(s1, rl) && eval_rel(g, left, env, s, s1, rl) && match rl {
                Err(x) => t == s1 && r == Err::<SValue, SStatementError>(SStatementError::ExpressionEvaluation(x)),
                Ok(c) => exists|s2: SRuntime, ri: Result<SValue, SEvalError>|
                    #[trigger] step2(s2, ri) && eval_rel(g, right, env, s1, s2, ri) && match ri {
                        Err(x) => t == s2 && r == Err::<SValue, SStatementError>(SStatementError::ExpressionEvaluation(x)),
                        Ok(i) => if c is Reference {
                            match updated_container(deref(s2, c), i, v, target) {
                                Err(x) => t == s2 && r == Err::<SValue, SStatementError>(x),
                                Ok(nc) => t == rt_set_cell(s2, c->Reference_0, nc) && r == Ok::<SValue, SStatementError>(v),
                            }
                        } else {
                            match updated_container(c, i, v, target) {
                                Err(x) => t == s2 && r == Err::<SValue, SStatementError>(x),
                                Ok(nc) => if crate::language::semantics::is_place(left) {
                                    exists|r3: Result<SValue, SStatementError>|
                                        #[trigger] step1(r3) && assign_rel(g, left, nc, env, s2, t, r3) && r == match r3 {
                                            Err(x) => Err::<SValue, SStatementError>(x),
                                            Ok(_) => Ok(v),
                                        }
                                } else {
                                    t == s2 && r == Ok::<SValue, SStatementError>(v)
                                },
                            }
                        },
                    },
            };
        let c = rl->Ok_0;
        let (s2, ri) = choose|s2: SRuntime, ri: Result<SValue, SEvalError>|
            #[trigger] step2(s2, ri) && eval_rel(g, right, env, s1, s2, ri) && match ri {
                Err(x) => t == s2 && r == Err::<SValue, SStatementError>(SStatementError::ExpressionEvaluation(x)),
                Ok(i) => if c is Reference {
                    match updated_container(deref(s2, c), i, v, target) {
                        Err(x) => t == s2 && r == Err::<SValue, SStatementError>(x),
                        Ok(nc) => t == rt_set_cell(s2, c->Reference_0, nc) && r == Ok::<SValue, SStatementError>(v),
                    }
                } else {
                    match updated_container(c, i, v, target) {
                        Err(x) => t == s2 && r == Err::<SValue, SStatementError>(x),
                        Ok(nc) => if crate::language::semantics::is_place(left) {
                            exists|r3: Result<SValue, SStatementError>|
                                #[trigger] step1(r3) && assign_rel(g, left, nc, env, s2, t, r3) && r == match r3 {
                                    Err(x) => Err::<SValue, SStatementError>(x),
                                    Ok(_) => Ok(v),
                                }
                        } else {
                            t == s2 && r == Ok::<SValue, SStatementError>(v)
                        },
                    }
                },
            };
        let w = (s1, c, s2, ri->Ok_0);
        assert(step1(w));
    }
}

} // verus!
