//! What a binary expression gives from its operands, and expressions that call nothing and
//! run no block: what they give, and the runtime they leave, are determined by the runtime
//! they start from.
use vstd::prelude::*;

use crate::language::assoc::assoc_insert;
use crate::language::environment::{deref, rt_push_cell, SRuntime};
use crate::language::expression::{Operator, SEvalError, SExpr};
use crate::language::semantics::{
    binary_step, eval_rel, is_short_circuit, list_rel, map_literal_rel, or_null, short_circuit_left,
    short_circuit_right, step1, step2, step3, step5, unary_result,
};
use crate::language::value::SValue;

verus! {

/// Values, variables, and unary, binary, array and map expressions made of such.
pub open spec fn is_pure(e: SExpr) -> bool
    decreases e,
{
    match e {
        SExpr::Value(_) => true,
        SExpr::Variable(_) => true,
        SExpr::Unary { operand, .. } => is_pure(*operand),
        SExpr::Binary { left, right, .. } => is_pure(*left) && is_pure(*right),
        SExpr::Array(es) => forall|i: int| 0 <= i < es.len() ==> is_pure(#[trigger] es[i]),
        SExpr::HashMap(ps) => forall|i: int|
            0 <= i < ps.len() ==> is_pure(#[trigger] ps[i].0) && is_pure(ps[i].1),
        _ => false,
    }
}

/// A pure expression whose evaluation nests at most `n` deep: fuel `n` carries it to its end.
pub open spec fn fits(e: SExpr, n: int) -> bool
    decreases e,
{
    1 <= n && match e {
        SExpr::Value(_) => true,
        SExpr::Variable(_) => true,
        SExpr::Unary { operand, .. } => fits(*operand, n - 1),
        SExpr::Binary { left, right, .. } => fits(*left, n - 1) && fits(*right, n - 1),
        SExpr::Array(es) => forall|i: int| 0 <= i < es.len() ==> fits(#[trigger] es[i], n - 1),
        SExpr::HashMap(ps) => forall|i: int|
            0 <= i < ps.len() ==> fits(#[trigger] ps[i].0, n - 1) && fits(ps[i].1, n - 1),
        _ => false,
    }
}

/// Every key and every value of a map literal is pure.
pub open spec fn pairs_pure(ps: Seq<(SExpr, SExpr)>) -> bool {
    forall|i: int| 0 <= i < ps.len() ==> is_pure(#[trigger] ps[i].0) && is_pure(ps[i].1)
}

/// Every key and every value of a map literal fits within `n`.
pub open spec fn pairs_fit(ps: Seq<(SExpr, SExpr)>, n: int) -> bool {
    forall|i: int| 0 <= i < ps.len() ==> fits(#[trigger] ps[i].0, n) && fits(ps[i].1, n)
}

/// What a binary expression gives, and the runtime it leaves, from what its left operand
/// gave (`r1`, leaving `s1`) and what its right operand gave after it (`r2`, leaving `s2`):
/// `And`, `Or` and `??` stop at a left operand that decides them.
pub open spec fn binary_outcome(
    op: Operator,
    s1: SRuntime,
    r1: Result<SValue, SEvalError>,
    s2: SRuntime,
    r2: Result<SValue, SEvalError>,
) -> (SRuntime, Result<SValue, SEvalError>) {
    match r1 {
        Err(x) => (s1, Err(x)),
        Ok(lv) => if is_short_circuit(op) && short_circuit_left(s1, op, lv) is Some {
            (s1, Ok(short_circuit_left(s1, op, lv)->0))
        } else {
            match r2 {
                Err(x) => (s2, Err(x)),
                Ok(rv) => if is_short_circuit(op) {
                    (s2, Ok(short_circuit_right(s2, op, rv)))
                } else {
                    binary_step(s2, op, lv, rv)
                },
            }
        },
    }
}

/// Two evaluations of a pure expression from one runtime give the same result and leave
/// the same runtime: with the same fuel, or with any two fuels within which it fits.
pub proof fn law_pure_deterministic(
    fa: int,
    fb: int,
    e: SExpr,
    env: usize,
    s: SRuntime,
    ta: SRuntime,
    ra: Result<SValue, SEvalError>,
    tb: SRuntime,
    rb: Result<SValue, SEvalError>,
)
    requires
        is_pure(e),
        fa == fb || (fits(e, fa) && fits(e, fb)),
        eval_rel(fa, e, env, s, ta, ra),
        eval_rel(fb, e, env, s, tb, rb),
    ensures
        ta == tb,
        ra == rb,
    decreases fa, 1nat,
{
    if fa > 0 {
        let ga = fa - 1;
        let gb = fb - 1;
        match e {
            SExpr::Value(_) => {},
            SExpr::Variable(_) => {},
            SExpr::Unary { operator, operand } => {
                let (sa, xa) = choose|s1: SRuntime, r1: Result<SValue, SEvalError>|
                    #[trigger] step2(s1, r1) && eval_rel(ga, *operand, env, s, s1, r1) && ta == s1 && match r1 {
                        Err(x) => ra == Err::<SValue, SEvalError>(x),
                        Ok(v) => ra == unary_result(operator, deref(s1, v)),
                    };
                let (sb, xb) = choose|s1: SRuntime, r1: Result<SValue, SEvalError>|
                    #[trigger] step2(s1, r1) && eval_rel(gb, *operand, env, s, s1, r1) && tb == s1 && match r1 {
                        Err(x) => rb == Err::<SValue, SEvalError>(x),
                        Ok(v) => rb == unary_result(operator, deref(s1, v)),
                    };
                law_pure_deterministic(ga, gb, *operand, env, s, sa, xa, sb, xb);
            },
            SExpr::Binary { operator, left, right } => {
                let (sa, xa) = choose|s1: SRuntime, r1: Result<SValue, SEvalError>|
                    #[trigger] step2(s1, r1) && eval_rel(ga, *left, env, s, s1, r1) && match r1 {
                        Err(x) => ta == s1 && ra == Err::<SValue, SEvalError>(x),
                        Ok(lv) => if is_short_circuit(operator) && short_circuit_left(s1, operator, lv) is Some {
                            ta == s1 && ra == Ok::<SValue, SEvalError>(short_circuit_left(s1, operator, lv)->0)
                        } else {
                            exists|s2: SRuntime, r2: Result<SValue, SEvalError>|
                                #[trigger] step2(s2, r2) && eval_rel(ga, *right, env, s1, s2, r2) && match r2 {
                                    Err(x) => ta == s2 && ra == Err::<SValue, SEvalError>(x),
                                    Ok(rv) => if is_short_circuit(operator) {
                                        ta == s2 && ra == Ok::<SValue, SEvalError>(short_circuit_right(s2, operator, rv))
                                    } else {
                                        (ta, ra) == binary_step(s2, operator, lv, rv)
                                    },
                                }
                        },
                    };
                let (sb, xb) = choose|s1: SRuntime, r1: Result<SValue, SEvalError>|
                    #[trigger] step2(s1, r1) && eval_rel(gb, *left, env, s, s1, r1) && match r1 {
                        Err(x) => tb == s1 && rb == Err::<SValue, SEvalError>(x),
                        Ok(lv) => if is_short_circuit(operator) && short_circuit_left(s1, operator, lv) is Some {
                            tb == s1 && rb == Ok::<SValue, SEvalError>(short_circuit_left(s1, operator, lv)->0)
                        } else {
                            exists|s2: SRuntime, r2: Result<SValue, SEvalError>|
                                #[trigger] step2(s2, r2) && eval_rel(gb, *right, env, s1, s2, r2) && match r2 {
                                    Err(x) => tb == s2 && rb == Err::<SValue, SEvalError>(x),
                                    Ok(rv) => if is_short_circuit(operator) {
                                        tb == s2 && rb == Ok::<SValue, SEvalError>(short_circuit_right(s2, operator, rv))
                                    } else {
                                        (tb, rb) == binary_step(s2, operator, lv, rv)
                                    },
                                }
                        },
                    };
                law_pure_deterministic(ga, gb, *left, env, s, sa, xa, sb, xb);
                match xa {
                    Err(_) => {},
                    Ok(lv) => if !(is_short_circuit(operator) && short_circuit_left(sa, operator, lv) is Some) {
                        let (s2a, ya) = choose|s2: SRuntime, r2: Result<SValue, SEvalError>|
                            #[trigger] step2(s2, r2) && eval_rel(ga, *right, env, sa, s2, r2) && match r2 {
                                Err(x) => ta == s2 && ra == Err::<SValue, SEvalError>(x),
                                Ok(rv) => if is_short_circuit(operator) {
                                    ta == s2 && ra == Ok::<SValue, SEvalError>(short_circuit_right(s2, operator, rv))
                                } else {
                                    (ta, ra) == binary_step(s2, operator, lv, rv)
                                },
                            };
                        let (s2b, yb) = choose|s2: SRuntime, r2: Result<SValue, SEvalError>|
                            #[trigger] step2(s2, r2) && eval_rel(gb, *right, env, sa, s2, r2) && match r2 {
                                Err(x) => tb == s2 && rb == Err::<SValue, SEvalError>(x),
                                Ok(rv) => if is_short_circuit(operator) {
                                    tb == s2 && rb == Ok::<SValue, SEvalError>(short_circuit_right(s2, operator, rv))
                                } else {
                                    (tb, rb) == binary_step(s2, operator, lv, rv)
                                },
                            };
                        law_pure_deterministic(ga, gb, *right, env, sa, s2a, ya, s2b, yb);
                    },
                }
            },
            SExpr::Array(es) => {
                let (s1a, va) = choose|s1: SRuntime, vs: Seq<SValue>|
                    #[trigger] step2(s1, vs) && list_rel(ga, es, env, s, s1, vs) && ta == rt_push_cell(s1, SValue::Array(vs))
                        && ra == Ok::<SValue, SEvalError>(SValue::Reference(s1.cells.len() as usize));
                let (s1b, vb) = choose|s1: SRuntime, vs: Seq<SValue>|
                    #[trigger] step2(s1, vs) && list_rel(gb, es, env, s, s1, vs) && tb == rt_push_cell(s1, SValue::Array(vs))
                        && rb == Ok::<SValue, SEvalError>(SValue::Reference(s1.cells.len() as usize));
                lemma_pure_list(ga, gb, es, env, s, s1a, va, s1b, vb);
            },
            SExpr::HashMap(ps) => {
                let (s1a, ma) = choose|s1: SRuntime, m: Seq<(SValue, SValue)>|
                    #[trigger] step2(s1, m) && map_literal_rel(ga, ps, env, s, s1, m) && ta == rt_push_cell(s1, SValue::HashMap(m))
                        && ra == Ok::<SValue, SEvalError>(SValue::Reference(s1.cells.len() as usize));
                let (s1b, mb) = choose|s1: SRuntime, m: Seq<(SValue, SValue)>|
                    #[trigger] step2(s1, m) && map_literal_rel(gb, ps, env, s, s1, m) && tb == rt_push_cell(s1, SValue::HashMap(m))
                        && rb == Ok::<SValue, SEvalError>(SValue::Reference(s1.cells.len() as usize));
                lemma_map_parts_pure(ps);
                if fa != fb {
                    lemma_map_parts_fit(ps, fa);
                    lemma_map_parts_fit(ps, fb);
                }
                lemma_pure_map(ga, gb, ps, env, s, s1a, ma, s1b, mb);
            },
            _ => {},
        }
    }
}

proof fn lemma_pure_list(
    fa: int,
    fb: int,
    es: Seq<SExpr>,
    env: usize,
    s: SRuntime,
    ta: SRuntime,
    va: Seq<SValue>,
    tb: SRuntime,
    vb: Seq<SValue>,
)
    requires
        forall|i: int| 0 <= i < es.len() ==> is_pure(#[trigger] es[i]),
        fa == fb || forall|i: int| 0 <= i < es.len() ==> fits(#[trigger] es[i], fa) && fits(es[i], fb),
        list_rel(fa, es, env, s, ta, va),
        list_rel(fb, es, env, s, tb, vb),
    ensures
        ta == tb,
        va == vb,
    decreases fa, es.len() + 2,
{
    if es.len() > 0 {
        let (sa, wa, xa) = choose|s1: SRuntime, vs0: Seq<SValue>, r: Result<SValue, SEvalError>|
            #[trigger] step3(s1, vs0, r) && list_rel(fa, es.drop_last(), env, s, s1, vs0) && eval_rel(
                fa,
                es.last(),
                env,
                s1,
                ta,
                r,
            ) && va == vs0.push(or_null(r));
        let (sb, wb, xb) = choose|s1: SRuntime, vs0: Seq<SValue>, r: Result<SValue, SEvalError>|
            #[trigger] step3(s1, vs0, r) && list_rel(fb, es.drop_last(), env, s, s1, vs0) && eval_rel(
                fb,
                es.last(),
                env,
                s1,
                tb,
                r,
            ) && vb == vs0.push(or_null(r));
        assert forall|i: int| 0 <= i < es.drop_last().len() implies #[trigger] is_pure(es.drop_last()[i]) by {
            assert(es.drop_last()[i] == es[i]);
        }
        if fa != fb {
            assert forall|i: int| 0 <= i < es.drop_last().len() implies fits(#[trigger] es.drop_last()[i], fa) && fits(
                es.drop_last()[i],
                fb,
            ) by {
                assert(es.drop_last()[i] == es[i]);
            }
        }
        lemma_pure_list(fa, fb, es.drop_last(), env, s, sa, wa, sb, wb);
        assert(is_pure(es[es.len() - 1]));
        law_pure_deterministic(fa, fb, es.last(), env, sa, ta, xa, tb, xb);
    }
}

proof fn lemma_pure_map(
    fa: int,
    fb: int,
    ps: Seq<(SExpr, SExpr)>,
    env: usize,
    s: SRuntime,
    ta: SRuntime,
    ma: Seq<(SValue, SValue)>,
    tb: SRuntime,
    mb: Seq<(SValue, SValue)>,
)
    requires
        pairs_pure(ps),
        fa == fb || (pairs_fit(ps, fa) && pairs_fit(ps, fb)),
        map_literal_rel(fa, ps, env, s, ta, ma),
        map_literal_rel(fb, ps, env, s, tb, mb),
    ensures
        ta == tb,
        ma == mb,
    decreases fa, ps.len() + 2,
{
    if ps.len() > 0 {
        let (s1a, m0a, s2a, ka, xa) = choose|
            s1: SRuntime,
            m0: Seq<(SValue, SValue)>,
            s2: SRuntime,
            rk: Result<SValue, SEvalError>,
            rv: Result<SValue, SEvalError>,
        |
            #[trigger] step5(s1, m0, s2, rk, rv) && map_literal_rel(fa, ps.drop_last(), env, s, s1, m0) && eval_rel(
                fa,
                ps.last().0,
                env,
                s1,
                s2,
                rk,
            ) && eval_rel(fa, ps.last().1, env, s2, ta, rv) && ma == assoc_insert(m0, or_null(rk), or_null(rv));
        let (s1b, m0b, s2b, kb, xb) = choose|
            s1: SRuntime,
            m0: Seq<(SValue, SValue)>,
            s2: SRuntime,
            rk: Result<SValue, SEvalError>,
            rv: Result<SValue, SEvalError>,
        |
            #[trigger] step5(s1, m0, s2, rk, rv) && map_literal_rel(fb, ps.drop_last(), env, s, s1, m0) && eval_rel(
                fb,
                ps.last().0,
                env,
                s1,
                s2,
                rk,
            ) && eval_rel(fb, ps.last().1, env, s2, tb, rv) && mb == assoc_insert(m0, or_null(rk), or_null(rv));
        assert forall|i: int| 0 <= i < ps.drop_last().len() implies #[trigger] is_pure(ps.drop_last()[i].0) && is_pure(
            ps.drop_last()[i].1,
        ) by {
            assert(ps.drop_last()[i] == ps[i]);
        }
        if fa != fb {
            assert forall|i: int| 0 <= i < ps.drop_last().len() implies fits(#[trigger] ps.drop_last()[i].0, fa) && fits(
                ps.drop_last()[i].1,
                fa,
            ) && fits(ps.drop_last()[i].0, fb) && fits(ps.drop_last()[i].1, fb) by {
                assert(ps.drop_last()[i] == ps[i]);
            }
            assert(pairs_fit(ps.drop_last(), fa));
            assert(pairs_fit(ps.drop_last(), fb));
        }
        lemma_pure_map(fa, fb, ps.drop_last(), env, s, s1a, m0a, s1b, m0b);
        assert(is_pure(ps[ps.len() - 1].0) && is_pure(ps[ps.len() - 1].1));
        law_pure_deterministic(fa, fb, ps.last().0, env, s1a, s2a, ka, s2b, kb);
        law_pure_deterministic(fa, fb, ps.last().1, env, s2a, ta, xa, tb, xb);
    }
}



/// What fits within some fuel fits within more.
pub proof fn lemma_fits_more(e: SExpr, n: int, m: int)
    requires
        fits(e, n),
        n <= m,
    ensures
        fits(e, m),
    decreases e,
{
    match e {
        SExpr::Unary { operand, .. } => lemma_fits_more(*operand, n - 1, m - 1),
        SExpr::Binary { left, right, .. } => {
            lemma_fits_more(*left, n - 1, m - 1);
            lemma_fits_more(*right, n - 1, m - 1);
        },
        SExpr::Array(es) => {
            assert forall|i: int| 0 <= i < es.len() implies fits(#[trigger] es[i], m - 1) by {
                lemma_fits_more(es[i], n - 1, m - 1);
            }
        },
        SExpr::HashMap(ps) => {
            assert forall|i: int| 0 <= i < ps.len() implies fits(#[trigger] ps[i].0, m - 1) && fits(ps[i].1, m - 1) by {
                let p = ps[i];
                assert(p.0 == ps[i].0);
                lemma_fits_more(p.0, n - 1, m - 1);
                lemma_fits_more(p.1, n - 1, m - 1);
            }
        },
        _ => {},
    }
}

/// A binary expression over pure operands that fit within one fuel less gives what its
/// operator makes of what its left operand gives on its own, from the same runtime and with
/// the same fuel, and of what its right operand gives on its own after that; it leaves the
/// runtime they leave, or the one its operator's result was stored into.
pub proof fn law_pure_binary(
    f: int,
    op: Operator,
    l: SExpr,
    r: SExpr,
    env: usize,
    s: SRuntime,
    sl: SRuntime,
    lr: Result<SValue, SEvalError>,
    sr: SRuntime,
    rr: Result<SValue, SEvalError>,
    t: SRuntime,
    res: Result<SValue, SEvalError>,
)
    requires
        is_pure(l),
        is_pure(r),
        fits(l, f - 1),
        fits(r, f - 1),
        eval_rel(f, l, env, s, sl, lr),
        eval_rel(f, r, env, sl, sr, rr),
        eval_rel(f, SExpr::Binary { operator: op, left: Box::new(l), right: Box::new(r) }, env, s, t, res),
    ensures
        (t, res) == binary_outcome(op, sl, lr, sr, rr),
{
    let g = f - 1;
    let operator = op;
    lemma_fits_more(l, g, f);
    lemma_fits_more(r, g, f);
    let (s1, r1) = choose|s1: SRuntime, r1: Result<SValue, SEvalError>|
        #[trigger] step2(s1, r1) && eval_rel(g, l, env, s, s1, r1) && match r1 {
                        Err(x) => t == s1 && res == Err::<SValue, SEvalError>(x),
                        Ok(lv) => if is_short_circuit(operator) && short_circuit_left(s1, operator, lv) is Some {
                            t == s1 && res == Ok::<SValue, SEvalError>(short_circuit_left(s1, operator, lv)->0)
                        } else {
                            exists|s2: SRuntime, r2: Result<SValue, SEvalError>|
                                #[trigger] step2(s2, r2) && eval_rel(g, r, env, s1, s2, r2) && match r2 {
                                    Err(x) => t == s2 && res == Err::<SValue, SEvalError>(x),
                                    Ok(rv) => if is_short_circuit(operator) {
                                        t == s2 && res == Ok::<SValue, SEvalError>(short_circuit_right(s2, operator, rv))
                                    } else {
                                        (t, res) == binary_step(s2, operator, lv, rv)
                                    },
                                }
                        },
                    };
    law_pure_deterministic(g, f, l, env, s, s1, r1, sl, lr);
    match r1 {
        Err(_) => {},
        Ok(lv) => if !(is_short_circuit(op) && short_circuit_left(s1, op, lv) is Some) {
            let (s2, r2) = choose|s2: SRuntime, r2: Result<SValue, SEvalError>|
                #[trigger] step2(s2, r2) && eval_rel(g, r, env, s1, s2, r2) && match r2 {
                                Err(x) => t == s2 && res == Err::<SValue, SEvalError>(x),
                                Ok(rv) => if is_short_circuit(operator) {
                                    t == s2 && res == Ok::<SValue, SEvalError>(short_circuit_right(s2, operator, rv))
                                } else {
                                    (t, res) == binary_step(s2, operator, lv, rv)
                                },
                            };
            law_pure_deterministic(g, f, r, env, s1, s2, r2, sr, rr);
        },
    }
}

/// Whatever its operands are, a binary expression gives what its operator makes of what its
/// left operand gave and, unless that decided it, of what its right operand gave after it:
/// its result comes from one evaluation of each operand, the left one first, with one fuel
/// less (`binary_outcome`); an operand that fails makes the whole fail with its error.
pub proof fn law_binary_from_its_operands(
    f: int,
    op: Operator,
    l: SExpr,
    r: SExpr,
    env: usize,
    s: SRuntime,
    t: SRuntime,
    res: Result<SValue, SEvalError>,
)
    requires
        f >= 1,
        eval_rel(f, SExpr::Binary { operator: op, left: Box::new(l), right: Box::new(r) }, env, s, t, res),
    ensures
        exists|w: (SRuntime, Result<SValue, SEvalError>, SRuntime, Result<SValue, SEvalError>)|
            #[trigger] step1(w) && eval_rel(f - 1, l, env, s, w.0, w.1) && (match w.1 {
                Ok(lv) => if is_short_circuit(op) && short_circuit_left(w.0, op, lv) is Some {
                    true
                } else {
                    eval_rel(f - 1, r, env, w.0, w.2, w.3)
                },
                Err(_) => true,
            }) && (t, res) == binary_outcome(op, w.0, w.1, w.2, w.3),
{
    let g = f - 1;
    let operator = op;
    let (s1, r1) = choose|s1: SRuntime, r1: Result<SValue, SEvalError>|
        #[trigger] step2(s1, r1) && eval_rel(g, l, env, s, s1, r1) && match r1 {
                        Err(x) => t == s1 && res == Err::<SValue, SEvalError>(x),
                        Ok(lv) => if is_short_circuit(operator) && short_circuit_left(s1, operator, lv) is Some {
                            t == s1 && res == Ok::<SValue, SEvalError>(short_circuit_left(s1, operator, lv)->0)
                        } else {
                            exists|s2: SRuntime, r2: Result<SValue, SEvalError>|
                                #[trigger] step2(s2, r2) && eval_rel(g, r, env, s1, s2, r2) && match r2 {
                                    Err(x) => t == s2 && res == Err::<SValue, SEvalError>(x),
                                    Ok(rv) => if is_short_circuit(operator) {
                                        t == s2 && res == Ok::<SValue, SEvalError>(short_circuit_right(s2, operator, rv))
                                    } else {
                                        (t, res) == binary_step(s2, operator, lv, rv)
                                    },
                                }
                        },
                    };
    match r1 {
        Ok(lv) => if !(is_short_circuit(op) && short_circuit_left(s1, op, lv) is Some) {
            let (s2, r2) = choose|s2: SRuntime, r2: Result<SValue, SEvalError>|
                #[trigger] step2(s2, r2) && eval_rel(g, r, env, s1, s2, r2) && match r2 {
                                Err(x) => t == s2 && res == Err::<SValue, SEvalError>(x),
                                Ok(rv) => if is_short_circuit(operator) {
                                    t == s2 && res == Ok::<SValue, SEvalError>(short_circuit_right(s2, operator, rv))
                                } else {
                                    (t, res) == binary_step(s2, operator, lv, rv)
                                },
                            };
            let w = (s1, r1, s2, r2);
            assert(step1(w));
        } else {
            let w = (s1, r1, s1, r1);
            assert(step1(w));
        },
        Err(_) => {
            let w = (s1, r1, s1, r1);
            assert(step1(w));
        },
    }
}

/// An array literal with fuel left gives a reference to a new cell that holds its elements;
/// a map literal, likewise, to a new cell that holds its pairs, whatever its parts give.
pub proof fn law_literals_make_new_cells(
    f: int,
    e: SExpr,
    env: usize,
    s: SRuntime,
    t: SRuntime,
    res: Result<SValue, SEvalError>,
)
    requires
        f >= 1,
        e is Array || e is HashMap,
        t.cells.len() <= usize::MAX,
        eval_rel(f, e, env, s, t, res),
    ensures
        res matches Ok(SValue::Reference(k)) && k + 1 == t.cells.len() && match e {
            SExpr::Array(es) => deref(t, res->Ok_0) matches SValue::Array(vs) && vs.len() == es.len(),
            _ => deref(t, res->Ok_0) is HashMap,
        },
{
    match e {
        SExpr::Array(es) => {
            let (s1, vs) = choose|s1: SRuntime, vs: Seq<SValue>|
                #[trigger] step2(s1, vs) && list_rel(f - 1, es, env, s, s1, vs) && t == rt_push_cell(s1, SValue::Array(vs))
                    && res == Ok::<SValue, SEvalError>(SValue::Reference(s1.cells.len() as usize));
            lemma_list_len(f - 1, es, env, s, s1, vs);
        },
        _ => {},
    }
}

proof fn lemma_map_parts_pure(ps: Seq<(SExpr, SExpr)>)
    requires
        is_pure(SExpr::HashMap(ps)),
    ensures
        pairs_pure(ps),
{
    let e = SExpr::HashMap(ps);
    assert forall|i: int| 0 <= i < ps.len() implies is_pure(#[trigger] ps[i].0) && is_pure(ps[i].1) by {
        assert(decreases_to!(e => e->HashMap_0));
        assert(decreases_to!(ps => ps[i]));
        let p = ps[i];
        assert(decreases_to!(p => p.0));
        assert(decreases_to!(p => p.1));
        assert(p.0 == ps[i].0);
    }
    assert(pairs_pure(ps));
}

proof fn lemma_map_parts_fit(ps: Seq<(SExpr, SExpr)>, n: int)
    requires
        fits(SExpr::HashMap(ps), n),
    ensures
        pairs_fit(ps, n - 1),
{
    let e = SExpr::HashMap(ps);
    assert forall|i: int| 0 <= i < ps.len() implies fits(#[trigger] ps[i].0, n - 1) && fits(ps[i].1, n - 1) by {
        assert(decreases_to!(e => e->HashMap_0));
        assert(decreases_to!(ps => ps[i]));
        let p = ps[i];
        assert(decreases_to!(p => p.0));
        assert(decreases_to!(p => p.1));
        assert(p.0 == ps[i].0);
    }
    assert(pairs_fit(ps, n - 1));
}

proof fn lemma_list_len(f: int, es: Seq<SExpr>, env: usize, s: SRuntime, t: SRuntime, vs: Seq<SValue>)
    requires
        list_rel(f, es, env, s, t, vs),
    ensures
        vs.len() == es.len(),
    decreases es.len(),
{
    if es.len() > 0 {
        let (s1, vs0, r) = choose|s1: SRuntime, vs0: Seq<SValue>, r: Result<SValue, SEvalError>|
            #[trigger] step3(s1, vs0, r) && list_rel(f, es.drop_last(), env, s, s1, vs0) && eval_rel(
                f,
                es.last(),
                env,
                s1,
                t,
                r,
            ) && vs == vs0.push(or_null(r));
        lemma_list_len(f, es.drop_last(), env, s, s1, vs0);
    }
}

} // verus!
