//! What holds of the environment and library operations over several calls.
use vstd::prelude::*;

use crate::language::assoc::{assoc_extend, assoc_get, assoc_index, assoc_insert, lemma_assoc_index};
use crate::language::environment::{rt_define, rt_lookup, rt_set, SRuntime, SharedEnvironment};
use crate::language::expression::{SEvalError, SExpr};
use crate::language::semantics::{eval_rel, rt_define_all, stmt_rel};
use crate::language::builtins::builtin_library;
use crate::language::format::{format_scan, format_text};
use crate::language::importer::SLibraryLoadError;
use crate::language::statement::{SStatement, SStatementError};
use crate::language::value::SValue;

verus! {

/// The value of the last pair with key `k`.
pub open spec fn assoc_get_last<K, V>(s: Seq<(K, V)>, k: K) -> Option<V>
    decreases s.len(),
{
    if s.len() == 0 {
        None
    } else if s.last().0 == k {
        Some(s.last().1)
    } else {
        assoc_get_last(s.drop_last(), k)
    }
}

/// Looking a key up after it was inserted gives the inserted value; other keys keep theirs.
pub proof fn lemma_assoc_get_insert<K, V>(s: Seq<(K, V)>, k: K, v: V, k2: K)
    ensures
        assoc_get(assoc_insert(s, k, v), k2) == if k2 == k {
            Some(v)
        } else {
            assoc_get(s, k2)
        },
{
    let t = assoc_insert(s, k, v);
    lemma_assoc_index(s, k);
    lemma_assoc_index(s, k2);
    lemma_assoc_index(t, k2);
    let i = assoc_index(s, k);
    let j = assoc_index(s, k2);
    let jt = assoc_index(t, k2);
    if k2 == k {
        if i < 0 {
            assert(t[s.len() as int].0 == k);
        } else {
            assert(t[i].0 == k);
        }
    } else {
        if j >= 0 {
            assert(t[j].0 == k2);
            assert(jt == j);
        } else {
            if jt >= 0 {
                assert(t[jt].0 == k2);
                if jt < s.len() {
                    assert(s[jt].0 == k2);
                }
            }
        }
    }
}

/// Inserting the pairs of `t` one by one: a key of `t` gets its last value in `t`, any
/// other key keeps its value in `s`.
pub proof fn law_extend_lookup<K, V>(s: Seq<(K, V)>, t: Seq<(K, V)>, k: K)
    ensures
        assoc_get(assoc_extend(s, t), k) == match assoc_get_last(t, k) {
            Some(v) => Some(v),
            None => assoc_get(s, k),
        },
    decreases t.len(),
{
    if t.len() > 0 {
        law_extend_lookup(s, t.drop_last(), k);
        lemma_assoc_get_insert(assoc_extend(s, t.drop_last()), t.last().0, t.last().1, k);
    }
}

/// Defining a variable and then looking it up in the same environment gives its value.
pub proof fn law_define_then_lookup(rt: SRuntime, env: usize, name: Seq<char>, v: SValue)
    requires
        env < rt.environments.len(),
    ensures
        rt_lookup(rt_define(rt, env, name, v).0, env, name) == Some(v),
{
    let e = rt.environments[env as int];
    lemma_assoc_get_insert(e.variables, name, v, name);
}

/// Two runtimes whose environments agree up to `env` look names up alike from there.
proof fn lemma_lookup_agrees(a: SRuntime, b: SRuntime, env: usize, name: Seq<char>)
    requires
        a.environments.len() == b.environments.len(),
        forall|i: int| 0 <= i <= env ==> a.environments[i] == b.environments[i],
    ensures
        rt_lookup(a, env, name) == rt_lookup(b, env, name),
    decreases env,
{
    if env < a.environments.len() {
        match a.environments[env as int].outer {
            Some(o) => if o < env {
                lemma_lookup_agrees(a, b, o, name);
            },
            None => {},
        }
    }
}

/// Defining a variable leaves what the other names look up to in that environment.
pub proof fn law_define_keeps_other_names(rt: SRuntime, env: usize, name: Seq<char>, v: SValue, other: Seq<char>)
    requires
        other != name,
    ensures
        rt_lookup(rt_define(rt, env, name, v).0, env, other) == rt_lookup(rt, env, other),
{
    if env < rt.environments.len() {
        let e = rt.environments[env as int];
        let t = rt_define(rt, env, name, v).0;
        lemma_assoc_get_insert(e.variables, name, v, other);
        match e.outer {
            Some(o) => if o < env {
                lemma_lookup_agrees(t, rt, o, other);
            },
            None => {},
        }
    }
}

/// Setting a variable changes at most the environments from `env` down, and nothing else.
proof fn lemma_set_frame(rt: SRuntime, env: usize, name: Seq<char>, v: SValue)
    ensures
        rt_set(rt, env, name, v).0.environments.len() == rt.environments.len(),
        rt_set(rt, env, name, v).0.closures == rt.closures,
        rt_set(rt, env, name, v).0.host_calls == rt.host_calls,
        forall|i: int|
            env < i < rt.environments.len() ==> #[trigger] rt_set(rt, env, name, v).0.environments[i]
                == rt.environments[i],
    decreases env,
{
    if env < rt.environments.len() {
        let e = rt.environments[env as int];
        match assoc_get(e.variables, name) {
            Some(_) => {},
            None => match e.outer {
                Some(o) => if o < env {
                    lemma_set_frame(rt, o, name, v);
                },
                None => {},
            },
        }
    }
}

/// Setting a variable answers the value that looking it up gave before.
pub proof fn law_set_returns_previous(rt: SRuntime, env: usize, name: Seq<char>, v: SValue)
    ensures
        rt_set(rt, env, name, v).1 == rt_lookup(rt, env, name),
    decreases env,
{
    if env < rt.environments.len() {
        let e = rt.environments[env as int];
        match assoc_get(e.variables, name) {
            Some(_) => {},
            None => match e.outer {
                Some(o) => if o < env {
                    law_set_returns_previous(rt, o, name, v);
                },
                None => {},
            },
        }
    }
}

/// Setting a variable that is defined and then looking it up gives the new value; setting
/// one that is not defined changes nothing.
pub proof fn law_set_then_lookup(rt: SRuntime, env: usize, name: Seq<char>, v: SValue)
    ensures
        rt_set(rt, env, name, v).1 is Some ==> rt_lookup(rt_set(rt, env, name, v).0, env, name) == Some(v),
        rt_set(rt, env, name, v).1 is None ==> rt_set(rt, env, name, v).0 == rt,
    decreases env,
{
    if env < rt.environments.len() {
        let e = rt.environments[env as int];
        match assoc_get(e.variables, name) {
            Some(_) => {
                lemma_assoc_get_insert(e.variables, name, v, name);
            },
            None => match e.outer {
                Some(o) => if o < env {
                    law_set_then_lookup(rt, o, name, v);
                    lemma_set_frame(rt, o, name, v);
                    let t = rt_set(rt, o, name, v).0;
                    assert(t.environments[env as int] == e);
                },
                None => {},
            },
        }
    }
}

/// A literal evaluates to its value and changes nothing.
pub proof fn law_literal(fuel: int, v: SValue, env: usize, s: SRuntime, t: SRuntime, r: Result<SValue, SEvalError>)
    requires
        fuel > 0,
        eval_rel(fuel, SExpr::Value(v), env, s, t, r),
    ensures
        t == s,
        r == Ok::<SValue, SEvalError>(v),
{
}

/// A variable evaluates to what it is bound to (null when it is bound nowhere) and
/// changes nothing.
pub proof fn law_variable(fuel: int, name: Seq<char>, env: usize, s: SRuntime, t: SRuntime, r: Result<SValue, SEvalError>)
    requires
        fuel > 0,
        eval_rel(fuel, SExpr::Variable(name), env, s, t, r),
    ensures
        t == s,
        r == Ok::<SValue, SEvalError>(match rt_lookup(s, env, name) {
            Some(v) => v,
            None => SValue::Null,
        }),
{
}

/// `var x = v` in an environment that does not define `x` yet succeeds, and afterwards `x`
/// is `v` there; where the environment defines `x` already, it is refused as a
/// redeclaration.
pub proof fn law_declare_then_read(
    fuel: int,
    name: Seq<char>,
    v: SValue,
    env: usize,
    s: SRuntime,
    t: SRuntime,
    r: Result<SValue, SStatementError>,
)
    requires
        fuel > 1,
        env < s.environments.len(),
        stmt_rel(fuel, SStatement::VariableDeclaration { variable: name, right_side: SExpr::Value(v) }, env, s, t, r),
    ensures
        rt_lookup(t, env, name) == Some(v),
        assoc_get(s.environments[env as int].variables, name) is None ==> r == Ok::<SValue, SStatementError>(v),
        assoc_get(s.environments[env as int].variables, name) is Some ==> r == Err::<SValue, SStatementError>(
            SStatementError::VariableRedeclaration(name),
        ),
{
    let (s1, r1) = choose|s1: SRuntime, r1: Result<SValue, SEvalError>|
        #[trigger] crate::language::semantics::step2(s1, r1) && eval_rel(fuel - 1, SExpr::Value(v), env, s, s1, r1)
            && match r1 {
            Err(x) => t == s1 && r == Err::<SValue, SStatementError>(crate::language::semantics::evaluation_failed(x)),
            Ok(w) => t == rt_define(s1, env, name, w).0 && r == if rt_define(s1, env, name, w).1 is Some {
                Err::<SValue, SStatementError>(SStatementError::VariableRedeclaration(name))
            } else {
                Ok(w)
            },
        };
    law_literal(fuel - 1, v, env, s, s1, r1);
    law_define_then_lookup(s, env, name, v);
}

/// `x = v` where `x` is bound somewhere succeeds, and afterwards `x` is `v`; where `x` is
/// bound nowhere it is refused as an unknown variable and nothing changes.
pub proof fn law_assign_then_read(
    fuel: int,
    name: Seq<char>,
    v: SValue,
    env: usize,
    s: SRuntime,
    t: SRuntime,
    r: Result<SValue, SStatementError>,
)
    requires
        fuel > 1,
        stmt_rel(fuel, SStatement::Assignment { target: SExpr::Variable(name), right_side: SExpr::Value(v) }, env, s, t, r),
    ensures
        rt_lookup(s, env, name) is Some ==> r == Ok::<SValue, SStatementError>(v) && rt_lookup(t, env, name) == Some(v),
        rt_lookup(s, env, name) is None ==> r == Err::<SValue, SStatementError>(SStatementError::UnknownVariable(name))
            && t == s,
{
    let (s1, r1) = choose|s1: SRuntime, r1: Result<SValue, SEvalError>|
        #[trigger] crate::language::semantics::step2(s1, r1) && eval_rel(fuel - 1, SExpr::Value(v), env, s, s1, r1)
            && match r1 {
            Err(x) => t == s1 && r == Err::<SValue, SStatementError>(crate::language::semantics::evaluation_failed(x)),
            Ok(w) => crate::language::semantics::assign_rel(fuel - 1, SExpr::Variable(name), w, env, s1, t, r),
        };
    law_literal(fuel - 1, v, env, s, s1, r1);
    law_set_returns_previous(s, env, name, v);
    law_set_then_lookup(s, env, name, v);
}

/// Importing a library's values into an environment: a name of the library looks up to its
/// last value there; any other name looks up as before.
pub proof fn law_import_then_lookup(rt: SRuntime, env: usize, lib: Seq<(Seq<char>, SValue)>, name: Seq<char>)
    requires
        env < rt.environments.len(),
    ensures
        rt_lookup(rt_define_all(rt, env, lib), env, name) == match assoc_get_last(lib, name) {
            Some(v) => Some(v),
            None => rt_lookup(rt, env, name),
        },
        rt_define_all(rt, env, lib).environments.len() == rt.environments.len(),
    decreases lib.len(),
{
    if lib.len() > 0 {
        let before = rt_define_all(rt, env, lib.drop_last());
        law_import_then_lookup(rt, env, lib.drop_last(), name);
        if lib.last().0 == name {
            law_define_then_lookup(before, env, name, lib.last().1);
        } else {
            law_define_keeps_other_names(before, env, lib.last().0, lib.last().1, name);
        }
    }
}

/// Importing a library that does not come with the interpreter asks the host for its file;
/// when the import is refused as not found, nothing changed but the record of that question.
pub proof fn law_import_missing(
    fuel: int,
    name: Seq<char>,
    as_namespace: bool,
    env: usize,
    s: SRuntime,
    t: SRuntime,
    r: Result<SValue, SStatementError>,
)
    requires
        fuel > 0,
        builtin_library(name) is None,
        stmt_rel(fuel, SStatement::Import { library_name: name, as_namespace }, env, s, t, r),
        r == Err::<SValue, SStatementError>(SStatementError::Import(SLibraryLoadError::NotFound)),
    ensures
        t.environments == s.environments,
        t.closures == s.closures,
        t.host_calls.len() == s.host_calls.len() + 1,
        t.host_calls.last().function == crate::language::function::ExternalFunction::LibrarySource,
        t.host_calls.last().args == crate::language::semantics::library_request(name),
        !(t.host_calls.last().response is String),
{
}

proof fn lemma_format_plain(
    f: Seq<char>,
    args: Seq<SValue>,
    s: SRuntime,
    env: usize,
    out: Seq<char>,
    pending: Seq<char>,
    next: nat,
)
    requires
        forall|i: int| 0 <= i < f.len() ==> f[i] != '{' && f[i] != '}',
    ensures
        format_scan(f, args, s, env, out, pending, next) == out + pending + f,
    decreases f.len(),
{
    if f.len() > 0 {
        let rest = f.drop_first();
        assert forall|i: int| 0 <= i < rest.len() implies rest[i] != '{' && rest[i] != '}' by {
            assert(rest[i] == f[i + 1]);
        }
        lemma_format_plain(rest, args, s, env, out, pending.push(f[0]), next);
        assert(out + pending.push(f[0]) + rest =~= out + pending + f);
    } else {
        assert(out + pending + f =~= out + pending);
    }
}

/// A format text without braces is written out as it is.
pub proof fn law_format_plain_text(f: Seq<char>, args: Seq<SValue>, s: SRuntime, env: usize)
    requires
        forall|i: int| 0 <= i < f.len() ==> f[i] != '{' && f[i] != '}',
    ensures
        format_text(f, args, s, env) == f,
{
    lemma_format_plain(f, args, s, env, Seq::empty(), Seq::empty(), 0);
    assert(Seq::<char>::empty() + Seq::<char>::empty() + f =~= f);
}

/// No key occurs twice.
pub open spec fn keys_unique<K, V>(s: Seq<(K, V)>) -> bool {
    forall|i: int, j: int| 0 <= i < j < s.len() ==> s[i].0 != s[j].0
}

/// Inserting keeps every key at most once.
pub proof fn law_insert_keeps_keys_unique<K, V>(s: Seq<(K, V)>, k: K, v: V)
    requires
        keys_unique(s),
    ensures
        keys_unique(assoc_insert(s, k, v)),
{
    lemma_assoc_index(s, k);
    let t = assoc_insert(s, k, v);
    assert forall|i: int, j: int| 0 <= i < j < t.len() implies t[i].0 != t[j].0 by {
        if assoc_index(s, k) < 0 {
            if j == s.len() {
                assert(s[i].0 != k);
            }
        }
    }
}

/// Inserting the pairs of a sequence one by one keeps every key at most once.
pub proof fn law_extend_keeps_keys_unique<K, V>(s: Seq<(K, V)>, t: Seq<(K, V)>)
    requires
        keys_unique(s),
    ensures
        keys_unique(assoc_extend(s, t)),
    decreases t.len(),
{
    if t.len() > 0 {
        law_extend_keeps_keys_unique(s, t.drop_last());
        law_insert_keeps_keys_unique(assoc_extend(s, t.drop_last()), t.last().0, t.last().1);
    }
}

/// Setting a variable never binds a name anew: whatever any environment binds afterwards it
/// bound before, and no environment changes its enclosing one.
pub proof fn law_set_binds_nothing_new(rt: SRuntime, env: usize, name: Seq<char>, v: SValue, i: int, m: Seq<char>)
    requires
        0 <= i < rt.environments.len(),
    ensures
        rt_set(rt, env, name, v).0.environments[i].outer == rt.environments[i].outer,
        assoc_get(rt_set(rt, env, name, v).0.environments[i].variables, m) is Some ==> assoc_get(
            rt.environments[i].variables,
            m,
        ) is Some,
    decreases env,
{
    if env < rt.environments.len() {
        let e = rt.environments[env as int];
        match assoc_get(e.variables, name) {
            Some(_) => {
                if i == env {
                    lemma_assoc_get_insert(e.variables, name, v, m);
                }
            },
            None => match e.outer {
                Some(o) => if o < env {
                    law_set_binds_nothing_new(rt, o, name, v, i, m);
                },
                None => {},
            },
        }
    }
}

/// Two handles of one environment see each other's writes: a value defined through one is
/// what a lookup through the other gives.
pub proof fn law_handles_share(rt: SRuntime, a: SharedEnvironment, b: SharedEnvironment, name: Seq<char>, v: SValue)
    requires
        a.id == b.id,
        a.id < rt.environments.len(),
    ensures
        rt_lookup(rt_define(rt, a.id, name, v).0, b.id, name) == Some(v),
{
    law_define_then_lookup(rt, a.id, name, v);
}

} // verus!
