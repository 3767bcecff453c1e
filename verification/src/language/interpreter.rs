//! Running Kool programs: evaluating expressions, executing statements and calling
//! functions, each proved to follow the relations of `semantics`.
use vstd::prelude::*;

use crate::language::builtins::{builtin_pure, host_function, values_of_pairs};
use crate::language::environment::{resolved, Environment, HostCall, Runtime, SharedEnvironment, SRuntime};
use crate::language::expression::{
    eval_result_view, expression_pairs_view, expression_view, expressions_view, named_expressions_view,
    EvaluationError, Expression, Operator, SEvalError, SExpr,
};
use crate::language::function::{
    function_result_view, ExternalFunction, Function, FunctionCallArgs, FunctionCode, FunctionError,
    HostFunction, SCallArgs,
};
use crate::language::importer::{builtin_library_named, LibraryLoadError};
use crate::language::library::Library;
use crate::parsing::{program_of, scan_and_parse};
use crate::language::function::{default_call_args, SCode};
use crate::language::assoc::insert_pair;
use crate::language::semantics::{
    args_rel, assign_rel, block_rel, call_rel, eval_rel, filter_rel, host_rel, import_into, is_index, library_env, library_request,
    is_place, kept, list_rel, short_circuit_left, code_rel, map_literal_rel, map_rel, or_null, resolve_function, rt_define_all,
    stmt_rel, tail_rel, updated_container, while_rel, namespace_value, step1, step2, step3, step5, binary_step,
    resolved_variables,
};
use crate::language::statement::{
    statement_result_view, statement_view, statements_view, Statement, StatementBlock,
    StatementExecutionError, SStatement, SStatementError,
};
use crate::language::value::{
    named_values_view, pairs_view, values_view, FunctionRef, SValue, Value,
};

verus! {

/// What performs the external functions: printing, processes, time, channels, timers,
/// media players and the window manager.
pub trait Host {
    /// Performs `function` with the variables of its call environment and gives its result.
    fn call(&mut self, function: ExternalFunction, args: &Vec<(String, Value)>) -> Value;
}

/// The evaluation budget of the public entry points: large enough never to run out.
pub const EVALUATION_FUEL: u64 = 0xffff_ffff_ffff_ffff;

pub open spec fn args_result_view(r: Result<FunctionCallArgs, EvaluationError>) -> Result<SCallArgs, SEvalError> {
    match r {
        Ok(a) => Ok(a@),
        Err(e) => Err(e@),
    }
}

/// The function a value calls, if it is callable.
pub fn resolve(rt: &Runtime, v: &Value) -> (r: Option<Function>)
    ensures
        match r {
            Some(func) => resolve_function(rt@, v@) == Some(func@),
            None => resolve_function(rt@, v@) is None,
        },
{
    match v {
        Value::Function(FunctionRef::Builtin(h)) => Some(host_function(*h)),
        Value::Function(FunctionRef::Closure(i)) => if *i < rt.closures.len() {
            Some(rt.closures[*i].deep_clone())
        } else {
            None
        },
        _ => None,
    }
}

fn lookup_or_null(rt: &Runtime, env: usize, name: &str) -> (r: Value)
    ensures
        r@ == crate::language::environment::rt_lookup_or_null(rt@, env, name@),
{
    match rt.lookup(env, &String::from_str(name)) {
        Some(v) => v,
        None => Value::Null,
    }
}

/// A binary operator that evaluates both operands, on their values (see `binary_step`).
fn binary_in(rt: &mut Runtime, op: Operator, l: Value, r: Value) -> (res: Result<Value, EvaluationError>)
    ensures
        (final(rt)@, eval_result_view(res)) == binary_step(old(rt)@, op, l@, r@),
{
    if op == Operator::Eq || op == Operator::NotEq {
        let a = rt.resolve(&l);
        let b = rt.resolve(&r);
        crate::language::operators::binary_op(op, a, b)
    } else if op == Operator::Index {
        let a = rt.deref(&l);
        crate::language::operators::binary_op(op, a, r)
    } else {
        let a = rt.deref(&l);
        let b = rt.deref(&r);
        match crate::language::operators::binary_op(op, a, b) {
            Ok(v) => Ok(rt.allocate(v)),
            Err(x) => Err(x),
        }
    }
}

/// Evaluates `e` in environment `env`.
fn eval_expr<H: Host>(e: &Expression, fuel: u64, env: usize, rt: &mut Runtime, host: &mut H) -> (r: Result<
    Value,
    EvaluationError,
>)
    ensures
        eval_rel(fuel as int, e@, env, old(rt)@, final(rt)@, eval_result_view(r)),
    decreases fuel, 0nat,
{

    if fuel == 0 {
        return Err(EvaluationError::OutOfFuel);
    }
    let f = fuel - 1;
    assert(f as int == fuel as int - 1);
    match e {
        Expression::Value(v) => Ok(v.deep_clone()),
        Expression::Variable(name) => match rt.lookup(env, name) {
            Some(v) => Ok(v),
            None => Ok(Value::Null),
        },
        Expression::Unary { operator, operand } => {
            let r1 = eval_expr(operand, f, env, rt, host);
            let ghost g1 = eval_result_view(r1);
            assert(step2(rt@, g1));
            match r1 {
                Err(x) => Err(x),
                Ok(v) => {
                    let d = rt.deref(&v);
                    crate::language::operators::unary_op(*operator, d)
                },
            }
        },
        Expression::Binary { operator, left, right } => {
            let op = *operator;
            let rl = eval_expr(left, f, env, rt, host);
            let ghost gl = eval_result_view(rl);
            assert(step2(rt@, gl));
            match rl {
                Err(x) => Err(x),
                Ok(lv) => {
                    let lt = rt.deref(&lv).is_truthy();
                    if op == Operator::And && !lt {
                        return Ok(Value::Bool(false));
                    }
                    if op == Operator::Or && lt {
                        return Ok(Value::Bool(true));
                    }
                    if op == Operator::IfNull && !lv.is_null() {
                        return Ok(lv);
                    }
                    let rr = eval_expr(right, f, env, rt, host);
                    let ghost gr = eval_result_view(rr);
                    assert(step2(rt@, gr));
                    match rr {
                        Err(x) => Err(x),
                        Ok(rv) => if op == Operator::IfNull {
                            Ok(rv)
                        } else if op == Operator::And || op == Operator::Or {
                            Ok(Value::Bool(rt.deref(&rv).is_truthy()))
                        } else {
                            binary_in(rt, op, lv, rv)
                        },
                    }
                },
            }
        },
        Expression::Array(es) => {
            let vs = eval_list(es, es.len(), f, env, rt, host);
            assert(step2(rt@, values_view(vs@)));
            proof {
                assert(expressions_view(es@).take(es@.len() as int) =~= expressions_view(es@));
            }
            let k = rt.push_cell(Value::Array(vs));
            Ok(Value::Reference(k))
        },
        Expression::Function(func) => {
            let mut captured = func.deep_clone();
            captured.closure = Some(SharedEnvironment { id: env });
            let i = rt.push_closure(captured);
            Ok(Value::Function(FunctionRef::Closure(i)))
        },
        Expression::FunctionCall { callee, args, tail } => {
            let rc = eval_expr(callee, f, env, rt, host);
            let ghost g1 = eval_result_view(rc);
            assert(step2(rt@, g1));
            match rc {
                Err(x) => Err(x),
                Ok(cv) => match resolve(rt, &cv) {
                    None => Err(EvaluationError::NotCallable(cv)),
                    Some(func) => {
                        let ca0 = func.default_args();
                        let ra = eval_args(args, args.len(), ca0, f, env, rt, host);
                        let ghost ga = args_result_view(ra);
                        assert(step2(rt@, ga));
                        proof {
                            assert(named_expressions_view(args@).take(args@.len() as int) =~= named_expressions_view(args@));
                        }
                        match ra {
                            Err(x) => Err(x),
                            Ok(ca) => {
                                let rtl = eval_tail(tail, tail.len(), ca, f, env, rt, host);
                                let ghost gt = args_result_view(rtl);
                                assert(step2(rt@, gt));
                                proof {
                                    assert(expressions_view(tail@).take(tail@.len() as int) =~= expressions_view(tail@));
                                }
                                match rtl {
                                    Err(x) => Err(x),
                                    Ok(ca2) => {
                                        let rcall = call_function(&func, ca2, f, rt, host);
                                        let ghost gc = function_result_view(rcall);
                                        assert(step1(gc));
                                        match rcall {
                                            Ok(v) => Ok(v),
                                            Err(x) => Err(EvaluationError::Function(Box::new(x))),
                                        }
                                    },
                                }
                            },
                        }
                    },
                },
            }
        },
        Expression::HashMap(ps) => {
            let m = eval_map_literal(ps, ps.len(), f, env, rt, host);
            assert(step2(rt@, pairs_view(m@)));
            proof {
                assert(expression_pairs_view(ps@).take(ps@.len() as int) =~= expression_pairs_view(ps@));
            }
            let k = rt.push_cell(Value::HashMap(m));
            Ok(Value::Reference(k))
        },
        Expression::IfElse { condition, then_branch, else_branch } => {
            let rc = eval_expr(condition, f, env, rt, host);
            let ghost g1 = eval_result_view(rc);
            assert(step2(rt@, g1));
            match rc {
                Err(x) => Err(x),
                Ok(c) => {
                    let truthy = rt.deref(&c).is_truthy();
                    if truthy || else_branch.is_some() {
                        let b: &StatementBlock = if truthy {
                            then_branch
                        } else {
                            match else_branch {
                                Some(b) => b,
                                None => then_branch,
                            }
                        };
                        let frame = Environment::new(Some(SharedEnvironment { id: env })).into_shared(rt);
                        let rb = exec_block(&b.statements, b.statements.len(), f, frame.id, rt, host);
                        let ghost gb = statement_result_view(rb);
                        assert(step1(gb));
                        proof {
                            assert(statements_view(b.statements@).take(b.statements@.len() as int) =~= statements_view(b.statements@));
                        }
                        match rb {
                            Ok(v) => Ok(v),
                            Err(x) => Err(EvaluationError::Statement(Box::new(x))),
                        }
                    } else {
                        Ok(Value::Null)
                    }
                },
            }
        },
        Expression::WhileLoop { condition, body } => eval_while(condition, body, f, env, rt, host),
    }
}

/// Runs a `while` loop whose body has not run yet.
fn eval_while<H: Host>(
    condition: &Expression,
    body: &StatementBlock,
    fuel: u64,
    env: usize,
    rt: &mut Runtime,
    host: &mut H,
) -> (r: Result<Value, EvaluationError>)
    ensures
        while_rel(fuel as int, condition@, body@, env, old(rt)@, final(rt)@, SValue::Null, eval_result_view(r)),
    decreases fuel, 0nat,
{

    let ghost s0 = rt@;
    let ghost c = condition@;
    let ghost b = body@;
    let mut budget = fuel;
    let mut last = Value::Null;
    loop
        invariant
            budget <= fuel,
            s0 == old(rt)@,
            c == condition@,
            b == body@,
            forall|t, r| #[trigger]
                while_rel(budget as int, c, b, env, rt@, t, last@, r) ==> while_rel(fuel as int, c, b, env, s0, t, SValue::Null, r),
        decreases budget,
    {
        let ghost sc = rt@;
        if budget == 0 {
            proof {
                assert(while_rel(budget as int, c, b, env, sc, sc, last@, Err(SEvalError::OutOfFuel)));
            }
            return Err(EvaluationError::OutOfFuel);
        }
        let f = budget - 1;
        assert(f as int == budget as int - 1);
        let rc = eval_expr(condition, f, env, rt, host);
        let ghost g1 = eval_result_view(rc);
        let ghost s1 = rt@;
        assert(step2(s1, g1));
        match rc {
            Err(x) => {
                proof {
                    assert(while_rel(budget as int, c, b, env, sc, s1, last@, Err(x@)));
                }
                return Err(x);
            },
            Ok(cv) => {
                if !rt.deref(&cv).is_truthy() {
                    proof {
                        assert(while_rel(budget as int, c, b, env, sc, s1, last@, Ok(last@)));
                    }
                    return Ok(last);
                }
                let frame = Environment::new(Some(SharedEnvironment { id: env })).into_shared(rt);
                let rb = exec_block(&body.statements, body.statements.len(), f, frame.id, rt, host);
                let ghost gb = statement_result_view(rb);
                let ghost s2 = rt@;
                assert(step2(s2, gb));
                proof {
                    assert(statements_view(body.statements@).take(body.statements@.len() as int) =~= b);
                }
                match rb {
                    Err(x) => {
                        proof {
                            assert(while_rel(budget as int, c, b, env, sc, s2, last@, Err(SEvalError::Statement(Box::new(x@)))));
                        }
                        return Err(EvaluationError::Statement(Box::new(x)));
                    },
                    Ok(bv) => {
                        proof {
                            assert forall|t, r| #[trigger] while_rel(f as int, c, b, env, s2, t, bv@, r) implies while_rel(
                                fuel as int,
                                c,
                                b,
                                env,
                                s0,
                                t,
                                SValue::Null,
                                r,
                            ) by {
                                assert(while_rel(budget as int, c, b, env, sc, t, last@, r));
                            }
                        }
                        budget = f;
                        last = bv;
                    },
                }
            },
        }
    }
}

/// Evaluates the first `n` elements of an array literal; an element whose evaluation fails is null.
fn eval_list<H: Host>(es: &Vec<Expression>, n: usize, fuel: u64, env: usize, rt: &mut Runtime, host: &mut H) -> (r: Vec<
    Value,
>)
    requires
        n <= es.len(),
    ensures
        list_rel(fuel as int, expressions_view(es@).take(n as int), env, old(rt)@, final(rt)@, values_view(r@)),
    decreases fuel, n,
{
    if n == 0 {
        let v: Vec<Value> = Vec::new();
        proof {
            assert(values_view(v@) =~= Seq::<SValue>::empty());
            assert(expressions_view(es@).take(0) =~= Seq::empty());
        }
        return v;
    }
    let mut vs = eval_list(es, n - 1, fuel, env, rt, host);
    let ghost vs0 = values_view(vs@);
    let ghost s1 = rt@;
    let r = eval_expr(&es[n - 1], fuel, env, rt, host);
    let ghost gr = eval_result_view(r);
    let v = match r {
        Ok(v) => v,
        Err(_) => Value::Null,
    };
    vs.push(v);
    proof {
        let ev = expressions_view(es@).take(n as int);
        assert(ev.drop_last() =~= expressions_view(es@).take(n - 1));
        assert(ev.last() == expression_view(es@[n - 1]));
        assert(values_view(vs@) =~= vs0.push(or_null(gr)));
        assert(step3(s1, vs0, gr));
    }
    vs
}

/// Evaluates the first `n` pairs of a map literal; a key or value whose evaluation fails is null.
fn eval_map_literal<H: Host>(
    ps: &Vec<(Expression, Expression)>,
    n: usize,
    fuel: u64,
    env: usize,
    rt: &mut Runtime,
    host: &mut H,
) -> (r: Vec<(Value, Value)>)
    requires
        n <= ps.len(),
    ensures
        map_literal_rel(fuel as int, expression_pairs_view(ps@).take(n as int), env, old(rt)@, final(rt)@, pairs_view(r@)),
    decreases fuel, n,
{

    if n == 0 {
        let v: Vec<(Value, Value)> = Vec::new();
        proof {
            assert(pairs_view(v@) =~= Seq::<(SValue, SValue)>::empty());
            assert(expression_pairs_view(ps@).take(0) =~= Seq::empty());
        }
        return v;
    }
    let mut m = eval_map_literal(ps, n - 1, fuel, env, rt, host);
    let ghost m0 = pairs_view(m@);
    let ghost s1 = rt@;
    let rk = eval_expr(&ps[n - 1].0, fuel, env, rt, host);
    let ghost gk = eval_result_view(rk);
    let ghost s2 = rt@;
    let rv = eval_expr(&ps[n - 1].1, fuel, env, rt, host);
    let ghost gv = eval_result_view(rv);
    let k = match rk {
        Ok(k) => k,
        Err(_) => Value::Null,
    };
    let v = match rv {
        Ok(v) => v,
        Err(_) => Value::Null,
    };
    insert_pair(&mut m, k, v);
    proof {
        let pv = expression_pairs_view(ps@).take(n as int);
        assert(pv.drop_last() =~= expression_pairs_view(ps@).take(n - 1));
        assert(pv.last() == (expression_view(ps@[n - 1].0), expression_view(ps@[n - 1].1)));
        assert(step5(s1, m0, s2, gk, gv));
    }
    m
}

/// Evaluates the first `n` named arguments of a call into `ca0`.
fn eval_args<H: Host>(
    ps: &Vec<(String, Expression)>,
    n: usize,
    ca0: FunctionCallArgs,
    fuel: u64,
    env: usize,
    rt: &mut Runtime,
    host: &mut H,
) -> (r: Result<FunctionCallArgs, EvaluationError>)
    requires
        n <= ps.len(),
    ensures
        args_rel(fuel as int, named_expressions_view(ps@).take(n as int), env, old(rt)@, final(rt)@, ca0@, args_result_view(r)),
    decreases fuel, n,
{
    let ghost g0 = ca0@;
    if n == 0 {
        proof {
            assert(named_expressions_view(ps@).take(0) =~= Seq::empty());
        }
        return Ok(ca0);
    }
    let r1 = eval_args(ps, n - 1, ca0, fuel, env, rt, host);
    let ghost g1 = args_result_view(r1);
    assert(step2(rt@, g1));
    proof {
        let pv = named_expressions_view(ps@).take(n as int);
        assert(pv.drop_last() =~= named_expressions_view(ps@).take(n - 1));
        assert(pv.last() == (ps@[n - 1].0@, expression_view(ps@[n - 1].1)));
    }
    match r1 {
        Err(x) => Err(x),
        Ok(ca1) => {
            let mut ca = ca1;
            let r2 = eval_expr(&ps[n - 1].1, fuel, env, rt, host);
            let ghost g2 = eval_result_view(r2);
            assert(step1(g2));
            match r2 {
                Err(x) => Err(x),
                Ok(v) => match ca.set_arg(&ps[n - 1].0, v) {
                    Ok(()) => Ok(ca),
                    Err(x) => Err(EvaluationError::Function(Box::new(x))),
                },
            }
        },
    }
}

/// Evaluates the first `n` tail arguments of a call into `ca0`.
fn eval_tail<H: Host>(
    es: &Vec<Expression>,
    n: usize,
    ca0: FunctionCallArgs,
    fuel: u64,
    env: usize,
    rt: &mut Runtime,
    host: &mut H,
) -> (r: Result<FunctionCallArgs, EvaluationError>)
    requires
        n <= es.len(),
    ensures
        tail_rel(fuel as int, expressions_view(es@).take(n as int), env, old(rt)@, final(rt)@, ca0@, args_result_view(r)),
    decreases fuel, n,
{
    let ghost g0 = ca0@;
    if n == 0 {
        proof {
            assert(expressions_view(es@).take(0) =~= Seq::empty());
        }
        return Ok(ca0);
    }
    let r1 = eval_tail(es, n - 1, ca0, fuel, env, rt, host);
    let ghost g1 = args_result_view(r1);
    assert(step2(rt@, g1));
    proof {
        let ev = expressions_view(es@).take(n as int);
        assert(ev.drop_last() =~= expressions_view(es@).take(n - 1));
        assert(ev.last() == expression_view(es@[n - 1]));
    }
    match r1 {
        Err(x) => Err(x),
        Ok(ca1) => {
            let mut ca = ca1;
            let r2 = eval_expr(&es[n - 1], fuel, env, rt, host);
            let ghost g2 = eval_result_view(r2);
            assert(step1(g2));
            match r2 {
                Err(x) => Err(x),
                Ok(v) => match ca.add_tail(v) {
                    Ok(()) => Ok(ca),
                    Err(x) => Err(EvaluationError::Function(Box::new(x))),
                },
            }
        },
    }
}

/// Calls `func` with `args`, in a new environment inside the one the function was created in.
fn call_function<H: Host>(func: &Function, args: FunctionCallArgs, fuel: u64, rt: &mut Runtime, host: &mut H) -> (r: Result<
    Value,
    FunctionError,
>)
    ensures
        call_rel(fuel as int, func@, args@, old(rt)@, final(rt)@, function_result_view(r)),
    decreases fuel, 1nat,
{
    if fuel == 0 {
        return Err(
            FunctionError::Execution(StatementExecutionError::ExpressionEvaluation(EvaluationError::OutOfFuel)),
        );
    }
    let f = fuel - 1;
    assert(f as int == fuel as int - 1);
    let ghost ga = args@;
    let vars = args.into_frame_variables();
    let frame = Environment::with_variables(func.closure, vars).into_shared(rt);
    match &func.code {
        FunctionCode::Block(b) => {
            let rb = exec_block(&b.statements, b.statements.len(), f, frame.id, rt, host);
            let ghost gb = statement_result_view(rb);
            assert(step1(gb));
            proof {
                assert(statements_view(b.statements@).take(b.statements@.len() as int) =~= statements_view(b.statements@));
            }
            match rb {
                Ok(v) => Ok(v),
                Err(x) => Err(FunctionError::Execution(x)),
            }
        },
        FunctionCode::Host(h) => {
            let v = run_builtin(*h, f, frame.id, rt, host);
            assert(step1(v@));
            Ok(v)
        },
    }
}

/// Runs the built-in `h` in its call environment `frame`.
fn run_builtin<H: Host>(h: HostFunction, fuel: u64, frame: usize, rt: &mut Runtime, host: &mut H) -> (r: Value)
    ensures
        host_rel(fuel as int, h, frame, old(rt)@, final(rt)@, r@),
    decreases fuel + 1, 0nat,
{

    match h {
        HostFunction::External(x) => {
            let args = if frame < rt.environments.len() {
                rt.environments[frame].copy_variables()
            } else {
                let v: Vec<(String, Value)> = Vec::new();
                assert(named_values_view(v@) =~= Seq::empty());
                v
            };
            let args = resolve_variables(rt, &args);
            let v = host.call(x, &args);
            let response = v.deep_clone();
            let ghost call = HostCall { function: x, args, response };
            rt.host_calls.push(HostCall { function: x, args, response });
            proof {
                assert(rt@.host_calls =~= old(rt)@.host_calls.push(call@));
                assert(rt@.environments =~= old(rt)@.environments);
                assert(rt@.closures =~= old(rt)@.closures);
                assert(rt@.cells =~= old(rt)@.cells);
            }
            assert(step2(rt@, v@));
            rt.allocate(v)
        },
        HostFunction::MapValues => {
            let fv = lookup_or_null(rt, frame, "func");
            match resolve(rt, &fv) {
                None => Value::Null,
                Some(func) => {
                    let tail = rt.deref(&lookup_or_null(rt, frame, "tail"));
                    match tail {
                        Value::Array(items) => {
                            let out = map_items(&func, &items, items.len(), fuel, rt, host);
                            assert(step2(rt@, values_view(out@)));
                            proof {
                                assert(values_view(items@).take(items@.len() as int) =~= values_view(items@));
                            }
                            rt.allocate(Value::Array(out))
                        },
                        Value::HashMap(m) => {
                            let vals = values_of_pairs(&m);
                            let out = map_items(&func, &vals, vals.len(), fuel, rt, host);
                            assert(step2(rt@, values_view(out@)));
                            proof {
                                assert(values_view(vals@).take(vals@.len() as int) =~= values_view(vals@));
                            }
                            let ghost ov = values_view(out@);
                            let mut pairs: Vec<(Value, Value)> = Vec::new();
                            let mut i: usize = 0;
                            while i < m.len()
                                invariant
                                    i <= m.len(),
                                    out@.len() == m@.len(),
                                    ov == values_view(out@),
                                    pairs_view(pairs@) == Seq::new(
                                        m@.len(),
                                        |k: int| (pairs_view(m@)[k].0, ov[k]),
                                    ).take(i as int),
                                decreases m.len() - i,
                            {
                                let ghost before = pairs@;
                                let k = m[i].0.deep_clone();
                                let v = out[i].deep_clone();
                                pairs.push((k, v));
                                i = i + 1;
                                proof {
                                    assert(pairs_view(pairs@) =~= pairs_view(before).push((k@, v@)));
                                    assert(pairs_view(pairs@) =~= Seq::new(
                                        m@.len(),
                                        |k: int| (pairs_view(m@)[k].0, ov[k]),
                                    ).take(i as int));
                                }
                            }
                            proof {
                                let pm = pairs_view(m@);
                                assert(pairs_view(pairs@) =~= Seq::new(pm.len(), |k: int| (pm[k].0, ov[k])));
                            }
                            rt.allocate(Value::HashMap(pairs))
                        },
                        _ => Value::Null,
                    }
                },
            }
        },
        HostFunction::Filter => {
            let fv = lookup_or_null(rt, frame, "func");
            match resolve(rt, &fv) {
                None => Value::Null,
                Some(func) => {
                    let tail = rt.deref(&lookup_or_null(rt, frame, "tail"));
                    match tail {
                        Value::Array(items) => {
                            let keep = filter_items(&func, &items, items.len(), fuel, rt, host);
                            assert(step2(rt@, keep@));
                            proof {
                                assert(values_view(items@).take(items@.len() as int) =~= values_view(items@));
                            }
                            rt.allocate(Value::Array(kept_values(&items, &keep)))
                        },
                        Value::HashMap(m) => {
                            let vals = values_of_pairs(&m);
                            let keep = filter_items(&func, &vals, vals.len(), fuel, rt, host);
                            assert(step2(rt@, keep@));
                            proof {
                                assert(values_view(vals@).take(vals@.len() as int) =~= values_view(vals@));
                            }
                            rt.allocate(Value::HashMap(kept_pairs(&m, &keep)))
                        },
                        _ => Value::Null,
                    }
                },
            }
        },
        _ => {
            let v = builtin_pure(h, frame, rt);
            rt.allocate(v)
        },
    }
}

/// Variables with their values resolved into trees of plain values.
fn resolve_variables(rt: &Runtime, vars: &Vec<(String, Value)>) -> (r: Vec<(String, Value)>)
    ensures
        named_values_view(r@) == resolved_variables(rt@, named_values_view(vars@)),
{
    let mut out: Vec<(String, Value)> = Vec::new();
    let mut i: usize = 0;
    while i < vars.len()
        invariant
            i <= vars.len(),
            out@.len() == i,
            forall|j: int| 0 <= j < i ==> (#[trigger] out@[j]).0@ == vars@[j].0@ && out@[j].1@ == resolved(rt@, vars@[j].1@),
        decreases vars.len() - i,
    {
        let n = vars[i].0.clone();
        let v = rt.resolve(&vars[i].1);
        out.push((n, v));
        i = i + 1;
    }
    assert(named_values_view(out@) =~= resolved_variables(rt@, named_values_view(vars@)));
    out
}

/// Calls `func` on each of the first `n` items in turn; a failed call gives null.
fn map_items<H: Host>(func: &Function, items: &Vec<Value>, n: usize, fuel: u64, rt: &mut Runtime, host: &mut H) -> (r: Vec<
    Value,
>)
    requires
        n <= items.len(),
    ensures
        map_rel(fuel as int, func@, values_view(items@).take(n as int), old(rt)@, final(rt)@, values_view(r@)),
        r.len() == n,
    decreases fuel, n + 1,
{

    if n == 0 {
        let v: Vec<Value> = Vec::new();
        proof {
            assert(values_view(v@) =~= Seq::<SValue>::empty());
            assert(values_view(items@).take(0) =~= Seq::empty());
        }
        return v;
    }
    let mut out = map_items(func, items, n - 1, fuel, rt, host);
    let ghost out0 = values_view(out@);
    let ghost s1 = rt@;
    let mut args = func.default_args();
    let _ = args.set_singular_arg(items[n - 1].deep_clone());
    let rc = call_function(func, args, fuel, rt, host);
    let ghost gc = function_result_view(rc);
    let v = match rc {
        Ok(v) => v,
        Err(_) => Value::Null,
    };
    out.push(v);
    proof {
        let iv = values_view(items@).take(n as int);
        assert(iv.drop_last() =~= values_view(items@).take(n - 1));
        assert(iv.last() == items@[n - 1]@);
        assert(values_view(out@) =~= out0.push(v@));
        assert(step3(s1, out0, gc));
    }
    out
}

/// Calls `func` on each of the first `n` items in turn; gives whether each call gave a true value.
fn filter_items<H: Host>(func: &Function, items: &Vec<Value>, n: usize, fuel: u64, rt: &mut Runtime, host: &mut H) -> (r: Vec<
    bool,
>)
    requires
        n <= items.len(),
    ensures
        filter_rel(fuel as int, func@, values_view(items@).take(n as int), old(rt)@, final(rt)@, r@),
        r.len() == n,
    decreases fuel, n + 1,
{

    if n == 0 {
        let v: Vec<bool> = Vec::new();
        proof {
            assert(values_view(items@).take(0) =~= Seq::empty());
        }
        return v;
    }
    let mut keep = filter_items(func, items, n - 1, fuel, rt, host);
    let ghost keep0 = keep@;
    let ghost s1 = rt@;
    let mut args = func.default_args();
    let _ = args.set_singular_arg(items[n - 1].deep_clone());
    let rc = call_function(func, args, fuel, rt, host);
    let ghost gc = function_result_view(rc);
    let v = match rc {
        Ok(v) => v,
        Err(_) => Value::Null,
    };
    keep.push(rt.deref(&v).is_truthy());
    proof {
        assert(step3(s1, keep0, gc));
        let iv = values_view(items@).take(n as int);
        assert(iv.drop_last() =~= values_view(items@).take(n - 1));
        assert(iv.last() == items@[n - 1]@);
    }
    keep
}

/// Copies of the items whose flag is set, in order.
fn kept_values(items: &Vec<Value>, keep: &Vec<bool>) -> (r: Vec<Value>)
    requires
        keep.len() == items.len(),
    ensures
        values_view(r@) == kept(values_view(items@), keep@),
{
    let ghost iv = values_view(items@);
    let mut out: Vec<Value> = Vec::new();
    let mut i: usize = 0;
    proof {
        assert(values_view(out@) =~= Seq::<SValue>::empty());
    }
    while i < items.len()
        invariant
            i <= items.len(),
            keep.len() == items.len(),
            iv == values_view(items@),
            values_view(out@) == kept(iv.take(i as int), keep@.take(i as int)),
        decreases items.len() - i,
    {
        let ghost before = out@;
        if keep[i] {
            let v = items[i].deep_clone();
            out.push(v);
            proof {
                assert(values_view(out@) =~= values_view(before).push(v@));
            }
        }
        i = i + 1;
        proof {
            assert(iv.take(i as int).drop_last() =~= iv.take(i as int - 1));
            assert(keep@.take(i as int).drop_last() =~= keep@.take(i as int - 1));
        }
    }
    proof {
        assert(iv.take(i as int) =~= iv);
        assert(keep@.take(i as int) =~= keep@);
    }
    out
}

/// Copies of the pairs whose flag is set, in order.
fn kept_pairs(m: &Vec<(Value, Value)>, keep: &Vec<bool>) -> (r: Vec<(Value, Value)>)
    requires
        keep.len() == m.len(),
    ensures
        pairs_view(r@) == kept(pairs_view(m@), keep@),
{
    let ghost pv = pairs_view(m@);
    let mut out: Vec<(Value, Value)> = Vec::new();
    let mut i: usize = 0;
    proof {
        assert(pairs_view(out@) =~= Seq::<(SValue, SValue)>::empty());
    }
    while i < m.len()
        invariant
            i <= m.len(),
            keep.len() == m.len(),
            pv == pairs_view(m@),
            pairs_view(out@) == kept(pv.take(i as int), keep@.take(i as int)),
        decreases m.len() - i,
    {
        let ghost before = out@;
        if keep[i] {
            let k = m[i].0.deep_clone();
            let v = m[i].1.deep_clone();
            out.push((k, v));
            proof {
                assert(pairs_view(out@) =~= pairs_view(before).push((k@, v@)));
            }
        }
        i = i + 1;
        proof {
            assert(pv.take(i as int).drop_last() =~= pv.take(i as int - 1));
            assert(keep@.take(i as int).drop_last() =~= keep@.take(i as int - 1));
        }
    }
    proof {
        assert(pv.take(i as int) =~= pv);
        assert(keep@.take(i as int) =~= keep@);
    }
    out
}

/// Runs the first `n` statements in `env`; the result is the value of the last one.
fn exec_block<H: Host>(stmts: &Vec<Statement>, n: usize, fuel: u64, env: usize, rt: &mut Runtime, host: &mut H) -> (r: Result<
    Value,
    StatementExecutionError,
>)
    requires
        n <= stmts.len(),
    ensures
        block_rel(fuel as int, statements_view(stmts@).take(n as int), env, old(rt)@, final(rt)@, statement_result_view(r)),
    decreases fuel, n + 1,
{
    if n == 0 {
        proof {
            assert(statements_view(stmts@).take(0) =~= Seq::empty());
        }
        return Ok(Value::Null);
    }
    let r1 = exec_block(stmts, n - 1, fuel, env, rt, host);
    let ghost g1 = statement_result_view(r1);
    assert(step2(rt@, g1));
    proof {
        let sv = statements_view(stmts@).take(n as int);
        assert(sv.drop_last() =~= statements_view(stmts@).take(n - 1));
        assert(sv.last() == statement_view(stmts@[n - 1]));
    }
    match r1 {
        Err(x) => Err(x),
        Ok(_) => exec_stmt(&stmts[n - 1], fuel, env, rt, host),
    }
}

/// Runs one statement in `env`.
fn exec_stmt<H: Host>(st: &Statement, fuel: u64, env: usize, rt: &mut Runtime, host: &mut H) -> (r: Result<
    Value,
    StatementExecutionError,
>)
    ensures
        stmt_rel(fuel as int, st@, env, old(rt)@, final(rt)@, statement_result_view(r)),
    decreases fuel, 0nat,
{
    if fuel == 0 {
        return Err(StatementExecutionError::ExpressionEvaluation(EvaluationError::OutOfFuel));
    }
    let f = fuel - 1;
    assert(f as int == fuel as int - 1);
    match st {
        Statement::VariableDeclaration { variable, right_side } => {
            let r1 = eval_expr(right_side, f, env, rt, host);
            let ghost g1 = eval_result_view(r1);
            assert(step2(rt@, g1));
            match r1 {
                Err(x) => Err(StatementExecutionError::ExpressionEvaluation(x)),
                Ok(v) => {
                    let prev = rt.define(env, variable.clone(), v.deep_clone());
                    if prev.is_some() {
                        Err(StatementExecutionError::VariableRedeclaration(variable.clone()))
                    } else {
                        Ok(v)
                    }
                },
            }
        },
        Statement::Assignment { target, right_side } => {
            let r1 = eval_expr(right_side, f, env, rt, host);
            let ghost g1 = eval_result_view(r1);
            assert(step2(rt@, g1));
            match r1 {
                Err(x) => Err(StatementExecutionError::ExpressionEvaluation(x)),
                Ok(v) => assign(target, v, f, env, rt, host),
            }
        },
        Statement::Expression { expression } => {
            let r1 = eval_expr(expression, f, env, rt, host);
            let ghost g1 = eval_result_view(r1);
            assert(step1(g1));
            match r1 {
                Ok(v) => Ok(v),
                Err(x) => Err(StatementExecutionError::ExpressionEvaluation(x)),
            }
        },
        Statement::Import { library_name, as_namespace } => match builtin_library_named(library_name) {
            Some(lib) => {
                import_into_env(lib, library_name, *as_namespace, env, rt);
                Ok(Value::Null)
            },
            None => {
                let text = library_source(library_name, rt, host);
                proof {
                    assert(step2(rt@, text@));
                }
                match text {
                    Value::String(src) => match scan_and_parse(&src) {
                        Err(e) => Err(StatementExecutionError::Import(LibraryLoadError::ParsingFailed(e))),
                        Ok(block) => {
                            let frame = rt.environments.len();
                            let _library_env = Environment::new(None).into_shared(rt);
                            let x = exec_block(&block.statements, block.statements.len(), f, frame, rt, host);
                            proof {
                                assert(statements_view(block.statements@).take(block.statements@.len() as int)
                                    =~= block@);
                                assert(step2(rt@, statement_result_view(x)));
                            }
                            let lib = SharedEnvironment { id: frame }.as_library(rt);
                            import_into_env(lib, library_name, *as_namespace, env, rt);
                            Ok(Value::Null)
                        },
                    },
                    _ => Err(StatementExecutionError::Import(LibraryLoadError::NotFound)),
                }
            },
        },
    }
}

fn is_place_of(e: &Expression) -> (r: bool)
    ensures
        r == is_place(e@),
{
    match e {
        Expression::Variable(_) => true,
        Expression::Binary { operator, .. } => *operator == Operator::Index,
        _ => false,
    }
}

/// The container `c` with the element at `index` replaced by `v`.
fn updated_container_of(c: Value, index: &Value, v: Value, target: &Expression) -> (r: Result<
    Value,
    StatementExecutionError,
>)
    ensures
        statement_result_view(r) == updated_container(c@, index@, v@, target@),
{
    proof {
        crate::language::value::lemma_view_variant(c);
        crate::language::value::lemma_view_variant(*index);
    }
    match (c, index) {
        (Value::Array(a), Value::Int(i)) => {
            let i = *i;
            if i < 0 || (i as u128) > (usize::MAX as u128) {
                return Err(
                    StatementExecutionError::ExpressionEvaluation(EvaluationError::UnexpecteNonPositiveInteger(i)),
                );
            }
            let idx = i as usize;
            if idx >= a.len() {
                return Err(
                    StatementExecutionError::ExpressionEvaluation(
                        EvaluationError::IndexOutOfBounds { value: Value::Array(a), index: idx },
                    ),
                );
            }
            let mut a = a;
            let ghost before = values_view(a@);
            let ghost vv = v@;
            a[idx] = v;
            proof {
                assert(values_view(a@) =~= before.update(idx as int, vv));
            }
            Ok(Value::Array(a))
        },
        (Value::HashMap(m), k) => {
            let mut m = m;
            insert_pair(&mut m, k.deep_clone(), v);
            Ok(Value::HashMap(m))
        },
        _ => Err(StatementExecutionError::ExpressionEvaluation(EvaluationError::IllegalOperation(target.deep_clone()))),
    }
}

/// Stores `v` into the place that `target` denotes.
fn assign<H: Host>(target: &Expression, v: Value, fuel: u64, env: usize, rt: &mut Runtime, host: &mut H) -> (r: Result<
    Value,
    StatementExecutionError,
>)
    ensures
        assign_rel(fuel as int, target@, v@, env, old(rt)@, final(rt)@, statement_result_view(r)),
    decreases fuel, 0nat,
{
    match target {
        Expression::Variable(name) => {
            let prev = rt.set(env, name, v.deep_clone());
            if prev.is_none() {
                Err(StatementExecutionError::UnknownVariable(name.clone()))
            } else {
                Ok(v)
            }
        },
        Expression::Binary { operator, left, right } => {
            if *operator != Operator::Index {
                return Err(
                    StatementExecutionError::ExpressionEvaluation(EvaluationError::IllegalOperation(target.deep_clone())),
                );
            }
            if fuel == 0 {
                return Err(StatementExecutionError::ExpressionEvaluation(EvaluationError::OutOfFuel));
            }
            let f = fuel - 1;
    assert(f as int == fuel as int - 1);
            let rl = eval_expr(left, f, env, rt, host);
            let ghost gl = eval_result_view(rl);
            assert(step2(rt@, gl));
            match rl {
                Err(x) => Err(StatementExecutionError::ExpressionEvaluation(x)),
                Ok(c) => {
                    let ri = eval_expr(right, f, env, rt, host);
                    let ghost gi = eval_result_view(ri);
                    assert(step2(rt@, gi));
                    match ri {
                        Err(x) => Err(StatementExecutionError::ExpressionEvaluation(x)),
                        Ok(i) => if let Value::Reference(k) = c {
                            let d = rt.deref(&c);
                            match updated_container_of(d, &i, v.deep_clone(), target) {
                                Err(x) => Err(x),
                                Ok(nc) => {
                                    rt.set_cell(k, nc);
                                    Ok(v)
                                },
                            }
                        } else { match updated_container_of(c, &i, v.deep_clone(), target) {
                            Err(x) => Err(x),
                            Ok(nc) => if is_place_of(left) {
                                let r3 = assign(left, nc, f, env, rt, host);
                                let ghost g3 = statement_result_view(r3);
                                assert(step1(g3));
                                match r3 {
                                    Err(x) => Err(x),
                                    Ok(_) => Ok(v),
                                }
                            } else {
                                Ok(v)
                            },
                        } },
                    }
                },
            }
        },
        _ => Err(StatementExecutionError::ExpressionEvaluation(EvaluationError::IllegalOperation(target.deep_clone()))),
    }
}

/// Imports a library into `env`: each of its values, or one map under the library's name.
fn import_into_env(lib: Library, name: &String, as_namespace: bool, env: usize, rt: &mut Runtime)
    ensures
        final(rt)@ == import_into(old(rt)@, env, name@, lib@, as_namespace),
{
    let ghost lv = lib@;
    let entries = lib.into_entries();
    if as_namespace {
        let mut pairs: Vec<(Value, Value)> = Vec::new();
        let mut i: usize = 0;
        while i < entries.len()
            invariant
                i <= entries.len(),
                lv == named_values_view(entries@),
                pairs_view(pairs@) == Seq::new(lv.len(), |k: int| (SValue::String(lv[k].0), lv[k].1)).take(i as int),
            decreases entries.len() - i,
        {
            let ghost before = pairs@;
            let k = Value::String(entries[i].0.clone());
            let v = entries[i].1.deep_clone();
            pairs.push((k, v));
            i = i + 1;
            proof {
                assert(pairs_view(pairs@) =~= pairs_view(before).push((k@, v@)));
                assert(pairs_view(pairs@) =~= Seq::new(lv.len(), |k: int| (SValue::String(lv[k].0), lv[k].1)).take(
                    i as int,
                ));
            }
        }
        proof {
            assert(pairs_view(pairs@) =~= Seq::new(lv.len(), |k: int| (SValue::String(lv[k].0), lv[k].1)));
        }
        let ns = rt.allocate(Value::HashMap(pairs));
        rt.define(env, name.clone(), ns);
    } else {
        let ghost s0 = rt@;
        let mut i: usize = 0;
        while i < entries.len()
            invariant
                i <= entries.len(),
                lv == named_values_view(entries@),
                rt@ == rt_define_all(s0, env, lv.take(i as int)),
            decreases entries.len() - i,
        {
            let n = entries[i].0.clone();
            let v = entries[i].1.deep_clone();
            rt.define(env, n, v);
            i = i + 1;
            proof {
                assert(lv.take(i as int).drop_last() =~= lv.take(i as int - 1));
            }
        }
        proof {
            assert(lv.take(i as int) =~= lv);
        }
    }
}

/// Asks the host for the text of the library file `name` and records the call.
fn library_source<H: Host>(name: &String, rt: &mut Runtime, host: &mut H) -> (r: Value)
    ensures
        crate::language::semantics::host_call_recorded(
            old(rt)@,
            final(rt)@,
            ExternalFunction::LibrarySource,
            library_request(name@),
            r@,
        ),
{
    let mut args: Vec<(String, Value)> = Vec::new();
    args.push((String::from_str("name"), Value::String(name.clone())));
    proof {
        assert(named_values_view(args@) =~= library_request(name@));
    }
    let v = host.call(ExternalFunction::LibrarySource, &args);
    let response = v.deep_clone();
    let ghost call = HostCall { function: ExternalFunction::LibrarySource, args, response };
    rt.host_calls.push(HostCall { function: ExternalFunction::LibrarySource, args, response });
    proof {
        assert(rt@.host_calls =~= old(rt)@.host_calls.push(call@));
        assert(rt@.environments =~= old(rt)@.environments);
        assert(rt@.closures =~= old(rt)@.closures);
    }
    v
}

/* Running code */

impl Expression {
    /// Evaluates the expression in `environment`. External functions are performed by `host`,
    /// and each of their calls is recorded in the runtime.
    pub fn evaluate<H: Host>(&self, environment: &SharedEnvironment, runtime: &mut Runtime, host: &mut H) -> (r: Result<
        Value,
        EvaluationError,
    >)
        ensures
            eval_rel(EVALUATION_FUEL as int, self@, environment.id, old(runtime)@, final(runtime)@, eval_result_view(r)),
    {
        eval_expr(self, EVALUATION_FUEL, environment.id, runtime, host)
    }

    /// Like `evaluate`, with a budget that bounds the depth of the evaluation and the
    /// number of loop iterations; `EvaluationError::OutOfFuel` when it runs out.
    pub fn evaluate_with_fuel<H: Host>(
        &self,
        fuel: u64,
        environment: &SharedEnvironment,
        runtime: &mut Runtime,
        host: &mut H,
    ) -> (r: Result<Value, EvaluationError>)
        ensures
            eval_rel(fuel as int, self@, environment.id, old(runtime)@, final(runtime)@, eval_result_view(r)),
    {
        eval_expr(self, fuel, environment.id, runtime, host)
    }

    /// Like `evaluate`, but an evaluation that fails gives null.
    pub fn evaluate_or_null<H: Host>(&self, environment: &SharedEnvironment, runtime: &mut Runtime, host: &mut H) -> (v: Value)
        ensures
            exists|r: Result<SValue, SEvalError>|
                #[trigger] eval_rel(EVALUATION_FUEL as int, self@, environment.id, old(runtime)@, final(runtime)@, r)
                    && v@ == or_null(r),
    {
        let r = self.evaluate(environment, runtime, host);
        let ghost g = eval_result_view(r);
        match r {
            Ok(v) => v,
            Err(_) => Value::Null,
        }
    }
}

impl Statement {
    /// Executes the statement in `environment`; its value is that of its expression.
    pub fn execute<H: Host>(&self, environment: &SharedEnvironment, runtime: &mut Runtime, host: &mut H) -> (r: Result<
        Value,
        StatementExecutionError,
    >)
        ensures
            stmt_rel(EVALUATION_FUEL as int, self@, environment.id, old(runtime)@, final(runtime)@, statement_result_view(r)),
    {
        exec_stmt(self, EVALUATION_FUEL, environment.id, runtime, host)
    }
}

impl StatementBlock {
    /// Executes the statements in order, stopping at the first error; the value is that
    /// of the last statement, null when there is none.
    pub fn execute<H: Host>(&self, environment: &SharedEnvironment, runtime: &mut Runtime, host: &mut H) -> (r: Result<
        Value,
        StatementExecutionError,
    >)
        ensures
            block_rel(EVALUATION_FUEL as int, self@, environment.id, old(runtime)@, final(runtime)@, statement_result_view(r)),
    {
        let r = exec_block(&self.statements, self.statements.len(), EVALUATION_FUEL, environment.id, runtime, host);
        proof {
            assert(statements_view(self.statements@).take(self.statements@.len() as int) =~= self@);
        }
        r
    }
}

impl Function {
    /// Calls the function with `args`, in a new environment inside the one it was created in.
    pub fn call<H: Host>(&self, args: FunctionCallArgs, runtime: &mut Runtime, host: &mut H) -> (r: Result<Value, FunctionError>)
        ensures
            call_rel(EVALUATION_FUEL as int, self@, args@, old(runtime)@, final(runtime)@, function_result_view(r)),
    {
        call_function(self, args, EVALUATION_FUEL, runtime, host)
    }

    /// Calls the function with every parameter bound to its default value.
    pub fn call_with_default_args<H: Host>(&self, runtime: &mut Runtime, host: &mut H) -> (r: Result<Value, FunctionError>)
        ensures
            call_rel(
                EVALUATION_FUEL as int,
                self@,
                default_call_args(self@.params),
                old(runtime)@,
                final(runtime)@,
                function_result_view(r),
            ),
    {
        let args = self.default_args();
        call_function(self, args, EVALUATION_FUEL, runtime, host)
    }
}

impl FunctionCode {
    /// Runs the code in `environment`, which holds the arguments of the call.
    pub fn execute<H: Host>(&self, environment: &SharedEnvironment, runtime: &mut Runtime, host: &mut H) -> (r: Result<
        Value,
        FunctionError,
    >)
        ensures
            code_rel(EVALUATION_FUEL as int, self@, environment.id, old(runtime)@, final(runtime)@, function_result_view(r)),
    {
        match self {
            FunctionCode::Block(b) => {
                let rb = exec_block(&b.statements, b.statements.len(), EVALUATION_FUEL, environment.id, runtime, host);
                let ghost gb = statement_result_view(rb);
                proof {
                    assert(statements_view(b.statements@).take(b.statements@.len() as int) =~= statements_view(b.statements@));
                    assert(block_rel(EVALUATION_FUEL as int, statements_view(b.statements@), environment.id, old(runtime)@, runtime@, gb));
                }
                let res = match rb {
                    Ok(v) => Ok(v),
                    Err(x) => Err(FunctionError::Execution(x)),
                };
                proof {
                    assert(function_result_view(res) == match gb {
                        Ok(v) => Ok(v),
                        Err(x) => Err(crate::language::function::SFunctionError::Execution(x)),
                    });
                    assert(step1(gb));
                }
                res
            },
            FunctionCode::Host(h) => {
                let v = run_builtin(*h, EVALUATION_FUEL, environment.id, runtime, host);
                assert(step1(v@));
                Ok(v)
            },
        }
    }
}

} // verus!
