use vstd::prelude::*;

use crate::language::function::{function_error_view, function_view, Function, FunctionError, SFunction, SFunctionError};
use crate::language::statement::{clone_statements, statement_error_view, statements_view, SStatement, SStatementError, StatementBlock, StatementExecutionError};
use crate::language::value::{value_view, SValue, Value};

verus! {

#[derive(Debug)]
pub enum Expression {
    Value(Value),
    Variable(String),
    Unary { operator: Operator, operand: Box<Expression> },
    Binary { operator: Operator, left: Box<Expression>, right: Box<Expression> },
    Array(Vec<Expression>),
    Function(Function),
    /// Named arguments in the order they were written, then the tail arguments.
    FunctionCall { callee: Box<Expression>, args: Vec<(String, Expression)>, tail: Vec<Expression> },
    HashMap(Vec<(Expression, Expression)>),
    IfElse { condition: Box<Expression>, then_branch: StatementBlock, else_branch: Option<StatementBlock> },
    WhileLoop { condition: Box<Expression>, body: StatementBlock },
}

#[derive(Clone, Copy, Debug, PartialEq, Eq, Structural)]
pub enum Operator {
    /* Math */
    Add,
    Sub,
    Mul,
    Div,
    Power,
    /* Indexing */
    Index,
    /* Logical */
    And,
    Or,
    Not,
    IfNull,
    /* Comparison */
    Eq,
    NotEq,
    Less,
    LessEq,
    Greater,
    GreaterEq,
}

/// The model of an expression.
pub enum SExpr {
    Value(SValue),
    Variable(Seq<char>),
    Unary { operator: Operator, operand: Box<SExpr> },
    Binary { operator: Operator, left: Box<SExpr>, right: Box<SExpr> },
    Array(Seq<SExpr>),
    Function(SFunction),
    FunctionCall { callee: Box<SExpr>, args: Seq<(Seq<char>, SExpr)>, tail: Seq<SExpr> },
    HashMap(Seq<(SExpr, SExpr)>),
    IfElse { condition: Box<SExpr>, then_branch: Seq<SStatement>, else_branch: Option<Seq<SStatement>> },
    WhileLoop { condition: Box<SExpr>, body: Seq<SStatement> },
}

pub open spec fn expression_view(e: Expression) -> SExpr
    decreases e,
{
    match e {
        Expression::Value(v) => SExpr::Value(value_view(v)),
        Expression::Variable(n) => SExpr::Variable(n@),
        Expression::Unary { operator, operand } => SExpr::Unary {
            operator,
            operand: Box::new(expression_view(*operand)),
        },
        Expression::Binary { operator, left, right } => SExpr::Binary {
            operator,
            left: Box::new(expression_view(*left)),
            right: Box::new(expression_view(*right)),
        },
        Expression::Array(es) => SExpr::Array(expressions_view(es@)),
        Expression::Function(f) => SExpr::Function(function_view(f)),
        Expression::FunctionCall { callee, args, tail } => SExpr::FunctionCall {
            callee: Box::new(expression_view(*callee)),
            args: named_expressions_view(args@),
            tail: expressions_view(tail@),
        },
        Expression::HashMap(ps) => SExpr::HashMap(expression_pairs_view(ps@)),
        Expression::IfElse { condition, then_branch, else_branch } => SExpr::IfElse {
            condition: Box::new(expression_view(*condition)),
            then_branch: statements_view(then_branch.statements@),
            else_branch: match else_branch {
                Some(b) => Some(statements_view(b.statements@)),
                None => None,
            },
        },
        Expression::WhileLoop { condition, body } => SExpr::WhileLoop {
            condition: Box::new(expression_view(*condition)),
            body: statements_view(body.statements@),
        },
    }
}

pub open spec fn expressions_view(s: Seq<Expression>) -> Seq<SExpr>
    decreases s,
{
    Seq::new(s.len(), |i: int| if 0 <= i < s.len() { expression_view(s[i]) } else { SExpr::Value(SValue::Null) })
}

pub open spec fn named_expressions_view(s: Seq<(String, Expression)>) -> Seq<(Seq<char>, SExpr)>
    decreases s,
{
    Seq::new(
        s.len(),
        |i: int|
            if 0 <= i < s.len() {
                (s[i].0@, expression_view(s[i].1))
            } else {
                (Seq::empty(), SExpr::Value(SValue::Null))
            },
    )
}

pub open spec fn expression_pairs_view(s: Seq<(Expression, Expression)>) -> Seq<(SExpr, SExpr)>
    decreases s,
{
    Seq::new(
        s.len(),
        |i: int|
            if 0 <= i < s.len() {
                (expression_view(s[i].0), expression_view(s[i].1))
            } else {
                (SExpr::Value(SValue::Null), SExpr::Value(SValue::Null))
            },
    )
}

impl View for Expression {
    type V = SExpr;

    open spec fn view(&self) -> SExpr {
        expression_view(*self)
    }
}

#[derive(Debug)]
pub enum EvaluationError {
    Function(Box<FunctionError>),
    IllegalOperation(Expression),
    IndexOutOfBounds { value: Value, index: usize },
    NotCallable(Value),
    UnexpecteNonPositiveInteger(i64),
    UnknownVariable(String),
    UnknownFunction(String),
    /// A statement inside an `if` or `while` block failed.
    Statement(Box<StatementExecutionError>),
    /// The evaluation budget ran out before the evaluation ended.
    OutOfFuel,
}

pub enum SEvalError {
    Function(Box<SFunctionError>),
    IllegalOperation(SExpr),
    IndexOutOfBounds { value: SValue, index: usize },
    NotCallable(SValue),
    UnexpecteNonPositiveInteger(i64),
    UnknownVariable(Seq<char>),
    UnknownFunction(Seq<char>),
    Statement(Box<SStatementError>),
    OutOfFuel,
}

pub open spec fn evaluation_error_view(e: EvaluationError) -> SEvalError
    decreases e,
{
    match e {
        EvaluationError::Function(f) => SEvalError::Function(Box::new(function_error_view(*f))),
        EvaluationError::IllegalOperation(x) => SEvalError::IllegalOperation(expression_view(x)),
        EvaluationError::IndexOutOfBounds { value, index } => SEvalError::IndexOutOfBounds {
            value: value_view(value),
            index,
        },
        EvaluationError::NotCallable(v) => SEvalError::NotCallable(value_view(v)),
        EvaluationError::UnexpecteNonPositiveInteger(i) => SEvalError::UnexpecteNonPositiveInteger(i),
        EvaluationError::UnknownVariable(n) => SEvalError::UnknownVariable(n@),
        EvaluationError::UnknownFunction(n) => SEvalError::UnknownFunction(n@),
        EvaluationError::Statement(s) => SEvalError::Statement(Box::new(statement_error_view(*s))),
        EvaluationError::OutOfFuel => SEvalError::OutOfFuel,
    }
}

impl View for EvaluationError {
    type V = SEvalError;

    open spec fn view(&self) -> SEvalError {
        evaluation_error_view(*self)
    }
}

pub open spec fn eval_result_view(r: Result<Value, EvaluationError>) -> Result<SValue, SEvalError> {
    match r {
        Ok(v) => Ok(value_view(v)),
        Err(e) => Err(evaluation_error_view(e)),
    }
}

impl Expression {
    /// A copy of the expression.
    pub fn deep_clone(&self) -> (r: Expression)
        ensures
            r@ == self@,
        decreases self,
    {
        match self {
            Expression::Value(v) => Expression::Value(v.deep_clone()),
            Expression::Variable(n) => Expression::Variable(n.clone()),
            Expression::Unary { operator, operand } => Expression::Unary {
                operator: *operator,
                operand: Box::new((**operand).deep_clone()),
            },
            Expression::Binary { operator, left, right } => Expression::Binary {
                operator: *operator,
                left: Box::new((**left).deep_clone()),
                right: Box::new((**right).deep_clone()),
            },
            Expression::Array(es) => Expression::Array(clone_expressions(es)),
            Expression::Function(f) => Expression::Function(f.deep_clone()),
            Expression::FunctionCall { callee, args, tail } => Expression::FunctionCall {
                callee: Box::new((**callee).deep_clone()),
                args: clone_named_expressions(args),
                tail: clone_expressions(tail),
            },
            Expression::HashMap(ps) => Expression::HashMap(clone_expression_pairs(ps)),
            Expression::IfElse { condition, then_branch, else_branch } => {
                let else_copy = match else_branch {
                    Some(b) => Some(StatementBlock { statements: clone_statements(&b.statements) }),
                    None => None,
                };
                Expression::IfElse {
                    condition: Box::new((**condition).deep_clone()),
                    then_branch: StatementBlock { statements: clone_statements(&then_branch.statements) },
                    else_branch: else_copy,
                }
            },
            Expression::WhileLoop { condition, body } => Expression::WhileLoop {
                condition: Box::new((**condition).deep_clone()),
                body: StatementBlock { statements: clone_statements(&body.statements) },
            },
        }
    }
}

pub fn clone_expressions(v: &Vec<Expression>) -> (r: Vec<Expression>)
    ensures
        expressions_view(r@) == expressions_view(v@),
    decreases v,
{
    let mut out: Vec<Expression> = Vec::new();
    let mut i: usize = 0;
    while i < v.len()
        invariant
            i <= v.len(),
            out@.len() == i,
            forall|j: int| 0 <= j < i ==> expression_view(#[trigger] out@[j]) == expression_view(v@[j]),
        decreases v.len() - i,
    {
        let e = v[i].deep_clone();
        out.push(e);
        i = i + 1;
    }
    assert(expressions_view(out@) =~= expressions_view(v@));
    out
}

pub fn clone_named_expressions(v: &Vec<(String, Expression)>) -> (r: Vec<(String, Expression)>)
    ensures
        named_expressions_view(r@) == named_expressions_view(v@),
    decreases v,
{
    let mut out: Vec<(String, Expression)> = Vec::new();
    let mut i: usize = 0;
    while i < v.len()
        invariant
            i <= v.len(),
            out@.len() == i,
            forall|j: int|
                0 <= j < i ==> (#[trigger] out@[j]).0@ == v@[j].0@ && expression_view(out@[j].1) == expression_view(v@[j].1),
        decreases v.len() - i,
    {
        let n = v[i].0.clone();
        let e = v[i].1.deep_clone();
        out.push((n, e));
        i = i + 1;
    }
    assert(named_expressions_view(out@) =~= named_expressions_view(v@));
    out
}

pub fn clone_expression_pairs(v: &Vec<(Expression, Expression)>) -> (r: Vec<(Expression, Expression)>)
    ensures
        expression_pairs_view(r@) == expression_pairs_view(v@),
    decreases v,
{
    let mut out: Vec<(Expression, Expression)> = Vec::new();
    let mut i: usize = 0;
    while i < v.len()
        invariant
            i <= v.len(),
            out@.len() == i,
            forall|j: int|
                0 <= j < i ==> expression_view((#[trigger] out@[j]).0) == expression_view(v@[j].0) && expression_view(out@[j].1) == expression_view(v@[j].1),
        decreases v.len() - i,
    {
        let k = v[i].0.deep_clone();
        let e = v[i].1.deep_clone();
        out.push((k, e));
        i = i + 1;
    }
    assert(expression_pairs_view(out@) =~= expression_pairs_view(v@));
    out
}

} // verus!
