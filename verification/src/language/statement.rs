use vstd::prelude::*;

use crate::language::expression::{evaluation_error_view, expression_view, EvaluationError, Expression, SEvalError, SExpr};
use crate::language::importer::{library_load_error_view, LibraryLoadError, SLibraryLoadError};
use crate::language::value::{SValue, Value};

verus! {

#[derive(Debug)]
pub enum Statement {
    VariableDeclaration { variable: String, right_side: Expression },
    Assignment { target: Expression, right_side: Expression },
    Expression { expression: Expression },
    Import { library_name: String, as_namespace: bool },
}

pub enum SStatement {
    VariableDeclaration { variable: Seq<char>, right_side: SExpr },
    Assignment { target: SExpr, right_side: SExpr },
    Expression { expression: SExpr },
    Import { library_name: Seq<char>, as_namespace: bool },
}

pub open spec fn statement_view(s: Statement) -> SStatement
    decreases s,
{
    match s {
        Statement::VariableDeclaration { variable, right_side } => SStatement::VariableDeclaration {
            variable: variable@,
            right_side: expression_view(right_side),
        },
        Statement::Assignment { target, right_side } => SStatement::Assignment {
            target: expression_view(target),
            right_side: expression_view(right_side),
        },
        Statement::Expression { expression } => SStatement::Expression {
            expression: expression_view(expression),
        },
        Statement::Import { library_name, as_namespace } => SStatement::Import {
            library_name: library_name@,
            as_namespace,
        },
    }
}

pub open spec fn statements_view(s: Seq<Statement>) -> Seq<SStatement>
    decreases s,
{
    Seq::new(
        s.len(),
        |i: int|
            if 0 <= i < s.len() {
                statement_view(s[i])
            } else {
                SStatement::Expression { expression: SExpr::Value(SValue::Null) }
            },
    )
}

impl View for Statement {
    type V = SStatement;

    open spec fn view(&self) -> SStatement {
        statement_view(*self)
    }
}

/// Used in `Statement` and `Function` as well.
#[derive(Debug)]
pub struct StatementBlock {
    pub statements: Vec<Statement>,
}

impl View for StatementBlock {
    type V = Seq<SStatement>;

    open spec fn view(&self) -> Seq<SStatement> {
        statements_view(self.statements@)
    }
}

#[derive(Debug)]
pub enum StatementExecutionError {
    UnknownVariable(String),
    VariableRedeclaration(String),
    FunctionRedefinition(String),
    ExpressionEvaluation(EvaluationError),
    Import(LibraryLoadError),
}

pub enum SStatementError {
    UnknownVariable(Seq<char>),
    VariableRedeclaration(Seq<char>),
    FunctionRedefinition(Seq<char>),
    ExpressionEvaluation(SEvalError),
    Import(SLibraryLoadError),
}

pub open spec fn statement_error_view(e: StatementExecutionError) -> SStatementError
    decreases e,
{
    match e {
        StatementExecutionError::UnknownVariable(n) => SStatementError::UnknownVariable(n@),
        StatementExecutionError::VariableRedeclaration(n) => SStatementError::VariableRedeclaration(n@),
        StatementExecutionError::FunctionRedefinition(n) => SStatementError::FunctionRedefinition(n@),
        StatementExecutionError::ExpressionEvaluation(x) => SStatementError::ExpressionEvaluation(
            evaluation_error_view(x),
        ),
        StatementExecutionError::Import(l) => SStatementError::Import(library_load_error_view(l)),
    }
}

impl View for StatementExecutionError {
    type V = SStatementError;

    open spec fn view(&self) -> SStatementError {
        statement_error_view(*self)
    }
}

pub open spec fn statement_result_view(r: Result<Value, StatementExecutionError>) -> Result<SValue, SStatementError> {
    match r {
        Ok(v) => Ok(v@),
        Err(e) => Err(statement_error_view(e)),
    }
}

impl Statement {
    /// A copy of the statement.
    pub fn deep_clone(&self) -> (r: Statement)
        ensures
            r@ == self@,
        decreases self,
    {
        match self {
            Statement::VariableDeclaration { variable, right_side } => Statement::VariableDeclaration {
                variable: variable.clone(),
                right_side: right_side.deep_clone(),
            },
            Statement::Assignment { target, right_side } => Statement::Assignment {
                target: target.deep_clone(),
                right_side: right_side.deep_clone(),
            },
            Statement::Expression { expression } => Statement::Expression { expression: expression.deep_clone() },
            Statement::Import { library_name, as_namespace } => Statement::Import {
                library_name: library_name.clone(),
                as_namespace: *as_namespace,
            },
        }
    }
}

pub fn clone_statements(v: &Vec<Statement>) -> (r: Vec<Statement>)
    ensures
        statements_view(r@) == statements_view(v@),
    decreases v,
{
    let mut out: Vec<Statement> = Vec::new();
    let mut i: usize = 0;
    while i < v.len()
        invariant
            i <= v.len(),
            out@.len() == i,
            forall|j: int| 0 <= j < i ==> statement_view(#[trigger] out@[j]) == statement_view(v@[j]),
        decreases v.len() - i,
    {
        let st = v[i].deep_clone();
        out.push(st);
        i = i + 1;
    }
    assert(statements_view(out@) =~= statements_view(v@));
    out
}

} // verus!
