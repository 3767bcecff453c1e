//! The parser: tokens to statements, following the rules of `grammar`.
use vstd::prelude::*;

use std::rc::Rc;

use crate::language::expression::{expression_view, Expression, Operator, SExpr};
use crate::language::function::{Function, FunctionCode, FunctionParams, SFunction};
use crate::language::statement::{statement_view, statements_view, SStatement, Statement, StatementBlock};
use crate::language::value::Value;
use crate::parsing::grammar::{
    binary, expect, expect_error, ident, is_keyword, is_tok, op_at, p_args, p_array, p_array_rest,
    p_binary, p_binary_rest, p_block, p_block_rest, p_function, p_function_definition, p_if_else,
    p_import, p_map, p_map_rest, p_operand, p_params, p_postfix, p_primary, p_program, p_separator,
    p_statement, p_unary, p_var_declaration, p_while, parse_tokens, skip_comma, PResult,
    SParserError,
};
use crate::parsing::token::{same_token, tokens_view, SToken, STokenWithMeta, Token, TokenWithMeta};

verus! {

#[derive(Debug)]
pub enum ParserError {
    DuplicateArgument(String),
    ExpectedValue,
    MultipleTailParams,
    UnexpectedToken { token: TokenWithMeta, expected: String },
    UnexpectedEof { expected: String },
    /// A rule read nothing where it had to read something.
    Stalled,
}

impl View for ParserError {
    type V = SParserError;

    open spec fn view(&self) -> SParserError {
        match self {
            ParserError::DuplicateArgument(s) => SParserError::DuplicateArgument(s@),
            ParserError::ExpectedValue => SParserError::ExpectedValue,
            ParserError::MultipleTailParams => SParserError::MultipleTailParams,
            ParserError::UnexpectedToken { token, expected } => SParserError::UnexpectedToken {
                token: token@,
                expected: expected@,
            },
            ParserError::UnexpectedEof { expected } => SParserError::UnexpectedEof { expected: expected@ },
            ParserError::Stalled => SParserError::Stalled,
        }
    }
}

pub open spec fn stmt_result(r: Result<(Statement, usize), ParserError>) -> PResult<SStatement> {
    match r {
        Ok((s, p)) => Ok((s@, p as int)),
        Err(e) => Err(e@),
    }
}

pub open spec fn expr_result(r: Result<(Expression, usize), ParserError>) -> PResult<SExpr> {
    match r {
        Ok((e, p)) => Ok((e@, p as int)),
        Err(e) => Err(e@),
    }
}

pub open spec fn stmts_result(r: Result<(Vec<Statement>, usize), ParserError>) -> PResult<Seq<SStatement>> {
    match r {
        Ok((s, p)) => Ok((statements_view(s@), p as int)),
        Err(e) => Err(e@),
    }
}

pub open spec fn function_result(r: Result<(Function, usize), ParserError>) -> PResult<SFunction> {
    match r {
        Ok((f, p)) => Ok((f@, p as int)),
        Err(e) => Err(e@),
    }
}

pub open spec fn pos_result(r: Result<usize, ParserError>) -> Result<int, SParserError> {
    match r {
        Ok(p) => Ok(p as int),
        Err(e) => Err(e@),
    }
}

fn text(s: &str) -> (r: String)
    ensures
        r@ == s@,
{
    String::from_str(s)
}

fn is_token(ts: &Vec<TokenWithMeta>, pos: usize, t: &Token) -> (r: bool)
    ensures
        r == (pos < ts@.len() && ts@[pos as int].token@ == t@),
        r == is_tok(tokens_view(ts@), pos as int, t@),
{
    pos < ts.len() && same_token(&ts[pos].token, t)
}

fn is_word(ts: &Vec<TokenWithMeta>, pos: usize, word: &str) -> (r: bool)
    ensures
        r == is_keyword(tokens_view(ts@), pos as int, word@),
{
    if pos < ts.len() {
        match &ts[pos].token {
            Token::Ident(s) => *s == text(word),
            _ => false,
        }
    } else {
        false
    }
}

fn error_at(ts: &Vec<TokenWithMeta>, pos: usize, name: &str, short: &str) -> (e: ParserError)
    ensures
        e@ == expect_error(tokens_view(ts@), pos as int, name@, short@),
{
    if pos < ts.len() {
        ParserError::UnexpectedToken { token: ts[pos].deep_clone(), expected: text(name) }
    } else {
        ParserError::UnexpectedEof { expected: text(short) }
    }
}

fn expect_token(ts: &Vec<TokenWithMeta>, pos: usize, t: &Token, name: &str, short: &str) -> (r: Result<usize, ParserError>)
    requires
        pos < usize::MAX,
    ensures
        match r {
            Ok(p) => p <= ts@.len(),
            Err(_) => true,
        },
        pos_result(r) == expect(tokens_view(ts@), pos as int, t@, name@, short@),
{
    if is_token(ts, pos, t) {
        Ok(pos + 1)
    } else {
        Err(error_at(ts, pos, name, short))
    }
}

fn read_ident(ts: &Vec<TokenWithMeta>, pos: usize, what: &str) -> (r: Result<(String, usize), ParserError>)
    requires
        pos < usize::MAX,
    ensures
        match r {
            Ok((_, p)) => p <= ts@.len() && p == pos + 1,
            Err(_) => true,
        },
        match r {
            Ok((s, p)) => ident(tokens_view(ts@), pos as int, what@) == Ok::<(Seq<char>, int), SParserError>((s@, p as int)),
            Err(e) => ident(tokens_view(ts@), pos as int, what@) == Err::<(Seq<char>, int), SParserError>(e@),
        },
{
    if pos < ts.len() {
        match &ts[pos].token {
            Token::Ident(s) => Ok((s.clone(), pos + 1)),
            _ => Err(ParserError::UnexpectedToken { token: ts[pos].deep_clone(), expected: text(what) }),
        }
    } else {
        Err(ParserError::UnexpectedEof { expected: text(what) })
    }
}

fn skip_comma_at(ts: &Vec<TokenWithMeta>, pos: usize) -> (r: Result<usize, ParserError>)
    requires
        pos < usize::MAX,
    ensures
        match r {
            Ok(p) => p <= ts@.len(),
            Err(_) => true,
        },
        pos_result(r) == skip_comma(tokens_view(ts@), pos as int),
{
    if pos >= ts.len() {
        Err(ParserError::UnexpectedEof { expected: text("\"Token::Comma\"") })
    } else if is_token(ts, pos, &Token::Comma) {
        Ok(pos + 1)
    } else {
        Ok(pos)
    }
}

fn separator_at(ts: &Vec<TokenWithMeta>, pos: usize, close: &Token, what: &str) -> (r: Result<usize, ParserError>)
    requires
        pos < usize::MAX,
    ensures
        match r {
            Ok(p) => p <= ts@.len(),
            Err(_) => true,
        },
        pos_result(r) == p_separator(tokens_view(ts@), pos as int, close@, what@),
{
    if pos >= ts.len() {
        Err(ParserError::UnexpectedEof { expected: text(what) })
    } else if is_token(ts, pos, &Token::Comma) {
        Ok(pos + 1)
    } else if is_token(ts, pos, close) {
        Ok(pos)
    } else {
        Err(ParserError::UnexpectedToken { token: ts[pos].deep_clone(), expected: text(what) })
    }
}

fn binary_expr(op: Operator, l: Expression, r: Expression) -> (e: Expression)
    ensures
        e@ == binary(op, l@, r@),
{
    Expression::Binary { operator: op, left: Box::new(l), right: Box::new(r) }
}

/// Parses a statement at `pos`.
pub fn statement(ts: &Vec<TokenWithMeta>, pos: usize) -> (r: Result<(Statement, usize), ParserError>)
    requires
        ts@.len() < usize::MAX,
    ensures
        match r {
            Ok((_, p)) => p <= ts@.len(),
            Err(_) => true,
        },
        stmt_result(r) == p_statement(tokens_view(ts@), pos as int),
    decreases ts@.len() - pos, 110int,
{
    if pos >= ts.len() {
        return Err(ParserError::UnexpectedEof { expected: text("a statement") });
    }
    if is_word(ts, pos, "var") {
        return var_declaration(ts, pos);
    }
    if is_word(ts, pos, "def") {
        return function_definition(ts, pos);
    }
    if is_word(ts, pos, "import") {
        return import(ts, pos);
    }
    match binary_level(ts, pos, 0) {
        Err(e) => Err(e),
        Ok((target, p1)) => if p1 <= pos || p1 > ts.len() {
            Err(ParserError::Stalled)
        } else if is_token(ts, p1, &Token::Equal) {
            match binary_level(ts, p1 + 1, 0) {
                Err(e) => Err(e),
                Ok((right, p2)) => Ok((Statement::Assignment { target, right_side: right }, p2)),
            }
        } else {
            Ok((Statement::Expression { expression: target }, p1))
        },
    }
}

fn import(ts: &Vec<TokenWithMeta>, pos: usize) -> (r: Result<(Statement, usize), ParserError>)
    requires
        ts@.len() < usize::MAX,
        pos < ts@.len(),
    ensures
        match r {
            Ok((_, p)) => p <= ts@.len(),
            Err(_) => true,
        },
        stmt_result(r) == p_import(tokens_view(ts@), pos as int),
    decreases ts@.len() - pos, 105int,
{
    match read_ident(ts, pos, "the import keyword") {
        Err(e) => Err(e),
        Ok((_, p1)) => match read_ident(ts, p1, "a library name") {
            Err(e) => Err(e),
            Ok((name, p2)) => if is_token(ts, p2, &Token::Dot) {
                match expect_token(ts, p2 + 1, &Token::Star, "Token::Star", "Star") {
                    Err(e) => Err(e),
                    Ok(p3) => Ok((Statement::Import { library_name: name, as_namespace: false }, p3)),
                }
            } else {
                Ok((Statement::Import { library_name: name, as_namespace: true }, p2))
            },
        },
    }
}

fn var_declaration(ts: &Vec<TokenWithMeta>, pos: usize) -> (r: Result<(Statement, usize), ParserError>)
    requires
        ts@.len() < usize::MAX,
        pos < ts@.len(),
    ensures
        match r {
            Ok((_, p)) => p <= ts@.len(),
            Err(_) => true,
        },
        stmt_result(r) == p_var_declaration(tokens_view(ts@), pos as int),
    decreases ts@.len() - pos, 105int,
{
    match read_ident(ts, pos, "variable declaration keyword `var`") {
        Err(e) => Err(e),
        Ok((_, p1)) => match read_ident(ts, p1, "a variable name") {
            Err(e) => Err(e),
            Ok((name, p2)) => match expect_token(ts, p2, &Token::Equal, "Token::Equal", "Equal") {
                Err(e) => Err(e),
                Ok(p3) => match binary_level(ts, p3, 0) {
                    Err(e) => Err(e),
                    Ok((e, p4)) => Ok((Statement::VariableDeclaration { variable: name, right_side: e }, p4)),
                },
            },
        },
    }
}

fn function_definition(ts: &Vec<TokenWithMeta>, pos: usize) -> (r: Result<(Statement, usize), ParserError>)
    requires
        ts@.len() < usize::MAX,
        pos < ts@.len(),
    ensures
        match r {
            Ok((_, p)) => p <= ts@.len(),
            Err(_) => true,
        },
        stmt_result(r) == p_function_definition(tokens_view(ts@), pos as int),
    decreases ts@.len() - pos, 105int,
{
    match read_ident(ts, pos, "function definition keyword `def`") {
        Err(e) => Err(e),
        Ok((_, p1)) => match read_ident(ts, p1, "a function name") {
            Err(e) => Err(e),
            Ok((name, p2)) => match function(ts, p2) {
                Err(e) => Err(e),
                Ok((f, p3)) => Ok((Statement::VariableDeclaration { variable: name, right_side: Expression::Function(f) }, p3)),
            },
        },
    }
}

fn block(ts: &Vec<TokenWithMeta>, pos: usize) -> (r: Result<(Vec<Statement>, usize), ParserError>)
    requires
        ts@.len() < usize::MAX,
        pos <= ts@.len(),
    ensures
        match r {
            Ok((_, p)) => p <= ts@.len(),
            Err(_) => true,
        },
        stmts_result(r) == p_block(tokens_view(ts@), pos as int),
    decreases ts@.len() - pos, 105int,
{
    match expect_token(ts, pos, &Token::LeftBrace, "Token::LeftBrace", "LeftBrace") {
        Err(e) => Err(e),
        Ok(p1) => {
            let acc: Vec<Statement> = Vec::new();
            assert(statements_view(acc@) =~= Seq::<SStatement>::empty());
            block_rest(ts, p1, acc)
        },
    }
}

fn block_rest(ts: &Vec<TokenWithMeta>, pos: usize, acc: Vec<Statement>) -> (r: Result<(Vec<Statement>, usize), ParserError>)
    requires
        ts@.len() < usize::MAX,
        pos <= ts@.len(),
    ensures
        match r {
            Ok((_, p)) => p <= ts@.len(),
            Err(_) => true,
        },
        stmts_result(r) == p_block_rest(tokens_view(ts@), pos as int, statements_view(acc@)),
    decreases ts@.len() - pos, 120int,
{
    if pos >= ts.len() {
        return Err(ParserError::UnexpectedEof { expected: text("\"&Token::RightBrace\"") });
    }
    if is_token(ts, pos, &Token::RightBrace) {
        return Ok((acc, pos + 1));
    }
    match statement(ts, pos) {
        Err(e) => Err(e),
        Ok((st, p1)) => if p1 <= pos || p1 > ts.len() {
            Err(ParserError::Stalled)
        } else {
            let mut acc = acc;
            let ghost a0 = statements_view(acc@);
            let ghost sv = st@;
            acc.push(st);
            assert(statements_view(acc@) =~= a0.push(sv));
            block_rest(ts, p1, acc)
        },
    }
}

fn function(ts: &Vec<TokenWithMeta>, pos: usize) -> (r: Result<(Function, usize), ParserError>)
    requires
        ts@.len() < usize::MAX,
        pos <= ts@.len(),
    ensures
        match r {
            Ok((_, p)) => p <= ts@.len(),
            Err(_) => true,
        },
        function_result(r) == p_function(tokens_view(ts@), pos as int),
    decreases ts@.len() - pos, 105int,
{
    match expect_token(ts, pos, &Token::LeftParen, "Token::LeftParen", "LeftParen") {
        Err(e) => Err(e),
        Ok(p1) => params(ts, p1, FunctionParams::new(), None),
    }
}

fn params(ts: &Vec<TokenWithMeta>, pos: usize, ps: FunctionParams, tail: Option<String>) -> (r: Result<(Function, usize), ParserError>)
    requires
        ts@.len() < usize::MAX,
        pos <= ts@.len(),
    ensures
        match r {
            Ok((_, p)) => p <= ts@.len(),
            Err(_) => true,
        },
        function_result(r) == p_params(
            tokens_view(ts@),
            pos as int,
            ps@,
            match tail {
                Some(t) => Some(t@),
                None => None,
            },
        ),
    decreases ts@.len() - pos, 120int,
{
    if pos >= ts.len() {
        return Err(ParserError::UnexpectedEof { expected: text("\"Token::RightParen\"") });
    }
    if is_token(ts, pos, &Token::RightParen) {
        let all = match tail {
            Some(t) => ps.with_tail(t),
            None => ps,
        };
        return match block(ts, pos + 1) {
            Err(e) => Err(e),
            Ok((body, p1)) => Ok((
                Function {
                    params: all,
                    code: FunctionCode::Block(Rc::new(StatementBlock { statements: body })),
                    closure: None,
                },
                p1,
            )),
        };
    }
    if is_token(ts, pos, &Token::Star) {
        return match read_ident(ts, pos + 1, "a tail parameter name") {
            Err(e) => Err(e),
            Ok((name, p1)) => if tail.is_some() {
                Err(ParserError::MultipleTailParams)
            } else {
                match skip_comma_at(ts, p1) {
                    Err(e) => Err(e),
                    Ok(p2) => params(ts, p2, ps, Some(name)),
                }
            },
        };
    }
    match read_ident(ts, pos, "a parameter name") {
        Err(e) => Err(e),
        Ok((name, p1)) => {
            if p1 >= ts.len() {
                return Err(ParserError::UnexpectedEof { expected: text("rest of function parameters") });
            }
            if is_token(ts, p1, &Token::Equal) {
                match binary_level(ts, p1 + 1, 0) {
                    Err(e) => Err(e),
                    Ok((d, p2)) => if p2 <= p1 || p2 > ts.len() {
                        Err(ParserError::Stalled)
                    } else {
                        match d {
                            Expression::Value(v) => match skip_comma_at(ts, p2) {
                                Err(e) => Err(e),
                                Ok(p3) => params(ts, p3, ps.with_param(name, Some(v)), tail),
                            },
                            _ => Err(ParserError::ExpectedValue),
                        }
                    },
                }
            } else if is_token(ts, p1, &Token::Comma) || is_token(ts, p1, &Token::RightParen) {
                match skip_comma_at(ts, p1) {
                    Err(e) => Err(e),
                    Ok(p3) => params(ts, p3, ps.with_param(name, None), tail),
                }
            } else {
                Err(ParserError::UnexpectedToken { token: ts[p1].deep_clone(), expected: text("one of '=', ',', ')'") })
            }
        },
    }
}

fn has_argument(args: &Vec<(String, Expression)>, name: &String) -> (r: bool)
    ensures
        r == exists|i: int| 0 <= i < args@.len() && args@[i].0@ == name@,
{
    let mut i: usize = 0;
    while i < args.len()
        invariant
            i <= args.len(),
            forall|j: int| 0 <= j < i ==> args@[j].0@ != name@,
        decreases args.len() - i,
    {
        if args[i].0 == *name {
            return true;
        }
        i = i + 1;
    }
    false
}

fn arguments(
    ts: &Vec<TokenWithMeta>,
    pos: usize,
    callee: Expression,
    args: Vec<(String, Expression)>,
    tail: Vec<Expression>,
) -> (r: Result<(Expression, usize), ParserError>)
    requires
        ts@.len() < usize::MAX,
        pos <= ts@.len(),
    ensures
        match r {
            Ok((_, p)) => p <= ts@.len(),
            Err(_) => true,
        },
        expr_result(r) == p_args(
            tokens_view(ts@),
            pos as int,
            callee@,
            crate::language::expression::named_expressions_view(args@),
            crate::language::expression::expressions_view(tail@),
        ),
    decreases ts@.len() - pos, 120int,
{
    let ghost av = crate::language::expression::named_expressions_view(args@);
    let ghost tv = crate::language::expression::expressions_view(tail@);
    if pos >= ts.len() {
        return Err(ParserError::UnexpectedEof { expected: text("\"&Token::RightParen\"") });
    }
    if is_token(ts, pos, &Token::RightParen) {
        return Ok((Expression::FunctionCall { callee: Box::new(callee), args, tail }, pos + 1));
    }
    let mut args = args;
    let mut tail = tail;
    let p1: usize;
    if is_token(ts, pos + 1, &Token::Colon) {
        let (param, q1) = match read_ident(ts, pos, "param name") {
            Err(e) => return Err(e),
            Ok(x) => x,
        };
        let q2 = match expect_token(ts, q1, &Token::Colon, "Token::Colon", "Colon") {
            Err(e) => return Err(e),
            Ok(x) => x,
        };
        let (e, q3) = match binary_level(ts, q2, 0) {
            Err(e) => return Err(e),
            Ok(x) => x,
        };
        proof {
            assert forall|i: int| 0 <= i < av.len() implies (av[i].0 == param@) == (args@[i].0@ == param@) by {}
        }
        if has_argument(&args, &param) {
            proof {
                let i = choose|i: int| 0 <= i < args@.len() && args@[i].0@ == param@;
                assert(av[i].0 == param@);
            }
            return Err(ParserError::DuplicateArgument(param));
        }
        let ghost ev = e@;
        let ghost pv = param@;
        args.push((param, e));
        proof {
            assert(crate::language::expression::named_expressions_view(args@) =~= av.push((pv, ev)));
        }
        p1 = q3;
    } else {
        let (e, q1) = match binary_level(ts, pos, 0) {
            Err(e) => return Err(e),
            Ok(x) => x,
        };
        let ghost ev = e@;
        tail.push(e);
        proof {
            assert(crate::language::expression::expressions_view(tail@) =~= tv.push(ev));
        }
        p1 = q1;
    }
    if p1 <= pos || p1 > ts.len() {
        return Err(ParserError::Stalled);
    }
    if p1 >= ts.len() {
        return Err(ParserError::UnexpectedEof { expected: text("comma or paren") });
    }
    if is_token(ts, p1, &Token::Comma) {
        arguments(ts, p1 + 1, callee, args, tail)
    } else if is_token(ts, p1, &Token::RightParen) {
        arguments(ts, p1, callee, args, tail)
    } else {
        Err(ParserError::UnexpectedToken { token: ts[p1].deep_clone(), expected: text("one of ',', ')'") })
    }
}

fn operand(ts: &Vec<TokenWithMeta>, pos: usize, level: u8) -> (r: Result<(Expression, usize), ParserError>)
    requires
        ts@.len() < usize::MAX,
        pos <= ts@.len(),
    ensures
        match r {
            Ok((_, p)) => p <= ts@.len(),
            Err(_) => true,
        },
        expr_result(r) == p_operand(tokens_view(ts@), pos as int, level as int),
    decreases ts@.len() - pos, 100 - 10 * level - 5,
{
    if level < 6 {
        binary_level(ts, pos, level + 1)
    } else if level == 6 {
        unary(ts, pos)
    } else if level == 7 {
        primary(ts, pos)
    } else {
        Err(ParserError::Stalled)
    }
}

/// The operator of binary level `level` at `pos`, if there is one.
fn operator_at(ts: &Vec<TokenWithMeta>, pos: usize, level: u8) -> (r: Option<Operator>)
    ensures
        r == op_at(tokens_view(ts@), pos as int, level as int),
{
    if pos >= ts.len() {
        return None;
    }
    match ts[pos].token {
        Token::Or => if level == 0 { Some(Operator::Or) } else { None },
        Token::And => if level == 1 { Some(Operator::And) } else { None },
        Token::EqualEqual => if level == 2 { Some(Operator::Eq) } else { None },
        Token::BangEqual => if level == 2 { Some(Operator::NotEq) } else { None },
        Token::Less => if level == 3 { Some(Operator::Less) } else { None },
        Token::LessEqual => if level == 3 { Some(Operator::LessEq) } else { None },
        Token::Greater => if level == 3 { Some(Operator::Greater) } else { None },
        Token::GreaterEqual => if level == 3 { Some(Operator::GreaterEq) } else { None },
        Token::Plus => if level == 4 { Some(Operator::Add) } else { None },
        Token::Minus => if level == 4 { Some(Operator::Sub) } else { None },
        Token::Star => if level == 5 { Some(Operator::Mul) } else { None },
        Token::Slash => if level == 5 { Some(Operator::Div) } else { None },
        Token::QuestionMark => if level == 6 { Some(Operator::IfNull) } else { None },
        Token::Caret => if level == 7 { Some(Operator::Power) } else { None },
        _ => None,
    }
}

fn binary_level(ts: &Vec<TokenWithMeta>, pos: usize, level: u8) -> (r: Result<(Expression, usize), ParserError>)
    requires
        ts@.len() < usize::MAX,
        pos <= ts@.len(),
    ensures
        match r {
            Ok((_, p)) => p <= ts@.len(),
            Err(_) => true,
        },
        expr_result(r) == p_binary(tokens_view(ts@), pos as int, level as int),
    decreases ts@.len() - pos, 100 - 10 * level,
{
    if level > 7 {
        return Err(ParserError::Stalled);
    }
    match operand(ts, pos, level) {
        Err(e) => Err(e),
        Ok((left, p1)) => if p1 <= pos || p1 > ts.len() {
            Err(ParserError::Stalled)
        } else {
            binary_rest(ts, p1, level, left)
        },
    }
}

fn binary_rest(ts: &Vec<TokenWithMeta>, pos: usize, level: u8, left: Expression) -> (r: Result<(Expression, usize), ParserError>)
    requires
        ts@.len() < usize::MAX,
        pos <= ts@.len(),
    ensures
        match r {
            Ok((_, p)) => p <= ts@.len(),
            Err(_) => true,
        },
        expr_result(r) == p_binary_rest(tokens_view(ts@), pos as int, level as int, left@),
    decreases ts@.len() - pos, 120int,
{
    if level > 7 {
        return Err(ParserError::Stalled);
    }
    match operator_at(ts, pos, level) {
        None => Ok((left, pos)),
        Some(op) => match operand(ts, pos + 1, level) {
            Err(e) => Err(e),
            Ok((right, p1)) => if p1 <= pos || p1 > ts.len() {
                Err(ParserError::Stalled)
            } else {
                binary_rest(ts, p1, level, binary_expr(op, left, right))
            },
        },
    }
}

fn unary(ts: &Vec<TokenWithMeta>, pos: usize) -> (r: Result<(Expression, usize), ParserError>)
    requires
        ts@.len() < usize::MAX,
        pos <= ts@.len(),
    ensures
        match r {
            Ok((_, p)) => p <= ts@.len(),
            Err(_) => true,
        },
        expr_result(r) == p_unary(tokens_view(ts@), pos as int),
    decreases ts@.len() - pos, 33int,
{
    if pos < ts.len() {
        let op = match ts[pos].token {
            Token::Plus => Some(Operator::Add),
            Token::Minus => Some(Operator::Sub),
            Token::Bang => Some(Operator::Not),
            _ => None,
        };
        match op {
            Some(op) => {
                return match unary(ts, pos + 1) {
                    Err(e) => Err(e),
                    Ok((operand, p1)) => Ok((Expression::Unary { operator: op, operand: Box::new(operand) }, p1)),
                };
            },
            None => {},
        }
    }
    binary_level(ts, pos, 7)
}

fn primary(ts: &Vec<TokenWithMeta>, pos: usize) -> (r: Result<(Expression, usize), ParserError>)
    requires
        ts@.len() < usize::MAX,
        pos <= ts@.len(),
    ensures
        match r {
            Ok((_, p)) => p <= ts@.len(),
            Err(_) => true,
        },
        expr_result(r) == p_primary(tokens_view(ts@), pos as int),
    decreases ts@.len() - pos, 20int,
{
    let first = if is_token(ts, pos, &Token::LeftBracket) {
        array(ts, pos)
    } else if is_token(ts, pos, &Token::LeftBrace) {
        map_literal(ts, pos)
    } else if is_word(ts, pos, "if") {
        if_else(ts, pos)
    } else if is_word(ts, pos, "while") {
        while_loop(ts, pos)
    } else if pos >= ts.len() {
        Err(ParserError::UnexpectedEof { expected: text("anything expression like") })
    } else {
        match &ts[pos].token {
            Token::Ident(word) => if *word == text("null") {
                Ok((Expression::Value(Value::Null), pos + 1))
            } else if *word == text("false") {
                Ok((Expression::Value(Value::Bool(false)), pos + 1))
            } else if *word == text("true") {
                Ok((Expression::Value(Value::Bool(true)), pos + 1))
            } else if *word == text("def") {
                match function(ts, pos + 1) {
                    Err(e) => Err(e),
                    Ok((f, p1)) => Ok((Expression::Function(f), p1)),
                }
            } else {
                Ok((Expression::Variable(word.clone()), pos + 1))
            },
            Token::Int(i) => Ok((Expression::Value(Value::Int(*i)), pos + 1)),
            Token::String(s) => Ok((Expression::Value(Value::String(s.clone())), pos + 1)),
            Token::LeftParen => match binary_level(ts, pos + 1, 0) {
                Err(e) => Err(e),
                Ok((e, p1)) => match expect_token(ts, p1, &Token::RightParen, "Token::RightParen", "RightParen") {
                    Err(err) => Err(err),
                    Ok(p2) => Ok((e, p2)),
                },
            },
            _ => Err(ParserError::UnexpectedToken { token: ts[pos].deep_clone(), expected: text("a token for primary expression") }),
        }
    };
    match first {
        Err(e) => Err(e),
        Ok((e, p1)) => if p1 <= pos || p1 > ts.len() {
            Err(ParserError::Stalled)
        } else {
            postfix(ts, p1, e)
        },
    }
}

fn postfix(ts: &Vec<TokenWithMeta>, pos: usize, e: Expression) -> (r: Result<(Expression, usize), ParserError>)
    requires
        ts@.len() < usize::MAX,
        pos <= ts@.len(),
    ensures
        match r {
            Ok((_, p)) => p <= ts@.len(),
            Err(_) => true,
        },
        expr_result(r) == p_postfix(tokens_view(ts@), pos as int, e@),
    decreases ts@.len() - pos, 19int,
{
    let next = if is_token(ts, pos, &Token::LeftBracket) {
        match binary_level(ts, pos + 1, 0) {
            Err(err) => Err(err),
            Ok((index, p1)) => match expect_token(ts, p1, &Token::RightBracket, "Token::RightBracket", "RightBracket") {
                Err(err) => Err(err),
                Ok(p2) => Ok((binary_expr(Operator::Index, e, index), p2)),
            },
        }
    } else if is_token(ts, pos, &Token::LeftParen) {
        let args: Vec<(String, Expression)> = Vec::new();
        let tail: Vec<Expression> = Vec::new();
        proof {
            assert(crate::language::expression::named_expressions_view(args@) =~= Seq::empty());
            assert(crate::language::expression::expressions_view(tail@) =~= Seq::empty());
        }
        arguments(ts, pos + 1, e, args, tail)
    } else if is_token(ts, pos, &Token::Dot) {
        match read_ident(ts, pos + 1, "accessed property name") {
            Err(err) => Err(err),
            Ok((name, p1)) => {
                let key = Expression::Value(Value::String(name));
                Ok((binary_expr(Operator::Index, e, key), p1))
            },
        }
    } else {
        return Ok((e, pos));
    };
    match next {
        Err(err) => Err(err),
        Ok((e2, p1)) => if p1 <= pos || p1 > ts.len() {
            Err(ParserError::Stalled)
        } else {
            postfix(ts, p1, e2)
        },
    }
}

fn if_else(ts: &Vec<TokenWithMeta>, pos: usize) -> (r: Result<(Expression, usize), ParserError>)
    requires
        ts@.len() < usize::MAX,
        pos < ts@.len(),
    ensures
        match r {
            Ok((_, p)) => p <= ts@.len(),
            Err(_) => true,
        },
        expr_result(r) == p_if_else(tokens_view(ts@), pos as int),
    decreases ts@.len() - pos, 15int,
{
    match read_ident(ts, pos, "if keyword") {
        Err(e) => Err(e),
        Ok((_, p1)) => match binary_level(ts, p1, 0) {
            Err(e) => Err(e),
            Ok((cond, p2)) => if p2 <= p1 || p2 > ts.len() {
                Err(ParserError::Stalled)
            } else {
                match block(ts, p2) {
                    Err(e) => Err(e),
                    Ok((then_branch, p3)) => if p3 <= p2 || p3 > ts.len() {
                        Err(ParserError::Stalled)
                    } else if is_word(ts, p3, "else") {
                        match block(ts, p3 + 1) {
                            Err(e) => Err(e),
                            Ok((else_branch, p4)) => Ok((
                                Expression::IfElse {
                                    condition: Box::new(cond),
                                    then_branch: StatementBlock { statements: then_branch },
                                    else_branch: Some(StatementBlock { statements: else_branch }),
                                },
                                p4,
                            )),
                        }
                    } else {
                        Ok((
                            Expression::IfElse {
                                condition: Box::new(cond),
                                then_branch: StatementBlock { statements: then_branch },
                                else_branch: None,
                            },
                            p3,
                        ))
                    },
                }
            },
        },
    }
}

fn while_loop(ts: &Vec<TokenWithMeta>, pos: usize) -> (r: Result<(Expression, usize), ParserError>)
    requires
        ts@.len() < usize::MAX,
        pos < ts@.len(),
    ensures
        match r {
            Ok((_, p)) => p <= ts@.len(),
            Err(_) => true,
        },
        expr_result(r) == p_while(tokens_view(ts@), pos as int),
    decreases ts@.len() - pos, 15int,
{
    match read_ident(ts, pos, "while keyword") {
        Err(e) => Err(e),
        Ok((_, p1)) => match binary_level(ts, p1, 0) {
            Err(e) => Err(e),
            Ok((cond, p2)) => if p2 <= p1 || p2 > ts.len() {
                Err(ParserError::Stalled)
            } else {
                match block(ts, p2) {
                    Err(e) => Err(e),
                    Ok((body, p3)) => Ok((
                        Expression::WhileLoop { condition: Box::new(cond), body: StatementBlock { statements: body } },
                        p3,
                    )),
                }
            },
        },
    }
}

fn array(ts: &Vec<TokenWithMeta>, pos: usize) -> (r: Result<(Expression, usize), ParserError>)
    requires
        ts@.len() < usize::MAX,
        pos < ts@.len(),
    ensures
        match r {
            Ok((_, p)) => p <= ts@.len(),
            Err(_) => true,
        },
        expr_result(r) == p_array(tokens_view(ts@), pos as int),
    decreases ts@.len() - pos, 15int,
{
    match expect_token(ts, pos, &Token::LeftBracket, "Token::LeftBracket", "LeftBracket") {
        Err(e) => Err(e),
        Ok(p1) => {
            let acc: Vec<Expression> = Vec::new();
            assert(crate::language::expression::expressions_view(acc@) =~= Seq::<SExpr>::empty());
            array_rest(ts, p1, acc)
        },
    }
}

fn array_rest(ts: &Vec<TokenWithMeta>, pos: usize, acc: Vec<Expression>) -> (r: Result<(Expression, usize), ParserError>)
    requires
        ts@.len() < usize::MAX,
        pos <= ts@.len(),
    ensures
        match r {
            Ok((_, p)) => p <= ts@.len(),
            Err(_) => true,
        },
        expr_result(r) == p_array_rest(tokens_view(ts@), pos as int, crate::language::expression::expressions_view(acc@)),
    decreases ts@.len() - pos, 120int,
{
    if pos >= ts.len() {
        return Err(ParserError::UnexpectedEof { expected: text("an arrays next item or an end of the array") });
    }
    if is_token(ts, pos, &Token::RightBracket) {
        return Ok((Expression::Array(acc), pos + 1));
    }
    match binary_level(ts, pos, 0) {
        Err(e) => Err(e),
        Ok((e, p1)) => if p1 <= pos || p1 > ts.len() {
            Err(ParserError::Stalled)
        } else {
            match separator_at(ts, p1, &Token::RightBracket, "a comma or an end of array") {
                Err(err) => Err(err),
                Ok(p2) => {
                    let mut acc = acc;
                    let ghost a0 = crate::language::expression::expressions_view(acc@);
                    let ghost ev = e@;
                    acc.push(e);
                    assert(crate::language::expression::expressions_view(acc@) =~= a0.push(ev));
                    array_rest(ts, p2, acc)
                },
            }
        },
    }
}

fn map_literal(ts: &Vec<TokenWithMeta>, pos: usize) -> (r: Result<(Expression, usize), ParserError>)
    requires
        ts@.len() < usize::MAX,
        pos < ts@.len(),
    ensures
        match r {
            Ok((_, p)) => p <= ts@.len(),
            Err(_) => true,
        },
        expr_result(r) == p_map(tokens_view(ts@), pos as int),
    decreases ts@.len() - pos, 15int,
{
    match expect_token(ts, pos, &Token::LeftBrace, "Token::LeftBrace", "LeftBrace") {
        Err(e) => Err(e),
        Ok(p1) => {
            let acc: Vec<(Expression, Expression)> = Vec::new();
            assert(crate::language::expression::expression_pairs_view(acc@) =~= Seq::<(SExpr, SExpr)>::empty());
            map_rest(ts, p1, acc)
        },
    }
}

fn map_rest(ts: &Vec<TokenWithMeta>, pos: usize, acc: Vec<(Expression, Expression)>) -> (r: Result<(Expression, usize), ParserError>)
    requires
        ts@.len() < usize::MAX,
        pos <= ts@.len(),
    ensures
        match r {
            Ok((_, p)) => p <= ts@.len(),
            Err(_) => true,
        },
        expr_result(r) == p_map_rest(tokens_view(ts@), pos as int, crate::language::expression::expression_pairs_view(acc@)),
    decreases ts@.len() - pos, 120int,
{
    if pos >= ts.len() {
        return Err(ParserError::UnexpectedEof { expected: text("an arrays next item or an end of the array") });
    }
    if is_token(ts, pos, &Token::RightBrace) {
        return Ok((Expression::HashMap(acc), pos + 1));
    }
    match binary_level(ts, pos, 0) {
        Err(e) => Err(e),
        Ok((k, p1)) => if p1 <= pos || p1 > ts.len() {
            Err(ParserError::Stalled)
        } else {
            match expect_token(ts, p1, &Token::Colon, "Token::Colon", "Colon") {
                Err(e) => Err(e),
                Ok(p2) => match binary_level(ts, p2, 0) {
                    Err(e) => Err(e),
                    Ok((v, p3)) => {
                        match separator_at(ts, p3, &Token::RightBrace, "a comma or an end of hash map") {
                            Err(err) => Err(err),
                            Ok(p4) => if p4 <= pos || p4 > ts.len() {
                                Err(ParserError::Stalled)
                            } else {
                                let mut acc = acc;
                                let ghost a0 = crate::language::expression::expression_pairs_view(acc@);
                                let ghost kv = k@;
                                let ghost vv = v@;
                                acc.push((k, v));
                                assert(crate::language::expression::expression_pairs_view(acc@) =~= a0.push((kv, vv)));
                                map_rest(ts, p4, acc)
                            },
                        }
                    },
                },
            }
        },
    }
}

/// Parses the statements of a whole program.
pub fn parse(ts: &Vec<TokenWithMeta>) -> (r: Result<StatementBlock, ParserError>)
    requires
        ts@.len() < usize::MAX,
    ensures
        match r {
            Ok(b) => parse_tokens(tokens_view(ts@)) == Ok::<Seq<SStatement>, SParserError>(b@),
            Err(e) => parse_tokens(tokens_view(ts@)) == Err::<Seq<SStatement>, SParserError>(e@),
        },
{
    let mut acc: Vec<Statement> = Vec::new();
    let mut pos: usize = 0;
    assert(statements_view(acc@) =~= Seq::<SStatement>::empty());
    while pos < ts.len()
        invariant
            pos <= ts@.len(),
            ts@.len() < usize::MAX,
            p_program(tokens_view(ts@), pos as int, statements_view(acc@)) == parse_tokens(tokens_view(ts@)),
        decreases ts.len() - pos,
    {
        match statement(ts, pos) {
            Err(e) => return Err(e),
            Ok((st, p1)) => {
                if p1 <= pos || p1 > ts.len() {
                    return Err(ParserError::Stalled);
                }
                let ghost a0 = statements_view(acc@);
                let ghost sv = st@;
                acc.push(st);
                assert(statements_view(acc@) =~= a0.push(sv));
                pos = p1;
            },
        }
    }
    Ok(StatementBlock { statements: acc })
}

} // verus!
