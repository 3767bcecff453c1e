//! The grammar of Kool as a recursive descent over a sequence of tokens: each rule
//! takes the position of its first token and gives what it read with the position
//! after it, or the error the parser reports.
//!
//! Rules that go on after another rule has read something require that it read at
//! least one token (a `Stalled` error otherwise, which no rule gives).
use vstd::prelude::*;

use crate::language::expression::{Operator, SExpr};
use crate::language::function::{params_with_param, params_with_tail, SCode, SFunction, SParams};
use crate::language::statement::SStatement;
use crate::language::value::SValue;
use crate::parsing::token::{SToken, STokenWithMeta};

verus! {

/// The model of a parser error.
pub enum SParserError {
    DuplicateArgument(Seq<char>),
    ExpectedValue,
    MultipleTailParams,
    UnexpectedToken { token: STokenWithMeta, expected: Seq<char> },
    UnexpectedEof { expected: Seq<char> },
    Stalled,
}

pub type PResult<X> = Result<(X, int), SParserError>;

pub open spec fn tok(ts: Seq<STokenWithMeta>, pos: int) -> Option<STokenWithMeta> {
    if 0 <= pos < ts.len() {
        Some(ts[pos])
    } else {
        None
    }
}

pub open spec fn rem(ts: Seq<STokenWithMeta>, pos: int) -> int {
    ts.len() - pos
}

/// Whether the token at `pos` is `t` (which carries no text).
pub open spec fn is_tok(ts: Seq<STokenWithMeta>, pos: int, t: SToken) -> bool {
    match tok(ts, pos) {
        Some(x) => x.token == t,
        None => false,
    }
}

pub open spec fn is_keyword(ts: Seq<STokenWithMeta>, pos: int, word: Seq<char>) -> bool {
    match tok(ts, pos) {
        Some(x) => x.token == SToken::Ident(word),
        None => false,
    }
}

/// The error for a missing token `t` at `pos`: `name` is how the token is written in
/// the error for another token, `short` in the error for the end of the input.
pub open spec fn expect_error(ts: Seq<STokenWithMeta>, pos: int, name: Seq<char>, short: Seq<char>) -> SParserError {
    match tok(ts, pos) {
        Some(x) => SParserError::UnexpectedToken { token: x, expected: name },
        None => SParserError::UnexpectedEof { expected: short },
    }
}

/// Reads the token `t`; gives the position after it.
pub open spec fn expect(ts: Seq<STokenWithMeta>, pos: int, t: SToken, name: Seq<char>, short: Seq<char>) -> Result<int, SParserError> {
    if is_tok(ts, pos, t) {
        Ok(pos + 1)
    } else {
        Err(expect_error(ts, pos, name, short))
    }
}

/// Reads an identifier; `what` names it in the error.
pub open spec fn ident(ts: Seq<STokenWithMeta>, pos: int, what: Seq<char>) -> PResult<Seq<char>> {
    match tok(ts, pos) {
        Some(x) => match x.token {
            SToken::Ident(s) => Ok((s, pos + 1)),
            _ => Err(SParserError::UnexpectedToken { token: x, expected: what }),
        },
        None => Err(SParserError::UnexpectedEof { expected: what }),
    }
}

/// The operator of a token of binary level `level`, if it is one:
/// 0 `||`, 1 `&&`, 2 `==` `!=`, 3 comparisons, 4 `+` `-`, 5 `*` `/`, 6 `?`, 7 `^`.
pub open spec fn level_operator(level: int, t: SToken) -> Option<Operator> {
    match t {
        SToken::Or => if level == 0 { Some(Operator::Or) } else { None },
        SToken::And => if level == 1 { Some(Operator::And) } else { None },
        SToken::EqualEqual => if level == 2 { Some(Operator::Eq) } else { None },
        SToken::BangEqual => if level == 2 { Some(Operator::NotEq) } else { None },
        SToken::Less => if level == 3 { Some(Operator::Less) } else { None },
        SToken::LessEqual => if level == 3 { Some(Operator::LessEq) } else { None },
        SToken::Greater => if level == 3 { Some(Operator::Greater) } else { None },
        SToken::GreaterEqual => if level == 3 { Some(Operator::GreaterEq) } else { None },
        SToken::Plus => if level == 4 { Some(Operator::Add) } else { None },
        SToken::Minus => if level == 4 { Some(Operator::Sub) } else { None },
        SToken::Star => if level == 5 { Some(Operator::Mul) } else { None },
        SToken::Slash => if level == 5 { Some(Operator::Div) } else { None },
        SToken::QuestionMark => if level == 6 { Some(Operator::IfNull) } else { None },
        SToken::Caret => if level == 7 { Some(Operator::Power) } else { None },
        _ => None,
    }
}

pub open spec fn op_at(ts: Seq<STokenWithMeta>, pos: int, level: int) -> Option<Operator> {
    match tok(ts, pos) {
        Some(x) => level_operator(level, x.token),
        None => None,
    }
}

pub open spec fn unary_operator(t: SToken) -> Option<Operator> {
    match t {
        SToken::Plus => Some(Operator::Add),
        SToken::Minus => Some(Operator::Sub),
        SToken::Bang => Some(Operator::Not),
        _ => None,
    }
}

pub open spec fn binary(op: Operator, l: SExpr, r: SExpr) -> SExpr {
    SExpr::Binary { operator: op, left: Box::new(l), right: Box::new(r) }
}

/* The rules. Each decreases the number of tokens left, then a rank that is
   lower for the rules a rule applies at its own position. */

/// A statement.
pub open spec fn p_statement(ts: Seq<STokenWithMeta>, pos: int) -> PResult<SStatement>
    decreases rem(ts, pos), 110int,
{
    if pos < 0 || pos >= ts.len() {
        Err(SParserError::UnexpectedEof { expected: "a statement"@ })
    } else if is_keyword(ts, pos, "var"@) {
        p_var_declaration(ts, pos)
    } else if is_keyword(ts, pos, "def"@) {
        p_function_definition(ts, pos)
    } else if is_keyword(ts, pos, "import"@) {
        p_import(ts, pos)
    } else {
        match p_binary(ts, pos, 0) {
            Err(e) => Err(e),
            Ok((target, p1)) => if p1 <= pos || p1 > ts.len() {
                Err(SParserError::Stalled)
            } else if is_tok(ts, p1, SToken::Equal) {
                match p_binary(ts, p1 + 1, 0) {
                    Err(e) => Err(e),
                    Ok((right, p2)) => Ok((SStatement::Assignment { target, right_side: right }, p2)),
                }
            } else {
                Ok((SStatement::Expression { expression: target }, p1))
            },
        }
    }
}

/// `import name` (the library as a map called `name`) or `import name.*` (its values).
pub open spec fn p_import(ts: Seq<STokenWithMeta>, pos: int) -> PResult<SStatement>
    decreases rem(ts, pos), 105int,
{
    match ident(ts, pos, "the import keyword"@) {
        Err(e) => Err(e),
        Ok((_, p1)) => match ident(ts, p1, "a library name"@) {
            Err(e) => Err(e),
            Ok((name, p2)) => if is_tok(ts, p2, SToken::Dot) {
                match expect(ts, p2 + 1, SToken::Star, "Token::Star"@, "Star"@) {
                    Err(e) => Err(e),
                    Ok(p3) => Ok((SStatement::Import { library_name: name, as_namespace: false }, p3)),
                }
            } else {
                Ok((SStatement::Import { library_name: name, as_namespace: true }, p2))
            },
        },
    }
}

/// `var name = expression`.
pub open spec fn p_var_declaration(ts: Seq<STokenWithMeta>, pos: int) -> PResult<SStatement>
    decreases rem(ts, pos), 105int,
{
    match ident(ts, pos, "variable declaration keyword `var`"@) {
        Err(e) => Err(e),
        Ok((_, p1)) => match ident(ts, p1, "a variable name"@) {
            Err(e) => Err(e),
            Ok((name, p2)) => match expect(ts, p2, SToken::Equal, "Token::Equal"@, "Equal"@) {
                Err(e) => Err(e),
                Ok(p3) => match p_binary(ts, p3, 0) {
                    Err(e) => Err(e),
                    Ok((e, p4)) => Ok((SStatement::VariableDeclaration { variable: name, right_side: e }, p4)),
                },
            },
        },
    }
}

/// `def name(params) { body }`: a variable holding the function.
pub open spec fn p_function_definition(ts: Seq<STokenWithMeta>, pos: int) -> PResult<SStatement>
    decreases rem(ts, pos), 105int,
{
    match ident(ts, pos, "function definition keyword `def`"@) {
        Err(e) => Err(e),
        Ok((_, p1)) => match ident(ts, p1, "a function name"@) {
            Err(e) => Err(e),
            Ok((name, p2)) => match p_function(ts, p2) {
                Err(e) => Err(e),
                Ok((f, p3)) => Ok((SStatement::VariableDeclaration { variable: name, right_side: SExpr::Function(f) }, p3)),
            },
        },
    }
}

/// `{ statements }`.
pub open spec fn p_block(ts: Seq<STokenWithMeta>, pos: int) -> PResult<Seq<SStatement>>
    decreases rem(ts, pos), 105int,
{
    match expect(ts, pos, SToken::LeftBrace, "Token::LeftBrace"@, "LeftBrace"@) {
        Err(e) => Err(e),
        Ok(p1) => p_block_rest(ts, p1, Seq::empty()),
    }
}

/// The statements of a block after `acc`, up to and with its `}`.
pub open spec fn p_block_rest(ts: Seq<STokenWithMeta>, pos: int, acc: Seq<SStatement>) -> PResult<Seq<SStatement>>
    decreases rem(ts, pos), 120int,
{
    if pos < 0 || pos >= ts.len() {
        Err(SParserError::UnexpectedEof { expected: "\"&Token::RightBrace\""@ })
    } else if is_tok(ts, pos, SToken::RightBrace) {
        Ok((acc, pos + 1))
    } else {
        match p_statement(ts, pos) {
            Err(e) => Err(e),
            Ok((st, p1)) => if p1 <= pos || p1 > ts.len() {
                Err(SParserError::Stalled)
            } else {
                p_block_rest(ts, p1, acc.push(st))
            },
        }
    }
}

/// `(params) { body }` of a function.
pub open spec fn p_function(ts: Seq<STokenWithMeta>, pos: int) -> PResult<SFunction>
    decreases rem(ts, pos), 105int,
{
    match expect(ts, pos, SToken::LeftParen, "Token::LeftParen"@, "LeftParen"@) {
        Err(e) => Err(e),
        Ok(p1) => p_params(ts, p1, SParams { params: Seq::empty(), tail_param: None }, None),
    }
}

/// Skips a comma at `pos`, if there is one.
pub open spec fn skip_comma(ts: Seq<STokenWithMeta>, pos: int) -> Result<int, SParserError> {
    if pos < 0 || pos >= ts.len() {
        Err(SParserError::UnexpectedEof { expected: "\"Token::Comma\""@ })
    } else if is_tok(ts, pos, SToken::Comma) {
        Ok(pos + 1)
    } else {
        Ok(pos)
    }
}

/// The parameters after `params` and `tail`, then the body.
pub open spec fn p_params(ts: Seq<STokenWithMeta>, pos: int, params: SParams, tail: Option<Seq<char>>) -> PResult<SFunction>
    decreases rem(ts, pos), 120int,
{
    if pos < 0 || pos >= ts.len() {
        Err(SParserError::UnexpectedEof { expected: "\"Token::RightParen\""@ })
    } else if is_tok(ts, pos, SToken::RightParen) {
        let ps = match tail {
            Some(t) => params_with_tail(params, t),
            None => params,
        };
        match p_block(ts, pos + 1) {
            Err(e) => Err(e),
            Ok((body, p1)) => Ok((SFunction { params: ps, code: SCode::Block(body), closure: None }, p1)),
        }
    } else if is_tok(ts, pos, SToken::Star) {
        match ident(ts, pos + 1, "a tail parameter name"@) {
            Err(e) => Err(e),
            Ok((name, p1)) => if tail is Some {
                Err(SParserError::MultipleTailParams)
            } else {
                match skip_comma(ts, p1) {
                    Err(e) => Err(e),
                    Ok(p2) => p_params(ts, p2, params, Some(name)),
                }
            },
        }
    } else {
        match ident(ts, pos, "a parameter name"@) {
            Err(e) => Err(e),
            Ok((name, p1)) => match tok(ts, p1) {
                None => Err(SParserError::UnexpectedEof { expected: "rest of function parameters"@ }),
                Some(x) => if x.token == SToken::Equal {
                    match p_binary(ts, p1 + 1, 0) {
                        Err(e) => Err(e),
                        Ok((d, p2)) => if p2 <= p1 || p2 > ts.len() {
                            Err(SParserError::Stalled)
                        } else {
                            match d {
                            SExpr::Value(v) => match skip_comma(ts, p2) {
                                Err(e) => Err(e),
                                Ok(p3) => p_params(ts, p3, params_with_param(params, name, v), tail),
                            },
                            _ => Err(SParserError::ExpectedValue),
                            }
                        },
                    }
                } else if x.token == SToken::Comma || x.token == SToken::RightParen {
                    match skip_comma(ts, p1) {
                        Err(e) => Err(e),
                        Ok(p3) => p_params(ts, p3, params_with_param(params, name, SValue::Null), tail),
                    }
                } else {
                    Err(SParserError::UnexpectedToken { token: x, expected: "one of '=', ',', ')'"@ })
                },
            },
        }
    }
}

/// The arguments of a call of `callee` after `args` and `tail`, up to and with its `)`.
pub open spec fn p_args(
    ts: Seq<STokenWithMeta>,
    pos: int,
    callee: SExpr,
    args: Seq<(Seq<char>, SExpr)>,
    tail: Seq<SExpr>,
) -> PResult<SExpr>
    decreases rem(ts, pos), 120int,
{
    if pos < 0 || pos >= ts.len() {
        Err(SParserError::UnexpectedEof { expected: "\"&Token::RightParen\""@ })
    } else if is_tok(ts, pos, SToken::RightParen) {
        Ok((SExpr::FunctionCall { callee: Box::new(callee), args, tail }, pos + 1))
    } else {
        let read: PResult<(Seq<(Seq<char>, SExpr)>, Seq<SExpr>)> = if is_tok(ts, pos + 1, SToken::Colon) {
            match ident(ts, pos, "param name"@) {
                Err(e) => Err(e),
                Ok((param, p1)) => match expect(ts, p1, SToken::Colon, "Token::Colon"@, "Colon"@) {
                    Err(e) => Err(e),
                    Ok(p2) => match p_binary(ts, p2, 0) {
                        Err(e) => Err(e),
                        Ok((e, p3)) => if exists|i: int| 0 <= i < args.len() && args[i].0 == param {
                            Err(SParserError::DuplicateArgument(param))
                        } else {
                            Ok(((args.push((param, e)), tail), p3))
                        },
                    },
                },
            }
        } else {
            match p_binary(ts, pos, 0) {
                Err(e) => Err(e),
                Ok((e, p1)) => Ok(((args, tail.push(e)), p1)),
            }
        };
        match read {
            Err(e) => Err(e),
            Ok(((args2, tail2), p1)) => if p1 <= pos || p1 > ts.len() {
                Err(SParserError::Stalled)
            } else {
                match tok(ts, p1) {
                    None => Err(SParserError::UnexpectedEof { expected: "comma or paren"@ }),
                    Some(x) => if x.token == SToken::Comma {
                        p_args(ts, p1 + 1, callee, args2, tail2)
                    } else if x.token == SToken::RightParen {
                        p_args(ts, p1, callee, args2, tail2)
                    } else {
                        Err(SParserError::UnexpectedToken { token: x, expected: "one of ',', ')'"@ })
                    },
                }
            },
        }
    }
}

/// What a binary level applies to its operands: the next level, or unary or primary expressions.
pub open spec fn p_operand(ts: Seq<STokenWithMeta>, pos: int, level: int) -> PResult<SExpr>
    decreases rem(ts, pos), 100 - 10 * level - 5,
{
    if level < 6 {
        p_binary(ts, pos, level + 1)
    } else if level == 6 {
        p_unary(ts, pos)
    } else if level == 7 {
        p_primary(ts, pos)
    } else {
        Err(SParserError::Stalled)
    }
}

/// An expression of binary level `level` (0 is a whole expression): operands joined by the
/// operators of the level, from the left.
pub open spec fn p_binary(ts: Seq<STokenWithMeta>, pos: int, level: int) -> PResult<SExpr>
    decreases rem(ts, pos), 100 - 10 * level,
{
    if level < 0 || level > 7 {
        Err(SParserError::Stalled)
    } else {
        match p_operand(ts, pos, level) {
            Err(e) => Err(e),
            Ok((left, p1)) => if p1 <= pos || p1 > ts.len() {
                Err(SParserError::Stalled)
            } else {
                p_binary_rest(ts, p1, level, left)
            },
        }
    }
}

/// The operators of level `level` and their right operands after `left`.
pub open spec fn p_binary_rest(ts: Seq<STokenWithMeta>, pos: int, level: int, left: SExpr) -> PResult<SExpr>
    decreases rem(ts, pos), 120int,
{
    if 0 <= level <= 7 && 0 <= pos {
        match op_at(ts, pos, level) {
            None => Ok((left, pos)),
            Some(op) => match p_operand(ts, pos + 1, level) {
                Err(e) => Err(e),
                Ok((right, p1)) => if p1 <= pos || p1 > ts.len() {
                    Err(SParserError::Stalled)
                } else {
                    p_binary_rest(ts, p1, level, binary(op, left, right))
                },
            },
        }
    } else {
        Err(SParserError::Stalled)
    }
}

/// Prefix `+`, `-` and `!`, then a power expression.
pub open spec fn p_unary(ts: Seq<STokenWithMeta>, pos: int) -> PResult<SExpr>
    decreases rem(ts, pos), 33int,
{
    match tok(ts, pos) {
        Some(x) => match unary_operator(x.token) {
            Some(op) => match p_unary(ts, pos + 1) {
                Err(e) => Err(e),
                Ok((operand, p1)) => Ok((SExpr::Unary { operator: op, operand: Box::new(operand) }, p1)),
            },
            None => p_binary(ts, pos, 7),
        },
        None => p_binary(ts, pos, 7),
    }
}

/// A value, variable, function, bracketed expression, array, map, `if` or `while`,
/// followed by indexing, calls and property accesses.
pub open spec fn p_primary(ts: Seq<STokenWithMeta>, pos: int) -> PResult<SExpr>
    decreases rem(ts, pos), 20int,
{
    let first: PResult<SExpr> = if is_tok(ts, pos, SToken::LeftBracket) {
        p_array(ts, pos)
    } else if is_tok(ts, pos, SToken::LeftBrace) {
        p_map(ts, pos)
    } else if is_keyword(ts, pos, "if"@) {
        p_if_else(ts, pos)
    } else if is_keyword(ts, pos, "while"@) {
        p_while(ts, pos)
    } else {
        match tok(ts, pos) {
            None => Err(SParserError::UnexpectedEof { expected: "anything expression like"@ }),
            Some(x) => match x.token {
                SToken::Ident(word) => if word == "null"@ {
                    Ok((SExpr::Value(SValue::Null), pos + 1))
                } else if word == "false"@ {
                    Ok((SExpr::Value(SValue::Bool(false)), pos + 1))
                } else if word == "true"@ {
                    Ok((SExpr::Value(SValue::Bool(true)), pos + 1))
                } else if word == "def"@ {
                    match p_function(ts, pos + 1) {
                        Err(e) => Err(e),
                        Ok((f, p1)) => Ok((SExpr::Function(f), p1)),
                    }
                } else {
                    Ok((SExpr::Variable(word), pos + 1))
                },
                SToken::Int(i) => Ok((SExpr::Value(SValue::Int(i)), pos + 1)),
                SToken::String(s) => Ok((SExpr::Value(SValue::String(s)), pos + 1)),
                SToken::LeftParen => match p_binary(ts, pos + 1, 0) {
                    Err(e) => Err(e),
                    Ok((e, p1)) => match expect(ts, p1, SToken::RightParen, "Token::RightParen"@, "RightParen"@) {
                        Err(err) => Err(err),
                        Ok(p2) => Ok((e, p2)),
                    },
                },
                _ => Err(SParserError::UnexpectedToken { token: x, expected: "a token for primary expression"@ }),
            },
        }
    };
    match first {
        Err(e) => Err(e),
        Ok((e, p1)) => if p1 <= pos || p1 > ts.len() {
            Err(SParserError::Stalled)
        } else {
            p_postfix(ts, p1, e)
        },
    }
}

/// Indexing `[i]`, calls `(args)` and property accesses `.name` after `e`.
pub open spec fn p_postfix(ts: Seq<STokenWithMeta>, pos: int, e: SExpr) -> PResult<SExpr>
    decreases rem(ts, pos), 19int,
{
    let next: Option<PResult<SExpr>> = if is_tok(ts, pos, SToken::LeftBracket) {
        Some(
            match p_binary(ts, pos + 1, 0) {
                Err(err) => Err(err),
                Ok((index, p1)) => match expect(ts, p1, SToken::RightBracket, "Token::RightBracket"@, "RightBracket"@) {
                    Err(err) => Err(err),
                    Ok(p2) => Ok((binary(Operator::Index, e, index), p2)),
                },
            },
        )
    } else if is_tok(ts, pos, SToken::LeftParen) {
        Some(p_args(ts, pos + 1, e, Seq::empty(), Seq::empty()))
    } else if is_tok(ts, pos, SToken::Dot) {
        Some(
            match ident(ts, pos + 1, "accessed property name"@) {
                Err(err) => Err(err),
                Ok((name, p1)) => Ok((binary(Operator::Index, e, SExpr::Value(SValue::String(name))), p1)),
            },
        )
    } else {
        None
    };
    match next {
        None => Ok((e, pos)),
        Some(Err(err)) => Err(err),
        Some(Ok((e2, p1))) => if p1 <= pos || p1 > ts.len() {
            Err(SParserError::Stalled)
        } else {
            p_postfix(ts, p1, e2)
        },
    }
}

/// `if condition { ... }`, with an optional `else { ... }`.
pub open spec fn p_if_else(ts: Seq<STokenWithMeta>, pos: int) -> PResult<SExpr>
    decreases rem(ts, pos), 15int,
{
    match ident(ts, pos, "if keyword"@) {
        Err(e) => Err(e),
        Ok((_, p1)) => match p_binary(ts, p1, 0) {
            Err(e) => Err(e),
            Ok((cond, p2)) => if p2 <= p1 || p2 > ts.len() {
                Err(SParserError::Stalled)
            } else {
                match p_block(ts, p2) {
                    Err(e) => Err(e),
                    Ok((then_branch, p3)) => if p3 <= p2 || p3 > ts.len() {
                        Err(SParserError::Stalled)
                    } else if is_keyword(ts, p3, "else"@) {
                        match p_block(ts, p3 + 1) {
                            Err(e) => Err(e),
                            Ok((else_branch, p4)) => Ok((
                                SExpr::IfElse { condition: Box::new(cond), then_branch, else_branch: Some(else_branch) },
                                p4,
                            )),
                        }
                    } else {
                        Ok((SExpr::IfElse { condition: Box::new(cond), then_branch, else_branch: None }, p3))
                    },
                }
            },
        },
    }
}

/// `while condition { ... }`.
pub open spec fn p_while(ts: Seq<STokenWithMeta>, pos: int) -> PResult<SExpr>
    decreases rem(ts, pos), 15int,
{
    match ident(ts, pos, "while keyword"@) {
        Err(e) => Err(e),
        Ok((_, p1)) => match p_binary(ts, p1, 0) {
            Err(e) => Err(e),
            Ok((cond, p2)) => if p2 <= p1 || p2 > ts.len() {
                Err(SParserError::Stalled)
            } else {
                match p_block(ts, p2) {
                    Err(e) => Err(e),
                    Ok((body, p3)) => Ok((SExpr::WhileLoop { condition: Box::new(cond), body }, p3)),
                }
            },
        },
    }
}

/// `[ items ]`.
pub open spec fn p_array(ts: Seq<STokenWithMeta>, pos: int) -> PResult<SExpr>
    decreases rem(ts, pos), 15int,
{
    match expect(ts, pos, SToken::LeftBracket, "Token::LeftBracket"@, "LeftBracket"@) {
        Err(e) => Err(e),
        Ok(p1) => p_array_rest(ts, p1, Seq::empty()),
    }
}

/// After an item or a separator: `,` goes on, the closing token ends, anything else is an error.
pub open spec fn p_separator(ts: Seq<STokenWithMeta>, pos: int, close: SToken, what: Seq<char>) -> Result<int, SParserError> {
    match tok(ts, pos) {
        None => Err(SParserError::UnexpectedEof { expected: what }),
        Some(x) => if x.token == SToken::Comma {
            Ok(pos + 1)
        } else if x.token == close {
            Ok(pos)
        } else {
            Err(SParserError::UnexpectedToken { token: x, expected: what })
        },
    }
}

/// The items of an array after `acc`, up to and with its `]`.
pub open spec fn p_array_rest(ts: Seq<STokenWithMeta>, pos: int, acc: Seq<SExpr>) -> PResult<SExpr>
    decreases rem(ts, pos), 120int,
{
    if pos < 0 || pos >= ts.len() {
        Err(SParserError::UnexpectedEof { expected: "an arrays next item or an end of the array"@ })
    } else if is_tok(ts, pos, SToken::RightBracket) {
        Ok((SExpr::Array(acc), pos + 1))
    } else {
        match p_binary(ts, pos, 0) {
            Err(e) => Err(e),
            Ok((e, p1)) => if p1 <= pos || p1 > ts.len() {
                Err(SParserError::Stalled)
            } else {
                match p_separator(ts, p1, SToken::RightBracket, "a comma or an end of array"@) {
                    Err(err) => Err(err),
                    Ok(p2) => p_array_rest(ts, p2, acc.push(e)),
                }
            },
        }
    }
}

/// `{ key: value, ... }`.
pub open spec fn p_map(ts: Seq<STokenWithMeta>, pos: int) -> PResult<SExpr>
    decreases rem(ts, pos), 15int,
{
    match expect(ts, pos, SToken::LeftBrace, "Token::LeftBrace"@, "LeftBrace"@) {
        Err(e) => Err(e),
        Ok(p1) => p_map_rest(ts, p1, Seq::empty()),
    }
}

/// The pairs of a map after `acc`, up to and with its `}`.
pub open spec fn p_map_rest(ts: Seq<STokenWithMeta>, pos: int, acc: Seq<(SExpr, SExpr)>) -> PResult<SExpr>
    decreases rem(ts, pos), 120int,
{
    if pos < 0 || pos >= ts.len() {
        Err(SParserError::UnexpectedEof { expected: "an arrays next item or an end of the array"@ })
    } else if is_tok(ts, pos, SToken::RightBrace) {
        Ok((SExpr::HashMap(acc), pos + 1))
    } else {
        match p_binary(ts, pos, 0) {
            Err(e) => Err(e),
            Ok((k, p1)) => if p1 <= pos || p1 > ts.len() {
                Err(SParserError::Stalled)
            } else {
                match expect(ts, p1, SToken::Colon, "Token::Colon"@, "Colon"@) {
                    Err(e) => Err(e),
                    Ok(p2) => match p_binary(ts, p2, 0) {
                        Err(e) => Err(e),
                        Ok((v, p3)) => match p_separator(ts, p3, SToken::RightBrace, "a comma or an end of hash map"@) {
                            Err(err) => Err(err),
                            Ok(p4) => if p4 <= pos || p4 > ts.len() {
                                Err(SParserError::Stalled)
                            } else {
                                p_map_rest(ts, p4, acc.push((k, v)))
                            },
                        },
                    },
                }
            },
        }
    }
}

/// The statements from `pos` to the end of the input, after `acc`.
pub open spec fn p_program(ts: Seq<STokenWithMeta>, pos: int, acc: Seq<SStatement>) -> Result<Seq<SStatement>, SParserError>
    decreases rem(ts, pos),
{
    if pos < 0 || pos >= ts.len() {
        Ok(acc)
    } else {
        match p_statement(ts, pos) {
            Err(e) => Err(e),
            Ok((st, p1)) => if p1 <= pos || p1 > ts.len() {
                Err(SParserError::Stalled)
            } else {
                p_program(ts, p1, acc.push(st))
            },
        }
    }
}

/// The statements of a whole program.
pub open spec fn parse_tokens(ts: Seq<STokenWithMeta>) -> Result<Seq<SStatement>, SParserError> {
    p_program(ts, 0, Seq::empty())
}

/// Operators of one level group from the left: `a op1 b op2 c`, where no operator of the
/// level follows, is `(a op1 b) op2 c`.
pub proof fn law_binary_left_assoc(
    ts: Seq<STokenWithMeta>,
    pos: int,
    level: int,
    a: SExpr,
    p1: int,
    op1: Operator,
    b: SExpr,
    p2: int,
    op2: Operator,
    c: SExpr,
    p3: int,
)
    requires
        0 <= level <= 7,
        0 <= pos < p1 < p2 < p3 <= ts.len(),
        p_operand(ts, pos, level) == Ok::<(SExpr, int), SParserError>((a, p1)),
        op_at(ts, p1, level) == Some(op1),
        p_operand(ts, p1 + 1, level) == Ok::<(SExpr, int), SParserError>((b, p2)),
        op_at(ts, p2, level) == Some(op2),
        p_operand(ts, p2 + 1, level) == Ok::<(SExpr, int), SParserError>((c, p3)),
        op_at(ts, p3, level) is None,
    ensures
        p_binary(ts, pos, level) == Ok::<(SExpr, int), SParserError>((binary(op2, binary(op1, a, b), c), p3)),
{
    assert(p_binary_rest(ts, p3, level, binary(op2, binary(op1, a, b), c)) == Ok::<(SExpr, int), SParserError>(
        (binary(op2, binary(op1, a, b), c), p3),
    ));
    assert(p_binary_rest(ts, p2, level, binary(op1, a, b)) == p_binary_rest(ts, p3, level, binary(op2, binary(op1, a, b), c)));
    assert(p_binary_rest(ts, p1, level, a) == p_binary_rest(ts, p2, level, binary(op1, a, b)));
}

/// An operator binds tighter than those of the levels below it: the operands of an operator
/// of level `level` are whole expressions of the next level, so `a op b`, with `a` and `b`
/// parsed at the next level and no operator of `level` after `b`, is one binary expression
/// whose operands are `a` and `b`.
pub proof fn law_operands_bind_tighter(
    ts: Seq<STokenWithMeta>,
    pos: int,
    level: int,
    a: SExpr,
    p1: int,
    op: Operator,
    b: SExpr,
    p2: int,
)
    requires
        0 <= level < 6,
        0 <= pos < p1 < p2 <= ts.len(),
        p_binary(ts, pos, level + 1) == Ok::<(SExpr, int), SParserError>((a, p1)),
        op_at(ts, p1, level) == Some(op),
        p_binary(ts, p1 + 1, level + 1) == Ok::<(SExpr, int), SParserError>((b, p2)),
        op_at(ts, p2, level) is None,
    ensures
        p_binary(ts, pos, level) == Ok::<(SExpr, int), SParserError>((binary(op, a, b), p2)),
{
    assert(p_operand(ts, pos, level) == p_binary(ts, pos, level + 1));
    assert(p_operand(ts, p1 + 1, level) == p_binary(ts, p1 + 1, level + 1));
    assert(p_binary_rest(ts, p2, level, binary(op, a, b)) == Ok::<(SExpr, int), SParserError>((binary(op, a, b), p2)));
    assert(p_binary_rest(ts, p1, level, a) == p_binary_rest(ts, p2, level, binary(op, a, b)));
}

/// Each binary operator token belongs to exactly one level, so an expression of one level
/// stops at an operator of another.
pub proof fn law_operator_levels_apart(t: SToken, l1: int, l2: int)
    requires
        level_operator(l1, t) is Some,
        level_operator(l2, t) is Some,
    ensures
        l1 == l2,
{
}

/// The binding strength of the operator tokens: `||` binds loosest, then `&&`, then `==` and
/// `!=`, then the comparisons, then `+` and `-`, then `*` and `/`, then `?`, then `^`; the
/// level a token belongs to is lower exactly when it binds looser. Each token stands for its
/// own operator.
pub proof fn law_operator_strength(l1: int, l2: int, t1: SToken, t2: SToken)
    requires
        level_operator(l1, t1) is Some,
        level_operator(l2, t2) is Some,
    ensures
        t1 == SToken::Or && t2 == SToken::And ==> l1 < l2,
        t1 == SToken::And && (t2 == SToken::EqualEqual || t2 == SToken::BangEqual) ==> l1 < l2,
        (t1 == SToken::EqualEqual || t1 == SToken::BangEqual) && (t2 == SToken::Less || t2 == SToken::LessEqual
            || t2 == SToken::Greater || t2 == SToken::GreaterEqual) ==> l1 < l2,
        (t1 == SToken::Less || t1 == SToken::LessEqual || t1 == SToken::Greater || t1 == SToken::GreaterEqual) && (t2
            == SToken::Plus || t2 == SToken::Minus) ==> l1 < l2,
        (t1 == SToken::Plus || t1 == SToken::Minus) && (t2 == SToken::Star || t2 == SToken::Slash) ==> l1 < l2,
        (t1 == SToken::Star || t1 == SToken::Slash) && t2 == SToken::QuestionMark ==> l1 < l2,
        t1 == SToken::QuestionMark && t2 == SToken::Caret ==> l1 < l2,
        t1 == SToken::Or ==> level_operator(l1, t1) == Some(Operator::Or),
        t1 == SToken::And ==> level_operator(l1, t1) == Some(Operator::And),
        t1 == SToken::EqualEqual ==> level_operator(l1, t1) == Some(Operator::Eq),
        t1 == SToken::BangEqual ==> level_operator(l1, t1) == Some(Operator::NotEq),
        t1 == SToken::Less ==> level_operator(l1, t1) == Some(Operator::Less),
        t1 == SToken::LessEqual ==> level_operator(l1, t1) == Some(Operator::LessEq),
        t1 == SToken::Greater ==> level_operator(l1, t1) == Some(Operator::Greater),
        t1 == SToken::GreaterEqual ==> level_operator(l1, t1) == Some(Operator::GreaterEq),
        t1 == SToken::Plus ==> level_operator(l1, t1) == Some(Operator::Add),
        t1 == SToken::Minus ==> level_operator(l1, t1) == Some(Operator::Sub),
        t1 == SToken::Star ==> level_operator(l1, t1) == Some(Operator::Mul),
        t1 == SToken::Slash ==> level_operator(l1, t1) == Some(Operator::Div),
        t1 == SToken::QuestionMark ==> level_operator(l1, t1) == Some(Operator::IfNull),
        t1 == SToken::Caret ==> level_operator(l1, t1) == Some(Operator::Power),
{
}

/// `a || b && c` groups as `a || (b && c)`: with `a`, `b` and `c` expressions of the
/// equality level and nothing of `||` or `&&` after `c`, the whole expression is the
/// disjunction of `a` and the conjunction of `b` and `c`.
pub proof fn law_and_binds_tighter_than_or(
    ts: Seq<STokenWithMeta>,
    pos: int,
    a: SExpr,
    p1: int,
    b: SExpr,
    p2: int,
    c: SExpr,
    p3: int,
)
    requires
        0 <= pos < p1,
        p1 + 1 < p2,
        p2 + 1 < p3 <= ts.len(),
        p_binary(ts, pos, 2) == Ok::<(SExpr, int), SParserError>((a, p1)),
        is_tok(ts, p1, SToken::Or),
        p_binary(ts, p1 + 1, 2) == Ok::<(SExpr, int), SParserError>((b, p2)),
        is_tok(ts, p2, SToken::And),
        p_binary(ts, p2 + 1, 2) == Ok::<(SExpr, int), SParserError>((c, p3)),
        !is_tok(ts, p3, SToken::Or),
        !is_tok(ts, p3, SToken::And),
    ensures
        p_binary(ts, pos, 0) == Ok::<(SExpr, int), SParserError>(
            (binary(Operator::Or, a, binary(Operator::And, b, c)), p3),
        ),
{
    let bc = binary(Operator::And, b, c);
    let whole = binary(Operator::Or, a, bc);
    // Level 1 (`&&`) sees `a` alone: the `||` after it is not its operator.
    assert(op_at(ts, p1, 1) is None);
    assert(p_binary_rest(ts, p1, 1, a) == Ok::<(SExpr, int), SParserError>((a, p1)));
    assert(p_operand(ts, pos, 1) == p_binary(ts, pos, 2));
    assert(p_binary(ts, pos, 1) == Ok::<(SExpr, int), SParserError>((a, p1)));
    // After `||`, level 1 takes `b && c`.
    assert(op_at(ts, p3, 1) is None);
    assert(p_binary_rest(ts, p3, 1, bc) == Ok::<(SExpr, int), SParserError>((bc, p3)));
    assert(op_at(ts, p2, 1) == Some(Operator::And));
    assert(p_operand(ts, p2 + 1, 1) == p_binary(ts, p2 + 1, 2));
    assert(p_binary_rest(ts, p2, 1, b) == p_binary_rest(ts, p3, 1, bc));
    assert(p_operand(ts, p1 + 1, 1) == p_binary(ts, p1 + 1, 2));
    assert(p_binary(ts, p1 + 1, 1) == Ok::<(SExpr, int), SParserError>((bc, p3)));
    // Level 0 (`||`) joins them.
    assert(op_at(ts, p3, 0) is None);
    assert(p_binary_rest(ts, p3, 0, whole) == Ok::<(SExpr, int), SParserError>((whole, p3)));
    assert(op_at(ts, p1, 0) == Some(Operator::Or));
    assert(p_operand(ts, p1 + 1, 0) == p_binary(ts, p1 + 1, 1));
    assert(p_binary_rest(ts, p1, 0, a) == p_binary_rest(ts, p3, 0, whole));
    assert(p_operand(ts, pos, 0) == p_binary(ts, pos, 1));
}

} // verus!
