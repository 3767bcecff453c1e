use vstd::prelude::*;

verus! {

/// Where a character or token starts: its line and column, both counted from 1.
#[derive(Clone, Copy, Debug, PartialEq, Eq, Structural, Hash)]
pub struct Metadata {
    pub line: usize,
    pub col: usize,
}

#[derive(Debug)]
pub enum Token {
    Ident(String),  // eg. Text
    String(String),  // eg. "Hello world"
    Int(i64),  // eg. 42
    LeftParen,  // (
    RightParen,  // )
    LeftBracket,  // [
    RightBracket,  // ]
    LeftBrace,  // {
    RightBrace,  // }
    Colon,  // :
    Equal,  // =
    Comma,  // ,
    Dot,  // .
    Plus,  // +
    Minus,  // -
    Slash,  // /
    Star,  // *
    Caret,  // ^
    Bang,  // !
    QuestionMark,  // ?
    EqualEqual,  // ==
    BangEqual,  // !=
    Less,  // <
    LessEqual,  // <=
    Greater,  // >
    GreaterEqual,  // >=
    And,  // &&
    Or,  // ||
}

/// The model of a token.
pub enum SToken {
    Ident(Seq<char>),
    String(Seq<char>),
    Int(i64),
    LeftParen,
    RightParen,
    LeftBracket,
    RightBracket,
    LeftBrace,
    RightBrace,
    Colon,
    Equal,
    Comma,
    Dot,
    Plus,
    Minus,
    Slash,
    Star,
    Caret,
    Bang,
    QuestionMark,
    EqualEqual,
    BangEqual,
    Less,
    LessEqual,
    Greater,
    GreaterEqual,
    And,
    Or,
}

impl View for Token {
    type V = SToken;

    open spec fn view(&self) -> SToken {
        match self {
            Token::Ident(s) => SToken::Ident(s@),
            Token::String(s) => SToken::String(s@),
            Token::Int(i) => SToken::Int(*i),
            Token::LeftParen => SToken::LeftParen,
            Token::RightParen => SToken::RightParen,
            Token::LeftBracket => SToken::LeftBracket,
            Token::RightBracket => SToken::RightBracket,
            Token::LeftBrace => SToken::LeftBrace,
            Token::RightBrace => SToken::RightBrace,
            Token::Colon => SToken::Colon,
            Token::Equal => SToken::Equal,
            Token::Comma => SToken::Comma,
            Token::Dot => SToken::Dot,
            Token::Plus => SToken::Plus,
            Token::Minus => SToken::Minus,
            Token::Slash => SToken::Slash,
            Token::Star => SToken::Star,
            Token::Caret => SToken::Caret,
            Token::Bang => SToken::Bang,
            Token::QuestionMark => SToken::QuestionMark,
            Token::EqualEqual => SToken::EqualEqual,
            Token::BangEqual => SToken::BangEqual,
            Token::Less => SToken::Less,
            Token::LessEqual => SToken::LessEqual,
            Token::Greater => SToken::Greater,
            Token::GreaterEqual => SToken::GreaterEqual,
            Token::And => SToken::And,
            Token::Or => SToken::Or,
        }
    }
}

impl Token {
    /// A copy of the token.
    pub fn deep_clone(&self) -> (r: Token)
        ensures
            r@ == self@,
    {
        match self {
            Token::Ident(s) => Token::Ident(s.clone()),
            Token::String(s) => Token::String(s.clone()),
            Token::Int(i) => Token::Int(*i),
            Token::LeftParen => Token::LeftParen,
            Token::RightParen => Token::RightParen,
            Token::LeftBracket => Token::LeftBracket,
            Token::RightBracket => Token::RightBracket,
            Token::LeftBrace => Token::LeftBrace,
            Token::RightBrace => Token::RightBrace,
            Token::Colon => Token::Colon,
            Token::Equal => Token::Equal,
            Token::Comma => Token::Comma,
            Token::Dot => Token::Dot,
            Token::Plus => Token::Plus,
            Token::Minus => Token::Minus,
            Token::Slash => Token::Slash,
            Token::Star => Token::Star,
            Token::Caret => Token::Caret,
            Token::Bang => Token::Bang,
            Token::QuestionMark => Token::QuestionMark,
            Token::EqualEqual => Token::EqualEqual,
            Token::BangEqual => Token::BangEqual,
            Token::Less => Token::Less,
            Token::LessEqual => Token::LessEqual,
            Token::Greater => Token::Greater,
            Token::GreaterEqual => Token::GreaterEqual,
            Token::And => Token::And,
            Token::Or => Token::Or,
        }
    }
}

#[derive(Debug)]
pub struct TokenWithMeta {
    pub token: Token,
    pub meta: Metadata,
}

pub struct STokenWithMeta {
    pub token: SToken,
    pub meta: Metadata,
}

impl View for TokenWithMeta {
    type V = STokenWithMeta;

    open spec fn view(&self) -> STokenWithMeta {
        STokenWithMeta { token: self.token@, meta: self.meta }
    }
}

impl TokenWithMeta {
    pub fn deep_clone(&self) -> (r: TokenWithMeta)
        ensures
            r@ == self@,
    {
        TokenWithMeta { token: self.token.deep_clone(), meta: self.meta }
    }
}

/// Whether two tokens are the same.
pub fn same_token(a: &Token, b: &Token) -> (r: bool)
    ensures
        r == (a@ == b@),
{
    match (a, b) {
        (Token::Ident(x), Token::Ident(y)) => *x == *y,
        (Token::String(x), Token::String(y)) => *x == *y,
        (Token::Int(x), Token::Int(y)) => *x == *y,
        (Token::LeftParen, Token::LeftParen) => true,
        (Token::RightParen, Token::RightParen) => true,
        (Token::LeftBracket, Token::LeftBracket) => true,
        (Token::RightBracket, Token::RightBracket) => true,
        (Token::LeftBrace, Token::LeftBrace) => true,
        (Token::RightBrace, Token::RightBrace) => true,
        (Token::Colon, Token::Colon) => true,
        (Token::Equal, Token::Equal) => true,
        (Token::Comma, Token::Comma) => true,
        (Token::Dot, Token::Dot) => true,
        (Token::Plus, Token::Plus) => true,
        (Token::Minus, Token::Minus) => true,
        (Token::Slash, Token::Slash) => true,
        (Token::Star, Token::Star) => true,
        (Token::Caret, Token::Caret) => true,
        (Token::Bang, Token::Bang) => true,
        (Token::QuestionMark, Token::QuestionMark) => true,
        (Token::EqualEqual, Token::EqualEqual) => true,
        (Token::BangEqual, Token::BangEqual) => true,
        (Token::Less, Token::Less) => true,
        (Token::LessEqual, Token::LessEqual) => true,
        (Token::Greater, Token::Greater) => true,
        (Token::GreaterEqual, Token::GreaterEqual) => true,
        (Token::And, Token::And) => true,
        (Token::Or, Token::Or) => true,
        _ => false,
    }
}

pub open spec fn tokens_view(ts: Seq<TokenWithMeta>) -> Seq<STokenWithMeta> {
    Seq::new(ts.len(), |i: int| ts[i]@)
}

} // verus!
