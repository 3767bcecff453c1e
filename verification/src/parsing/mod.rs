//! From the text of a program to its statements: the scanner makes tokens, the parser
//! statements.
use vstd::prelude::*;

pub mod grammar;
pub mod multi_peek;
pub mod token;
pub mod parser;
pub mod scanner;

pub use crate::parsing::token::Metadata;

use crate::language::statement::{SStatement, StatementBlock};
use crate::parsing::grammar::{parse_tokens, SParserError};
use crate::parsing::parser::{parse, ParserError};
use crate::parsing::scanner::{scan, scan_text, SScannerError, ScannerError};

verus! {

/// Why a program could not be read: the scanner or the parser refused it.
#[derive(Debug)]
pub enum ScanAndParserError {
    Scanner(ScannerError),
    Parser(ParserError),
}

pub enum SScanAndParserError {
    Scanner(SScannerError),
    Parser(SParserError),
}

impl View for ScanAndParserError {
    type V = SScanAndParserError;

    open spec fn view(&self) -> SScanAndParserError {
        match self {
            ScanAndParserError::Scanner(e) => SScanAndParserError::Scanner(e@),
            ScanAndParserError::Parser(e) => SScanAndParserError::Parser(e@),
        }
    }
}

/// The statements of a program text: its tokens, parsed; the first error of either step.
/// A list of tokens too long to be indexed is refused as one on which the parser stalls.
pub open spec fn program_of(text: Seq<char>) -> Result<Seq<SStatement>, SScanAndParserError> {
    match scan_text(text) {
        Err(e) => Err(SScanAndParserError::Scanner(e)),
        Ok(ts) => if ts.len() >= usize::MAX {
            Err(SScanAndParserError::Parser(SParserError::Stalled))
        } else {
            match parse_tokens(ts) {
                Err(e) => Err(SScanAndParserError::Parser(e)),
                Ok(b) => Ok(b),
            }
        },
    }
}

/// Scans and parses a program.
pub fn scan_and_parse(input: &String) -> (r: Result<StatementBlock, ScanAndParserError>)
    ensures
        match r {
            Ok(b) => program_of(input@) == Ok::<Seq<SStatement>, SScanAndParserError>(b@),
            Err(e) => program_of(input@) == Err::<Seq<SStatement>, SScanAndParserError>(e@),
        },
{
    let tokens = match scan(input) {
        Ok(ts) => ts,
        Err(e) => return Err(ScanAndParserError::Scanner(e)),
    };
    if tokens.len() == usize::MAX {
        return Err(ScanAndParserError::Parser(ParserError::Stalled));
    }
    match parse(&tokens) {
        Ok(b) => Ok(b),
        Err(e) => Err(ScanAndParserError::Parser(e)),
    }
}

} // verus!
