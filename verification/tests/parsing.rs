use kool::parsing::scanner::{scan, ScannerError};
use kool::parsing::token::Token;
use kool::parsing::{scan_and_parse, ScanAndParserError};

#[test]
fn scans_operators_numbers_and_names() {
    let tokens = scan(&"var x = 12 <= y".to_owned()).expect("scans");
    assert_eq!(tokens.len(), 6);
    assert!(matches!(tokens[0].token, Token::Ident(ref s) if s == "var"));
    assert!(matches!(tokens[3].token, Token::Int(12)));
    assert!(matches!(tokens[4].token, Token::LessEqual));
    assert_eq!(tokens[5].meta.line, 1);
    assert_eq!(tokens[5].meta.col, 15);
}

#[test]
fn comments_and_lines() {
    let tokens = scan(&"a // a comment\n  b".to_owned()).expect("scans");
    assert_eq!(tokens.len(), 2);
    assert_eq!(tokens[1].meta.line, 2);
    assert_eq!(tokens[1].meta.col, 3);
}

#[test]
fn strings_and_escapes() {
    let tokens = scan(&"\"a\\tb\" 'c'".to_owned()).expect("scans");
    assert!(matches!(tokens[0].token, Token::String(ref s) if s == "a\tb"));
    assert!(matches!(tokens[1].token, Token::String(ref s) if s == "c"));
}

#[test]
fn multiline_strings_squeeze_white_space() {
    let tokens = scan(&"\"\"\"  one\n   two \"\"\"".to_owned()).expect("scans");
    assert_eq!(tokens.len(), 1);
    assert!(matches!(tokens[0].token, Token::String(ref s) if s == "one two"));
}

#[test]
fn unexpected_character() {
    let r = scan(&"a # b".to_owned());
    match r {
        Err(ScannerError::UnexpectedChar(c)) => {
            assert_eq!(c.char, '#');
            assert_eq!(c.meta.col, 3);
        }
        other => panic!("unexpected {:?}", other),
    }
}

#[test]
fn unterminated_string() {
    assert!(matches!(scan(&"\"abc".to_owned()), Err(ScannerError::UnterminatedString(_))));
}

#[test]
fn number_too_large() {
    match scan(&"99999999999999999999".to_owned()) {
        Err(ScannerError::NumberParse(d)) => assert_eq!(d, "99999999999999999999"),
        other => panic!("unexpected {:?}", other),
    }
}

#[test]
fn parse_errors_are_reported() {
    assert!(matches!(scan_and_parse(&"var = 1".to_owned()), Err(ScanAndParserError::Parser(_))));
    assert!(matches!(scan_and_parse(&"a # b".to_owned()), Err(ScanAndParserError::Scanner(_))));
}

#[test]
fn parses_statements() {
    let block = scan_and_parse(&"var a = 1\na = a + 1\ndef f(x) { x }".to_owned()).expect("parses");
    assert_eq!(block.statements.len(), 3);
}
