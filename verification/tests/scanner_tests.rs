use tac_frontend::codegen::parse_statement;
use tac_frontend::context::Context;
use tac_frontend::scanner::{lex, ScanError};
use tac_frontend::token::Token;

#[test]
fn lexer_test() {
    // test that lexer works on correct cases
    let toks = lex("1 + 2 + 3").unwrap();
    assert!(toks.len() == 6);
    assert!(matches!(toks[0], Token::Num(1)));
    assert!(matches!(toks[1], Token::Plus));
    assert!(matches!(toks[2], Token::Num(2)));
    assert!(matches!(toks[3], Token::Plus));
    assert!(matches!(toks[4], Token::Num(3)));
    assert!(matches!(toks[5], Token::End));

    let toks = lex("3 + 215 +").unwrap();
    assert!(toks.len() == 5);
    assert!(matches!(toks[0], Token::Num(3)));
    assert!(matches!(toks[1], Token::Plus));
    assert!(matches!(toks[2], Token::Num(215)));
    assert!(matches!(toks[3], Token::Plus));
    assert!(matches!(toks[4], Token::End));

    // test that the lexer catches invalid tokens
    assert!(matches!(lex("^^^"), Err(_)));
}

#[test]
fn test_statements() {
    // test that valid statements are correct.
    let tokens = lex("a = 1 + 2;").unwrap();
    parse_statement(&tokens, &mut 0, &mut Context::new()).unwrap();

    let tokens = lex("b = 1 / 2;").unwrap();
    parse_statement(&tokens, &mut 0, &mut Context::new()).unwrap();

    // test errors. missing semicolon
    let tokens = lex("b = 1 / 2").unwrap();
    assert!(matches!(parse_statement(&tokens, &mut 0, &mut Context::new()), Err(_)));
}

#[test]
fn scanner_reads_words_symbols_and_comments() {
    let toks = lex("func main() { # note\n  int x1 = y % 2 < 3; }").unwrap();
    assert_eq!(toks.len(), 16);
    assert!(matches!(toks[0], Token::Func));
    assert!(matches!(&toks[1], Token::Ident(name) if name == "main"));
    assert!(matches!(toks[2], Token::LeftParen));
    assert!(matches!(toks[3], Token::RightParen));
    assert!(matches!(toks[4], Token::LeftCurly));
    assert!(matches!(toks[5], Token::Int));
    assert!(matches!(&toks[6], Token::Ident(name) if name == "x1"));
    assert!(matches!(toks[7], Token::Assign));
    assert!(matches!(&toks[8], Token::Ident(name) if name == "y"));
    assert!(matches!(toks[9], Token::Modulus));
    assert!(matches!(toks[10], Token::Num(2)));
    assert!(matches!(toks[11], Token::Less));
    assert!(matches!(toks[12], Token::Num(3)));
    assert!(matches!(toks[13], Token::Semicolon));
    assert!(matches!(toks[14], Token::RightCurly));
    assert!(matches!(toks[15], Token::End));
}

#[test]
fn scanner_of_nothing_is_the_end_mark() {
    let toks = lex("").unwrap();
    assert_eq!(toks.len(), 1);
    assert!(matches!(toks[0], Token::End));
    let toks = lex("# only a comment").unwrap();
    assert_eq!(toks.len(), 1);
}

#[test]
fn scanner_errors() {
    assert_eq!(lex("a ^ b").unwrap_err(), ScanError::UnrecognizedSymbol(b'^'));
    assert_eq!(lex("2147483648").unwrap_err(), ScanError::NumberTooLarge);
    let toks = lex("2147483647").unwrap();
    assert!(matches!(toks[0], Token::Num(2147483647)));
    let toks = lex("007").unwrap();
    assert!(matches!(toks[0], Token::Num(7)));
    // a malformed number is an error wherever it stands
    assert_eq!(lex("31st").unwrap_err(), ScanError::InvalidNumber);
    assert_eq!(lex("x = 1a + 2;").unwrap_err(), ScanError::InvalidNumber);
    assert_eq!(lex("99999999999x").unwrap_err(), ScanError::InvalidNumber);
    assert_eq!(lex("a ^ b").unwrap_err().message(), "Unrecognized symbol '^'");
    assert_eq!(ScanError::InvalidNumber.message(), "Invalid number");
    assert_eq!(ScanError::NumberTooLarge.message(), "Number too large");
}
