use tac_frontend::codegen::parse_statement;
use tac_frontend::context::Context;
use tac_frontend::lexer::{create_identifier, create_sign, lex, LexErrorKind, Lexer, Mode};
use tac_frontend::token::{Loc, Token, TokenKind};

fn is_name(t: &Token, name: &str) -> bool {
    match t {
        Token::Ident(id) => id.eq(name),
        _ => false,
    }
}

#[test]
fn main_lexer_test() {
    // valid numbers
    let mut tokens = lex("1 + 2 + 3 * 44");
    match tokens {
        Err(_) => {
            assert!(false);
        }
        Ok((tok, _)) => {
            assert!(tok.len() == 7);
            assert!(matches!(tok[0], Token::Num(1)));
            assert!(matches!(tok[1], Token::Plus));
            assert!(matches!(tok[2], Token::Num(2)));
            assert!(matches!(tok[3], Token::Plus));
            assert!(matches!(tok[4], Token::Num(3)));
            assert!(matches!(tok[5], Token::Multiply));
            assert!(matches!(tok[6], Token::Num(44)));
        }
    }

    // valid numbers
    tokens = lex("1 / 2 - 3");
    match tokens {
        Err(_) => {
            assert!(false);
        }
        Ok((tok, _)) => {
            assert!(tok.len() == 5);
            assert!(matches!(tok[0], Token::Num(1)));
            assert!(matches!(tok[1], Token::Divide));
            assert!(matches!(tok[2], Token::Num(2)));
            assert!(matches!(tok[3], Token::Subtract));
            assert!(matches!(tok[4], Token::Num(3)));
        }
    }

    // valid numbers
    tokens = lex("1 > 2 + < 100");
    match tokens {
        Err(_) => {
            assert!(false);
        }
        Ok((tok, _)) => {
            assert!(tok.len() == 6);
            assert!(matches!(tok[0], Token::Num(1)));
            assert!(matches!(tok[1], Token::Greater));
            assert!(matches!(tok[2], Token::Num(2)));
            assert!(matches!(tok[3], Token::Plus));
            assert!(matches!(tok[4], Token::Less));
            assert!(matches!(tok[5], Token::Num(100)));
        }
    }

    // valid identifiers
    tokens = lex("box333 c3a3r dog cat");
    match tokens {
        Err(_) => {
            assert!(false);
        }
        Ok((tok, _)) => {
            assert!(tok.len() == 4);
            assert!(is_name(&tok[0], "box333"));
            assert!(is_name(&tok[1], "c3a3r"));
            assert!(is_name(&tok[2], "dog"));
            assert!(is_name(&tok[3], "cat"));
        }
    }

    // '31st' is an invalid number
    tokens = lex("October 31st, 1517");
    match tokens {
        Err(_) => {}
        Ok(_) => {
            assert!(false);
        }
    }
}

#[test]
fn main_test_statements() {
    // test that valid statements are correct.
    let (tokens, _) = lex("a = 1 + 2;").unwrap();
    parse_statement(&tokens, &mut 0, &mut Context::new()).unwrap();

    let (tokens, _) = lex("b = 1 / 2;").unwrap();
    parse_statement(&tokens, &mut 0, &mut Context::new()).unwrap();

    // test errors. missing semicolon
    let (tokens, _) = lex("b = 1 / 2").unwrap();
    assert!(matches!(parse_statement(&tokens, &mut 0, &mut Context::new()), Err(_)));
}

#[test]
fn lexer_gives_one_position_for_each_token() {
    let (tokens, locations) = lex("int a;\nab = a + 12;").unwrap();
    assert_eq!(tokens.len(), 9);
    assert_eq!(locations.len(), tokens.len());
    // `int` is recorded when the space behind it is read
    assert_eq!(locations[0], Loc { line: 1, col: 4 });
    // `a` is recorded when `;` is read, and `;` at its own place
    assert_eq!(locations[1], Loc { line: 1, col: 6 });
    assert_eq!(locations[2], Loc { line: 1, col: 6 });
    assert_eq!(locations[3], Loc { line: 2, col: 3 });
    assert_eq!(locations[4], Loc { line: 2, col: 5 });
    assert_eq!(locations[5], Loc { line: 2, col: 7 });
    assert_eq!(locations[6], Loc { line: 2, col: 8 });
    // the number is closed by `;`
    assert_eq!(locations[7], Loc { line: 2, col: 12 });
    assert_eq!(locations[8], Loc { line: 2, col: 12 });
}

#[test]
fn lexer_knows_the_keywords_and_operators() {
    let (tokens, _) =
        lex("func return int print read while if else break continue <= >= == != < > = ").unwrap();
    let kinds: Vec<TokenKind> = tokens.iter().map(|t| t.kind()).collect();
    assert_eq!(
        kinds,
        vec![
            TokenKind::Func,
            TokenKind::Return,
            TokenKind::Int,
            TokenKind::Print,
            TokenKind::Read,
            TokenKind::While,
            TokenKind::If,
            TokenKind::Else,
            TokenKind::Break,
            TokenKind::Continue,
            TokenKind::LessEqual,
            TokenKind::GreaterEqual,
            TokenKind::Equality,
            TokenKind::NotEqual,
            TokenKind::Less,
            TokenKind::Greater,
            TokenKind::Assign,
        ]
    );
    assert!(matches!(create_identifier("while"), Token::While));
    assert!(is_name(&create_identifier("whiles"), "whiles"));
    assert!(matches!(create_sign("<="), Some(Token::LessEqual)));
    assert!(create_sign("<<").is_none());
}

#[test]
fn lexer_skips_comments_and_flushes_at_the_end() {
    let (tokens, locations) = lex("a # b c d\nxyz").unwrap();
    assert_eq!(tokens.len(), 2);
    assert!(is_name(&tokens[0], "a"));
    assert!(is_name(&tokens[1], "xyz"));
    // a word that the text ends in is recorded behind the last character
    assert_eq!(locations[1], Loc { line: 2, col: 4 });
    // an operator that the text ends in is recorded too
    let (tokens, locations) = lex("a <").unwrap();
    assert_eq!(tokens.len(), 2);
    assert!(matches!(tokens[1], Token::Less));
    assert_eq!(locations[1], Loc { line: 1, col: 4 });
    let (tokens, _) = lex("a =").unwrap();
    assert_eq!(tokens.len(), 2);
    assert!(matches!(tokens[1], Token::Assign));
    // but it has to be one
    assert_eq!(lex("a <>").unwrap_err().kind, LexErrorKind::InvalidSymbol);
}

#[test]
fn lexer_errors() {
    let e = lex("a $ b").unwrap_err();
    assert_eq!(e.kind, LexErrorKind::UnidentifiedSymbol);
    assert_eq!(e.text, "$");
    assert_eq!((e.line, e.col), (1, 3));
    assert_eq!(e.message(), "Error at line 1:3. Unidentified symbol '$'");

    let e = lex("12$").unwrap_err();
    assert_eq!(e.kind, LexErrorKind::UnidentifiedSymbol);
    assert_eq!(e.text, "$");

    let e = lex("x = 31st ;").unwrap_err();
    assert_eq!(e.kind, LexErrorKind::InvalidNumber);
    assert_eq!(e.text, "31st ");
    assert_eq!(e.message(), "Error at line 1:9. Invalid Number '31st '");

    let e = lex("a <> b").unwrap_err();
    assert_eq!(e.kind, LexErrorKind::InvalidSymbol);
    assert_eq!(e.text, "<>");
    assert_eq!(e.message(), "invalid symbol <>");

    let e = lex("\n99999999999 ").unwrap_err();
    assert_eq!(e.kind, LexErrorKind::NumberTooLarge);
    assert_eq!(e.text, "99999999999");
    assert_eq!((e.line, e.col), (2, 12));
    let (tokens, _) = lex("2147483647").unwrap();
    assert!(matches!(tokens[0], Token::Num(2147483647)));
    assert!(lex("2147483648").is_err());
}

#[test]
fn lexer_takes_letters_beyond_ascii() {
    let (tokens, _) = lex("größe = 1;").unwrap();
    assert_eq!(tokens.len(), 4);
    assert!(is_name(&tokens[0], "größe"));
}

#[test]
fn lexer_takes_any_white_space_between_tokens() {
    let (tokens, _) = lex("a\t=\u{a0}1\r\n;").unwrap();
    assert_eq!(tokens.len(), 4);
    assert!(is_name(&tokens[0], "a"));
    assert!(matches!(tokens[1], Token::Assign));
    assert!(matches!(tokens[2], Token::Num(1)));
    assert!(matches!(tokens[3], Token::Semicolon));
}

#[test]
fn operators_need_no_space_around_them() {
    let (tokens, locations) = lex("a=1;").unwrap();
    assert_eq!(tokens.len(), 4);
    assert!(is_name(&tokens[0], "a"));
    assert!(matches!(tokens[1], Token::Assign));
    assert!(matches!(tokens[2], Token::Num(1)));
    assert!(matches!(tokens[3], Token::Semicolon));
    assert_eq!(locations[0], Loc { line: 1, col: 2 });
    assert_eq!(locations[1], Loc { line: 1, col: 3 });
    let (tokens, _) = lex("a<b").unwrap();
    assert_eq!(tokens.len(), 3);
    assert!(matches!(tokens[1], Token::Less));
    let (tokens, _) = lex("x1<=22==y!=3>=z#c\n>w").unwrap();
    let kinds: Vec<TokenKind> = tokens.iter().map(|t| t.kind()).collect();
    assert_eq!(
        kinds,
        vec![
            TokenKind::Ident,
            TokenKind::LessEqual,
            TokenKind::Num,
            TokenKind::Equality,
            TokenKind::Ident,
            TokenKind::NotEqual,
            TokenKind::Num,
            TokenKind::GreaterEqual,
            TokenKind::Ident,
            TokenKind::Greater,
            TokenKind::Ident,
        ]
    );
}

#[test]
fn a_malformed_number_is_an_error_wherever_it_stands() {
    let e = lex("31st").unwrap_err();
    assert_eq!(e.kind, LexErrorKind::InvalidNumber);
    assert_eq!(e.text, "31st");
    assert_eq!((e.line, e.col), (1, 5));
    assert_eq!(e.message(), "Error at line 1:5. Invalid Number '31st'");

    let e = lex("1a+2;x=3;").unwrap_err();
    assert_eq!(e.kind, LexErrorKind::InvalidNumber);
    assert_eq!(e.text, "1a+");
    assert_eq!((e.line, e.col), (1, 3));

    let e = lex("x = 9_9\n").unwrap_err();
    assert_eq!(e.kind, LexErrorKind::InvalidNumber);
    assert_eq!(e.text, "9_9\n");

    let e = lex("October 31st, 1517").unwrap_err();
    assert_eq!(e.kind, LexErrorKind::InvalidNumber);
    assert_eq!(e.text, "31st,");
}

#[test]
fn the_lexer_steps_by_what_a_character_is_taken_for() {
    let chars: Vec<char> = "ab 1".chars().collect();
    let mut lexer = Lexer::new();
    assert_eq!(lexer.mode, Mode::Init);
    lexer = lexer.step(&chars, 0, true, false).unwrap();
    assert_eq!(lexer.mode, Mode::Ident);
    lexer = lexer.step(&chars, 1, true, false).unwrap();
    assert_eq!((lexer.mode, lexer.start, lexer.tokens.len()), (Mode::Ident, 0, 0));
    lexer = lexer.step(&chars, 2, false, true).unwrap();
    assert_eq!((lexer.mode, lexer.tokens.len(), lexer.col), (Mode::Init, 1, 4));
    assert!(is_name(&lexer.tokens[0], "ab"));
    lexer = lexer.step(&chars, 3, false, false).unwrap();
    assert_eq!((lexer.mode, lexer.start), (Mode::Number, 3));
    let (tokens, locations) = lexer.finish(&chars).unwrap();
    assert_eq!(tokens.len(), 2);
    assert!(matches!(tokens[1], Token::Num(1)));
    assert_eq!(locations[1], Loc { line: 1, col: 5 });

    // taken for no white space, the blank is no token
    let lexer = Lexer::new().step(&chars, 0, true, false).unwrap();
    let lexer = lexer.step(&chars, 1, true, false).unwrap();
    let e = lexer.step(&chars, 2, false, false).unwrap_err();
    assert_eq!(e.kind, LexErrorKind::UnidentifiedSymbol);
    assert_eq!(e.text, " ");
    // taken for a letter, the digit opens a name
    let lexer = Lexer::new().step(&chars, 3, true, false).unwrap();
    assert_eq!(lexer.mode, Mode::Ident);
}
