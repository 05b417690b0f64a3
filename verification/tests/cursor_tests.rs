use tac_frontend::context::Context;
use tac_frontend::cursor::{at_end, expect, expect_ident, next, next_error, peek, peek_error, peek_is, peek_kind};
use tac_frontend::error::SyntaxError;
use tac_frontend::tac::Operand;
use tac_frontend::token::{Token, TokenKind};

fn sample() -> Vec<Token> {
    vec![Token::Ident(String::from("a")), Token::Assign, Token::Num(1), Token::End]
}

#[test]
fn peek_looks_and_next_takes() {
    let toks = sample();
    assert!(matches!(peek(&toks, 1), Some(Token::Assign)));
    assert!(peek(&toks, 4).is_none());
    assert!(matches!(peek_error(&toks, 2), Ok(Token::Num(1))));
    assert_eq!(peek_error(&toks, 4).unwrap_err(), SyntaxError::UnexpectedEnd);
    let mut i = 0;
    assert!(matches!(next(&toks, &mut i), Some(Token::Ident(_))));
    assert_eq!(i, 1);
    assert!(matches!(next_error(&toks, &mut i), Ok(Token::Assign)));
    assert_eq!(i, 2);
    i = 4;
    assert!(next(&toks, &mut i).is_none());
    assert_eq!(i, 4);
    assert_eq!(next_error(&toks, &mut i).unwrap_err(), SyntaxError::UnexpectedEnd);
    assert_eq!(i, 4);
}

#[test]
fn the_stream_ends_at_the_end_mark_and_behind_the_last_token() {
    let toks = sample();
    assert!(!at_end(&toks, 0));
    assert!(!at_end(&toks, 2));
    assert!(at_end(&toks, 3));
    assert!(at_end(&toks, 4));
    assert!(at_end(&toks, 100));
    assert!(at_end(&Vec::new(), 0));
}

#[test]
fn expecting_a_token_takes_it() {
    let toks = sample();
    assert_eq!(peek_kind(&toks, 0), Some(TokenKind::Ident));
    assert_eq!(peek_kind(&toks, 4), None);
    assert!(peek_is(&toks, 1, TokenKind::Assign));
    assert!(!peek_is(&toks, 1, TokenKind::Plus));
    assert!(!peek_is(&toks, 4, TokenKind::Assign));
    let mut i = 1;
    assert_eq!(expect(&toks, &mut i, TokenKind::Assign, SyntaxError::ExpectedAssign), Ok(()));
    assert_eq!(i, 2);
    assert_eq!(
        expect(&toks, &mut i, TokenKind::Semicolon, SyntaxError::ExpectedSemicolon),
        Err(SyntaxError::ExpectedSemicolon)
    );
    assert_eq!(i, 3);
    i = 4;
    assert_eq!(
        expect(&toks, &mut i, TokenKind::Semicolon, SyntaxError::ExpectedSemicolon),
        Err(SyntaxError::ExpectedSemicolon)
    );
    assert_eq!(i, 4);
    i = 0;
    assert_eq!(expect_ident(&toks, &mut i, SyntaxError::ExpectedIdentifier).unwrap(), "a");
    assert_eq!(i, 1);
    assert_eq!(
        expect_ident(&toks, &mut i, SyntaxError::ExpectedIdentifier),
        Err(SyntaxError::ExpectedIdentifier)
    );
    assert_eq!(i, 2);
}

#[test]
fn the_context_numbers_from_one_and_stacks_loops() {
    let mut ctx = Context::new();
    assert!(matches!(ctx.create_temp(), Operand::Temp(1)));
    assert!(matches!(ctx.create_temp(), Operand::Temp(2)));
    assert_eq!(ctx.create_label_id(), 1);
    assert_eq!(ctx.create_ifs_id(), 1);
    assert_eq!(ctx.create_label_id(), 2);
    assert_eq!(ctx.peek_label_stack(), None);
    ctx.pop_label_id();
    assert_eq!(ctx.peek_label_stack(), None);
    ctx.push_label_id(1);
    ctx.push_label_id(2);
    assert_eq!(ctx.peek_label_stack(), Some(2));
    ctx.pop_label_id();
    assert_eq!(ctx.peek_label_stack(), Some(1));
    ctx.pop_label_id();
    assert_eq!(ctx.peek_label_stack(), None);
    assert!(ctx.has_room(0));
    assert!(ctx.has_room(1000));
    assert!(!ctx.has_room(usize::MAX));
}
