//! Reading a token sequence through a position: look at the token there,
//! or take it and move on. Nothing moves the position back.

use crate::error::SyntaxError;
use crate::grammar::{ident_at, kind_at, taken};
use crate::token::{Token, TokenKind};
use vstd::prelude::*;

verus! {

/// The token at `index`, if there is one.
pub fn peek<'a>(tokens: &'a Vec<Token>, index: usize) -> (r: Option<&'a Token>)
    ensures
        r == if index < tokens.len() {
            Some(&tokens@[index as int])
        } else {
            None
        },
{
    if index < tokens.len() {
        Some(&tokens[index])
    } else {
        None
    }
}

/// The token at `index`, or the error that says that none is left.
pub fn peek_error<'a>(tokens: &'a Vec<Token>, index: usize) -> (r: Result<&'a Token, SyntaxError>)
    ensures
        r == if index < tokens.len() {
            Ok::<&Token, SyntaxError>(&tokens@[index as int])
        } else {
            Err::<&Token, SyntaxError>(SyntaxError::UnexpectedEnd)
        },
{
    if index < tokens.len() {
        Ok(&tokens[index])
    } else {
        Err(SyntaxError::UnexpectedEnd)
    }
}

/// Takes the token at `index` and moves behind it, if there is one.
pub fn next<'a>(tokens: &'a Vec<Token>, index: &mut usize) -> (r: Option<&'a Token>)
    ensures
        r == if *old(index) < tokens.len() {
            Some(&tokens@[*old(index) as int])
        } else {
            None
        },
        *final(index) == taken(tokens.deep_view(), *old(index) as int),
{
    if *index < tokens.len() {
        let at = *index;
        *index += 1;
        Some(&tokens[at])
    } else {
        None
    }
}

/// Takes the token at `index` and moves behind it, or gives the error that
/// says that none is left.
pub fn next_error<'a>(tokens: &'a Vec<Token>, index: &mut usize) -> (r: Result<
    &'a Token,
    SyntaxError,
>)
    ensures
        r == if *old(index) < tokens.len() {
            Ok::<&Token, SyntaxError>(&tokens@[*old(index) as int])
        } else {
            Err::<&Token, SyntaxError>(SyntaxError::UnexpectedEnd)
        },
        *final(index) == taken(tokens.deep_view(), *old(index) as int),
{
    if *index < tokens.len() {
        let at = *index;
        *index += 1;
        Ok(&tokens[at])
    } else {
        Err(SyntaxError::UnexpectedEnd)
    }
}

/// Whether the token stream ends at `index`: no token is left, or the one
/// there is the end mark.
pub fn at_end(tokens: &Vec<Token>, index: usize) -> (r: bool)
    ensures
        r == (kind_at(tokens.deep_view(), index as int) is None || kind_at(tokens.deep_view(), index as int) == Some(
            TokenKind::End,
        )),
{
    if index < tokens.len() {
        tokens[index].kind() == TokenKind::End
    } else {
        true
    }
}

/// The kind of the token at `index`, if there is one.
pub fn peek_kind(tokens: &Vec<Token>, index: usize) -> (r: Option<TokenKind>)
    ensures
        r == kind_at(tokens.deep_view(), index as int),
{
    if index < tokens.len() {
        Some(tokens[index].kind())
    } else {
        None
    }
}

/// Whether the token at `index` is of kind `want`.
pub fn peek_is(tokens: &Vec<Token>, index: usize, want: TokenKind) -> (r: bool)
    ensures
        r == (kind_at(tokens.deep_view(), index as int) == Some(want)),
{
    if index < tokens.len() {
        tokens[index].kind() == want
    } else {
        false
    }
}

/// Takes the token at `index`, which has to be of kind `want`: if it is
/// not, or if none is left, the result is `error`.
pub fn expect(tokens: &Vec<Token>, index: &mut usize, want: TokenKind, error: SyntaxError) -> (r:
    Result<(), SyntaxError>)
    ensures
        r == if kind_at(tokens.deep_view(), *old(index) as int) == Some(want) {
            Ok::<(), SyntaxError>(())
        } else {
            Err::<(), SyntaxError>(error)
        },
        *final(index) == taken(tokens.deep_view(), *old(index) as int),
{
    if *index < tokens.len() {
        let at = *index;
        *index += 1;
        if tokens[at].kind() == want {
            Ok(())
        } else {
            Err(error)
        }
    } else {
        Err(error)
    }
}

/// Takes the token at `index`, which has to be an identifier, and gives
/// its name: if it is not one, or if none is left, the result is `error`.
pub fn expect_ident(tokens: &Vec<Token>, index: &mut usize, error: SyntaxError) -> (r: Result<
    String,
    SyntaxError,
>)
    ensures
        match ident_at(tokens.deep_view(), *old(index) as int) {
            Some(name) => r is Ok && r->Ok_0@ == name,
            None => r == Err::<String, SyntaxError>(error),
        },
        *final(index) == taken(tokens.deep_view(), *old(index) as int),
{
    if *index < tokens.len() {
        let at = *index;
        *index += 1;
        match &tokens[at] {
            Token::Ident(name) => Ok(name.clone()),
            _ => Err(error),
        }
    } else {
        Err(error)
    }
}

} // verus!
