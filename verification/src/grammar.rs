//! The grammar of the source language, as functions from a token sequence
//! and a position to a syntax tree or to the first error.
//!
//! These functions are the reference that the parser is proved against.
//! Nothing here is compiled.

use crate::error::SyntaxError;
use crate::tac::Operator;
use crate::token::{Lexeme, TokenKind};
use vstd::prelude::*;

verus! {

/// An arithmetic expression.
pub enum Expr {
    Num(i32),
    Var(Seq<char>),
    /// A call: the function's name and the arguments, left to right.
    Call(Seq<char>, Seq<Expr>),
    Binary(Operator, Box<Expr>, Box<Expr>),
}

/// One comparison of two terms.
pub struct Condition {
    pub op: Operator,
    pub left: Expr,
    pub right: Expr,
}

/// A statement.
pub enum Stmt {
    Declare(Seq<char>),
    DeclareInit(Seq<char>, Expr),
    Assign(Seq<char>, Expr),
    Return(Expr),
    Print(Expr),
    Read(Expr),
    While(Condition, Seq<Stmt>),
    If(Condition, Seq<Stmt>),
    IfElse(Condition, Seq<Stmt>, Seq<Stmt>),
    Break,
    Continue,
}

/// A function definition.
pub struct Function {
    pub name: Seq<char>,
    pub params: Seq<Seq<char>>,
    pub body: Seq<Stmt>,
}

/// What reading a construct at some position gives: the construct and the
/// position behind it, or the error and the position the cursor stops at.
pub enum Parsed<T> {
    Done { value: T, next: int },
    Failed { error: SyntaxError, at: int },
}

impl<T> Parsed<T> {
    /// The failure that `self` is, as the failure of a larger construct.
    ///
    /// A success becomes a failure too: the grammar applies this only where
    /// a success did not move the cursor forward, which never happens: the
    /// lemmas named `..._unfolds` state each rule without that test.
    pub open spec fn failure<U>(self) -> Parsed<U> {
        match self {
            Parsed::Done { next, .. } => Parsed::Failed { error: SyntaxError::UnexpectedEnd, at: next },
            Parsed::Failed { error, at } => Parsed::Failed { error, at },
        }
    }
}

/// Whether `next` lies behind `i` and not behind the last token.
pub open spec fn moved(tokens: Seq<Lexeme>, i: int, next: int) -> bool {
    i < next <= tokens.len()
}

/// The kind of the token at `i`, if there is one.
pub open spec fn kind_at(tokens: Seq<Lexeme>, i: int) -> Option<TokenKind> {
    if 0 <= i < tokens.len() {
        Some(tokens[i].kind)
    } else {
        None
    }
}

/// The name that the token at `i` carries, if it is an identifier.
pub open spec fn ident_at(tokens: Seq<Lexeme>, i: int) -> Option<Seq<char>> {
    if kind_at(tokens, i) == Some(TokenKind::Ident) {
        Some(tokens[i].name)
    } else {
        None
    }
}

/// Where the cursor stands after a token at `i` was taken and found wrong:
/// behind it, or still at `i` if there was none.
pub open spec fn taken(tokens: Seq<Lexeme>, i: int) -> int {
    if 0 <= i < tokens.len() {
        i + 1
    } else {
        i
    }
}

/// Requires a token of kind `want` at `i`.
pub open spec fn expect(tokens: Seq<Lexeme>, i: int, want: TokenKind, error: SyntaxError) -> Parsed<
    (),
> {
    if kind_at(tokens, i) == Some(want) {
        Parsed::Done { value: (), next: i + 1 }
    } else {
        Parsed::Failed { error, at: taken(tokens, i) }
    }
}

/// The operator that a token kind stands for between two products.
pub open spec fn additive_operator(kind: Option<TokenKind>) -> Option<Operator> {
    match kind {
        Some(TokenKind::Plus) => Some(Operator::Add),
        Some(TokenKind::Subtract) => Some(Operator::Sub),
        _ => None,
    }
}

/// The operator that a token kind stands for between two terms.
pub open spec fn multiplicative_operator(kind: Option<TokenKind>) -> Option<Operator> {
    match kind {
        Some(TokenKind::Multiply) => Some(Operator::Mul),
        Some(TokenKind::Divide) => Some(Operator::Div),
        Some(TokenKind::Modulus) => Some(Operator::Mod),
        _ => None,
    }
}

/// The operator that a token kind stands for in a condition.
pub open spec fn comparison_operator(kind: Option<TokenKind>) -> Option<Operator> {
    match kind {
        Some(TokenKind::Less) => Some(Operator::Less),
        Some(TokenKind::LessEqual) => Some(Operator::LessEqual),
        Some(TokenKind::Greater) => Some(Operator::Greater),
        Some(TokenKind::GreaterEqual) => Some(Operator::GreaterEqual),
        Some(TokenKind::Equality) => Some(Operator::Equal),
        Some(TokenKind::NotEqual) => Some(Operator::NotEqual),
        _ => None,
    }
}

/// term := number | name | name '(' arguments | '(' expression ')'
pub open spec fn term(tokens: Seq<Lexeme>, i: int) -> Parsed<Expr>
    decreases tokens.len() - i, 0int,
{
    match kind_at(tokens, i) {
        Some(TokenKind::Num) => Parsed::Done { value: Expr::Num(tokens[i].value), next: i + 1 },
        Some(TokenKind::Ident) => {
            if kind_at(tokens, i + 1) == Some(TokenKind::LeftParen) {
                match arguments(tokens, i + 2, Seq::empty()) {
                    Parsed::Done { value, next } => Parsed::Done {
                        value: Expr::Call(tokens[i].name, value),
                        next,
                    },
                    Parsed::Failed { error, at } => Parsed::Failed { error, at },
                }
            } else {
                Parsed::Done { value: Expr::Var(tokens[i].name), next: i + 1 }
            }
        },
        Some(TokenKind::LeftParen) => {
            match expression(tokens, i + 1) {
                Parsed::Done { value, next } => {
                    if kind_at(tokens, next) == Some(TokenKind::RightParen) {
                        Parsed::Done { value, next: next + 1 }
                    } else {
                        Parsed::Failed {
                            error: SyntaxError::ExpectedRightParen,
                            at: taken(tokens, next),
                        }
                    }
                },
                Parsed::Failed { error, at } => Parsed::Failed { error, at },
            }
        },
        Some(_) => Parsed::Failed { error: SyntaxError::InvalidExpression, at: i + 1 },
        None => Parsed::Failed { error: SyntaxError::UnexpectedEnd, at: i },
    }
}

/// arguments := ')' | expression ')' | expression ',' arguments
///
/// `done` holds the arguments read so far.
pub open spec fn arguments(tokens: Seq<Lexeme>, i: int, done: Seq<Expr>) -> Parsed<Seq<Expr>>
    decreases tokens.len() - i, 5int,
{
    if kind_at(tokens, i) == Some(TokenKind::RightParen) {
        Parsed::Done { value: done, next: i + 1 }
    } else {
        match expression(tokens, i) {
            Parsed::Done { value, next } if moved(tokens, i, next) => {
                if kind_at(tokens, next) == Some(TokenKind::Comma) {
                    arguments(tokens, next + 1, done.push(value))
                } else if kind_at(tokens, next) == Some(TokenKind::RightParen) {
                    Parsed::Done { value: done.push(value), next: next + 1 }
                } else {
                    Parsed::Failed { error: SyntaxError::ExpectedCommaOrRightParen, at: next }
                }
            },
            other => other.failure(),
        }
    }
}

/// product := term (('*' | '/' | '%') term)*
pub open spec fn product(tokens: Seq<Lexeme>, i: int) -> Parsed<Expr>
    decreases tokens.len() - i, 2int,
{
    match term(tokens, i) {
        Parsed::Done { value, next } if moved(tokens, i, next) => product_rest(tokens, next, value),
        other => other.failure(),
    }
}

/// What follows the first term of a product; `left` is the product so far.
pub open spec fn product_rest(tokens: Seq<Lexeme>, i: int, left: Expr) -> Parsed<Expr>
    decreases tokens.len() - i, 1int,
{
    match multiplicative_operator(kind_at(tokens, i)) {
        Some(op) => {
            match term(tokens, i + 1) {
                Parsed::Done { value, next } if moved(tokens, i, next) => product_rest(
                    tokens,
                    next,
                    Expr::Binary(op, Box::new(left), Box::new(value)),
                ),
                other => other.failure(),
            }
        },
        None => Parsed::Done { value: left, next: i },
    }
}

/// expression := product (('+' | '-') product)*
pub open spec fn expression(tokens: Seq<Lexeme>, i: int) -> Parsed<Expr>
    decreases tokens.len() - i, 4int,
{
    match product(tokens, i) {
        Parsed::Done { value, next } if moved(tokens, i, next) => sum_rest(tokens, next, value),
        other => other.failure(),
    }
}

/// What follows the first product of an expression; `left` is the sum so far.
pub open spec fn sum_rest(tokens: Seq<Lexeme>, i: int, left: Expr) -> Parsed<Expr>
    decreases tokens.len() - i, 3int,
{
    match additive_operator(kind_at(tokens, i)) {
        Some(op) => {
            match product(tokens, i + 1) {
                Parsed::Done { value, next } if moved(tokens, i, next) => sum_rest(
                    tokens,
                    next,
                    Expr::Binary(op, Box::new(left), Box::new(value)),
                ),
                other => other.failure(),
            }
        },
        None => Parsed::Done { value: left, next: i },
    }
}

/// condition := term comparison term
#[verifier::opaque]
pub open spec fn condition(tokens: Seq<Lexeme>, i: int) -> Parsed<Condition> {
    match term(tokens, i) {
        Parsed::Done { value: left, next } => {
            match comparison_operator(kind_at(tokens, next)) {
                Some(op) => {
                    match term(tokens, next + 1) {
                        Parsed::Done { value: right, next: behind } => Parsed::Done {
                            value: Condition { op, left, right },
                            next: behind,
                        },
                        Parsed::Failed { error, at } => Parsed::Failed { error, at },
                    }
                },
                None => Parsed::Failed { error: SyntaxError::InvalidBoolean, at: taken(tokens, next) },
            }
        },
        Parsed::Failed { error, at } => Parsed::Failed { error, at },
    }
}

/// Closes a statement: requires `;` at `i`.
pub open spec fn closed(tokens: Seq<Lexeme>, i: int, statement: Stmt) -> Parsed<Stmt> {
    if kind_at(tokens, i) == Some(TokenKind::Semicolon) {
        Parsed::Done { value: statement, next: i + 1 }
    } else {
        Parsed::Failed { error: SyntaxError::ExpectedSemicolon, at: taken(tokens, i) }
    }
}

/// declaration := 'int' name ';' | 'int' name '=' expression ';'
#[verifier::opaque]
pub open spec fn declaration(tokens: Seq<Lexeme>, i: int) -> Parsed<Stmt> {
    if kind_at(tokens, i) != Some(TokenKind::Int) {
        Parsed::Failed { error: SyntaxError::InvalidStatement, at: i }
    } else {
        match ident_at(tokens, i + 1) {
            Some(name) => {
                if kind_at(tokens, i + 2) == Some(TokenKind::Assign) {
                    match expression(tokens, i + 3) {
                        Parsed::Done { value, next } => closed(
                            tokens,
                            next,
                            Stmt::DeclareInit(name, value),
                        ),
                        Parsed::Failed { error, at } => Parsed::Failed { error, at },
                    }
                } else {
                    closed(tokens, i + 2, Stmt::Declare(name))
                }
            },
            None => Parsed::Failed {
                error: SyntaxError::ExpectedIdentifier,
                at: taken(tokens, i + 1),
            },
        }
    }
}

/// assignment := name '=' expression ';'
#[verifier::opaque]
pub open spec fn assignment(tokens: Seq<Lexeme>, i: int) -> Parsed<Stmt> {
    match ident_at(tokens, i) {
        Some(name) => {
            if kind_at(tokens, i + 1) == Some(TokenKind::Assign) {
                match expression(tokens, i + 2) {
                    Parsed::Done { value, next } => closed(tokens, next, Stmt::Assign(name, value)),
                    Parsed::Failed { error, at } => Parsed::Failed { error, at },
                }
            } else {
                Parsed::Failed { error: SyntaxError::ExpectedAssign, at: taken(tokens, i + 1) }
            }
        },
        None => Parsed::Failed { error: SyntaxError::InvalidStatement, at: i },
    }
}

/// return := 'return' expression ';'
#[verifier::opaque]
pub open spec fn return_statement(tokens: Seq<Lexeme>, i: int) -> Parsed<Stmt> {
    if kind_at(tokens, i) != Some(TokenKind::Return) {
        Parsed::Failed { error: SyntaxError::InvalidStatement, at: i }
    } else {
        match expression(tokens, i + 1) {
            Parsed::Done { value, next } => closed(tokens, next, Stmt::Return(value)),
            Parsed::Failed { error, at } => Parsed::Failed { error, at },
        }
    }
}

/// '(' expression ')', as `print` and `read` take their operand.
#[verifier::opaque]
pub open spec fn parenthesised(tokens: Seq<Lexeme>, i: int) -> Parsed<Expr> {
    if kind_at(tokens, i) != Some(TokenKind::LeftParen) {
        Parsed::Failed { error: SyntaxError::ExpectedOpeningParen, at: taken(tokens, i) }
    } else {
        match expression(tokens, i + 1) {
            Parsed::Done { value, next } => {
                if kind_at(tokens, next) == Some(TokenKind::RightParen) {
                    Parsed::Done { value, next: next + 1 }
                } else {
                    Parsed::Failed {
                        error: SyntaxError::ExpectedClosingParen,
                        at: taken(tokens, next),
                    }
                }
            },
            Parsed::Failed { error, at } => Parsed::Failed { error, at },
        }
    }
}

/// print := 'print' '(' expression ')' ';'
#[verifier::opaque]
pub open spec fn print_statement(tokens: Seq<Lexeme>, i: int) -> Parsed<Stmt> {
    if kind_at(tokens, i) != Some(TokenKind::Print) {
        Parsed::Failed { error: SyntaxError::InvalidStatement, at: i }
    } else {
        match parenthesised(tokens, i + 1) {
            Parsed::Done { value, next } => closed(tokens, next, Stmt::Print(value)),
            Parsed::Failed { error, at } => Parsed::Failed { error, at },
        }
    }
}

/// read := 'read' '(' expression ')' ';'
#[verifier::opaque]
pub open spec fn read_statement(tokens: Seq<Lexeme>, i: int) -> Parsed<Stmt> {
    if kind_at(tokens, i) != Some(TokenKind::Read) {
        Parsed::Failed { error: SyntaxError::InvalidStatement, at: i }
    } else {
        match parenthesised(tokens, i + 1) {
            Parsed::Done { value, next } => closed(tokens, next, Stmt::Read(value)),
            Parsed::Failed { error, at } => Parsed::Failed { error, at },
        }
    }
}

/// break := 'break' ';', inside a loop only.
pub open spec fn break_statement(tokens: Seq<Lexeme>, i: int, in_loop: bool) -> Parsed<Stmt> {
    if kind_at(tokens, i) != Some(TokenKind::Break) {
        Parsed::Failed { error: SyntaxError::InvalidStatement, at: i }
    } else if !in_loop {
        Parsed::Failed { error: SyntaxError::BreakOutsideLoop, at: i + 1 }
    } else {
        closed(tokens, i + 1, Stmt::Break)
    }
}

/// continue := 'continue' ';', inside a loop only.
pub open spec fn continue_statement(tokens: Seq<Lexeme>, i: int, in_loop: bool) -> Parsed<Stmt> {
    if kind_at(tokens, i) != Some(TokenKind::Continue) {
        Parsed::Failed { error: SyntaxError::InvalidStatement, at: i }
    } else if !in_loop {
        Parsed::Failed { error: SyntaxError::ContinueOutsideLoop, at: i + 1 }
    } else {
        closed(tokens, i + 1, Stmt::Continue)
    }
}

/// '{' statement* '}', with the opening brace at `i`.
///
/// `in_loop` says whether a loop encloses the statements.
pub open spec fn braced(tokens: Seq<Lexeme>, i: int, in_loop: bool) -> Parsed<Seq<Stmt>>
    decreases tokens.len() - i, 3int,
{
    if kind_at(tokens, i) != Some(TokenKind::LeftCurly) {
        Parsed::Failed { error: SyntaxError::ExpectedLeftCurly, at: taken(tokens, i) }
    } else {
        match block(tokens, i + 1, in_loop, Seq::empty()) {
            Parsed::Done { value, next } => {
                if kind_at(tokens, next) == Some(TokenKind::RightCurly) {
                    Parsed::Done { value, next: next + 1 }
                } else {
                    Parsed::Failed { error: SyntaxError::ExpectedRightCurly, at: taken(tokens, next) }
                }
            },
            Parsed::Failed { error, at } => Parsed::Failed { error, at },
        }
    }
}

/// while := 'while' condition '{' statement* '}'
pub open spec fn while_loop(tokens: Seq<Lexeme>, i: int) -> Parsed<Stmt>
    decreases tokens.len() - i, 0int,
{
    if kind_at(tokens, i) != Some(TokenKind::While) {
        Parsed::Failed { error: SyntaxError::InvalidStatement, at: i }
    } else {
        proof {
            lemma_condition_advances(tokens, i + 1);
        }
        match condition(tokens, i + 1) {
            Parsed::Done { value: cond, next } => {
                match braced(tokens, next, true) {
                    Parsed::Done { value: body, next: behind } => Parsed::Done {
                        value: Stmt::While(cond, body),
                        next: behind,
                    },
                    Parsed::Failed { error, at } => Parsed::Failed { error, at },
                }
            },
            Parsed::Failed { error, at } => Parsed::Failed { error, at },
        }
    }
}

/// if := 'if' condition '{' statement* '}' ('else' '{' statement* '}')?
pub open spec fn if_statement(tokens: Seq<Lexeme>, i: int, in_loop: bool) -> Parsed<Stmt>
    decreases tokens.len() - i, 0int,
{
    if kind_at(tokens, i) != Some(TokenKind::If) {
        Parsed::Failed { error: SyntaxError::InvalidStatement, at: i }
    } else {
        proof {
            lemma_condition_advances(tokens, i + 1);
        }
        match condition(tokens, i + 1) {
            Parsed::Done { value: cond, next } => {
                match braced(tokens, next, in_loop) {
                    Parsed::Done { value: then, next: behind } if moved(tokens, next, behind) => {
                        if kind_at(tokens, behind) == Some(TokenKind::Else) {
                            match braced(tokens, behind + 1, in_loop) {
                                Parsed::Done { value: otherwise, next: end } => Parsed::Done {
                                    value: Stmt::IfElse(cond, then, otherwise),
                                    next: end,
                                },
                                Parsed::Failed { error, at } => Parsed::Failed { error, at },
                            }
                        } else {
                            Parsed::Done { value: Stmt::If(cond, then), next: behind }
                        }
                    },
                    other => other.failure(),
                }
            },
            Parsed::Failed { error, at } => Parsed::Failed { error, at },
        }
    }
}

/// One statement, or `None` where the statements end: at `}` and where the
/// tokens have run out.
pub open spec fn statement(tokens: Seq<Lexeme>, i: int, in_loop: bool) -> Parsed<Option<Stmt>>
    decreases tokens.len() - i, 1int,
{
    let one = match kind_at(tokens, i) {
        None => None,
        Some(TokenKind::RightCurly) => None,
        Some(TokenKind::While) => Some(while_loop(tokens, i)),
        Some(TokenKind::If) => Some(if_statement(tokens, i, in_loop)),
        Some(TokenKind::Int) => Some(declaration(tokens, i)),
        Some(TokenKind::Ident) => Some(assignment(tokens, i)),
        Some(TokenKind::Return) => Some(return_statement(tokens, i)),
        Some(TokenKind::Print) => Some(print_statement(tokens, i)),
        Some(TokenKind::Read) => Some(read_statement(tokens, i)),
        Some(TokenKind::Break) => Some(break_statement(tokens, i, in_loop)),
        Some(TokenKind::Continue) => Some(continue_statement(tokens, i, in_loop)),
        Some(_) => Some(Parsed::Failed { error: SyntaxError::InvalidStatement, at: i }),
    };
    match one {
        None => Parsed::Done { value: None, next: i },
        Some(Parsed::Done { value, next }) => Parsed::Done { value: Some(value), next },
        Some(Parsed::Failed { error, at }) => Parsed::Failed { error, at },
    }
}

/// Statements up to where they end; `done` holds those read so far.
pub open spec fn block(tokens: Seq<Lexeme>, i: int, in_loop: bool, done: Seq<Stmt>) -> Parsed<
    Seq<Stmt>,
>
    decreases tokens.len() - i, 2int,
{
    match statement(tokens, i, in_loop) {
        Parsed::Done { value: None, next } => Parsed::Done { value: done, next },
        Parsed::Done { value: Some(one), next } if moved(tokens, i, next) => block(
            tokens,
            next,
            in_loop,
            done.push(one),
        ),
        other => other.failure(),
    }
}

/// parameters := ')' | 'int' name ')' | 'int' name ',' parameters
///
/// `done` holds the names read so far.
pub open spec fn parameters(tokens: Seq<Lexeme>, i: int, done: Seq<Seq<char>>) -> Parsed<
    Seq<Seq<char>>,
>
    decreases tokens.len() - i,
{
    match kind_at(tokens, i) {
        Some(TokenKind::RightParen) => Parsed::Done { value: done, next: i + 1 },
        Some(TokenKind::Int) => {
            match ident_at(tokens, i + 1) {
                Some(name) => {
                    if kind_at(tokens, i + 2) == Some(TokenKind::Comma) {
                        parameters(tokens, i + 3, done.push(name))
                    } else if kind_at(tokens, i + 2) == Some(TokenKind::RightParen) {
                        Parsed::Done { value: done.push(name), next: i + 3 }
                    } else {
                        Parsed::Failed { error: SyntaxError::ExpectedCommaOrRightParen, at: i + 2 }
                    }
                },
                None => Parsed::Failed {
                    error: SyntaxError::ExpectedParameterName,
                    at: taken(tokens, i + 1),
                },
            }
        },
        _ => Parsed::Failed { error: SyntaxError::ExpectedIntOrRightParen, at: taken(tokens, i) },
    }
}

/// function := 'func' name '(' parameters '{' statement* '}'
///
/// `None` where the definitions end: at an end mark and where the tokens
/// have run out.
#[verifier::opaque]
pub open spec fn function(tokens: Seq<Lexeme>, i: int, in_loop: bool) -> Parsed<Option<Function>> {
    match kind_at(tokens, i) {
        None => Parsed::Done { value: None, next: i },
        Some(TokenKind::End) => Parsed::Done { value: None, next: i },
        Some(TokenKind::Func) => {
            match ident_at(tokens, i + 1) {
                Some(name) => {
                    match expect(
                        tokens,
                        i + 2,
                        TokenKind::LeftParen,
                        SyntaxError::ExpectedLeftParen,
                    ) {
                        Parsed::Done { .. } => {
                            match parameters(tokens, i + 3, Seq::empty()) {
                                Parsed::Done { value: params, next } => {
                                    match braced(tokens, next, in_loop) {
                                        Parsed::Done { value: body, next: behind } => Parsed::Done {
                                            value: Some(Function { name, params, body }),
                                            next: behind,
                                        },
                                        Parsed::Failed { error, at } => Parsed::Failed { error, at },
                                    }
                                },
                                Parsed::Failed { error, at } => Parsed::Failed { error, at },
                            }
                        },
                        Parsed::Failed { error, at } => Parsed::Failed { error, at },
                    }
                },
                None => Parsed::Failed {
                    error: SyntaxError::ExpectedFunctionName,
                    at: taken(tokens, i + 1),
                },
            }
        },
        Some(_) => Parsed::Failed { error: SyntaxError::ExpectedFunc, at: i + 1 },
    }
}

/// Definitions up to where they end; `done` holds those read so far.
pub open spec fn program(tokens: Seq<Lexeme>, i: int, in_loop: bool, done: Seq<Function>) -> Parsed<
    Seq<Function>,
>
    decreases tokens.len() - i,
{
    proof {
        lemma_function_advances(tokens, i, in_loop);
    }
    match function(tokens, i, in_loop) {
        Parsed::Done { value: None, next } => Parsed::Done { value: done, next },
        Parsed::Done { value: Some(one), next } => program(tokens, next, in_loop, done.push(one)),
        Parsed::Failed { error, at } => Parsed::Failed { error, at },
    }
}

/// Whether `next` is a position that a construct read at `i` can end at:
/// not before `i`, and not behind the last token unless `i` itself is.
pub open spec fn reached(tokens: Seq<Lexeme>, i: int, next: int) -> bool {
    i <= next && (i <= tokens.len() ==> next <= tokens.len())
}

/// Where no token is left, no expression starts.
pub proof fn lemma_expression_needs_token(tokens: Seq<Lexeme>, i: int)
    requires
        i >= tokens.len(),
    ensures
        term(tokens, i) == (Parsed::<Expr>::Failed { error: SyntaxError::UnexpectedEnd, at: i }),
        product(tokens, i) == term(tokens, i),
        expression(tokens, i) == term(tokens, i),
{
    assert(term(tokens, i) == (Parsed::<Expr>::Failed { error: SyntaxError::UnexpectedEnd, at: i }));
    assert(product(tokens, i) == term(tokens, i));
}

/// A term that was read ends behind where it starts.
pub proof fn lemma_term_advances(tokens: Seq<Lexeme>, i: int)
    ensures
        term(tokens, i) matches Parsed::Done { next, .. } ==> moved(tokens, i, next),
    decreases tokens.len() - i, 0int,
{
    match kind_at(tokens, i) {
        Some(TokenKind::Ident) => {
            if kind_at(tokens, i + 1) == Some(TokenKind::LeftParen) {
                lemma_arguments_advance(tokens, i + 2, Seq::empty());
            }
        },
        Some(TokenKind::LeftParen) => {
            lemma_expression_advances(tokens, i + 1);
        },
        _ => {},
    }
}

/// Arguments that were read end behind where they start.
pub proof fn lemma_arguments_advance(tokens: Seq<Lexeme>, i: int, done: Seq<Expr>)
    ensures
        arguments(tokens, i, done) matches Parsed::Done { next, .. } ==> moved(tokens, i, next),
    decreases tokens.len() - i, 5int,
{
    if kind_at(tokens, i) != Some(TokenKind::RightParen) {
        lemma_expression_advances(tokens, i);
        if let Parsed::Done { value, next } = expression(tokens, i) {
            if kind_at(tokens, next) == Some(TokenKind::Comma) {
                lemma_arguments_advance(tokens, next + 1, done.push(value));
            }
        }
    }
}

/// A product that was read ends behind where it starts.
pub proof fn lemma_product_advances(tokens: Seq<Lexeme>, i: int)
    ensures
        product(tokens, i) matches Parsed::Done { next, .. } ==> moved(tokens, i, next),
    decreases tokens.len() - i, 2int,
{
    lemma_term_advances(tokens, i);
    if let Parsed::Done { value, next } = term(tokens, i) {
        lemma_product_rest_advances(tokens, next, value);
    }
}

/// The rest of a product ends at or behind where it starts.
pub proof fn lemma_product_rest_advances(tokens: Seq<Lexeme>, i: int, left: Expr)
    ensures
        product_rest(tokens, i, left) matches Parsed::Done { next, .. } ==> reached(
            tokens,
            i,
            next,
        ),
    decreases tokens.len() - i, 1int,
{
    if let Some(op) = multiplicative_operator(kind_at(tokens, i)) {
        lemma_term_advances(tokens, i + 1);
        if let Parsed::Done { value, next } = term(tokens, i + 1) {
            lemma_product_rest_advances(
                tokens,
                next,
                Expr::Binary(op, Box::new(left), Box::new(value)),
            );
        }
    }
}

/// An expression that was read ends behind where it starts.
pub proof fn lemma_expression_advances(tokens: Seq<Lexeme>, i: int)
    ensures
        expression(tokens, i) matches Parsed::Done { next, .. } ==> moved(tokens, i, next),
    decreases tokens.len() - i, 4int,
{
    lemma_product_advances(tokens, i);
    if let Parsed::Done { value, next } = product(tokens, i) {
        lemma_sum_rest_advances(tokens, next, value);
    }
}

/// The rest of an expression ends at or behind where it starts.
pub proof fn lemma_sum_rest_advances(tokens: Seq<Lexeme>, i: int, left: Expr)
    ensures
        sum_rest(tokens, i, left) matches Parsed::Done { next, .. } ==> reached(tokens, i, next),
    decreases tokens.len() - i, 3int,
{
    if let Some(op) = additive_operator(kind_at(tokens, i)) {
        lemma_product_advances(tokens, i + 1);
        if let Parsed::Done { value, next } = product(tokens, i + 1) {
            lemma_sum_rest_advances(
                tokens,
                next,
                Expr::Binary(op, Box::new(left), Box::new(value)),
            );
        }
    }
}

/// A condition that was read ends behind where it starts.
pub proof fn lemma_condition_advances(tokens: Seq<Lexeme>, i: int)
    ensures
        condition(tokens, i) matches Parsed::Done { next, .. } ==> moved(tokens, i, next),
{
    reveal(condition);
    lemma_term_advances(tokens, i);
    if let Parsed::Done { next, .. } = term(tokens, i) {
        lemma_term_advances(tokens, next + 1);
    }
}

/// Statements in braces that were read end behind where they start.
pub proof fn lemma_braced_advances(tokens: Seq<Lexeme>, i: int, in_loop: bool)
    ensures
        braced(tokens, i, in_loop) matches Parsed::Done { next, .. } ==> moved(tokens, i, next),
    decreases tokens.len() - i, 3int,
{
    if kind_at(tokens, i) == Some(TokenKind::LeftCurly) {
        lemma_block_advances(tokens, i + 1, in_loop, Seq::empty());
    }
}

/// A loop that was read ends behind where it starts.
pub proof fn lemma_while_loop_advances(tokens: Seq<Lexeme>, i: int)
    ensures
        while_loop(tokens, i) matches Parsed::Done { next, .. } ==> moved(tokens, i, next),
    decreases tokens.len() - i, 0int,
{
    if kind_at(tokens, i) == Some(TokenKind::While) {
        lemma_condition_advances(tokens, i + 1);
        if let Parsed::Done { next, .. } = condition(tokens, i + 1) {
            lemma_braced_advances(tokens, next, true);
        }
    }
}

/// A conditional that was read ends behind where it starts.
pub proof fn lemma_if_statement_advances(tokens: Seq<Lexeme>, i: int, in_loop: bool)
    ensures
        if_statement(tokens, i, in_loop) matches Parsed::Done { next, .. } ==> moved(
            tokens,
            i,
            next,
        ),
    decreases tokens.len() - i, 0int,
{
    if kind_at(tokens, i) == Some(TokenKind::If) {
        lemma_condition_advances(tokens, i + 1);
        if let Parsed::Done { next, .. } = condition(tokens, i + 1) {
            lemma_braced_advances(tokens, next, in_loop);
            if let Parsed::Done { next: behind, .. } = braced(tokens, next, in_loop) {
                if kind_at(tokens, behind) == Some(TokenKind::Else) {
                    lemma_braced_advances(tokens, behind + 1, in_loop);
                }
            }
        }
    }
}

/// A statement without a block that was read ends behind where it starts.
pub proof fn lemma_simple_statements_advance(tokens: Seq<Lexeme>, i: int, in_loop: bool)
    ensures
        declaration(tokens, i) matches Parsed::Done { next, .. } ==> moved(tokens, i, next),
        assignment(tokens, i) matches Parsed::Done { next, .. } ==> moved(tokens, i, next),
        return_statement(tokens, i) matches Parsed::Done { next, .. } ==> moved(tokens, i, next),
        print_statement(tokens, i) matches Parsed::Done { next, .. } ==> moved(tokens, i, next),
        read_statement(tokens, i) matches Parsed::Done { next, .. } ==> moved(tokens, i, next),
        break_statement(tokens, i, in_loop) matches Parsed::Done { next, .. } ==> moved(
            tokens,
            i,
            next,
        ),
        continue_statement(tokens, i, in_loop) matches Parsed::Done { next, .. } ==> moved(
            tokens,
            i,
            next,
        ),
{
    reveal(declaration);
    reveal(assignment);
    reveal(return_statement);
    reveal(print_statement);
    reveal(read_statement);
    reveal(parenthesised);
    lemma_expression_advances(tokens, i + 1);
    lemma_expression_advances(tokens, i + 2);
    lemma_expression_advances(tokens, i + 3);
}

/// A statement that was read ends behind where it starts; where the
/// statements end, the cursor stays.
pub proof fn lemma_statement_advances(tokens: Seq<Lexeme>, i: int, in_loop: bool)
    ensures
        match statement(tokens, i, in_loop) {
            Parsed::Done { value: Some(_), next } => moved(tokens, i, next),
            Parsed::Done { value: None, next } => next == i,
            Parsed::Failed { .. } => true,
        },
    decreases tokens.len() - i, 1int,
{
    lemma_simple_statements_advance(tokens, i, in_loop);
    match kind_at(tokens, i) {
        Some(TokenKind::While) => {
            lemma_while_loop_advances(tokens, i);
        },
        Some(TokenKind::If) => {
            lemma_if_statement_advances(tokens, i, in_loop);
        },
        _ => {},
    }
}

/// Statements that were read end at or behind where they start.
pub proof fn lemma_block_advances(tokens: Seq<Lexeme>, i: int, in_loop: bool, done: Seq<Stmt>)
    ensures
        block(tokens, i, in_loop, done) matches Parsed::Done { next, .. } ==> reached(
            tokens,
            i,
            next,
        ),
    decreases tokens.len() - i, 2int,
{
    lemma_statement_advances(tokens, i, in_loop);
    if let Parsed::Done { value: Some(one), next } = statement(tokens, i, in_loop) {
        lemma_block_advances(tokens, next, in_loop, done.push(one));
    }
}

/// Parameters that were read end behind where they start.
pub proof fn lemma_parameters_advance(tokens: Seq<Lexeme>, i: int, done: Seq<Seq<char>>)
    ensures
        parameters(tokens, i, done) matches Parsed::Done { next, .. } ==> moved(tokens, i, next),
    decreases tokens.len() - i,
{
    if kind_at(tokens, i) == Some(TokenKind::Int) {
        if let Some(name) = ident_at(tokens, i + 1) {
            if kind_at(tokens, i + 2) == Some(TokenKind::Comma) {
                lemma_parameters_advance(tokens, i + 3, done.push(name));
            }
        }
    }
}

/// A function that was read ends behind where it starts; where the
/// definitions end, the cursor stays.
pub proof fn lemma_function_advances(tokens: Seq<Lexeme>, i: int, in_loop: bool)
    ensures
        match function(tokens, i, in_loop) {
            Parsed::Done { value: Some(_), next } => moved(tokens, i, next),
            Parsed::Done { value: None, next } => next == i,
            Parsed::Failed { .. } => true,
        },
{
    reveal(function);
    if kind_at(tokens, i) == Some(TokenKind::Func) {
        lemma_parameters_advance(tokens, i + 3, Seq::empty());
        if let Parsed::Done { next, .. } = parameters(tokens, i + 3, Seq::empty()) {
            lemma_braced_advances(tokens, next, in_loop);
        }
    }
}

/// A product is a term and what follows it: the test that the term moved
/// the cursor forward never fails.
pub proof fn lemma_product_unfolds(tokens: Seq<Lexeme>, i: int)
    ensures
        product(tokens, i) == match term(tokens, i) {
            Parsed::Done { value, next } => product_rest(tokens, next, value),
            Parsed::Failed { error, at } => Parsed::Failed { error, at },
        },
{
    lemma_term_advances(tokens, i);
}

/// What follows a term is an operator, a term and what follows that, or
/// nothing: the test that the term moved the cursor forward never fails.
pub proof fn lemma_product_rest_unfolds(tokens: Seq<Lexeme>, i: int, left: Expr)
    ensures
        product_rest(tokens, i, left) == match multiplicative_operator(kind_at(tokens, i)) {
            Some(op) => match term(tokens, i + 1) {
                Parsed::Done { value, next } => product_rest(
                    tokens,
                    next,
                    Expr::Binary(op, Box::new(left), Box::new(value)),
                ),
                Parsed::Failed { error, at } => Parsed::Failed { error, at },
            },
            None => Parsed::Done { value: left, next: i },
        },
{
    lemma_term_advances(tokens, i + 1);
}

/// An expression is a product and what follows it: the test that the
/// product moved the cursor forward never fails.
pub proof fn lemma_expression_unfolds(tokens: Seq<Lexeme>, i: int)
    ensures
        expression(tokens, i) == match product(tokens, i) {
            Parsed::Done { value, next } => sum_rest(tokens, next, value),
            Parsed::Failed { error, at } => Parsed::Failed { error, at },
        },
{
    lemma_product_advances(tokens, i);
}

/// What follows a product is an operator, a product and what follows
/// that, or nothing: the test that the product moved the cursor forward
/// never fails.
pub proof fn lemma_sum_rest_unfolds(tokens: Seq<Lexeme>, i: int, left: Expr)
    ensures
        sum_rest(tokens, i, left) == match additive_operator(kind_at(tokens, i)) {
            Some(op) => match product(tokens, i + 1) {
                Parsed::Done { value, next } => sum_rest(
                    tokens,
                    next,
                    Expr::Binary(op, Box::new(left), Box::new(value)),
                ),
                Parsed::Failed { error, at } => Parsed::Failed { error, at },
            },
            None => Parsed::Done { value: left, next: i },
        },
{
    lemma_product_advances(tokens, i + 1);
}

/// Arguments are a closing parenthesis, or an expression and what follows
/// it: the test that the expression moved the cursor forward never fails.
pub proof fn lemma_arguments_unfold(tokens: Seq<Lexeme>, i: int, done: Seq<Expr>)
    ensures
        arguments(tokens, i, done) == if kind_at(tokens, i) == Some(TokenKind::RightParen) {
            Parsed::Done { value: done, next: i + 1 }
        } else {
            match expression(tokens, i) {
                Parsed::Done { value, next } => {
                    if kind_at(tokens, next) == Some(TokenKind::Comma) {
                        arguments(tokens, next + 1, done.push(value))
                    } else if kind_at(tokens, next) == Some(TokenKind::RightParen) {
                        Parsed::Done { value: done.push(value), next: next + 1 }
                    } else {
                        Parsed::Failed { error: SyntaxError::ExpectedCommaOrRightParen, at: next }
                    }
                },
                Parsed::Failed { error, at } => Parsed::Failed { error, at },
            }
        },
{
    lemma_expression_advances(tokens, i);
}

/// Statements are one statement and those that follow it, or none: the
/// test that the statement moved the cursor forward never fails.
pub proof fn lemma_block_unfolds(tokens: Seq<Lexeme>, i: int, in_loop: bool, done: Seq<Stmt>)
    ensures
        block(tokens, i, in_loop, done) == match statement(tokens, i, in_loop) {
            Parsed::Done { value: None, next } => Parsed::Done { value: done, next },
            Parsed::Done { value: Some(one), next } => block(tokens, next, in_loop, done.push(one)),
            Parsed::Failed { error, at } => Parsed::Failed { error, at },
        },
{
    lemma_statement_advances(tokens, i, in_loop);
}

/// A conditional is its condition, its first branch and, behind `else`,
/// its second: the test that the first branch moved the cursor forward
/// never fails.
pub proof fn lemma_if_statement_unfolds(tokens: Seq<Lexeme>, i: int, in_loop: bool)
    requires
        kind_at(tokens, i) == Some(TokenKind::If),
    ensures
        if_statement(tokens, i, in_loop) == match condition(tokens, i + 1) {
            Parsed::Done { value: cond, next } => match braced(tokens, next, in_loop) {
                Parsed::Done { value: then, next: behind } => {
                    if kind_at(tokens, behind) == Some(TokenKind::Else) {
                        match braced(tokens, behind + 1, in_loop) {
                            Parsed::Done { value: otherwise, next: end } => Parsed::Done {
                                value: Stmt::IfElse(cond, then, otherwise),
                                next: end,
                            },
                            Parsed::Failed { error, at } => Parsed::Failed { error, at },
                        }
                    } else {
                        Parsed::Done { value: Stmt::If(cond, then), next: behind }
                    }
                },
                Parsed::Failed { error, at } => Parsed::Failed { error, at },
            },
            Parsed::Failed { error, at } => Parsed::Failed { error, at },
        },
{
    if let Parsed::Done { next, .. } = condition(tokens, i + 1) {
        lemma_braced_advances(tokens, next, in_loop);
    }
}

} // verus!
