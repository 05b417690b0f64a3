//! The parser: it reads tokens by recursive descent and emits
//! three-address code as it goes.
//!
//! Each function reads one construct of the grammar at the cursor. What it
//! returns is what `lowering` makes of the syntax tree that `grammar` finds
//! there; where `grammar` finds an error, it returns that error, leaves the
//! cursor where `grammar` says, and sets the counters back to where they
//! stood: a construct that was not read leaves no code and keeps no number.

use crate::context::{Context, ContextView, Counters};
use crate::cursor::{at_end, expect, expect_ident, next_error, peek, peek_is, peek_kind};
use crate::error::SyntaxError;
use crate::grammar::{
    arguments, assignment, block, braced, break_statement, condition, continue_statement,
    declaration, expression, if_statement, lemma_braced_advances, lemma_condition_advances,
    lemma_expression_advances, lemma_expression_needs_token, lemma_product_advances,
    lemma_statement_advances, lemma_term_advances, parenthesised, print_statement, product,
    product_rest, read_statement, return_statement, statement, sum_rest, term, while_loop,
    Condition, Expr, Function, Parsed, Stmt,
};
use crate::lowering::{
    apply, if_code, if_else_code, label, loop_code, lower_arguments, lower_block, lower_condition, lower_expr,
    lower_function, lower_program, lower_statement, pass, receive, Block, Ids, Value, Values,
};
use crate::numbering::{
    lemma_program_declares_its_operations, lemma_program_is_numbered, numbered,
    operations_in_program,
};
use crate::tac::{Instr, InstrView, Label, LabelKind, Operand, OperandView, Operator};
use crate::token::{Token, TokenKind};
use vstd::prelude::*;

verus! {

/// The code that computes an expression and the operand that then holds
/// its value.
#[derive(Debug)]
pub struct Expression {
    pub code: Vec<Instr>,
    pub name: Operand,
}

/// What `parsed` is once lowered after `temps` temporaries.
pub open spec fn lowered_expr(parsed: Parsed<Expr>, temps: nat) -> Parsed<Value> {
    match parsed {
        Parsed::Done { value, next } => Parsed::Done { value: lower_expr(value, temps), next },
        Parsed::Failed { error, at } => Parsed::Failed { error, at },
    }
}

/// What `parsed` is once lowered after `temps` temporaries.
pub open spec fn lowered_arguments(parsed: Parsed<Seq<Expr>>, temps: nat) -> Parsed<Values> {
    match parsed {
        Parsed::Done { value, next } => Parsed::Done { value: lower_arguments(value, temps), next },
        Parsed::Failed { error, at } => Parsed::Failed { error, at },
    }
}

/// Whether a function that reads an expression did what `expected` says.
///
/// The cursor went from `i` to `j` and the state from `before` to `after`.
/// On success the result holds the expected code and operand, and the
/// temporaries are counted up to the expected number; no more temporaries
/// were numbered than tokens were passed. On failure the state is as it
/// was before: a construct that was not read numbers nothing. Either way
/// the cursor stands where `expected` says and did not go back, and loops
/// and conditionals are untouched.
pub open spec fn reads_value(
    expected: Parsed<Value>,
    before: ContextView,
    i: int,
    r: Result<Expression, SyntaxError>,
    after: ContextView,
    j: int,
) -> bool {
    &&& i <= j
    &&& after.stack == before.stack
    &&& after.ids.loops == before.ids.loops
    &&& after.ids.ifs == before.ids.ifs
    &&& before.ids.temps <= after.ids.temps <= before.ids.temps + (j - i)
    &&& match expected {
        Parsed::Done { value, next } => {
            &&& j == next
            &&& r is Ok
            &&& r->Ok_0.code.deep_view() == value.code
            &&& r->Ok_0.name@ == value.name
            &&& after.ids.temps == value.temps
        },
        Parsed::Failed { error, at } => {
            &&& j == at
            &&& r == Err::<Expression, SyntaxError>(error)
            &&& after == before
        },
    }
}

/// The code that computes the arguments of a call and the operands that
/// then hold their values.
#[derive(Debug)]
pub struct Arguments {
    pub code: Vec<Instr>,
    pub names: Vec<Operand>,
}

/// Whether a function that reads arguments did what `expected` says; see
/// `reads_value`.
pub open spec fn reads_values(
    expected: Parsed<Values>,
    before: ContextView,
    i: int,
    r: Result<Arguments, SyntaxError>,
    after: ContextView,
    j: int,
) -> bool {
    &&& i <= j
    &&& after.stack == before.stack
    &&& after.ids.loops == before.ids.loops
    &&& after.ids.ifs == before.ids.ifs
    &&& before.ids.temps <= after.ids.temps <= before.ids.temps + (j - i)
    &&& match expected {
        Parsed::Done { value, next } => {
            &&& j == next
            &&& r is Ok
            &&& r->Ok_0.code.deep_view() == value.code
            &&& r->Ok_0.names.deep_view() == value.names
            &&& after.ids.temps == value.temps
        },
        Parsed::Failed { error, at } => {
            &&& j == at
            &&& r == Err::<Arguments, SyntaxError>(error)
            &&& after == before
        },
    }
}

/// The failure of a construct that was not read to its end: the error,
/// with the counters back where they stood at `mark`.
fn fail<T>(ctx: &mut Context, mark: Counters, error: SyntaxError) -> (r: Result<T, SyntaxError>)
    ensures
        r == Err::<T, SyntaxError>(error),
        final(ctx)@ == old(ctx)@.with_ids(mark@),
{
    ctx.rewind(mark);
    Err(error)
}

/// Appends `more` to `code`.
fn emit_all(code: &mut Vec<Instr>, more: Vec<Instr>)
    ensures
        final(code).deep_view() == old(code).deep_view() + more.deep_view(),
{
    let mut more = more;
    let ghost added = more.deep_view();
    code.append(&mut more);
    assert(code.deep_view() =~= old(code).deep_view() + added);
}

/// Appends `one` to `code`.
fn emit(code: &mut Vec<Instr>, one: Instr)
    ensures
        final(code).deep_view() == old(code).deep_view().push(one@),
{
    code.push(one);
    assert(code.deep_view() =~= old(code).deep_view().push(one@));
}

/// Reads a term: a number, a name, a call, or an expression in parentheses.
pub fn parse_term(tokens: &Vec<Token>, index: &mut usize, ctx: &mut Context) -> (r: Result<
    Expression,
    SyntaxError,
>)
    requires
        old(ctx)@.has_room(tokens.len() - *old(index)),
    ensures
        reads_value(
            lowered_expr(term(tokens.deep_view(), *old(index) as int), old(ctx)@.ids.temps),
            old(ctx)@,
            *old(index) as int,
            r,
            final(ctx)@,
            *final(index) as int,
        ),
    decreases tokens.len() - *old(index), 0int,
{
    let mark = ctx.mark();
    let ghost start = *index as int;
    let token = match next_error(tokens, index) {
        Ok(token) => token,
        Err(error) => {
            return fail(ctx, mark, error);
        },
    };
    match token {
        Token::Num(n) => {
            let code: Vec<Instr> = Vec::new();
            assert(code.deep_view() =~= Seq::empty());
            Ok(Expression { code, name: Operand::Num(*n) })
        },
        Token::Ident(name) => {
            if peek_is(tokens, *index, TokenKind::LeftParen) {
                *index += 1;
                let args = match parse_arguments(tokens, index, ctx) {
                    Ok(args) => args,
                    Err(error) => {
                        return fail(ctx, mark, error);
                    },
                };
                proof {
                    crate::grammar::lemma_arguments_advance(tokens.deep_view(), start + 2, Seq::empty());
                }
                let mut code = args.code;
                let ghost low = lower_arguments(
                    arguments(tokens.deep_view(), start + 2, Seq::empty())->value,
                    old(ctx)@.ids.temps,
                );
                let mut k: usize = 0;
                while k < args.names.len()
                    invariant
                        k <= args.names.len(),
                        args.names.deep_view() == low.names,
                        code.deep_view() == low.code + pass(low.names).take(k as int),
                    decreases args.names.len() - k,
                {
                    emit(&mut code, Instr::Param(args.names[k].clone()));
                    k += 1;
                    assert(code.deep_view() =~= low.code + pass(low.names).take(k as int));
                }
                assert(pass(low.names).take(k as int) =~= pass(low.names));
                let t = ctx.create_temp();
                emit(&mut code, Instr::Declare(t.clone()));
                emit(&mut code, Instr::Call(name.clone(), t.clone()));
                assert(code.deep_view() =~= low.code + pass(low.names) + seq![
                    InstrView::Declare(t@),
                    InstrView::Call(name@, t@),
                ]);
                Ok(Expression { code, name: t })
            } else {
                let code: Vec<Instr> = Vec::new();
                assert(code.deep_view() =~= Seq::empty());
                Ok(Expression { code, name: Operand::Var(name.clone()) })
            }
        },
        Token::LeftParen => {
            let inner = match parse_expression(tokens, index, ctx) {
                Ok(inner) => inner,
                Err(error) => {
                    return fail(ctx, mark, error);
                },
            };
            proof {
                lemma_expression_advances(tokens.deep_view(), start + 1);
            }
            match expect(tokens, index, TokenKind::RightParen, SyntaxError::ExpectedRightParen) {
                Ok(()) => Ok(inner),
                Err(error) => fail(ctx, mark, error),
            }
        },
        _ => fail(ctx, mark, SyntaxError::InvalidExpression),
    }
}

/// Reads the arguments of a call, behind its opening parenthesis, up to
/// and with the closing one.
pub fn parse_arguments(tokens: &Vec<Token>, index: &mut usize, ctx: &mut Context) -> (r: Result<
    Arguments,
    SyntaxError,
>)
    requires
        old(ctx)@.has_room(tokens.len() - *old(index)),
    ensures
        reads_values(
            lowered_arguments(
                arguments(tokens.deep_view(), *old(index) as int, Seq::empty()),
                old(ctx)@.ids.temps,
            ),
            old(ctx)@,
            *old(index) as int,
            r,
            final(ctx)@,
            *final(index) as int,
        ),
    decreases tokens.len() - *old(index), 5int,
{
    let mark = ctx.mark();
    let ghost start = *index as int;
    let ghost first = old(ctx)@;
    let ghost mut done: Seq<Expr> = Seq::empty();
    let mut code: Vec<Instr> = Vec::new();
    let mut names: Vec<Operand> = Vec::new();
    assert(code.deep_view() =~= Seq::empty());
    assert(names.deep_view() =~= Seq::empty());
    loop
        invariant
            start == *old(index),
            first == old(ctx)@,
            mark@ == first.ids,
            start <= *index,
            first.has_room(tokens.len() - start),
            arguments(tokens.deep_view(), start, Seq::empty()) == arguments(tokens.deep_view(), *index as int, done),
            code.deep_view() == lower_arguments(done, first.ids.temps).code,
            names.deep_view() == lower_arguments(done, first.ids.temps).names,
            ctx@ == first.with_ids(
                Ids {
                    temps: lower_arguments(done, first.ids.temps).temps,
                    ..first.ids
                },
            ),
            first.ids.temps <= ctx@.ids.temps <= first.ids.temps + (*index - start),
        decreases tokens.len() - *index,
    {
        if *index >= tokens.len() {
            proof {
                lemma_expression_needs_token(tokens.deep_view(), *index as int);
            }
            return fail(ctx, mark, SyntaxError::UnexpectedEnd);
        }
        if peek_is(tokens, *index, TokenKind::RightParen) {
            *index += 1;
            return Ok(Arguments { code, names });
        }
        let ghost here = *index as int;
        let one = match parse_expression(tokens, index, ctx) {
            Ok(one) => one,
            Err(error) => {
                return fail(ctx, mark, error);
            },
        };
        proof {
            lemma_expression_advances(tokens.deep_view(), here);
            let value = expression(tokens.deep_view(), here)->value;
            assert(done.push(value).drop_last() =~= done);
            done = done.push(value);
        }
        emit_all(&mut code, one.code);
        let ghost shown = names.deep_view();
        names.push(one.name);
        assert(names.deep_view() =~= shown.push(one.name@));
        if peek_is(tokens, *index, TokenKind::Comma) {
            *index += 1;
        } else if peek_is(tokens, *index, TokenKind::RightParen) {
        } else {
            return fail(ctx, mark, SyntaxError::ExpectedCommaOrRightParen);
        }
    }
}

/// Reads terms joined by `*`, `/` and `%`, applied from left to right.
pub fn parse_multiply_expression(tokens: &Vec<Token>, index: &mut usize, ctx: &mut Context) -> (r:
    Result<Expression, SyntaxError>)
    requires
        old(ctx)@.has_room(tokens.len() - *old(index)),
    ensures
        reads_value(
            lowered_expr(product(tokens.deep_view(), *old(index) as int), old(ctx)@.ids.temps),
            old(ctx)@,
            *old(index) as int,
            r,
            final(ctx)@,
            *final(index) as int,
        ),
    decreases tokens.len() - *old(index), 2int,
{
    let mark = ctx.mark();
    let ghost start = *index as int;
    let ghost first = old(ctx)@;
    let Expression { code, name } = match parse_term(tokens, index, ctx) {
        Ok(one) => one,
        Err(error) => {
            return fail(ctx, mark, error);
        },
    };
    let mut code = code;
    let mut name = name;
    let ghost mut left: Expr = term(tokens.deep_view(), start)->value;
    proof {
        lemma_term_advances(tokens.deep_view(), start);
    }
    loop
        invariant
            start == *old(index),
            first == old(ctx)@,
            mark@ == first.ids,
            start < *index <= tokens.len(),
            first.has_room(tokens.len() - start),
            product(tokens.deep_view(), start) == product_rest(tokens.deep_view(), *index as int, left),
            code.deep_view() == lower_expr(left, first.ids.temps).code,
            name@ == lower_expr(left, first.ids.temps).name,
            ctx@ == first.with_ids(
                Ids { temps: lower_expr(left, first.ids.temps).temps, ..first.ids },
            ),
            first.ids.temps <= ctx@.ids.temps <= first.ids.temps + (*index - start),
        decreases tokens.len() - *index,
    {
        let op = match peek_kind(tokens, *index) {
            Some(TokenKind::Multiply) => Operator::Mul,
            Some(TokenKind::Divide) => Operator::Div,
            Some(TokenKind::Modulus) => Operator::Mod,
            _ => {
                return Ok(Expression { code, name });
            },
        };
        let ghost here = *index as int;
        *index += 1;
        let right = match parse_term(tokens, index, ctx) {
            Ok(right) => right,
            Err(error) => {
                return fail(ctx, mark, error);
            },
        };
        proof {
            lemma_term_advances(tokens.deep_view(), here + 1);
        }
        let t = ctx.create_temp();
        emit_all(&mut code, right.code);
        emit(&mut code, Instr::Declare(t.clone()));
        emit(&mut code, Instr::Binary(op, t.clone(), name, right.name));
        name = t;
        proof {
            let value = term(tokens.deep_view(), here + 1)->value;
            let l = lower_expr(left, first.ids.temps);
            let r = lower_expr(value, l.temps);
            assert(code.deep_view() =~= l.code + r.code + apply(
                op,
                r.temps + 1,
                l.name,
                r.name,
            ));
            left = Expr::Binary(op, Box::new(left), Box::new(value));
        }
    }
}

/// Reads products joined by `+` and `-`, applied from left to right.
pub fn parse_expression(tokens: &Vec<Token>, index: &mut usize, ctx: &mut Context) -> (r: Result<
    Expression,
    SyntaxError,
>)
    requires
        old(ctx)@.has_room(tokens.len() - *old(index)),
    ensures
        reads_value(
            lowered_expr(expression(tokens.deep_view(), *old(index) as int), old(ctx)@.ids.temps),
            old(ctx)@,
            *old(index) as int,
            r,
            final(ctx)@,
            *final(index) as int,
        ),
    decreases tokens.len() - *old(index), 4int,
{
    let mark = ctx.mark();
    let ghost start = *index as int;
    let ghost first = old(ctx)@;
    let Expression { code, name } = match parse_multiply_expression(tokens, index, ctx) {
        Ok(one) => one,
        Err(error) => {
            return fail(ctx, mark, error);
        },
    };
    let mut code = code;
    let mut name = name;
    let ghost mut left: Expr = product(tokens.deep_view(), start)->value;
    proof {
        lemma_product_advances(tokens.deep_view(), start);
    }
    loop
        invariant
            start == *old(index),
            first == old(ctx)@,
            mark@ == first.ids,
            start < *index <= tokens.len(),
            first.has_room(tokens.len() - start),
            expression(tokens.deep_view(), start) == sum_rest(tokens.deep_view(), *index as int, left),
            code.deep_view() == lower_expr(left, first.ids.temps).code,
            name@ == lower_expr(left, first.ids.temps).name,
            ctx@ == first.with_ids(
                Ids { temps: lower_expr(left, first.ids.temps).temps, ..first.ids },
            ),
            first.ids.temps <= ctx@.ids.temps <= first.ids.temps + (*index - start),
        decreases tokens.len() - *index,
    {
        let op = match peek_kind(tokens, *index) {
            Some(TokenKind::Plus) => Operator::Add,
            Some(TokenKind::Subtract) => Operator::Sub,
            _ => {
                return Ok(Expression { code, name });
            },
        };
        let ghost here = *index as int;
        *index += 1;
        let right = match parse_multiply_expression(tokens, index, ctx) {
            Ok(right) => right,
            Err(error) => {
                return fail(ctx, mark, error);
            },
        };
        proof {
            lemma_product_advances(tokens.deep_view(), here + 1);
        }
        let t = ctx.create_temp();
        emit_all(&mut code, right.code);
        emit(&mut code, Instr::Declare(t.clone()));
        emit(&mut code, Instr::Binary(op, t.clone(), name, right.name));
        name = t;
        proof {
            let value = product(tokens.deep_view(), here + 1)->value;
            let l = lower_expr(left, first.ids.temps);
            let r = lower_expr(value, l.temps);
            assert(code.deep_view() =~= l.code + r.code + apply(
                op,
                r.temps + 1,
                l.name,
                r.name,
            ));
            left = Expr::Binary(op, Box::new(left), Box::new(value));
        }
    }
}

/// What `parsed` is once lowered after `temps` temporaries.
pub open spec fn lowered_condition(parsed: Parsed<Condition>, temps: nat) -> Parsed<Value> {
    match parsed {
        Parsed::Done { value, next } => Parsed::Done { value: lower_condition(value, temps), next },
        Parsed::Failed { error, at } => Parsed::Failed { error, at },
    }
}

/// Reads a condition: two terms and the comparison between them.
pub fn parse_boolean(tokens: &Vec<Token>, index: &mut usize, ctx: &mut Context) -> (r: Result<
    Expression,
    SyntaxError,
>)
    requires
        old(ctx)@.has_room(tokens.len() - *old(index)),
    ensures
        reads_value(
            lowered_condition(condition(tokens.deep_view(), *old(index) as int), old(ctx)@.ids.temps),
            old(ctx)@,
            *old(index) as int,
            r,
            final(ctx)@,
            *final(index) as int,
        ),
{
    let mark = ctx.mark();
    reveal(condition);
    let ghost start = *index as int;
    let left = match parse_term(tokens, index, ctx) {
        Ok(left) => left,
        Err(error) => {
            return fail(ctx, mark, error);
        },
    };
    proof {
        lemma_term_advances(tokens.deep_view(), start);
    }
    let ghost here = *index as int;
    let op = match peek_kind(tokens, *index) {
        Some(TokenKind::Less) => Operator::Less,
        Some(TokenKind::LessEqual) => Operator::LessEqual,
        Some(TokenKind::Greater) => Operator::Greater,
        Some(TokenKind::GreaterEqual) => Operator::GreaterEqual,
        Some(TokenKind::Equality) => Operator::Equal,
        Some(TokenKind::NotEqual) => Operator::NotEqual,
        Some(_) => {
            *index += 1;
            return fail(ctx, mark, SyntaxError::InvalidBoolean);
        },
        None => {
            return fail(ctx, mark, SyntaxError::InvalidBoolean);
        },
    };
    *index += 1;
    let right = match parse_term(tokens, index, ctx) {
        Ok(right) => right,
        Err(error) => {
            return fail(ctx, mark, error);
        },
    };
    proof {
        lemma_term_advances(tokens.deep_view(), here + 1);
    }
    let t = ctx.create_temp();
    let mut code = left.code;
    emit_all(&mut code, right.code);
    emit(&mut code, Instr::Declare(t.clone()));
    emit(&mut code, Instr::Binary(op, t.clone(), left.name, right.name));
    proof {
        let l = lower_expr(term(tokens.deep_view(), start)->value, old(ctx)@.ids.temps);
        let r = lower_expr(term(tokens.deep_view(), here + 1)->value, l.temps);
        assert(code.deep_view() =~= l.code + r.code + apply(op, r.temps + 1, l.name, r.name));
    }
    Ok(Expression { code, name: t })
}

/// A piece of generated code, or the sign that nothing was left to read.
#[derive(Debug)]
pub enum CodeNode {
    Code(Vec<Instr>),
    Epsilon,
}

/// What `parsed` is once lowered after `ids`, inside `enclosing`.
pub open spec fn lowered_statement(parsed: Parsed<Stmt>, ids: Ids, enclosing: Option<nat>) -> Parsed<
    Block,
> {
    match parsed {
        Parsed::Done { value, next } => Parsed::Done {
            value: lower_statement(value, ids, enclosing),
            next,
        },
        Parsed::Failed { error, at } => Parsed::Failed { error, at },
    }
}

/// What `parsed` is once lowered after `ids`, inside `enclosing`.
pub open spec fn lowered_block(parsed: Parsed<Seq<Stmt>>, ids: Ids, enclosing: Option<nat>) -> Parsed<
    Block,
> {
    match parsed {
        Parsed::Done { value, next } => Parsed::Done {
            value: lower_block(value, ids, enclosing),
            next,
        },
        Parsed::Failed { error, at } => Parsed::Failed { error, at },
    }
}

/// What `parsed` is once lowered after `ids`, inside `enclosing`.
pub open spec fn lowered_optional(
    parsed: Parsed<Option<Stmt>>,
    ids: Ids,
    enclosing: Option<nat>,
) -> Parsed<Option<Block>> {
    match parsed {
        Parsed::Done { value: Some(one), next } => Parsed::Done {
            value: Some(lower_statement(one, ids, enclosing)),
            next,
        },
        Parsed::Done { value: None, next } => Parsed::Done { value: None, next },
        Parsed::Failed { error, at } => Parsed::Failed { error, at },
    }
}

/// Whether no counter went back and none gave out more than `passed` numbers.
pub open spec fn spent(before: Ids, after: Ids, passed: int) -> bool {
    &&& before.temps <= after.temps <= before.temps + passed
    &&& before.loops <= after.loops <= before.loops + passed
    &&& before.ifs <= after.ifs <= before.ifs + passed
}

/// Whether a function that reads statements did what `expected` says.
///
/// The cursor went from `i` to `j` and the state from `before` to `after`.
/// On success the result is the expected code and the counters stand where
/// expected; no counter gave out more numbers than tokens were passed. On
/// failure the state is as it was before: a construct that was not read
/// numbers nothing. Either way the cursor stands where `expected` says and
/// did not go back, and the same loops are open as before.
pub open spec fn reads_code(
    expected: Parsed<Block>,
    before: ContextView,
    i: int,
    r: Result<Vec<Instr>, SyntaxError>,
    after: ContextView,
    j: int,
) -> bool {
    &&& i <= j
    &&& after.stack == before.stack
    &&& spent(before.ids, after.ids, j - i)
    &&& match expected {
        Parsed::Done { value, next } => {
            &&& j == next
            &&& r is Ok
            &&& r->Ok_0.deep_view() == value.code
            &&& after.ids == value.ids
        },
        Parsed::Failed { error, at } => {
            &&& j == at
            &&& r == Err::<Vec<Instr>, SyntaxError>(error)
            &&& after == before
        },
    }
}

/// Whether a function that reads a statement, if one is there, did what
/// `expected` says; see `reads_code`. Where nothing was to be read, the
/// result is `Epsilon` and nothing has changed.
pub open spec fn reads_node(
    expected: Parsed<Option<Block>>,
    before: ContextView,
    i: int,
    r: Result<CodeNode, SyntaxError>,
    after: ContextView,
    j: int,
) -> bool {
    &&& i <= j
    &&& after.stack == before.stack
    &&& spent(before.ids, after.ids, j - i)
    &&& match expected {
        Parsed::Done { value: Some(value), next } => {
            &&& j == next
            &&& r matches Ok(CodeNode::Code(code))
            &&& code.deep_view() == value.code
            &&& after.ids == value.ids
        },
        Parsed::Done { value: None, next } => {
            &&& j == next
            &&& r matches Ok(CodeNode::Epsilon)
            &&& after.ids == before.ids
        },
        Parsed::Failed { error, at } => {
            &&& j == at
            &&& r == Err::<CodeNode, SyntaxError>(error)
            &&& after == before
        },
    }
}

/// Reads `int name;` or `int name = expression;`.
pub fn parse_declaration_statement(tokens: &Vec<Token>, index: &mut usize, ctx: &mut Context) -> (r:
    Result<Vec<Instr>, SyntaxError>)
    requires
        old(ctx)@.has_room(tokens.len() - *old(index)),
    ensures
        reads_code(
            lowered_statement(
                declaration(tokens.deep_view(), *old(index) as int),
                old(ctx)@.ids,
                old(ctx)@.enclosing(),
            ),
            old(ctx)@,
            *old(index) as int,
            r,
            final(ctx)@,
            *final(index) as int,
        ),
{
    let mark = ctx.mark();
    reveal(declaration);
    let ghost start = *index as int;
    if !peek_is(tokens, *index, TokenKind::Int) {
        return fail(ctx, mark, SyntaxError::InvalidStatement);
    }
    *index += 1;
    let name = match expect_ident(tokens, index, SyntaxError::ExpectedIdentifier) {
        Ok(name) => name,
        Err(error) => {
            return fail(ctx, mark, error);
        },
    };
    let mut code: Vec<Instr>;
    if peek_is(tokens, *index, TokenKind::Assign) {
        *index += 1;
        let value = match parse_expression(tokens, index, ctx) {
            Ok(value) => value,
            Err(error) => {
                return fail(ctx, mark, error);
            },
        };
        proof {
            lemma_expression_advances(tokens.deep_view(), start + 3);
        }
        code = value.code;
        let ghost first = code.deep_view();
        emit(&mut code, Instr::Declare(Operand::Var(name.clone())));
        emit(&mut code, Instr::Move(Operand::Var(name), value.name));
        assert(code.deep_view() =~= first + seq![
            InstrView::Declare(OperandView::Var(name@)),
            InstrView::Move(OperandView::Var(name@), value.name@),
        ]);
    } else {
        code = Vec::new();
        emit(&mut code, Instr::Declare(Operand::Var(name)));
        assert(code.deep_view() =~= seq![InstrView::Declare(OperandView::Var(name@))]);
    }
    match expect(tokens, index, TokenKind::Semicolon, SyntaxError::ExpectedSemicolon) {
        Ok(()) => Ok(code),
        Err(error) => fail(ctx, mark, error),
    }
}

/// Reads `name = expression;`.
pub fn parse_assignment_statement(tokens: &Vec<Token>, index: &mut usize, ctx: &mut Context) -> (r:
    Result<Vec<Instr>, SyntaxError>)
    requires
        old(ctx)@.has_room(tokens.len() - *old(index)),
    ensures
        reads_code(
            lowered_statement(
                assignment(tokens.deep_view(), *old(index) as int),
                old(ctx)@.ids,
                old(ctx)@.enclosing(),
            ),
            old(ctx)@,
            *old(index) as int,
            r,
            final(ctx)@,
            *final(index) as int,
        ),
{
    let mark = ctx.mark();
    reveal(assignment);
    let ghost start = *index as int;
    let name = match peek(tokens, *index) {
        Some(Token::Ident(name)) => name.clone(),
        _ => {
            return fail(ctx, mark, SyntaxError::InvalidStatement);
        },
    };
    *index += 1;
    match expect(tokens, index, TokenKind::Assign, SyntaxError::ExpectedAssign) {
        Ok(()) => {},
        Err(error) => {
            return fail(ctx, mark, error);
        },
    }
    let value = match parse_expression(tokens, index, ctx) {
        Ok(value) => value,
        Err(error) => {
            return fail(ctx, mark, error);
        },
    };
    proof {
        lemma_expression_advances(tokens.deep_view(), start + 2);
    }
    let mut code = value.code;
    emit(&mut code, Instr::Move(Operand::Var(name), value.name));
    match expect(tokens, index, TokenKind::Semicolon, SyntaxError::ExpectedSemicolon) {
        Ok(()) => Ok(code),
        Err(error) => fail(ctx, mark, error),
    }
}

/// Reads `return expression;`.
pub fn parse_return_statement(tokens: &Vec<Token>, index: &mut usize, ctx: &mut Context) -> (r:
    Result<Vec<Instr>, SyntaxError>)
    requires
        old(ctx)@.has_room(tokens.len() - *old(index)),
    ensures
        reads_code(
            lowered_statement(
                return_statement(tokens.deep_view(), *old(index) as int),
                old(ctx)@.ids,
                old(ctx)@.enclosing(),
            ),
            old(ctx)@,
            *old(index) as int,
            r,
            final(ctx)@,
            *final(index) as int,
        ),
{
    let mark = ctx.mark();
    reveal(return_statement);
    let ghost start = *index as int;
    if !peek_is(tokens, *index, TokenKind::Return) {
        return fail(ctx, mark, SyntaxError::InvalidStatement);
    }
    *index += 1;
    let value = match parse_expression(tokens, index, ctx) {
        Ok(value) => value,
        Err(error) => {
            return fail(ctx, mark, error);
        },
    };
    proof {
        lemma_expression_advances(tokens.deep_view(), start + 1);
    }
    let mut code = value.code;
    emit(&mut code, Instr::Return(value.name));
    match expect(tokens, index, TokenKind::Semicolon, SyntaxError::ExpectedSemicolon) {
        Ok(()) => Ok(code),
        Err(error) => fail(ctx, mark, error),
    }
}

/// Reads an expression in parentheses, as `print` and `read` take it.
fn parse_parenthesised(tokens: &Vec<Token>, index: &mut usize, ctx: &mut Context) -> (r: Result<
    Expression,
    SyntaxError,
>)
    requires
        old(ctx)@.has_room(tokens.len() - *old(index)),
    ensures
        reads_value(
            lowered_expr(parenthesised(tokens.deep_view(), *old(index) as int), old(ctx)@.ids.temps),
            old(ctx)@,
            *old(index) as int,
            r,
            final(ctx)@,
            *final(index) as int,
        ),
        r is Ok ==> *old(index) + 1 < *final(index) <= tokens.len(),
{
    let mark = ctx.mark();
    reveal(parenthesised);
    let ghost start = *index as int;
    match expect(tokens, index, TokenKind::LeftParen, SyntaxError::ExpectedOpeningParen) {
        Ok(()) => {},
        Err(error) => {
            return fail(ctx, mark, error);
        },
    }
    let value = match parse_expression(tokens, index, ctx) {
        Ok(value) => value,
        Err(error) => {
            return fail(ctx, mark, error);
        },
    };
    proof {
        lemma_expression_advances(tokens.deep_view(), start + 1);
    }
    match expect(tokens, index, TokenKind::RightParen, SyntaxError::ExpectedClosingParen) {
        Ok(()) => Ok(value),
        Err(error) => fail(ctx, mark, error),
    }
}

/// Reads `print(expression);`.
pub fn parse_print_statement(tokens: &Vec<Token>, index: &mut usize, ctx: &mut Context) -> (r:
    Result<Vec<Instr>, SyntaxError>)
    requires
        old(ctx)@.has_room(tokens.len() - *old(index)),
    ensures
        reads_code(
            lowered_statement(
                print_statement(tokens.deep_view(), *old(index) as int),
                old(ctx)@.ids,
                old(ctx)@.enclosing(),
            ),
            old(ctx)@,
            *old(index) as int,
            r,
            final(ctx)@,
            *final(index) as int,
        ),
{
    let mark = ctx.mark();
    reveal(print_statement);
    if !peek_is(tokens, *index, TokenKind::Print) {
        return fail(ctx, mark, SyntaxError::InvalidStatement);
    }
    *index += 1;
    let value = match parse_parenthesised(tokens, index, ctx) {
        Ok(value) => value,
        Err(error) => {
            return fail(ctx, mark, error);
        },
    };
    let mut code = value.code;
    emit(&mut code, Instr::Output(value.name));
    match expect(tokens, index, TokenKind::Semicolon, SyntaxError::ExpectedSemicolon) {
        Ok(()) => Ok(code),
        Err(error) => fail(ctx, mark, error),
    }
}

/// Reads `read(expression);`.
pub fn parse_read_statement(tokens: &Vec<Token>, index: &mut usize, ctx: &mut Context) -> (r: Result<
    Vec<Instr>,
    SyntaxError,
>)
    requires
        old(ctx)@.has_room(tokens.len() - *old(index)),
    ensures
        reads_code(
            lowered_statement(
                read_statement(tokens.deep_view(), *old(index) as int),
                old(ctx)@.ids,
                old(ctx)@.enclosing(),
            ),
            old(ctx)@,
            *old(index) as int,
            r,
            final(ctx)@,
            *final(index) as int,
        ),
{
    let mark = ctx.mark();
    reveal(read_statement);
    if !peek_is(tokens, *index, TokenKind::Read) {
        return fail(ctx, mark, SyntaxError::InvalidStatement);
    }
    *index += 1;
    let value = match parse_parenthesised(tokens, index, ctx) {
        Ok(value) => value,
        Err(error) => {
            return fail(ctx, mark, error);
        },
    };
    let mut code = value.code;
    emit(&mut code, Instr::Input(value.name));
    match expect(tokens, index, TokenKind::Semicolon, SyntaxError::ExpectedSemicolon) {
        Ok(()) => Ok(code),
        Err(error) => fail(ctx, mark, error),
    }
}

/// Reads `break;`: a jump behind the innermost loop.
pub fn parse_break_statement(tokens: &Vec<Token>, index: &mut usize, ctx: &mut Context) -> (r:
    Result<Vec<Instr>, SyntaxError>)
    ensures
        reads_code(
            lowered_statement(
                break_statement(tokens.deep_view(), *old(index) as int, old(ctx)@.in_loop()),
                old(ctx)@.ids,
                old(ctx)@.enclosing(),
            ),
            old(ctx)@,
            *old(index) as int,
            r,
            final(ctx)@,
            *final(index) as int,
        ),
{
    let mark = ctx.mark();
    if !peek_is(tokens, *index, TokenKind::Break) {
        return fail(ctx, mark, SyntaxError::InvalidStatement);
    }
    assert(*index < tokens.len());
    *index += 1;
    let id = match ctx.peek_label_stack() {
        Some(id) => id,
        None => {
            return fail(ctx, mark, SyntaxError::BreakOutsideLoop);
        },
    };
    let mut code: Vec<Instr> = Vec::new();
    emit(&mut code, Instr::Jump(Label { kind: LabelKind::EndLoop, id }));
    assert(code.deep_view() =~= seq![InstrView::Jump(label(LabelKind::EndLoop, id as nat))]);
    match expect(tokens, index, TokenKind::Semicolon, SyntaxError::ExpectedSemicolon) {
        Ok(()) => Ok(code),
        Err(error) => fail(ctx, mark, error),
    }
}

/// Reads `continue;`: a jump to the start of the innermost loop.
pub fn parse_continue_statement(tokens: &Vec<Token>, index: &mut usize, ctx: &mut Context) -> (r:
    Result<Vec<Instr>, SyntaxError>)
    ensures
        reads_code(
            lowered_statement(
                continue_statement(tokens.deep_view(), *old(index) as int, old(ctx)@.in_loop()),
                old(ctx)@.ids,
                old(ctx)@.enclosing(),
            ),
            old(ctx)@,
            *old(index) as int,
            r,
            final(ctx)@,
            *final(index) as int,
        ),
{
    let mark = ctx.mark();
    if !peek_is(tokens, *index, TokenKind::Continue) {
        return fail(ctx, mark, SyntaxError::InvalidStatement);
    }
    assert(*index < tokens.len());
    *index += 1;
    let id = match ctx.peek_label_stack() {
        Some(id) => id,
        None => {
            return fail(ctx, mark, SyntaxError::ContinueOutsideLoop);
        },
    };
    let mut code: Vec<Instr> = Vec::new();
    emit(&mut code, Instr::Jump(Label { kind: LabelKind::LoopBegin, id }));
    assert(code.deep_view() =~= seq![InstrView::Jump(label(LabelKind::LoopBegin, id as nat))]);
    match expect(tokens, index, TokenKind::Semicolon, SyntaxError::ExpectedSemicolon) {
        Ok(()) => Ok(code),
        Err(error) => fail(ctx, mark, error),
    }
}

/// The code of the loop `id`, from its condition and its body.
pub fn emit_loop(id: u64, cond: Expression, body: Vec<Instr>) -> (code: Vec<Instr>)
    ensures
        code.deep_view() == loop_code(
            id as nat,
            cond.code.deep_view(),
            cond.name@,
            body.deep_view(),
        ),
{
    let mut code: Vec<Instr> = Vec::new();
    emit(&mut code, Instr::Label(Label { kind: LabelKind::LoopBegin, id }));
    emit_all(&mut code, cond.code);
    emit(&mut code, Instr::BranchIf(Label { kind: LabelKind::LoopBody, id }, cond.name));
    emit(&mut code, Instr::Jump(Label { kind: LabelKind::EndLoop, id }));
    emit(&mut code, Instr::Label(Label { kind: LabelKind::LoopBody, id }));
    emit_all(&mut code, body);
    emit(&mut code, Instr::Jump(Label { kind: LabelKind::LoopBegin, id }));
    emit(&mut code, Instr::Label(Label { kind: LabelKind::EndLoop, id }));
    assert(code.deep_view() =~= loop_code(
        id as nat,
        cond.code.deep_view(),
        cond.name@,
        body.deep_view(),
    ));
    code
}

/// The code of the conditional `id` without a second branch.
pub fn emit_if(id: u64, cond: Expression, then: Vec<Instr>) -> (code: Vec<Instr>)
    ensures
        code.deep_view() == if_code(id as nat, cond.code.deep_view(), cond.name@, then.deep_view()),
{
    let ghost test = cond.code.deep_view();
    let mut code = cond.code;
    emit(&mut code, Instr::BranchIf(Label { kind: LabelKind::IfTrue, id }, cond.name));
    emit(&mut code, Instr::Jump(Label { kind: LabelKind::EndIf, id }));
    emit(&mut code, Instr::Label(Label { kind: LabelKind::IfTrue, id }));
    emit_all(&mut code, then);
    emit(&mut code, Instr::Jump(Label { kind: LabelKind::EndIf, id }));
    emit(&mut code, Instr::Label(Label { kind: LabelKind::EndIf, id }));
    assert(code.deep_view() =~= if_code(id as nat, test, cond.name@, then.deep_view()));
    code
}

/// The code of the conditional `id` with two branches.
pub fn emit_if_else(id: u64, cond: Expression, then: Vec<Instr>, otherwise: Vec<Instr>) -> (code:
    Vec<Instr>)
    ensures
        code.deep_view() == if_else_code(
            id as nat,
            cond.code.deep_view(),
            cond.name@,
            then.deep_view(),
            otherwise.deep_view(),
        ),
{
    let ghost test = cond.code.deep_view();
    let mut code = cond.code;
    emit(&mut code, Instr::BranchIf(Label { kind: LabelKind::IfTrue, id }, cond.name));
    emit(&mut code, Instr::Jump(Label { kind: LabelKind::Else, id }));
    emit(&mut code, Instr::Label(Label { kind: LabelKind::IfTrue, id }));
    emit_all(&mut code, then);
    emit(&mut code, Instr::Jump(Label { kind: LabelKind::EndIf, id }));
    emit(&mut code, Instr::Label(Label { kind: LabelKind::Else, id }));
    emit_all(&mut code, otherwise);
    emit(&mut code, Instr::Label(Label { kind: LabelKind::EndIf, id }));
    assert(code.deep_view() =~= if_else_code(
        id as nat,
        test,
        cond.name@,
        then.deep_view(),
        otherwise.deep_view(),
    ));
    code
}

/// Reads statements up to where they end: at `}` and where the tokens
/// have run out.
pub fn parse_block(tokens: &Vec<Token>, index: &mut usize, ctx: &mut Context) -> (r: Result<
    Vec<Instr>,
    SyntaxError,
>)
    requires
        old(ctx)@.has_room(tokens.len() - *old(index)),
    ensures
        reads_code(
            lowered_block(
                block(tokens.deep_view(), *old(index) as int, old(ctx)@.in_loop(), Seq::empty()),
                old(ctx)@.ids,
                old(ctx)@.enclosing(),
            ),
            old(ctx)@,
            *old(index) as int,
            r,
            final(ctx)@,
            *final(index) as int,
        ),
    decreases tokens.len() - *old(index), 2int,
{
    let mark = ctx.mark();
    let ghost start = *index as int;
    let ghost first = old(ctx)@;
    let ghost mut done: Seq<Stmt> = Seq::empty();
    let mut code: Vec<Instr> = Vec::new();
    assert(code.deep_view() =~= Seq::empty());
    loop
        invariant
            start == *old(index),
            first == old(ctx)@,
            mark@ == first.ids,
            start <= *index,
            first.has_room(tokens.len() - start),
            block(tokens.deep_view(), start, first.in_loop(), Seq::empty()) == block(
                tokens.deep_view(),
                *index as int,
                first.in_loop(),
                done,
            ),
            code.deep_view() == lower_block(done, first.ids, first.enclosing()).code,
            ctx@ == first.with_ids(lower_block(done, first.ids, first.enclosing()).ids),
            spent(first.ids, ctx@.ids, *index - start),
        decreases tokens.len() - *index,
    {
        if *index >= tokens.len() {
            return Ok(code);
        }
        let ghost here = *index as int;
        let ghost ids = ctx@.ids;
        let one = match parse_statement(tokens, index, ctx) {
            Ok(CodeNode::Code(one)) => one,
            Ok(CodeNode::Epsilon) => {
                return Ok(code);
            },
            Err(error) => {
                return fail(ctx, mark, error);
            },
        };
        proof {
            lemma_statement_advances(tokens.deep_view(), here, first.in_loop());
            let value = statement(tokens.deep_view(), here, first.in_loop())->value->0;
            assert(done.push(value).drop_last() =~= done);
            done = done.push(value);
        }
        emit_all(&mut code, one);
    }
}

/// Reads statements in braces.
pub fn parse_braced(tokens: &Vec<Token>, index: &mut usize, ctx: &mut Context) -> (r: Result<
    Vec<Instr>,
    SyntaxError,
>)
    requires
        old(ctx)@.has_room(tokens.len() - *old(index)),
    ensures
        reads_code(
            lowered_block(
                braced(tokens.deep_view(), *old(index) as int, old(ctx)@.in_loop()),
                old(ctx)@.ids,
                old(ctx)@.enclosing(),
            ),
            old(ctx)@,
            *old(index) as int,
            r,
            final(ctx)@,
            *final(index) as int,
        ),
    decreases tokens.len() - *old(index), 3int,
{
    let mark = ctx.mark();
    let ghost start = *index as int;
    match expect(tokens, index, TokenKind::LeftCurly, SyntaxError::ExpectedLeftCurly) {
        Ok(()) => {},
        Err(error) => {
            return fail(ctx, mark, error);
        },
    }
    let code = match parse_block(tokens, index, ctx) {
        Ok(code) => code,
        Err(error) => {
            return fail(ctx, mark, error);
        },
    };
    proof {
        crate::grammar::lemma_block_advances(
            tokens.deep_view(),
            start + 1,
            old(ctx)@.in_loop(),
            Seq::empty(),
        );
    }
    match expect(tokens, index, TokenKind::RightCurly, SyntaxError::ExpectedRightCurly) {
        Ok(()) => Ok(code),
        Err(error) => fail(ctx, mark, error),
    }
}

/// Reads `while condition { statements }` and lowers it to labels and jumps.
///
/// The loop gets the next loop number. Its code starts with the label
/// `LoopBegin`, tests the condition, jumps to `LoopBody` if it holds and to
/// `EndLoop` if not, runs the body, and jumps back to `LoopBegin`. While
/// the body is read, the loop is the innermost one.
pub fn parse_while_loop(tokens: &Vec<Token>, index: &mut usize, ctx: &mut Context) -> (r: Result<
    Vec<Instr>,
    SyntaxError,
>)
    requires
        old(ctx)@.has_room(tokens.len() - *old(index)),
    ensures
        reads_code(
            lowered_statement(
                while_loop(tokens.deep_view(), *old(index) as int),
                old(ctx)@.ids,
                old(ctx)@.enclosing(),
            ),
            old(ctx)@,
            *old(index) as int,
            r,
            final(ctx)@,
            *final(index) as int,
        ),
    decreases tokens.len() - *old(index), 0int,
{
    let mark = ctx.mark();
    let ghost start = *index as int;
    if !peek_is(tokens, *index, TokenKind::While) {
        return fail(ctx, mark, SyntaxError::InvalidStatement);
    }
    *index += 1;
    let cond = match parse_boolean(tokens, index, ctx) {
        Ok(cond) => cond,
        Err(error) => {
            return fail(ctx, mark, error);
        },
    };
    proof {
        lemma_condition_advances(tokens.deep_view(), start + 1);
    }
    let ghost here = *index as int;
    let raw = ctx.create_label_id();
    ctx.push_label_id(raw);
    let body = parse_braced(tokens, index, ctx);
    ctx.pop_label_id();
    assert(ctx@.stack =~= old(ctx)@.stack);
    let body = match body {
        Ok(body) => body,
        Err(error) => {
            return fail(ctx, mark, error);
        },
    };
    proof {
        lemma_braced_advances(tokens.deep_view(), here, true);
    }
    Ok(emit_loop(raw, cond, body))
}

/// Reads `if condition { statements }`, with or without `else { statements }`,
/// and lowers it to labels and jumps.
///
/// The conditional gets the next conditional number. Its code tests the
/// condition, jumps to `IfTrue` if it holds, and if not to `Else` where
/// there is such a branch, to `EndIf` where there is none. The first branch
/// ends with a jump to `EndIf`.
pub fn parse_if_statement(tokens: &Vec<Token>, index: &mut usize, ctx: &mut Context) -> (r: Result<
    Vec<Instr>,
    SyntaxError,
>)
    requires
        old(ctx)@.has_room(tokens.len() - *old(index)),
    ensures
        reads_code(
            lowered_statement(
                if_statement(tokens.deep_view(), *old(index) as int, old(ctx)@.in_loop()),
                old(ctx)@.ids,
                old(ctx)@.enclosing(),
            ),
            old(ctx)@,
            *old(index) as int,
            r,
            final(ctx)@,
            *final(index) as int,
        ),
    decreases tokens.len() - *old(index), 0int,
{
    let mark = ctx.mark();
    let ghost start = *index as int;
    if !peek_is(tokens, *index, TokenKind::If) {
        return fail(ctx, mark, SyntaxError::InvalidStatement);
    }
    *index += 1;
    let cond = match parse_boolean(tokens, index, ctx) {
        Ok(cond) => cond,
        Err(error) => {
            return fail(ctx, mark, error);
        },
    };
    proof {
        lemma_condition_advances(tokens.deep_view(), start + 1);
    }
    let ghost here = *index as int;
    let raw = ctx.create_ifs_id();
    let then = match parse_braced(tokens, index, ctx) {
        Ok(then) => then,
        Err(error) => {
            return fail(ctx, mark, error);
        },
    };
    proof {
        lemma_braced_advances(tokens.deep_view(), here, old(ctx)@.in_loop());
    }
    let ghost behind = *index as int;
    if peek_is(tokens, *index, TokenKind::Else) {
        *index += 1;
        let otherwise = match parse_braced(tokens, index, ctx) {
            Ok(otherwise) => otherwise,
            Err(error) => {
                return fail(ctx, mark, error);
            },
        };
        proof {
            lemma_braced_advances(tokens.deep_view(), behind + 1, old(ctx)@.in_loop());
        }
        Ok(emit_if_else(raw, cond, then, otherwise))
    } else {
        Ok(emit_if(raw, cond, then))
    }
}

/// The code of a statement as a node.
fn node(r: Result<Vec<Instr>, SyntaxError>) -> (n: Result<CodeNode, SyntaxError>)
    ensures
        match r {
            Ok(code) => n == Ok::<CodeNode, SyntaxError>(CodeNode::Code(code)),
            Err(error) => n == Err::<CodeNode, SyntaxError>(error),
        },
{
    match r {
        Ok(code) => Ok(CodeNode::Code(code)),
        Err(error) => Err(error),
    }
}

/// Reads one statement, chosen by the token at the cursor.
///
/// At `}` and where the tokens have run out there is no statement: the
/// result is `Epsilon`, and the cursor stays.
pub fn parse_statement(tokens: &Vec<Token>, index: &mut usize, ctx: &mut Context) -> (r: Result<
    CodeNode,
    SyntaxError,
>)
    requires
        old(ctx)@.has_room(tokens.len() - *old(index)),
    ensures
        reads_node(
            lowered_optional(
                statement(tokens.deep_view(), *old(index) as int, old(ctx)@.in_loop()),
                old(ctx)@.ids,
                old(ctx)@.enclosing(),
            ),
            old(ctx)@,
            *old(index) as int,
            r,
            final(ctx)@,
            *final(index) as int,
        ),
    decreases tokens.len() - *old(index), 1int,
{
    match peek_kind(tokens, *index) {
        None => Ok(CodeNode::Epsilon),
        Some(TokenKind::RightCurly) => Ok(CodeNode::Epsilon),
        Some(TokenKind::While) => node(parse_while_loop(tokens, index, ctx)),
        Some(TokenKind::If) => node(parse_if_statement(tokens, index, ctx)),
        Some(TokenKind::Int) => node(parse_declaration_statement(tokens, index, ctx)),
        Some(TokenKind::Ident) => node(parse_assignment_statement(tokens, index, ctx)),
        Some(TokenKind::Return) => node(parse_return_statement(tokens, index, ctx)),
        Some(TokenKind::Print) => node(parse_print_statement(tokens, index, ctx)),
        Some(TokenKind::Read) => node(parse_read_statement(tokens, index, ctx)),
        Some(TokenKind::Break) => node(parse_break_statement(tokens, index, ctx)),
        Some(TokenKind::Continue) => node(parse_continue_statement(tokens, index, ctx)),
        Some(_) => Err(SyntaxError::InvalidStatement),
    }
}

/// What `parsed` is once lowered after `ids`, inside `enclosing`.
pub open spec fn lowered_function(
    parsed: Parsed<Option<Function>>,
    ids: Ids,
    enclosing: Option<nat>,
) -> Parsed<Option<Block>> {
    match parsed {
        Parsed::Done { value: Some(one), next } => Parsed::Done {
            value: Some(lower_function(one, ids, enclosing)),
            next,
        },
        Parsed::Done { value: None, next } => Parsed::Done { value: None, next },
        Parsed::Failed { error, at } => Parsed::Failed { error, at },
    }
}

/// What `parsed` is once lowered after `ids`, inside `enclosing`.
pub open spec fn lowered_program(
    parsed: Parsed<Seq<Function>>,
    ids: Ids,
    enclosing: Option<nat>,
) -> Parsed<Block> {
    match parsed {
        Parsed::Done { value, next } => Parsed::Done {
            value: lower_program(value, ids, enclosing),
            next,
        },
        Parsed::Failed { error, at } => Parsed::Failed { error, at },
    }
}

/// The views of the names in `names`.
pub open spec fn name_views(names: Seq<String>) -> Seq<Seq<char>> {
    Seq::new(names.len(), |k: int| names[k]@)
}

/// Reads the parameters of a function, behind the opening parenthesis, up
/// to and with the closing one.
pub fn parse_parameters(tokens: &Vec<Token>, index: &mut usize) -> (r: Result<
    Vec<String>,
    SyntaxError,
>)
    ensures
        match crate::grammar::parameters(tokens.deep_view(), *old(index) as int, Seq::empty()) {
            Parsed::Done { value, next } => {
                &&& r is Ok
                &&& name_views(r->Ok_0@) == value
                &&& *final(index) == next
            },
            Parsed::Failed { error, at } => {
                &&& r == Err::<Vec<String>, SyntaxError>(error)
                &&& *final(index) == at
            },
        },
        *old(index) <= *final(index),
{
    let ghost start = *index as int;
    let ghost mut done: Seq<Seq<char>> = Seq::empty();
    let mut names: Vec<String> = Vec::new();
    assert(name_views(names@) =~= done);
    loop
        invariant
            start == *old(index),
            start <= *index,
            crate::grammar::parameters(tokens.deep_view(), start, Seq::empty()) == crate::grammar::parameters(
                tokens.deep_view(),
                *index as int,
                done,
            ),
            name_views(names@) == done,
        decreases tokens.len() - *index,
    {
        match peek_kind(tokens, *index) {
            Some(TokenKind::RightParen) => {
                assert(*index < tokens.len());
                *index += 1;
                return Ok(names);
            },
            Some(TokenKind::Int) => {
                assert(*index < tokens.len());
                *index += 1;
                let name = match expect_ident(
                    tokens,
                    index,
                    SyntaxError::ExpectedParameterName,
                ) {
                    Ok(name) => name,
                    Err(error) => {
                        return Err(error);
                    },
                };
                names.push(name);
                proof {
                    done = done.push(name@);
                    assert(name_views(names@) =~= done);
                }
                if peek_is(tokens, *index, TokenKind::Comma) {
                    *index += 1;
                } else if peek_is(tokens, *index, TokenKind::RightParen) {
                } else {
                    return Err(SyntaxError::ExpectedCommaOrRightParen);
                }
            },
            Some(_) => {
                assert(*index < tokens.len());
                *index += 1;
                return Err(SyntaxError::ExpectedIntOrRightParen);
            },
            None => {
                return Err(SyntaxError::ExpectedIntOrRightParen);
            },
        }
    }
}

/// The code that declares each parameter and fills it from the argument
/// at its position.
pub fn emit_parameters(code: &mut Vec<Instr>, names: &Vec<String>)
    ensures
        final(code).deep_view() == old(code).deep_view() + receive(name_views(names@)),
{
    let ghost first = code.deep_view();
    let ghost all = name_views(names@);
    let mut k: usize = 0;
    assert(all.take(0) =~= Seq::empty());
    assert(code.deep_view() =~= first + receive(all.take(0)));
    while k < names.len()
        invariant
            k <= names.len(),
            first == old(code).deep_view(),
            all == name_views(names@),
            code.deep_view() == first + receive(all.take(k as int)),
        decreases names.len() - k,
    {
        emit(code, Instr::Declare(Operand::Var(names[k].clone())));
        emit(code, Instr::Move(Operand::Var(names[k].clone()), Operand::Arg(k)));
        proof {
            let upto = all.take(k + 1);
            assert(upto.drop_last() =~= all.take(k as int));
            assert(upto.last() == names@[k as int]@);
            assert(code.deep_view() =~= first + receive(upto));
        }
        k += 1;
    }
    assert(all.take(k as int) =~= all);
}

/// Reads one function definition, if one is there, and gives its code:
/// the opening, the parameters, the body, the end.
///
/// At an end mark and where the tokens have run out there is no
/// definition: the result is `Epsilon`, and the cursor stays.
pub fn parse_function(tokens: &Vec<Token>, index: &mut usize, ctx: &mut Context) -> (r: Result<
    CodeNode,
    SyntaxError,
>)
    requires
        old(ctx)@.has_room(tokens.len() - *old(index)),
    ensures
        reads_node(
            lowered_function(
                crate::grammar::function(tokens.deep_view(), *old(index) as int, old(ctx)@.in_loop()),
                old(ctx)@.ids,
                old(ctx)@.enclosing(),
            ),
            old(ctx)@,
            *old(index) as int,
            r,
            final(ctx)@,
            *final(index) as int,
        ),
{
    let mark = ctx.mark();
    reveal(crate::grammar::function);
    let ghost start = *index as int;
    if at_end(tokens, *index) {
        return Ok(CodeNode::Epsilon);
    }
    assert(*index < tokens.len());
    let opens = peek_is(tokens, *index, TokenKind::Func);
    *index += 1;
    if !opens {
        return fail(ctx, mark, SyntaxError::ExpectedFunc);
    }
    let name = match expect_ident(tokens, index, SyntaxError::ExpectedFunctionName) {
        Ok(name) => name,
        Err(error) => {
            return fail(ctx, mark, error);
        },
    };
    match expect(tokens, index, TokenKind::LeftParen, SyntaxError::ExpectedLeftParen) {
        Ok(()) => {},
        Err(error) => {
            return fail(ctx, mark, error);
        },
    }
    let params = match parse_parameters(tokens, index) {
        Ok(params) => params,
        Err(error) => {
            return fail(ctx, mark, error);
        },
    };
    proof {
        crate::grammar::lemma_parameters_advance(tokens.deep_view(), start + 3, Seq::empty());
    }
    let ghost here = *index as int;
    let mut code: Vec<Instr> = Vec::new();
    emit(&mut code, Instr::Func(name));
    emit_parameters(&mut code, &params);
    let body = match parse_braced(tokens, index, ctx) {
        Ok(body) => body,
        Err(error) => {
            return fail(ctx, mark, error);
        },
    };
    proof {
        lemma_braced_advances(tokens.deep_view(), here, old(ctx)@.in_loop());
    }
    let ghost inner = body.deep_view();
    emit_all(&mut code, body);
    emit(&mut code, Instr::EndFunc);
    assert(code.deep_view() =~= seq![InstrView::Func(name@)] + receive(name_views(params@)) + inner
        + seq![InstrView::EndFunc]);
    Ok(CodeNode::Code(code))
}

/// Reads function definitions up to where they end, and gives their code,
/// one function after the other.
pub fn parse_program(tokens: &Vec<Token>, index: &mut usize, ctx: &mut Context) -> (r: Result<
    Vec<Instr>,
    SyntaxError,
>)
    requires
        old(ctx)@.has_room(tokens.len() - *old(index)),
    ensures
        reads_code(
            lowered_program(
                crate::grammar::program(
                    tokens.deep_view(),
                    *old(index) as int,
                    old(ctx)@.in_loop(),
                    Seq::empty(),
                ),
                old(ctx)@.ids,
                old(ctx)@.enclosing(),
            ),
            old(ctx)@,
            *old(index) as int,
            r,
            final(ctx)@,
            *final(index) as int,
        ),
{
    let mark = ctx.mark();
    let ghost start = *index as int;
    let ghost first = old(ctx)@;
    let ghost mut done: Seq<Function> = Seq::empty();
    let mut code: Vec<Instr> = Vec::new();
    assert(code.deep_view() =~= Seq::empty());
    loop
        invariant
            start == *old(index),
            first == old(ctx)@,
            mark@ == first.ids,
            start <= *index,
            first.has_room(tokens.len() - start),
            crate::grammar::program(tokens.deep_view(), start, first.in_loop(), Seq::empty())
                == crate::grammar::program(tokens.deep_view(), *index as int, first.in_loop(), done),
            code.deep_view() == lower_program(done, first.ids, first.enclosing()).code,
            ctx@ == first.with_ids(lower_program(done, first.ids, first.enclosing()).ids),
            spent(first.ids, ctx@.ids, *index - start),
        decreases tokens.len() - *index,
    {
        let ghost here = *index as int;
        let one = match parse_function(tokens, index, ctx) {
            Ok(CodeNode::Code(one)) => one,
            Ok(CodeNode::Epsilon) => {
                return Ok(code);
            },
            Err(error) => {
                return fail(ctx, mark, error);
            },
        };
        proof {
            crate::grammar::lemma_function_advances(tokens.deep_view(), here, first.in_loop());
            let value = crate::grammar::function(tokens.deep_view(), here, first.in_loop())->value->0;
            assert(done.push(value).drop_last() =~= done);
            done = done.push(value);
        }
        emit_all(&mut code, one);
    }
}

/// Compiles a whole token sequence with a fresh state: the code of its
/// functions, or the first error and the position the cursor stopped at.
///
/// The code is numbered from zero: each temporary from one up to the
/// number of operators, comparisons and calls of the program is declared
/// once, no label stands twice, and every jump leads to a label that the
/// code sets once.
pub fn generate(tokens: &Vec<Token>) -> (r: Result<Vec<Instr>, (SyntaxError, usize)>)
    ensures
        match crate::grammar::program(tokens.deep_view(), 0, false, Seq::empty()) {
            Parsed::Done { value, .. } => {
                let zero = Ids { temps: 0, loops: 0, ifs: 0 };
                let lowered = lower_program(value, zero, None);
                &&& r is Ok
                &&& r->Ok_0.deep_view() == lowered.code
                &&& numbered(r->Ok_0.deep_view(), zero, lowered.ids, None)
                &&& lowered.ids.temps == operations_in_program(value)
            },
            Parsed::Failed { error, at } => {
                &&& r is Err
                &&& r->Err_0.0 == error
                &&& r->Err_0.1 == at
            },
        },
{
    let mut ctx = Context::new();
    let mut index: usize = 0;
    proof {
        if let Parsed::Done { value, .. } = crate::grammar::program(
            tokens.deep_view(),
            0,
            false,
            Seq::empty(),
        ) {
            let zero = Ids { temps: 0, loops: 0, ifs: 0 };
            lemma_program_is_numbered(value, zero, None);
            lemma_program_declares_its_operations(value, zero, None);
        }
    }
    match parse_program(tokens, &mut index, &mut ctx) {
        Ok(code) => Ok(code),
        Err(error) => Err((error, index)),
    }
}

} // verus!
