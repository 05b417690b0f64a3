//! The generated code does not depend on where the counters stand, but for
//! the numbers in it: lowered from higher counters, a construct gives the
//! same instructions with every number raised by the difference.

use crate::grammar::{Condition, Expr, Function, Stmt};
use crate::lowering::{
    apply, if_code, if_else_code, label, loop_code, lower_arguments, lower_block, lower_condition,
    lower_expr, lower_function, lower_program, lower_statement, pass, receive, Block, Ids, Value,
    Values,
};
use crate::numbering::of_loop;
use crate::tac::{InstrView, LabelView, OperandView};
use vstd::prelude::*;

verus! {

/// The counters `ids`, each raised by that of `by`.
pub open spec fn raise_ids(ids: Ids, by: Ids) -> Ids {
    Ids { temps: ids.temps + by.temps, loops: ids.loops + by.loops, ifs: ids.ifs + by.ifs }
}

/// The operand `a` with the number of a temporary raised.
pub open spec fn raise_operand(a: OperandView, by: Ids) -> OperandView {
    match a {
        OperandView::Temp(t) => OperandView::Temp(t + by.temps),
        other => other,
    }
}

/// The label `l` with its number raised: by the loops if it belongs to a
/// loop, by the conditionals if not.
pub open spec fn raise_label(l: LabelView, by: Ids) -> LabelView {
    if of_loop(l.kind) {
        LabelView { kind: l.kind, id: l.id + by.loops }
    } else {
        LabelView { kind: l.kind, id: l.id + by.ifs }
    }
}

/// The instruction `i` with every number in it raised.
pub open spec fn raise_instr(i: InstrView, by: Ids) -> InstrView {
    match i {
        InstrView::Func(name) => InstrView::Func(name),
        InstrView::EndFunc => InstrView::EndFunc,
        InstrView::Declare(a) => InstrView::Declare(raise_operand(a, by)),
        InstrView::Move(a, b) => InstrView::Move(raise_operand(a, by), raise_operand(b, by)),
        InstrView::Binary(op, a, b, c) => InstrView::Binary(
            op,
            raise_operand(a, by),
            raise_operand(b, by),
            raise_operand(c, by),
        ),
        InstrView::Label(l) => InstrView::Label(raise_label(l, by)),
        InstrView::Jump(l) => InstrView::Jump(raise_label(l, by)),
        InstrView::BranchIf(l, a) => InstrView::BranchIf(raise_label(l, by), raise_operand(a, by)),
        InstrView::Output(a) => InstrView::Output(raise_operand(a, by)),
        InstrView::Input(a) => InstrView::Input(raise_operand(a, by)),
        InstrView::Return(a) => InstrView::Return(raise_operand(a, by)),
        InstrView::Param(a) => InstrView::Param(raise_operand(a, by)),
        InstrView::Call(name, a) => InstrView::Call(name, raise_operand(a, by)),
    }
}

/// The code with every number in it raised.
pub open spec fn raise(code: Seq<InstrView>, by: Ids) -> Seq<InstrView> {
    Seq::new(code.len(), |k: int| raise_instr(code[k], by))
}

/// The operands with the numbers of the temporaries raised.
pub open spec fn raise_operands(names: Seq<OperandView>, by: Ids) -> Seq<OperandView> {
    Seq::new(names.len(), |k: int| raise_operand(names[k], by))
}

/// The enclosing loop with its number raised.
pub open spec fn raise_enclosing(enclosing: Option<nat>, by: Ids) -> Option<nat> {
    match enclosing {
        Some(id) => Some(id + by.loops),
        None => None,
    }
}

/// A lowered expression with every number raised.
pub open spec fn raise_value(v: Value, by: Ids) -> Value {
    Value { code: raise(v.code, by), name: raise_operand(v.name, by), temps: v.temps + by.temps }
}

/// Lowered statements with every number raised.
pub open spec fn raise_block(b: Block, by: Ids) -> Block {
    Block { code: raise(b.code, by), ids: raise_ids(b.ids, by) }
}

/// Code is raised piece by piece.
pub proof fn lemma_raise_add(a: Seq<InstrView>, b: Seq<InstrView>, by: Ids)
    ensures
        raise(a + b, by) == raise(a, by) + raise(b, by),
{
    assert(raise(a + b, by) =~= raise(a, by) + raise(b, by));
}

/// An expression lowered from more temporaries is the same expression
/// lowered, raised.
pub proof fn lemma_expr_raises(e: Expr, temps: nat, by: Ids)
    ensures
        lower_expr(e, temps + by.temps) == raise_value(lower_expr(e, temps), by),
    decreases e,
{
    match e {
        Expr::Num(_) => {
            assert(raise(Seq::empty(), by) =~= Seq::empty());
        },
        Expr::Var(_) => {
            assert(raise(Seq::empty(), by) =~= Seq::empty());
        },
        Expr::Binary(op, left, right) => {
            let l = lower_expr(*left, temps);
            let r = lower_expr(*right, l.temps);
            let t = r.temps + 1;
            lemma_expr_raises(*left, temps, by);
            lemma_expr_raises(*right, l.temps, by);
            assert(raise(l.code + r.code + apply(op, t, l.name, r.name), by) =~= raise(l.code, by)
                + raise(r.code, by) + apply(
                op,
                t + by.temps,
                raise_operand(l.name, by),
                raise_operand(r.name, by),
            ));
        },
        Expr::Call(f, args) => {
            let a = lower_arguments(args, temps);
            let t = a.temps + 1;
            lemma_arguments_raise(args, temps, by);
            assert(raise(
                a.code + pass(a.names) + seq![
                    InstrView::Declare(OperandView::Temp(t)),
                    InstrView::Call(f, OperandView::Temp(t)),
                ],
                by,
            ) =~= raise(a.code, by) + pass(raise_operands(a.names, by)) + seq![
                InstrView::Declare(OperandView::Temp(t + by.temps)),
                InstrView::Call(f, OperandView::Temp(t + by.temps)),
            ]);
        },
    }
}

/// Arguments lowered from more temporaries are the same arguments lowered,
/// raised.
pub proof fn lemma_arguments_raise(args: Seq<Expr>, temps: nat, by: Ids)
    ensures
        lower_arguments(args, temps + by.temps) == (Values {
            code: raise(lower_arguments(args, temps).code, by),
            names: raise_operands(lower_arguments(args, temps).names, by),
            temps: lower_arguments(args, temps).temps + by.temps,
        }),
    decreases args,
{
    if args.len() == 0 {
        assert(raise(Seq::empty(), by) =~= Seq::empty());
        assert(raise_operands(Seq::empty(), by) =~= Seq::empty());
    } else {
        let before = lower_arguments(args.drop_last(), temps);
        let last = lower_expr(args.last(), before.temps);
        lemma_arguments_raise(args.drop_last(), temps, by);
        lemma_expr_raises(args.last(), before.temps, by);
        lemma_raise_add(before.code, last.code, by);
        assert(raise_operands(before.names.push(last.name), by) =~= raise_operands(
            before.names,
            by,
        ).push(raise_operand(last.name, by)));
    }
}

/// A condition lowered from more temporaries is the same condition
/// lowered, raised.
pub proof fn lemma_condition_raises(c: Condition, temps: nat, by: Ids)
    ensures
        lower_condition(c, temps + by.temps) == raise_value(lower_condition(c, temps), by),
{
    let l = lower_expr(c.left, temps);
    let r = lower_expr(c.right, l.temps);
    let t = r.temps + 1;
    lemma_expr_raises(c.left, temps, by);
    lemma_expr_raises(c.right, l.temps, by);
    assert(raise(l.code + r.code + apply(c.op, t, l.name, r.name), by) =~= raise(l.code, by)
        + raise(r.code, by) + apply(
        c.op,
        t + by.temps,
        raise_operand(l.name, by),
        raise_operand(r.name, by),
    ));
}

/// The code of a loop, raised, is the code of the loop of the raised
/// number, made of the raised test and the raised body.
pub proof fn lemma_loop_code_raises(
    id: nat,
    test: Seq<InstrView>,
    cond: OperandView,
    body: Seq<InstrView>,
    by: Ids,
)
    ensures
        raise(loop_code(id, test, cond, body), by) == loop_code(
            id + by.loops,
            raise(test, by),
            raise_operand(cond, by),
            raise(body, by),
        ),
{
    assert(raise(loop_code(id, test, cond, body), by) =~= loop_code(
        id + by.loops,
        raise(test, by),
        raise_operand(cond, by),
        raise(body, by),
    ));
}

/// The code of a conditional, raised, is the code of the conditional of
/// the raised number, made of the raised test and the raised branch.
pub proof fn lemma_if_code_raises(
    id: nat,
    test: Seq<InstrView>,
    cond: OperandView,
    then: Seq<InstrView>,
    by: Ids,
)
    ensures
        raise(if_code(id, test, cond, then), by) == if_code(
            id + by.ifs,
            raise(test, by),
            raise_operand(cond, by),
            raise(then, by),
        ),
{
    assert(raise(if_code(id, test, cond, then), by) =~= if_code(
        id + by.ifs,
        raise(test, by),
        raise_operand(cond, by),
        raise(then, by),
    ));
}

/// The code of a conditional with two branches, raised, is the code of the
/// conditional of the raised number, made of the raised parts.
pub proof fn lemma_if_else_code_raises(
    id: nat,
    test: Seq<InstrView>,
    cond: OperandView,
    then: Seq<InstrView>,
    otherwise: Seq<InstrView>,
    by: Ids,
)
    ensures
        raise(if_else_code(id, test, cond, then, otherwise), by) == if_else_code(
            id + by.ifs,
            raise(test, by),
            raise_operand(cond, by),
            raise(then, by),
            raise(otherwise, by),
        ),
{
    assert(raise(if_else_code(id, test, cond, then, otherwise), by) =~= if_else_code(
        id + by.ifs,
        raise(test, by),
        raise_operand(cond, by),
        raise(then, by),
        raise(otherwise, by),
    ));
}

/// Whether `s` holds no statements of its own.
pub open spec fn simple(s: Stmt) -> bool {
    !(s is While) && !(s is If) && !(s is IfElse)
}

/// A statement without a block lowered from higher counters, inside the
/// loop of the raised number, is the same statement lowered, raised.
pub proof fn lemma_simple_statement_raises(s: Stmt, ids: Ids, enclosing: Option<nat>, by: Ids)
    requires
        simple(s),
    ensures
        lower_statement(s, raise_ids(ids, by), raise_enclosing(enclosing, by)) == raise_block(
            lower_statement(s, ids, enclosing),
            by,
        ),
{
    let high = raise_ids(ids, by);
    let around = raise_enclosing(enclosing, by);
    match s {
        Stmt::Declare(x) => {
            assert(raise(seq![InstrView::Declare(OperandView::Var(x))], by) =~= seq![
                InstrView::Declare(OperandView::Var(x)),
            ]);
        },
        Stmt::DeclareInit(x, e) => {
            let v = lower_expr(e, ids.temps);
            lemma_expr_raises(e, ids.temps, by);
            assert(raise(
                v.code + seq![
                    InstrView::Declare(OperandView::Var(x)),
                    InstrView::Move(OperandView::Var(x), v.name),
                ],
                by,
            ) =~= raise(v.code, by) + seq![
                InstrView::Declare(OperandView::Var(x)),
                InstrView::Move(OperandView::Var(x), raise_operand(v.name, by)),
            ]);
        },
        Stmt::Assign(x, e) => {
            let v = lower_expr(e, ids.temps);
            lemma_expr_raises(e, ids.temps, by);
            assert(raise(v.code.push(InstrView::Move(OperandView::Var(x), v.name)), by) =~= raise(
                v.code,
                by,
            ).push(InstrView::Move(OperandView::Var(x), raise_operand(v.name, by))));
        },
        Stmt::Return(e) => {
            let v = lower_expr(e, ids.temps);
            lemma_expr_raises(e, ids.temps, by);
            assert(raise(v.code.push(InstrView::Return(v.name)), by) =~= raise(v.code, by).push(
                InstrView::Return(raise_operand(v.name, by)),
            ));
        },
        Stmt::Print(e) => {
            let v = lower_expr(e, ids.temps);
            lemma_expr_raises(e, ids.temps, by);
            assert(raise(v.code.push(InstrView::Output(v.name)), by) =~= raise(v.code, by).push(
                InstrView::Output(raise_operand(v.name, by)),
            ));
        },
        Stmt::Read(e) => {
            let v = lower_expr(e, ids.temps);
            lemma_expr_raises(e, ids.temps, by);
            assert(raise(v.code.push(InstrView::Input(v.name)), by) =~= raise(v.code, by).push(
                InstrView::Input(raise_operand(v.name, by)),
            ));
        },
        _ => {
            assert(lower_statement(s, high, around).code =~= raise(
                lower_statement(s, ids, enclosing).code,
                by,
            ));
        },
    }
}

/// A statement lowered from higher counters, inside the loop of the raised
/// number, is the same statement lowered, raised.
pub proof fn lemma_statement_raises(s: Stmt, ids: Ids, enclosing: Option<nat>, by: Ids)
    ensures
        lower_statement(s, raise_ids(ids, by), raise_enclosing(enclosing, by)) == raise_block(
            lower_statement(s, ids, enclosing),
            by,
        ),
    decreases s,
{
    match s {
        Stmt::While(cond, body) => {
            let id = ids.loops + 1;
            let c = lower_condition(cond, ids.temps);
            let inner = Ids { temps: c.temps, loops: id, ifs: ids.ifs };
            let b = lower_block(body, inner, Some(id));
            lemma_condition_raises(cond, ids.temps, by);
            lemma_block_raises(body, inner, Some(id), by);
            lemma_loop_code_raises(id, c.code, c.name, b.code, by);
        },
        Stmt::If(cond, then) => {
            let id = ids.ifs + 1;
            let c = lower_condition(cond, ids.temps);
            let inner = Ids { temps: c.temps, loops: ids.loops, ifs: id };
            let t = lower_block(then, inner, enclosing);
            lemma_condition_raises(cond, ids.temps, by);
            lemma_block_raises(then, inner, enclosing, by);
            lemma_if_code_raises(id, c.code, c.name, t.code, by);
        },
        Stmt::IfElse(cond, then, otherwise) => {
            let id = ids.ifs + 1;
            let c = lower_condition(cond, ids.temps);
            let inner = Ids { temps: c.temps, loops: ids.loops, ifs: id };
            let t = lower_block(then, inner, enclosing);
            let o = lower_block(otherwise, t.ids, enclosing);
            lemma_condition_raises(cond, ids.temps, by);
            lemma_block_raises(then, inner, enclosing, by);
            lemma_block_raises(otherwise, t.ids, enclosing, by);
            lemma_if_else_code_raises(id, c.code, c.name, t.code, o.code, by);
        },
        _ => {
            lemma_simple_statement_raises(s, ids, enclosing, by);
        },
    }
}

/// Statements lowered from higher counters are the same statements
/// lowered, raised.
pub proof fn lemma_block_raises(stmts: Seq<Stmt>, ids: Ids, enclosing: Option<nat>, by: Ids)
    ensures
        lower_block(stmts, raise_ids(ids, by), raise_enclosing(enclosing, by)) == raise_block(
            lower_block(stmts, ids, enclosing),
            by,
        ),
    decreases stmts,
{
    if stmts.len() == 0 {
        assert(raise(Seq::empty(), by) =~= Seq::empty());
    } else {
        let before = lower_block(stmts.drop_last(), ids, enclosing);
        let last = lower_statement(stmts.last(), before.ids, enclosing);
        lemma_block_raises(stmts.drop_last(), ids, enclosing, by);
        lemma_statement_raises(stmts.last(), before.ids, enclosing, by);
        lemma_raise_add(before.code, last.code, by);
    }
}

/// What a function does with its parameters holds no number to raise.
pub proof fn lemma_receive_raises(params: Seq<Seq<char>>, by: Ids)
    ensures
        raise(receive(params), by) == receive(params),
    decreases params.len(),
{
    if params.len() == 0 {
        assert(raise(Seq::empty(), by) =~= Seq::empty());
    } else {
        lemma_receive_raises(params.drop_last(), by);
        let name = OperandView::Var(params.last());
        let tail = seq![
            InstrView::Declare(name),
            InstrView::Move(name, OperandView::Arg((params.len() - 1) as nat)),
        ];
        lemma_raise_add(receive(params.drop_last()), tail, by);
        assert(raise(tail, by) =~= tail);
    }
}

/// A function lowered from higher counters is the same function lowered,
/// raised.
pub proof fn lemma_function_raises(f: Function, ids: Ids, enclosing: Option<nat>, by: Ids)
    ensures
        lower_function(f, raise_ids(ids, by), raise_enclosing(enclosing, by)) == raise_block(
            lower_function(f, ids, enclosing),
            by,
        ),
{
    let body = lower_block(f.body, ids, enclosing);
    lemma_block_raises(f.body, ids, enclosing, by);
    lemma_receive_raises(f.params, by);
    let head = seq![InstrView::Func(f.name)];
    let foot = seq![InstrView::EndFunc];
    assert(raise(head + receive(f.params) + body.code + foot, by) =~= head + raise(
        receive(f.params),
        by,
    ) + raise(body.code, by) + foot);
}

/// A program lowered from higher counters is the same program lowered,
/// raised: two compilations of one source differ in the numbers only, and
/// by the difference of the counters they started from.
pub proof fn lemma_program_raises(fs: Seq<Function>, ids: Ids, enclosing: Option<nat>, by: Ids)
    ensures
        lower_program(fs, raise_ids(ids, by), raise_enclosing(enclosing, by)) == raise_block(
            lower_program(fs, ids, enclosing),
            by,
        ),
    decreases fs.len(),
{
    if fs.len() == 0 {
        assert(raise(Seq::empty(), by) =~= Seq::empty());
    } else {
        let before = lower_program(fs.drop_last(), ids, enclosing);
        let last = lower_function(fs.last(), before.ids, enclosing);
        lemma_program_raises(fs.drop_last(), ids, enclosing, by);
        lemma_function_raises(fs.last(), before.ids, enclosing, by);
        lemma_raise_add(before.code, last.code, by);
    }
}

} // verus!
