//! What each construct of the language becomes in three-address code.
//!
//! An expression becomes the instructions that compute it and the operand
//! that holds its value; a statement becomes instructions. Temporaries,
//! loops and conditionals are numbered in the order they are met, each
//! counter starting behind the last number given out.
//! Nothing here is compiled.

use crate::grammar::{Condition, Expr, Function, Stmt};
use crate::tac::{InstrView, LabelKind, LabelView, OperandView};
use vstd::prelude::*;

verus! {

/// The last number given out to a temporary, to a loop and to a conditional.
pub struct Ids {
    pub temps: nat,
    pub loops: nat,
    pub ifs: nat,
}

/// An expression, lowered.
pub struct Value {
    /// The instructions that compute the expression.
    pub code: Seq<InstrView>,
    /// The operand that holds its value once they ran.
    pub name: OperandView,
    /// The last number given out to a temporary.
    pub temps: nat,
}

/// A list of expressions, lowered.
pub struct Values {
    pub code: Seq<InstrView>,
    pub names: Seq<OperandView>,
    pub temps: nat,
}

/// Statements, lowered.
pub struct Block {
    pub code: Seq<InstrView>,
    pub ids: Ids,
}

/// The label of the given role and number.
pub open spec fn label(kind: LabelKind, id: nat) -> LabelView {
    LabelView { kind, id }
}

/// The two instructions that apply an operator: the declaration of the
/// temporary `t` and the operation that fills it.
pub open spec fn apply(op: crate::tac::Operator, t: nat, left: OperandView, right: OperandView) -> Seq<
    InstrView,
> {
    seq![
        InstrView::Declare(OperandView::Temp(t)),
        InstrView::Binary(op, OperandView::Temp(t), left, right),
    ]
}

/// One `Param` instruction for each operand, in order.
pub open spec fn pass(names: Seq<OperandView>) -> Seq<InstrView> {
    Seq::new(names.len(), |k: int| InstrView::Param(names[k]))
}

/// An expression lowered after `temps` temporaries.
///
/// The operands of an operator come first, left before right, then the
/// operator itself: every operand is computed before it is read.
pub open spec fn lower_expr(e: Expr, temps: nat) -> Value
    decreases e,
{
    match e {
        Expr::Num(n) => Value { code: Seq::empty(), name: OperandView::Num(n), temps },
        Expr::Var(x) => Value { code: Seq::empty(), name: OperandView::Var(x), temps },
        Expr::Binary(op, left, right) => {
            let l = lower_expr(*left, temps);
            let r = lower_expr(*right, l.temps);
            let t = r.temps + 1;
            Value {
                code: l.code + r.code + apply(op, t, l.name, r.name),
                name: OperandView::Temp(t),
                temps: t,
            }
        },
        Expr::Call(f, args) => {
            let a = lower_arguments(args, temps);
            let t = a.temps + 1;
            Value {
                code: a.code + pass(a.names) + seq![
                    InstrView::Declare(OperandView::Temp(t)),
                    InstrView::Call(f, OperandView::Temp(t)),
                ],
                name: OperandView::Temp(t),
                temps: t,
            }
        },
    }
}

/// The arguments of a call lowered one after the other.
pub open spec fn lower_arguments(args: Seq<Expr>, temps: nat) -> Values
    decreases args,
{
    if args.len() == 0 {
        Values { code: Seq::empty(), names: Seq::empty(), temps }
    } else {
        let before = lower_arguments(args.drop_last(), temps);
        let last = lower_expr(args.last(), before.temps);
        Values {
            code: before.code + last.code,
            names: before.names.push(last.name),
            temps: last.temps,
        }
    }
}

/// A condition lowered like the application of its comparison.
pub open spec fn lower_condition(c: Condition, temps: nat) -> Value {
    let l = lower_expr(c.left, temps);
    let r = lower_expr(c.right, l.temps);
    let t = r.temps + 1;
    Value {
        code: l.code + r.code + apply(c.op, t, l.name, r.name),
        name: OperandView::Temp(t),
        temps: t,
    }
}

/// The loop `id`, from the code and the operand of its condition and the
/// code of its body.
///
/// `LoopBegin` marks the test. If the condition holds, control goes to
/// `LoopBody`; if not, it falls into the jump to `EndLoop`. Behind the body
/// stands the jump back to `LoopBegin`.
pub open spec fn loop_code(
    id: nat,
    test: Seq<InstrView>,
    cond: OperandView,
    body: Seq<InstrView>,
) -> Seq<InstrView> {
    seq![InstrView::Label(label(LabelKind::LoopBegin, id))] + test + seq![
        InstrView::BranchIf(label(LabelKind::LoopBody, id), cond),
        InstrView::Jump(label(LabelKind::EndLoop, id)),
        InstrView::Label(label(LabelKind::LoopBody, id)),
    ] + body + seq![
        InstrView::Jump(label(LabelKind::LoopBegin, id)),
        InstrView::Label(label(LabelKind::EndLoop, id)),
    ]
}

/// The conditional `id` without a second branch, from the code and the
/// operand of its condition and the code of its branch.
///
/// If the condition holds, control goes to `IfTrue`; if not, it falls into
/// the jump to `EndIf`. The branch ends with a jump to `EndIf`.
pub open spec fn if_code(id: nat, test: Seq<InstrView>, cond: OperandView, then: Seq<InstrView>) -> Seq<
    InstrView,
> {
    test + seq![
        InstrView::BranchIf(label(LabelKind::IfTrue, id), cond),
        InstrView::Jump(label(LabelKind::EndIf, id)),
        InstrView::Label(label(LabelKind::IfTrue, id)),
    ] + then + seq![
        InstrView::Jump(label(LabelKind::EndIf, id)),
        InstrView::Label(label(LabelKind::EndIf, id)),
    ]
}

/// The conditional `id` with two branches.
///
/// If the condition holds, control goes to `IfTrue`; if not, it falls into
/// the jump to `Else`. The first branch ends with a jump to `EndIf`; the
/// second runs into it.
pub open spec fn if_else_code(
    id: nat,
    test: Seq<InstrView>,
    cond: OperandView,
    then: Seq<InstrView>,
    otherwise: Seq<InstrView>,
) -> Seq<InstrView> {
    test + seq![
        InstrView::BranchIf(label(LabelKind::IfTrue, id), cond),
        InstrView::Jump(label(LabelKind::Else, id)),
        InstrView::Label(label(LabelKind::IfTrue, id)),
    ] + then + seq![
        InstrView::Jump(label(LabelKind::EndIf, id)),
        InstrView::Label(label(LabelKind::Else, id)),
    ] + otherwise + seq![InstrView::Label(label(LabelKind::EndIf, id))]
}

/// A statement lowered after `ids`, inside the loop `enclosing` if there
/// is one.
///
/// `break` and `continue` jump to the labels of `enclosing`; outside every
/// loop they lower to nothing, and the grammar admits none there.
pub open spec fn lower_statement(s: Stmt, ids: Ids, enclosing: Option<nat>) -> Block
    decreases s,
{
    match s {
        Stmt::Declare(x) => Block { code: seq![InstrView::Declare(OperandView::Var(x))], ids },
        Stmt::DeclareInit(x, e) => {
            let v = lower_expr(e, ids.temps);
            Block {
                code: v.code + seq![
                    InstrView::Declare(OperandView::Var(x)),
                    InstrView::Move(OperandView::Var(x), v.name),
                ],
                ids: Ids { temps: v.temps, ..ids },
            }
        },
        Stmt::Assign(x, e) => {
            let v = lower_expr(e, ids.temps);
            Block {
                code: v.code.push(InstrView::Move(OperandView::Var(x), v.name)),
                ids: Ids { temps: v.temps, ..ids },
            }
        },
        Stmt::Return(e) => {
            let v = lower_expr(e, ids.temps);
            Block { code: v.code.push(InstrView::Return(v.name)), ids: Ids { temps: v.temps, ..ids } }
        },
        Stmt::Print(e) => {
            let v = lower_expr(e, ids.temps);
            Block { code: v.code.push(InstrView::Output(v.name)), ids: Ids { temps: v.temps, ..ids } }
        },
        Stmt::Read(e) => {
            let v = lower_expr(e, ids.temps);
            Block { code: v.code.push(InstrView::Input(v.name)), ids: Ids { temps: v.temps, ..ids } }
        },
        Stmt::Break => Block {
            code: match enclosing {
                Some(id) => seq![InstrView::Jump(label(LabelKind::EndLoop, id))],
                None => Seq::empty(),
            },
            ids,
        },
        Stmt::Continue => Block {
            code: match enclosing {
                Some(id) => seq![InstrView::Jump(label(LabelKind::LoopBegin, id))],
                None => Seq::empty(),
            },
            ids,
        },
        Stmt::While(cond, body) => {
            let id = ids.loops + 1;
            let c = lower_condition(cond, ids.temps);
            let b = lower_block(body, Ids { temps: c.temps, loops: id, ifs: ids.ifs }, Some(id));
            Block { code: loop_code(id, c.code, c.name, b.code), ids: b.ids }
        },
        Stmt::If(cond, then) => {
            let id = ids.ifs + 1;
            let c = lower_condition(cond, ids.temps);
            let t = lower_block(then, Ids { temps: c.temps, loops: ids.loops, ifs: id }, enclosing);
            Block { code: if_code(id, c.code, c.name, t.code), ids: t.ids }
        },
        Stmt::IfElse(cond, then, otherwise) => {
            let id = ids.ifs + 1;
            let c = lower_condition(cond, ids.temps);
            let t = lower_block(then, Ids { temps: c.temps, loops: ids.loops, ifs: id }, enclosing);
            let o = lower_block(otherwise, t.ids, enclosing);
            Block { code: if_else_code(id, c.code, c.name, t.code, o.code), ids: o.ids }
        },
    }
}

/// Statements lowered one after the other.
pub open spec fn lower_block(stmts: Seq<Stmt>, ids: Ids, enclosing: Option<nat>) -> Block
    decreases stmts,
{
    if stmts.len() == 0 {
        Block { code: Seq::empty(), ids }
    } else {
        let before = lower_block(stmts.drop_last(), ids, enclosing);
        let last = lower_statement(stmts.last(), before.ids, enclosing);
        Block { code: before.code + last.code, ids: last.ids }
    }
}

/// What a function does with its parameters on entry: each is declared
/// and filled from the argument at its position.
pub open spec fn receive(params: Seq<Seq<char>>) -> Seq<InstrView>
    decreases params.len(),
{
    if params.len() == 0 {
        Seq::empty()
    } else {
        let name = OperandView::Var(params.last());
        receive(params.drop_last()) + seq![
            InstrView::Declare(name),
            InstrView::Move(name, OperandView::Arg((params.len() - 1) as nat)),
        ]
    }
}

/// A function lowered: its opening, its parameters, its body, its end.
pub open spec fn lower_function(f: Function, ids: Ids, enclosing: Option<nat>) -> Block {
    let body = lower_block(f.body, ids, enclosing);
    Block {
        code: seq![InstrView::Func(f.name)] + receive(f.params) + body.code + seq![
            InstrView::EndFunc,
        ],
        ids: body.ids,
    }
}

/// Functions lowered one after the other.
pub open spec fn lower_program(fs: Seq<Function>, ids: Ids, enclosing: Option<nat>) -> Block
    decreases fs.len(),
{
    if fs.len() == 0 {
        Block { code: Seq::empty(), ids }
    } else {
        let before = lower_program(fs.drop_last(), ids, enclosing);
        let last = lower_function(fs.last(), before.ids, enclosing);
        Block { code: before.code + last.code, ids: last.ids }
    }
}

} // verus!
