//! What the numbering of temporaries, loops and conditionals guarantees of
//! the generated code: every temporary is declared once, every label stands
//! once, and every jump leads to a label of the code it stands in.

use crate::grammar::{program, Condition, Expr, Function, Parsed, Stmt};
use crate::token::Lexeme;
use crate::lowering::{
    apply, if_code, if_else_code, label, loop_code, lower_arguments, lower_block, lower_condition,
    lower_expr, lower_function, lower_program, lower_statement, pass, receive, Ids,
};
use crate::tac::{InstrView, LabelKind, LabelView, OperandView};
use vstd::prelude::*;

verus! {

/// How many instructions of `code` are of the sort `f`.
pub open spec fn tally(code: Seq<InstrView>, f: spec_fn(InstrView) -> bool) -> nat
    decreases code.len(),
{
    if code.len() == 0 {
        0
    } else {
        tally(code.drop_last(), f) + if f(code.last()) {
            1nat
        } else {
            0nat
        }
    }
}

/// The sort of the instruction that declares the temporary `t`.
pub open spec fn declares(t: nat) -> spec_fn(InstrView) -> bool {
    |i: InstrView| i == InstrView::Declare(OperandView::Temp(t))
}

/// The sort of the instruction that sets the label `l`.
pub open spec fn marks(l: LabelView) -> spec_fn(InstrView) -> bool {
    |i: InstrView| i == InstrView::Label(l)
}

/// The sort of the instructions that jump to the label `l`.
pub open spec fn targets(l: LabelView) -> spec_fn(InstrView) -> bool {
    |i: InstrView|
        match i {
            InstrView::Jump(to) => to == l,
            InstrView::BranchIf(to, _) => to == l,
            _ => false,
        }
}

/// Whether `i` declares no temporary, sets no label and jumps nowhere.
pub open spec fn plain(i: InstrView) -> bool {
    match i {
        InstrView::Declare(OperandView::Temp(_)) => false,
        InstrView::Label(_) => false,
        InstrView::Jump(_) => false,
        InstrView::BranchIf(_, _) => false,
        _ => true,
    }
}

/// Whether a label belongs to a loop.
pub open spec fn of_loop(kind: LabelKind) -> bool {
    kind == LabelKind::LoopBegin || kind == LabelKind::LoopBody || kind == LabelKind::EndLoop
}

/// Whether the number of `l` was given out behind `a` and up to `b`.
pub open spec fn owned(l: LabelView, a: Ids, b: Ids) -> bool {
    if of_loop(l.kind) {
        a.loops < l.id <= b.loops
    } else {
        a.ifs < l.id <= b.ifs
    }
}

/// Whether `l` is a label that `break` or `continue` leads to in the loop
/// `enclosing`.
pub open spec fn leaves(l: LabelView, enclosing: Option<nat>) -> bool {
    enclosing == Some(l.id) && (l.kind == LabelKind::LoopBegin || l.kind == LabelKind::EndLoop)
}

/// Whether no counter of `b` stands before that of `a`.
pub open spec fn onward(a: Ids, b: Ids) -> bool {
    a.temps <= b.temps && a.loops <= b.loops && a.ifs <= b.ifs
}

/// Whether `code` is numbered as code that was lowered behind `a` and up to
/// `b`, inside the loop `enclosing`, has to be:
/// - it declares each temporary behind `a` and up to `b` once, and no other;
/// - it sets no label twice, only labels numbered behind `a` and up to `b`,
///   and each of those once, but that `Else` may be missing;
/// - each of its jumps leads to a label that it sets, or out of or to the
///   start of the loop `enclosing`.
pub open spec fn numbered(code: Seq<InstrView>, a: Ids, b: Ids, enclosing: Option<nat>) -> bool {
    &&& onward(a, b)
    &&& forall|t: nat| #[trigger]
        tally(code, declares(t)) == if a.temps < t <= b.temps {
            1nat
        } else {
            0nat
        }
    &&& forall|l: LabelView| #[trigger] tally(code, marks(l)) <= 1
    &&& forall|l: LabelView| #[trigger] tally(code, marks(l)) > 0 ==> owned(l, a, b)
    &&& forall|l: LabelView|
        owned(l, a, b) && l.kind != LabelKind::Else ==> #[trigger] tally(code, marks(l)) == 1
    &&& forall|l: LabelView| #[trigger]
        tally(code, targets(l)) > 0 ==> tally(code, marks(l)) == 1 || leaves(l, enclosing)
}

/// One more instruction counts if it is of the sort.
pub proof fn lemma_tally_push(code: Seq<InstrView>, x: InstrView, f: spec_fn(InstrView) -> bool)
    ensures
        tally(code.push(x), f) == tally(code, f) + if f(x) {
            1nat
        } else {
            0nat
        },
{
    assert(code.push(x).drop_last() =~= code);
}

/// The instructions of two pieces of code are counted piece by piece.
pub proof fn lemma_tally_add(a: Seq<InstrView>, b: Seq<InstrView>, f: spec_fn(InstrView) -> bool)
    ensures
        tally(a + b, f) == tally(a, f) + tally(b, f),
    decreases b.len(),
{
    if b.len() == 0 {
        assert(a + b =~= a);
    } else {
        lemma_tally_add(a, b.drop_last(), f);
        assert((a + b).drop_last() =~= a + b.drop_last());
        assert((a + b).last() == b.last());
    }
}

/// Code without instructions of a sort holds none of them.
pub proof fn lemma_tally_none(code: Seq<InstrView>, f: spec_fn(InstrView) -> bool)
    requires
        forall|k: int| 0 <= k < code.len() ==> !f(#[trigger] code[k]),
    ensures
        tally(code, f) == 0,
    decreases code.len(),
{
    if code.len() > 0 {
        lemma_tally_none(code.drop_last(), f);
    }
}

/// Plain code is numbered behind and up to the same counters.
pub proof fn lemma_plain_is_numbered(code: Seq<InstrView>, a: Ids, enclosing: Option<nat>)
    requires
        forall|k: int| 0 <= k < code.len() ==> plain(#[trigger] code[k]),
    ensures
        numbered(code, a, a, enclosing),
{
    assert forall|t: nat| #[trigger] tally(code, declares(t)) == 0 by {
        lemma_tally_none(code, declares(t));
    }
    assert forall|l: LabelView| #[trigger] tally(code, marks(l)) == 0 by {
        lemma_tally_none(code, marks(l));
    }
    assert forall|l: LabelView| #[trigger] tally(code, targets(l)) == 0 by {
        lemma_tally_none(code, targets(l));
    }
}

/// Code that is numbered up to some counters, followed by code that is
/// numbered behind them, is numbered from the first counters to the last.
pub proof fn lemma_numbered_join(
    first: Seq<InstrView>,
    second: Seq<InstrView>,
    a: Ids,
    m: Ids,
    b: Ids,
    enclosing: Option<nat>,
)
    requires
        numbered(first, a, m, enclosing),
        numbered(second, m, b, enclosing),
    ensures
        numbered(first + second, a, b, enclosing),
{
    let code = first + second;
    assert forall|t: nat| #[trigger]
        tally(code, declares(t)) == if a.temps < t <= b.temps {
            1nat
        } else {
            0nat
        } by {
        lemma_tally_add(first, second, declares(t));
    }
    assert forall|l: LabelView|
        (#[trigger] tally(code, marks(l))) == tally(first, marks(l)) + tally(second, marks(l)) by {
        lemma_tally_add(first, second, marks(l));
    }
    assert forall|l: LabelView| #[trigger]
        tally(code, targets(l)) > 0 implies tally(code, marks(l)) == 1 || leaves(l, enclosing) by {
        lemma_tally_add(first, second, targets(l));
        lemma_tally_add(first, second, marks(l));
    }
}

/// Numbered code stays numbered inside any loop, if none of its jumps
/// needs one.
pub proof fn lemma_numbered_anywhere(
    code: Seq<InstrView>,
    a: Ids,
    b: Ids,
    enclosing: Option<nat>,
)
    requires
        numbered(code, a, b, None),
    ensures
        numbered(code, a, b, enclosing),
{
}

/// The temporaries of `a` with the loops and conditionals of `ids`.
pub open spec fn with_temps(ids: Ids, temps: nat) -> Ids {
    Ids { temps, ..ids }
}

/// The code that applies an operator declares its temporary and nothing else.
pub proof fn lemma_apply_is_numbered(
    op: crate::tac::Operator,
    t: nat,
    left: OperandView,
    right: OperandView,
    ids: Ids,
    enclosing: Option<nat>,
)
    requires
        t == ids.temps + 1,
    ensures
        numbered(apply(op, t, left, right), ids, with_temps(ids, t), enclosing),
{
    let first = InstrView::Declare(OperandView::Temp(t));
    let second = InstrView::Binary(op, OperandView::Temp(t), left, right);
    let code = apply(op, t, left, right);
    assert(code =~= Seq::empty().push(first).push(second));
    assert forall|f: spec_fn(InstrView) -> bool|
        (#[trigger] tally(code, f)) == (if f(first) {
            1nat
        } else {
            0nat
        }) + (if f(second) {
            1nat
        } else {
            0nat
        }) by {
        lemma_tally_push(Seq::empty().push(first), second, f);
        lemma_tally_push(Seq::empty(), first, f);
    }
    assert forall|u: nat| #[trigger]
        tally(code, declares(u)) == if ids.temps < u <= t {
            1nat
        } else {
            0nat
        } by {
        assert(declares(u)(first) == (u == t));
    }
    assert forall|l: LabelView| #[trigger] tally(code, marks(l)) == 0 by {}
    assert forall|l: LabelView| #[trigger] tally(code, targets(l)) == 0 by {}
}

/// The code of an expression is numbered by its temporaries alone.
pub proof fn lemma_expr_is_numbered(e: Expr, ids: Ids, enclosing: Option<nat>)
    ensures
        numbered(
            lower_expr(e, ids.temps).code,
            ids,
            with_temps(ids, lower_expr(e, ids.temps).temps),
            enclosing,
        ),
    decreases e,
{
    match e {
        Expr::Num(_) => {
            lemma_plain_is_numbered(Seq::empty(), ids, enclosing);
        },
        Expr::Var(_) => {
            lemma_plain_is_numbered(Seq::empty(), ids, enclosing);
        },
        Expr::Binary(op, left, right) => {
            let l = lower_expr(*left, ids.temps);
            let mid = with_temps(ids, l.temps);
            let r = lower_expr(*right, l.temps);
            let last = with_temps(ids, r.temps);
            let t = r.temps + 1;
            lemma_expr_is_numbered(*left, ids, enclosing);
            lemma_expr_is_numbered(*right, mid, enclosing);
            lemma_apply_is_numbered(op, t, l.name, r.name, last, enclosing);
            lemma_numbered_join(l.code, r.code, ids, mid, last, enclosing);
            lemma_numbered_join(
                l.code + r.code,
                apply(op, t, l.name, r.name),
                ids,
                last,
                with_temps(ids, t),
                enclosing,
            );
        },
        Expr::Call(f, args) => {
            let a = lower_arguments(args, ids.temps);
            let mid = with_temps(ids, a.temps);
            let t = a.temps + 1;
            lemma_arguments_are_numbered(args, ids, enclosing);
            lemma_plain_is_numbered(pass(a.names), mid, enclosing);
            lemma_numbered_join(a.code, pass(a.names), ids, mid, mid, enclosing);
            let call = seq![
                InstrView::Declare(OperandView::Temp(t)),
                InstrView::Call(f, OperandView::Temp(t)),
            ];
            lemma_call_is_numbered(f, t, mid, enclosing);
            lemma_numbered_join(
                a.code + pass(a.names),
                call,
                ids,
                mid,
                with_temps(ids, t),
                enclosing,
            );
        },
    }
}

/// The two instructions that close a call declare its temporary and
/// nothing else.
pub proof fn lemma_call_is_numbered(f: Seq<char>, t: nat, ids: Ids, enclosing: Option<nat>)
    requires
        t == ids.temps + 1,
    ensures
        numbered(
            seq![
                InstrView::Declare(OperandView::Temp(t)),
                InstrView::Call(f, OperandView::Temp(t)),
            ],
            ids,
            with_temps(ids, t),
            enclosing,
        ),
{
    let first = InstrView::Declare(OperandView::Temp(t));
    let second = InstrView::Call(f, OperandView::Temp(t));
    let code = seq![first, second];
    assert(code =~= Seq::empty().push(first).push(second));
    assert forall|g: spec_fn(InstrView) -> bool|
        (#[trigger] tally(code, g)) == (if g(first) {
            1nat
        } else {
            0nat
        }) + (if g(second) {
            1nat
        } else {
            0nat
        }) by {
        lemma_tally_push(Seq::empty().push(first), second, g);
        lemma_tally_push(Seq::empty(), first, g);
    }
    assert forall|u: nat| #[trigger]
        tally(code, declares(u)) == if ids.temps < u <= t {
            1nat
        } else {
            0nat
        } by {
        assert(declares(u)(first) == (u == t));
    }
    assert forall|l: LabelView| #[trigger] tally(code, marks(l)) == 0 by {}
    assert forall|l: LabelView| #[trigger] tally(code, targets(l)) == 0 by {}
}

/// The code of the arguments of a call is numbered by its temporaries alone.
pub proof fn lemma_arguments_are_numbered(args: Seq<Expr>, ids: Ids, enclosing: Option<nat>)
    ensures
        numbered(
            lower_arguments(args, ids.temps).code,
            ids,
            with_temps(ids, lower_arguments(args, ids.temps).temps),
            enclosing,
        ),
    decreases args,
{
    if args.len() == 0 {
        lemma_plain_is_numbered(Seq::empty(), ids, enclosing);
    } else {
        let before = lower_arguments(args.drop_last(), ids.temps);
        let mid = with_temps(ids, before.temps);
        let last = lower_expr(args.last(), before.temps);
        lemma_arguments_are_numbered(args.drop_last(), ids, enclosing);
        lemma_expr_is_numbered(args.last(), mid, enclosing);
        lemma_numbered_join(
            before.code,
            last.code,
            ids,
            mid,
            with_temps(ids, last.temps),
            enclosing,
        );
    }
}

/// The code of a condition is numbered by its temporaries alone.
pub proof fn lemma_condition_is_numbered(c: Condition, ids: Ids, enclosing: Option<nat>)
    ensures
        numbered(
            lower_condition(c, ids.temps).code,
            ids,
            with_temps(ids, lower_condition(c, ids.temps).temps),
            enclosing,
        ),
{
    let l = lower_expr(c.left, ids.temps);
    let mid = with_temps(ids, l.temps);
    let r = lower_expr(c.right, l.temps);
    let last = with_temps(ids, r.temps);
    let t = r.temps + 1;
    lemma_expr_is_numbered(c.left, ids, enclosing);
    lemma_expr_is_numbered(c.right, mid, enclosing);
    lemma_apply_is_numbered(c.op, t, l.name, r.name, last, enclosing);
    lemma_numbered_join(l.code, r.code, ids, mid, last, enclosing);
    lemma_numbered_join(
        l.code + r.code,
        apply(c.op, t, l.name, r.name),
        ids,
        last,
        with_temps(ids, t),
        enclosing,
    );
}

/// Whether `x` counts as of the sort `f`.
pub open spec fn one(f: spec_fn(InstrView) -> bool, x: InstrView) -> nat {
    if f(x) {
        1
    } else {
        0
    }
}

/// How many instructions of a loop are of a sort: those of its test, those
/// of its body, and those of the six that make it a loop.
pub proof fn lemma_loop_tally(
    id: nat,
    test: Seq<InstrView>,
    cond: OperandView,
    body: Seq<InstrView>,
    f: spec_fn(InstrView) -> bool,
)
    ensures
        tally(loop_code(id, test, cond, body), f) == tally(test, f) + tally(body, f) + one(
            f,
            InstrView::Label(label(LabelKind::LoopBegin, id)),
        ) + one(f, InstrView::BranchIf(label(LabelKind::LoopBody, id), cond)) + one(
            f,
            InstrView::Jump(label(LabelKind::EndLoop, id)),
        ) + one(f, InstrView::Label(label(LabelKind::LoopBody, id))) + one(
            f,
            InstrView::Jump(label(LabelKind::LoopBegin, id)),
        ) + one(f, InstrView::Label(label(LabelKind::EndLoop, id))),
{
    let x1 = InstrView::Label(label(LabelKind::LoopBegin, id));
    let x2 = InstrView::BranchIf(label(LabelKind::LoopBody, id), cond);
    let x3 = InstrView::Jump(label(LabelKind::EndLoop, id));
    let x4 = InstrView::Label(label(LabelKind::LoopBody, id));
    let x5 = InstrView::Jump(label(LabelKind::LoopBegin, id));
    let x6 = InstrView::Label(label(LabelKind::EndLoop, id));
    let opened = (Seq::empty().push(x1) + test).push(x2).push(x3).push(x4);
    assert(loop_code(id, test, cond, body) =~= (opened + body).push(x5).push(x6));
    lemma_tally_push(Seq::empty(), x1, f);
    lemma_tally_add(Seq::empty().push(x1), test, f);
    lemma_tally_push(Seq::empty().push(x1) + test, x2, f);
    lemma_tally_push((Seq::empty().push(x1) + test).push(x2), x3, f);
    lemma_tally_push((Seq::empty().push(x1) + test).push(x2).push(x3), x4, f);
    lemma_tally_add(opened, body, f);
    lemma_tally_push(opened + body, x5, f);
    lemma_tally_push((opened + body).push(x5), x6, f);
}

/// How many instructions of a conditional without a second branch are of
/// a sort.
pub proof fn lemma_if_tally(
    id: nat,
    test: Seq<InstrView>,
    cond: OperandView,
    then: Seq<InstrView>,
    f: spec_fn(InstrView) -> bool,
)
    ensures
        tally(if_code(id, test, cond, then), f) == tally(test, f) + tally(then, f) + one(
            f,
            InstrView::BranchIf(label(LabelKind::IfTrue, id), cond),
        ) + one(f, InstrView::Jump(label(LabelKind::EndIf, id))) + one(
            f,
            InstrView::Label(label(LabelKind::IfTrue, id)),
        ) + one(f, InstrView::Jump(label(LabelKind::EndIf, id))) + one(
            f,
            InstrView::Label(label(LabelKind::EndIf, id)),
        ),
{
    let x1 = InstrView::BranchIf(label(LabelKind::IfTrue, id), cond);
    let x2 = InstrView::Jump(label(LabelKind::EndIf, id));
    let x3 = InstrView::Label(label(LabelKind::IfTrue, id));
    let x5 = InstrView::Label(label(LabelKind::EndIf, id));
    let opened = test.push(x1).push(x2).push(x3);
    assert(if_code(id, test, cond, then) =~= (opened + then).push(x2).push(x5));
    lemma_tally_push(test, x1, f);
    lemma_tally_push(test.push(x1), x2, f);
    lemma_tally_push(test.push(x1).push(x2), x3, f);
    lemma_tally_add(opened, then, f);
    lemma_tally_push(opened + then, x2, f);
    lemma_tally_push((opened + then).push(x2), x5, f);
}

/// How many instructions of a conditional with two branches are of a sort.
pub proof fn lemma_if_else_tally(
    id: nat,
    test: Seq<InstrView>,
    cond: OperandView,
    then: Seq<InstrView>,
    otherwise: Seq<InstrView>,
    f: spec_fn(InstrView) -> bool,
)
    ensures
        tally(if_else_code(id, test, cond, then, otherwise), f) == tally(test, f) + tally(then, f)
            + tally(otherwise, f) + one(
            f,
            InstrView::BranchIf(label(LabelKind::IfTrue, id), cond),
        ) + one(f, InstrView::Jump(label(LabelKind::Else, id))) + one(
            f,
            InstrView::Label(label(LabelKind::IfTrue, id)),
        ) + one(f, InstrView::Jump(label(LabelKind::EndIf, id))) + one(
            f,
            InstrView::Label(label(LabelKind::Else, id)),
        ) + one(f, InstrView::Label(label(LabelKind::EndIf, id))),
{
    let x1 = InstrView::BranchIf(label(LabelKind::IfTrue, id), cond);
    let x2 = InstrView::Jump(label(LabelKind::Else, id));
    let x3 = InstrView::Label(label(LabelKind::IfTrue, id));
    let x4 = InstrView::Jump(label(LabelKind::EndIf, id));
    let x5 = InstrView::Label(label(LabelKind::Else, id));
    let x6 = InstrView::Label(label(LabelKind::EndIf, id));
    let opened = test.push(x1).push(x2).push(x3);
    let turned = (opened + then).push(x4).push(x5);
    assert(if_else_code(id, test, cond, then, otherwise) =~= (turned + otherwise).push(x6));
    lemma_tally_push(test, x1, f);
    lemma_tally_push(test.push(x1), x2, f);
    lemma_tally_push(test.push(x1).push(x2), x3, f);
    lemma_tally_add(opened, then, f);
    lemma_tally_push(opened + then, x4, f);
    lemma_tally_push((opened + then).push(x4), x5, f);
    lemma_tally_add(turned, otherwise, f);
    lemma_tally_push(turned + otherwise, x6, f);
}

/// The code of a loop is numbered, and none of its jumps leaves it: the
/// loop takes the next loop number, and its body is numbered behind that
/// number and inside this loop.
pub proof fn lemma_loop_is_numbered(
    test: Seq<InstrView>,
    cond: OperandView,
    body: Seq<InstrView>,
    a: Ids,
    m: nat,
    b: Ids,
)
    requires
        numbered(test, a, with_temps(a, m), None),
        numbered(body, Ids { temps: m, loops: a.loops + 1, ifs: a.ifs }, b, Some(a.loops + 1)),
    ensures
        numbered(loop_code(a.loops + 1, test, cond, body), a, b, None),
{
    let id = a.loops + 1;
    let code = loop_code(id, test, cond, body);
    let inner = Ids { temps: m, loops: id, ifs: a.ifs };
    assert forall|t: nat| #[trigger]
        tally(code, declares(t)) == if a.temps < t <= b.temps {
            1nat
        } else {
            0nat
        } by {
        lemma_loop_tally(id, test, cond, body, declares(t));
    }
    assert forall|l: LabelView|
        (#[trigger] tally(code, marks(l)) <= 1) && (tally(code, marks(l)) > 0 ==> owned(l, a, b))
            && (owned(l, a, b) && l.kind != LabelKind::Else ==> tally(code, marks(l)) == 1) && (
        tally(code, targets(l)) > 0 ==> tally(code, marks(l)) == 1) by {
        lemma_loop_tally(id, test, cond, body, marks(l));
        lemma_loop_tally(id, test, cond, body, targets(l));
        assert(tally(test, marks(l)) == 0);
        assert(tally(test, targets(l)) == 0);
        assert(tally(body, marks(l)) > 0 ==> owned(l, inner, b));
        assert(owned(l, inner, b) && l.kind != LabelKind::Else ==> tally(body, marks(l)) == 1);
    }
}

/// The code of a conditional without a second branch is numbered: the
/// conditional takes the next conditional number, and its branch is
/// numbered behind that number.
pub proof fn lemma_if_is_numbered(
    test: Seq<InstrView>,
    cond: OperandView,
    then: Seq<InstrView>,
    a: Ids,
    m: nat,
    b: Ids,
    enclosing: Option<nat>,
)
    requires
        numbered(test, a, with_temps(a, m), None),
        numbered(then, Ids { temps: m, loops: a.loops, ifs: a.ifs + 1 }, b, enclosing),
    ensures
        numbered(if_code(a.ifs + 1, test, cond, then), a, b, enclosing),
{
    let id = a.ifs + 1;
    let code = if_code(id, test, cond, then);
    let inner = Ids { temps: m, loops: a.loops, ifs: id };
    assert forall|t: nat| #[trigger]
        tally(code, declares(t)) == if a.temps < t <= b.temps {
            1nat
        } else {
            0nat
        } by {
        lemma_if_tally(id, test, cond, then, declares(t));
    }
    assert forall|l: LabelView|
        (#[trigger] tally(code, marks(l)) <= 1) && (tally(code, marks(l)) > 0 ==> owned(l, a, b))
            && (owned(l, a, b) && l.kind != LabelKind::Else ==> tally(code, marks(l)) == 1) && (
        tally(code, targets(l)) > 0 ==> tally(code, marks(l)) == 1 || leaves(l, enclosing)) by {
        lemma_if_tally(id, test, cond, then, marks(l));
        lemma_if_tally(id, test, cond, then, targets(l));
        assert(tally(test, marks(l)) == 0);
        assert(tally(test, targets(l)) == 0);
        assert(tally(then, marks(l)) > 0 ==> owned(l, inner, b));
        assert(owned(l, inner, b) && l.kind != LabelKind::Else ==> tally(then, marks(l)) == 1);
    }
}

/// The code of a conditional with two branches is numbered: the
/// conditional takes the next conditional number, its first branch is
/// numbered behind that number, and its second behind the first.
pub proof fn lemma_if_else_is_numbered(
    test: Seq<InstrView>,
    cond: OperandView,
    then: Seq<InstrView>,
    otherwise: Seq<InstrView>,
    a: Ids,
    m: nat,
    n: Ids,
    b: Ids,
    enclosing: Option<nat>,
)
    requires
        numbered(test, a, with_temps(a, m), None),
        numbered(then, Ids { temps: m, loops: a.loops, ifs: a.ifs + 1 }, n, enclosing),
        numbered(otherwise, n, b, enclosing),
    ensures
        numbered(if_else_code(a.ifs + 1, test, cond, then, otherwise), a, b, enclosing),
{
    let id = a.ifs + 1;
    let code = if_else_code(id, test, cond, then, otherwise);
    let inner = Ids { temps: m, loops: a.loops, ifs: id };
    assert forall|t: nat| #[trigger]
        tally(code, declares(t)) == if a.temps < t <= b.temps {
            1nat
        } else {
            0nat
        } by {
        lemma_if_else_tally(id, test, cond, then, otherwise, declares(t));
    }
    assert forall|l: LabelView|
        (#[trigger] tally(code, marks(l)) <= 1) && (tally(code, marks(l)) > 0 ==> owned(l, a, b))
            && (owned(l, a, b) && l.kind != LabelKind::Else ==> tally(code, marks(l)) == 1) && (
        tally(code, targets(l)) > 0 ==> tally(code, marks(l)) == 1 || leaves(l, enclosing)) by {
        lemma_if_else_tally(id, test, cond, then, otherwise, marks(l));
        lemma_if_else_tally(id, test, cond, then, otherwise, targets(l));
        assert(tally(test, marks(l)) == 0);
        assert(tally(test, targets(l)) == 0);
        assert(tally(then, marks(l)) > 0 ==> owned(l, inner, n));
        assert(tally(otherwise, marks(l)) > 0 ==> owned(l, n, b));
        assert(owned(l, inner, n) && l.kind != LabelKind::Else ==> tally(then, marks(l)) == 1);
        assert(owned(l, n, b) && l.kind != LabelKind::Else ==> tally(otherwise, marks(l)) == 1);
    }
}

/// A jump to the start or the end of the enclosing loop is numbered.
pub proof fn lemma_leave_is_numbered(kind: LabelKind, id: nat, ids: Ids)
    requires
        kind == LabelKind::LoopBegin || kind == LabelKind::EndLoop,
    ensures
        numbered(seq![InstrView::Jump(label(kind, id))], ids, ids, Some(id)),
{
    let x = InstrView::Jump(label(kind, id));
    let code = seq![x];
    assert(code =~= Seq::empty().push(x));
    assert forall|f: spec_fn(InstrView) -> bool| (#[trigger] tally(code, f)) == one(f, x) by {
        lemma_tally_push(Seq::empty(), x, f);
    }
    assert forall|t: nat| #[trigger] tally(code, declares(t)) == 0 by {}
    assert forall|l: LabelView| #[trigger] tally(code, marks(l)) == 0 by {}
    assert forall|l: LabelView| #[trigger]
        tally(code, targets(l)) > 0 implies leaves(l, Some(id)) by {}
}

/// The code of an expression followed by plain instructions is numbered
/// by the temporaries of the expression.
pub proof fn lemma_then_plain_is_numbered(
    e: Expr,
    tail: Seq<InstrView>,
    ids: Ids,
    enclosing: Option<nat>,
)
    requires
        forall|k: int| 0 <= k < tail.len() ==> plain(#[trigger] tail[k]),
    ensures
        numbered(
            lower_expr(e, ids.temps).code + tail,
            ids,
            with_temps(ids, lower_expr(e, ids.temps).temps),
            enclosing,
        ),
{
    let v = lower_expr(e, ids.temps);
    let last = with_temps(ids, v.temps);
    lemma_expr_is_numbered(e, ids, enclosing);
    lemma_plain_is_numbered(tail, last, enclosing);
    lemma_numbered_join(v.code, tail, ids, last, last, enclosing);
}

/// The code of a statement is numbered.
pub proof fn lemma_statement_is_numbered(s: Stmt, ids: Ids, enclosing: Option<nat>)
    ensures
        numbered(
            lower_statement(s, ids, enclosing).code,
            ids,
            lower_statement(s, ids, enclosing).ids,
            enclosing,
        ),
    decreases s,
{
    match s {
        Stmt::Declare(x) => {
            lemma_plain_is_numbered(
                seq![InstrView::Declare(OperandView::Var(x))],
                ids,
                enclosing,
            );
        },
        Stmt::DeclareInit(x, e) => {
            let v = lower_expr(e, ids.temps);
            lemma_then_plain_is_numbered(
                e,
                seq![
                    InstrView::Declare(OperandView::Var(x)),
                    InstrView::Move(OperandView::Var(x), v.name),
                ],
                ids,
                enclosing,
            );
        },
        Stmt::Assign(x, e) => {
            let v = lower_expr(e, ids.temps);
            let tail = seq![InstrView::Move(OperandView::Var(x), v.name)];
            lemma_then_plain_is_numbered(e, tail, ids, enclosing);
            assert(v.code.push(InstrView::Move(OperandView::Var(x), v.name)) =~= v.code + tail);
        },
        Stmt::Return(e) => {
            let v = lower_expr(e, ids.temps);
            let tail = seq![InstrView::Return(v.name)];
            lemma_then_plain_is_numbered(e, tail, ids, enclosing);
            assert(v.code.push(InstrView::Return(v.name)) =~= v.code + tail);
        },
        Stmt::Print(e) => {
            let v = lower_expr(e, ids.temps);
            let tail = seq![InstrView::Output(v.name)];
            lemma_then_plain_is_numbered(e, tail, ids, enclosing);
            assert(v.code.push(InstrView::Output(v.name)) =~= v.code + tail);
        },
        Stmt::Read(e) => {
            let v = lower_expr(e, ids.temps);
            let tail = seq![InstrView::Input(v.name)];
            lemma_then_plain_is_numbered(e, tail, ids, enclosing);
            assert(v.code.push(InstrView::Input(v.name)) =~= v.code + tail);
        },
        Stmt::Break => {
            match enclosing {
                Some(id) => lemma_leave_is_numbered(LabelKind::EndLoop, id, ids),
                None => lemma_plain_is_numbered(Seq::empty(), ids, enclosing),
            }
        },
        Stmt::Continue => {
            match enclosing {
                Some(id) => lemma_leave_is_numbered(LabelKind::LoopBegin, id, ids),
                None => lemma_plain_is_numbered(Seq::empty(), ids, enclosing),
            }
        },
        Stmt::While(cond, body) => {
            let id = ids.loops + 1;
            let c = lower_condition(cond, ids.temps);
            let inner = Ids { temps: c.temps, loops: id, ifs: ids.ifs };
            let b = lower_block(body, inner, Some(id));
            lemma_condition_is_numbered(cond, ids, None);
            lemma_block_is_numbered(body, inner, Some(id));
            lemma_loop_is_numbered(c.code, c.name, b.code, ids, c.temps, b.ids);
        },
        Stmt::If(cond, then) => {
            let id = ids.ifs + 1;
            let c = lower_condition(cond, ids.temps);
            let inner = Ids { temps: c.temps, loops: ids.loops, ifs: id };
            let t = lower_block(then, inner, enclosing);
            lemma_condition_is_numbered(cond, ids, None);
            lemma_block_is_numbered(then, inner, enclosing);
            lemma_if_is_numbered(c.code, c.name, t.code, ids, c.temps, t.ids, enclosing);
        },
        Stmt::IfElse(cond, then, otherwise) => {
            let id = ids.ifs + 1;
            let c = lower_condition(cond, ids.temps);
            let inner = Ids { temps: c.temps, loops: ids.loops, ifs: id };
            let t = lower_block(then, inner, enclosing);
            let o = lower_block(otherwise, t.ids, enclosing);
            lemma_condition_is_numbered(cond, ids, None);
            lemma_block_is_numbered(then, inner, enclosing);
            lemma_block_is_numbered(otherwise, t.ids, enclosing);
            lemma_if_else_is_numbered(
                c.code,
                c.name,
                t.code,
                o.code,
                ids,
                c.temps,
                t.ids,
                o.ids,
                enclosing,
            );
        },
    }
}

/// The code of a sequence of statements is numbered.
pub proof fn lemma_block_is_numbered(stmts: Seq<Stmt>, ids: Ids, enclosing: Option<nat>)
    ensures
        numbered(
            lower_block(stmts, ids, enclosing).code,
            ids,
            lower_block(stmts, ids, enclosing).ids,
            enclosing,
        ),
    decreases stmts,
{
    if stmts.len() == 0 {
        lemma_plain_is_numbered(Seq::empty(), ids, enclosing);
    } else {
        let before = lower_block(stmts.drop_last(), ids, enclosing);
        let last = lower_statement(stmts.last(), before.ids, enclosing);
        lemma_block_is_numbered(stmts.drop_last(), ids, enclosing);
        lemma_statement_is_numbered(stmts.last(), before.ids, enclosing);
        lemma_numbered_join(before.code, last.code, ids, before.ids, last.ids, enclosing);
    }
}

/// What a function does with its parameters is plain code.
pub proof fn lemma_receive_is_plain(params: Seq<Seq<char>>)
    ensures
        forall|k: int| 0 <= k < receive(params).len() ==> plain(#[trigger] receive(params)[k]),
    decreases params.len(),
{
    if params.len() > 0 {
        lemma_receive_is_plain(params.drop_last());
        let before = receive(params.drop_last());
        let name = OperandView::Var(params.last());
        let tail = seq![
            InstrView::Declare(name),
            InstrView::Move(name, OperandView::Arg((params.len() - 1) as nat)),
        ];
        assert(receive(params) == before + tail);
        assert forall|k: int| 0 <= k < receive(params).len() implies plain(
            #[trigger] receive(params)[k],
        ) by {
            if k < before.len() {
                assert(receive(params)[k] == before[k]);
            } else {
                assert(receive(params)[k] == tail[k - before.len()]);
            }
        }
    }
}

/// The code of a function is numbered.
pub proof fn lemma_function_is_numbered(f: Function, ids: Ids, enclosing: Option<nat>)
    ensures
        numbered(
            lower_function(f, ids, enclosing).code,
            ids,
            lower_function(f, ids, enclosing).ids,
            enclosing,
        ),
{
    let body = lower_block(f.body, ids, enclosing);
    let head = seq![InstrView::Func(f.name)] + receive(f.params);
    let foot = seq![InstrView::EndFunc];
    lemma_receive_is_plain(f.params);
    lemma_plain_is_numbered(head, ids, enclosing);
    lemma_block_is_numbered(f.body, ids, enclosing);
    lemma_plain_is_numbered(foot, body.ids, enclosing);
    lemma_numbered_join(head, body.code, ids, ids, body.ids, enclosing);
    lemma_numbered_join(head + body.code, foot, ids, body.ids, body.ids, enclosing);
}

/// The code of a program is numbered.
pub proof fn lemma_program_is_numbered(fs: Seq<Function>, ids: Ids, enclosing: Option<nat>)
    ensures
        numbered(
            lower_program(fs, ids, enclosing).code,
            ids,
            lower_program(fs, ids, enclosing).ids,
            enclosing,
        ),
    decreases fs.len(),
{
    if fs.len() == 0 {
        lemma_plain_is_numbered(Seq::empty(), ids, enclosing);
    } else {
        let before = lower_program(fs.drop_last(), ids, enclosing);
        let last = lower_function(fs.last(), before.ids, enclosing);
        lemma_program_is_numbered(fs.drop_last(), ids, enclosing);
        lemma_function_is_numbered(fs.last(), before.ids, enclosing);
        lemma_numbered_join(before.code, last.code, ids, before.ids, last.ids, enclosing);
    }
}

/// No temporary is declared twice in the code of a program, whatever the
/// counters stood at when it was lowered.
pub proof fn lemma_temporaries_are_declared_once(
    fs: Seq<Function>,
    ids: Ids,
    enclosing: Option<nat>,
    t: nat,
)
    ensures
        tally(lower_program(fs, ids, enclosing).code, declares(t)) <= 1,
{
    lemma_program_is_numbered(fs, ids, enclosing);
}

/// In the code of a function that no loop encloses, no label stands twice,
/// and every label that an instruction jumps to stands once.
pub proof fn lemma_jumps_lead_to_labels(f: Function, ids: Ids, l: LabelView)
    ensures
        tally(lower_function(f, ids, None).code, marks(l)) <= 1,
        tally(lower_function(f, ids, None).code, targets(l)) > 0 ==> tally(
            lower_function(f, ids, None).code,
            marks(l),
        ) == 1,
{
    lemma_function_is_numbered(f, ids, None);
}

/// Every jump in the code of a loop leads to a label that stands in that
/// code, once, and that was numbered for this loop or inside it: `break`
/// and `continue` never lead to a label of a loop around it.
pub proof fn lemma_loop_keeps_its_jumps(
    cond: Condition,
    body: Seq<Stmt>,
    ids: Ids,
    enclosing: Option<nat>,
    l: LabelView,
)
    ensures
        ({
            let lowered = lower_statement(Stmt::While(cond, body), ids, enclosing);
            tally(lowered.code, targets(l)) > 0 ==> {
                &&& tally(lowered.code, marks(l)) == 1
                &&& owned(l, ids, lowered.ids)
            }
        }),
{
    let id = ids.loops + 1;
    let c = lower_condition(cond, ids.temps);
    let inner = Ids { temps: c.temps, loops: id, ifs: ids.ifs };
    let b = lower_block(body, inner, Some(id));
    lemma_condition_is_numbered(cond, ids, None);
    lemma_block_is_numbered(body, inner, Some(id));
    lemma_loop_is_numbered(c.code, c.name, b.code, ids, c.temps, b.ids);
}

/// The code that is generated for a token sequence from fresh counters is
/// numbered from zero: what the lemmas above say of lowered programs
/// holds of every program that parses.
pub proof fn lemma_generated_code_is_numbered(tokens: Seq<Lexeme>)
    ensures
        program(tokens, 0, false, Seq::empty()) matches Parsed::Done { value, .. } ==> ({
            let zero = Ids { temps: 0, loops: 0, ifs: 0 };
            numbered(
                lower_program(value, zero, None).code,
                zero,
                lower_program(value, zero, None).ids,
                None,
            )
        }),
{
    if let Parsed::Done { value, .. } = program(tokens, 0, false, Seq::empty()) {
        lemma_program_is_numbered(value, Ids { temps: 0, loops: 0, ifs: 0 }, None);
    }
}

/// A loop sets exactly its three labels under its own number, each once.
pub proof fn lemma_loop_sets_its_labels(
    cond: Condition,
    body: Seq<Stmt>,
    ids: Ids,
    enclosing: Option<nat>,
)
    ensures
        ({
            let code = lower_statement(Stmt::While(cond, body), ids, enclosing).code;
            let id = ids.loops + 1;
            &&& tally(code, marks(label(LabelKind::LoopBegin, id))) == 1
            &&& tally(code, marks(label(LabelKind::LoopBody, id))) == 1
            &&& tally(code, marks(label(LabelKind::EndLoop, id))) == 1
        }),
{
    let id = ids.loops + 1;
    let c = lower_condition(cond, ids.temps);
    let inner = Ids { temps: c.temps, loops: id, ifs: ids.ifs };
    let b = lower_block(body, inner, Some(id));
    lemma_condition_is_numbered(cond, ids, None);
    lemma_block_is_numbered(body, inner, Some(id));
    lemma_loop_is_numbered(c.code, c.name, b.code, ids, c.temps, b.ids);
}

/// A conditional without a second branch sets `IfTrue` and `EndIf` under
/// its own number, each once, and no `Else`; one with a second branch sets
/// all three, each once.
pub proof fn lemma_conditional_sets_its_labels(
    cond: Condition,
    then: Seq<Stmt>,
    otherwise: Seq<Stmt>,
    ids: Ids,
    enclosing: Option<nat>,
)
    ensures
        ({
            let one = lower_statement(Stmt::If(cond, then), ids, enclosing).code;
            let two = lower_statement(Stmt::IfElse(cond, then, otherwise), ids, enclosing).code;
            let id = ids.ifs + 1;
            &&& tally(one, marks(label(LabelKind::IfTrue, id))) == 1
            &&& tally(one, marks(label(LabelKind::EndIf, id))) == 1
            &&& tally(one, marks(label(LabelKind::Else, id))) == 0
            &&& tally(two, marks(label(LabelKind::IfTrue, id))) == 1
            &&& tally(two, marks(label(LabelKind::EndIf, id))) == 1
            &&& tally(two, marks(label(LabelKind::Else, id))) == 1
        }),
{
    let id = ids.ifs + 1;
    let c = lower_condition(cond, ids.temps);
    let inner = Ids { temps: c.temps, loops: ids.loops, ifs: id };
    let t = lower_block(then, inner, enclosing);
    let o = lower_block(otherwise, t.ids, enclosing);
    let l = label(LabelKind::Else, id);
    lemma_statement_is_numbered(Stmt::If(cond, then), ids, enclosing);
    lemma_statement_is_numbered(Stmt::IfElse(cond, then, otherwise), ids, enclosing);
    lemma_condition_is_numbered(cond, ids, None);
    lemma_block_is_numbered(then, inner, enclosing);
    lemma_block_is_numbered(otherwise, t.ids, enclosing);
    lemma_if_tally(id, c.code, c.name, t.code, marks(l));
    lemma_if_else_tally(id, c.code, c.name, t.code, o.code, marks(l));
    assert(tally(c.code, marks(l)) == 0);
    assert(tally(t.code, marks(l)) > 0 ==> owned(l, inner, t.ids));
    assert(tally(o.code, marks(l)) > 0 ==> owned(l, t.ids, o.ids));
}

/// `break` leads behind the loop that encloses it, `continue` to its
/// start; and the body of a loop is lowered inside that loop, whatever
/// loop is around it: the innermost loop is the one that is left.
pub proof fn lemma_break_leaves_the_innermost_loop(
    cond: Condition,
    body: Seq<Stmt>,
    ids: Ids,
    enclosing: Option<nat>,
    inside: Ids,
)
    ensures
        ({
            let id = ids.loops + 1;
            let c = lower_condition(cond, ids.temps);
            let b = lower_block(body, Ids { temps: c.temps, loops: id, ifs: ids.ifs }, Some(id));
            &&& lower_statement(Stmt::While(cond, body), ids, enclosing).code == loop_code(
                id,
                c.code,
                c.name,
                b.code,
            )
            &&& lower_statement(Stmt::Break, inside, Some(id)).code == seq![
                InstrView::Jump(label(LabelKind::EndLoop, id)),
            ]
            &&& lower_statement(Stmt::Continue, inside, Some(id)).code == seq![
                InstrView::Jump(label(LabelKind::LoopBegin, id)),
            ]
        }),
{
}

/// How many operators and calls stand in an expression.
pub open spec fn operations_in_expr(e: Expr) -> nat
    decreases e,
{
    match e {
        Expr::Num(_) => 0,
        Expr::Var(_) => 0,
        Expr::Binary(_, left, right) => operations_in_expr(*left) + operations_in_expr(*right) + 1,
        Expr::Call(_, args) => operations_in_arguments(args) + 1,
    }
}

/// How many operators and calls stand in the arguments of a call.
pub open spec fn operations_in_arguments(args: Seq<Expr>) -> nat
    decreases args,
{
    if args.len() == 0 {
        0
    } else {
        operations_in_arguments(args.drop_last()) + operations_in_expr(args.last())
    }
}

/// How many operators and calls stand in a condition, its comparison
/// counted.
pub open spec fn operations_in_condition(c: Condition) -> nat {
    operations_in_expr(c.left) + operations_in_expr(c.right) + 1
}

/// How many operators, comparisons and calls stand in a statement.
pub open spec fn operations_in_statement(s: Stmt) -> nat
    decreases s,
{
    match s {
        Stmt::Declare(_) => 0,
        Stmt::DeclareInit(_, e) => operations_in_expr(e),
        Stmt::Assign(_, e) => operations_in_expr(e),
        Stmt::Return(e) => operations_in_expr(e),
        Stmt::Print(e) => operations_in_expr(e),
        Stmt::Read(e) => operations_in_expr(e),
        Stmt::Break => 0,
        Stmt::Continue => 0,
        Stmt::While(cond, body) => operations_in_condition(cond) + operations_in_block(body),
        Stmt::If(cond, then) => operations_in_condition(cond) + operations_in_block(then),
        Stmt::IfElse(cond, then, otherwise) => operations_in_condition(cond) + operations_in_block(
            then,
        ) + operations_in_block(otherwise),
    }
}

/// How many operators, comparisons and calls stand in a sequence of
/// statements.
pub open spec fn operations_in_block(stmts: Seq<Stmt>) -> nat
    decreases stmts,
{
    if stmts.len() == 0 {
        0
    } else {
        operations_in_block(stmts.drop_last()) + operations_in_statement(stmts.last())
    }
}

/// How many operators, comparisons and calls stand in a program.
pub open spec fn operations_in_program(fs: Seq<Function>) -> nat
    decreases fs.len(),
{
    if fs.len() == 0 {
        0
    } else {
        operations_in_program(fs.drop_last()) + operations_in_block(fs.last().body)
    }
}

/// An expression takes one temporary for each of its operators and calls.
pub proof fn lemma_expr_takes_its_operations(e: Expr, temps: nat)
    ensures
        lower_expr(e, temps).temps == temps + operations_in_expr(e),
    decreases e,
{
    match e {
        Expr::Binary(_, left, right) => {
            lemma_expr_takes_its_operations(*left, temps);
            lemma_expr_takes_its_operations(*right, lower_expr(*left, temps).temps);
        },
        Expr::Call(_, args) => {
            lemma_arguments_take_their_operations(args, temps);
        },
        _ => {},
    }
}

/// The arguments of a call take one temporary for each of their operators
/// and calls.
pub proof fn lemma_arguments_take_their_operations(args: Seq<Expr>, temps: nat)
    ensures
        lower_arguments(args, temps).temps == temps + operations_in_arguments(args),
    decreases args,
{
    if args.len() > 0 {
        lemma_arguments_take_their_operations(args.drop_last(), temps);
        lemma_expr_takes_its_operations(
            args.last(),
            lower_arguments(args.drop_last(), temps).temps,
        );
    }
}

/// A condition takes one temporary for each of its operators and calls and
/// one for its comparison.
pub proof fn lemma_condition_takes_its_operations(c: Condition, temps: nat)
    ensures
        lower_condition(c, temps).temps == temps + operations_in_condition(c),
{
    lemma_expr_takes_its_operations(c.left, temps);
    lemma_expr_takes_its_operations(c.right, lower_expr(c.left, temps).temps);
}

/// A statement takes one temporary for each of its operators, comparisons
/// and calls.
pub proof fn lemma_statement_takes_its_operations(s: Stmt, ids: Ids, enclosing: Option<nat>)
    ensures
        lower_statement(s, ids, enclosing).ids.temps == ids.temps + operations_in_statement(s),
    decreases s,
{
    match s {
        Stmt::DeclareInit(_, e) => lemma_expr_takes_its_operations(e, ids.temps),
        Stmt::Assign(_, e) => lemma_expr_takes_its_operations(e, ids.temps),
        Stmt::Return(e) => lemma_expr_takes_its_operations(e, ids.temps),
        Stmt::Print(e) => lemma_expr_takes_its_operations(e, ids.temps),
        Stmt::Read(e) => lemma_expr_takes_its_operations(e, ids.temps),
        Stmt::While(cond, body) => {
            let id = ids.loops + 1;
            let c = lower_condition(cond, ids.temps);
            lemma_condition_takes_its_operations(cond, ids.temps);
            lemma_block_takes_its_operations(
                body,
                Ids { temps: c.temps, loops: id, ifs: ids.ifs },
                Some(id),
            );
        },
        Stmt::If(cond, then) => {
            let c = lower_condition(cond, ids.temps);
            lemma_condition_takes_its_operations(cond, ids.temps);
            lemma_block_takes_its_operations(
                then,
                Ids { temps: c.temps, loops: ids.loops, ifs: ids.ifs + 1 },
                enclosing,
            );
        },
        Stmt::IfElse(cond, then, otherwise) => {
            let c = lower_condition(cond, ids.temps);
            let inner = Ids { temps: c.temps, loops: ids.loops, ifs: ids.ifs + 1 };
            lemma_condition_takes_its_operations(cond, ids.temps);
            lemma_block_takes_its_operations(then, inner, enclosing);
            lemma_block_takes_its_operations(
                otherwise,
                lower_block(then, inner, enclosing).ids,
                enclosing,
            );
        },
        _ => {},
    }
}

/// Statements take one temporary for each of their operators, comparisons
/// and calls.
pub proof fn lemma_block_takes_its_operations(stmts: Seq<Stmt>, ids: Ids, enclosing: Option<nat>)
    ensures
        lower_block(stmts, ids, enclosing).ids.temps == ids.temps + operations_in_block(stmts),
    decreases stmts,
{
    if stmts.len() > 0 {
        lemma_block_takes_its_operations(stmts.drop_last(), ids, enclosing);
        lemma_statement_takes_its_operations(
            stmts.last(),
            lower_block(stmts.drop_last(), ids, enclosing).ids,
            enclosing,
        );
    }
}

/// The code of a program declares as many temporaries as operators,
/// comparisons and calls stand in the program: those numbered behind where
/// the counter stood, one for each, and each once.
pub proof fn lemma_program_declares_its_operations(
    fs: Seq<Function>,
    ids: Ids,
    enclosing: Option<nat>,
)
    ensures
        lower_program(fs, ids, enclosing).ids.temps == ids.temps + operations_in_program(fs),
        forall|t: nat| #[trigger]
            tally(lower_program(fs, ids, enclosing).code, declares(t)) == if ids.temps < t
                <= ids.temps + operations_in_program(fs) {
                1nat
            } else {
                0nat
            },
    decreases fs.len(),
{
    lemma_program_is_numbered(fs, ids, enclosing);
    if fs.len() > 0 {
        lemma_program_declares_its_operations(fs.drop_last(), ids, enclosing);
        lemma_block_takes_its_operations(
            fs.last().body,
            lower_program(fs.drop_last(), ids, enclosing).ids,
            enclosing,
        );
    }
}

} // verus!
