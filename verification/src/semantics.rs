//! What the code of an expression computes.
//!
//! The meaning of the operators is left open: whatever integers an
//! operator makes of two integers, the code that an expression is lowered
//! to leaves in its operand the value of the expression. Calls are left
//! out, since what a call returns is not the front end's to say.
//! Nothing here is compiled.

use crate::grammar::Expr;
use crate::lowering::{apply, lower_expr};
use crate::tac::{InstrView, OperandView, Operator};
use vstd::prelude::*;

verus! {

/// What the variables and temporaries hold.
pub type Store = Map<OperandView, int>;

/// What an operand stands for: a number for itself, anything else for
/// what the store holds for it.
pub open spec fn value(store: Store, a: OperandView) -> int {
    match a {
        OperandView::Num(n) => n as int,
        other => store[other],
    }
}

/// The value of an expression, where `meaning` says what the operators do.
pub open spec fn eval(e: Expr, store: Store, meaning: spec_fn(Operator, int, int) -> int) -> int
    decreases e,
{
    match e {
        Expr::Num(n) => n as int,
        Expr::Var(x) => store[OperandView::Var(x)],
        Expr::Binary(op, left, right) => meaning(
            op,
            eval(*left, store, meaning),
            eval(*right, store, meaning),
        ),
        Expr::Call(_, _) => 0,
    }
}

/// Whether no call stands in `e`.
pub open spec fn call_free(e: Expr) -> bool
    decreases e,
{
    match e {
        Expr::Num(_) => true,
        Expr::Var(_) => true,
        Expr::Binary(_, left, right) => call_free(*left) && call_free(*right),
        Expr::Call(_, _) => false,
    }
}

/// The store after one instruction: an operation and a move fill their
/// first operand, every other instruction leaves the store alone.
pub open spec fn step(i: InstrView, store: Store, meaning: spec_fn(Operator, int, int) -> int) -> Store {
    match i {
        InstrView::Binary(op, to, a, b) => store.insert(
            to,
            meaning(op, value(store, a), value(store, b)),
        ),
        InstrView::Move(to, from) => store.insert(to, value(store, from)),
        _ => store,
    }
}

/// The store after the instructions of `code`, one after the other.
pub open spec fn run(
    code: Seq<InstrView>,
    store: Store,
    meaning: spec_fn(Operator, int, int) -> int,
) -> Store
    decreases code.len(),
{
    if code.len() == 0 {
        store
    } else {
        step(code.last(), run(code.drop_last(), store, meaning), meaning)
    }
}

/// Whether `a` is a temporary numbered behind `from` and up to `to`.
pub open spec fn temporary_between(a: OperandView, from: nat, to: nat) -> bool {
    a matches OperandView::Temp(t) && from < t <= to
}

/// Whether two stores hold the same but for the temporaries numbered
/// behind `from` and up to `to`.
pub open spec fn same_but(first: Store, second: Store, from: nat, to: nat) -> bool {
    forall|a: OperandView| !temporary_between(a, from, to) ==> #[trigger] first[a] == second[a]
}

/// Running two pieces of code is running the first and then the second.
pub proof fn lemma_run_add(
    a: Seq<InstrView>,
    b: Seq<InstrView>,
    store: Store,
    meaning: spec_fn(Operator, int, int) -> int,
)
    ensures
        run(a + b, store, meaning) == run(b, run(a, store, meaning), meaning),
    decreases b.len(),
{
    if b.len() == 0 {
        assert(a + b =~= a);
    } else {
        lemma_run_add(a, b.drop_last(), store, meaning);
        assert((a + b).drop_last() =~= a + b.drop_last());
        assert((a + b).last() == b.last());
    }
}

/// The value of an expression depends on the variables only.
pub proof fn lemma_eval_reads_variables(
    e: Expr,
    first: Store,
    second: Store,
    meaning: spec_fn(Operator, int, int) -> int,
)
    requires
        forall|x: Seq<char>| #[trigger] first[OperandView::Var(x)] == second[OperandView::Var(x)],
    ensures
        eval(e, first, meaning) == eval(e, second, meaning),
    decreases e,
{
    match e {
        Expr::Binary(_, left, right) => {
            lemma_eval_reads_variables(*left, first, second, meaning);
            lemma_eval_reads_variables(*right, first, second, meaning);
        },
        _ => {},
    }
}

/// The code of an expression computes the expression: run from any
/// store, under any meaning of the operators, it leaves in the operand of
/// the expression the value that the expression has in that store. It
/// changes nothing but the temporaries that it declares.
pub proof fn lemma_code_computes_expression(
    e: Expr,
    temps: nat,
    store: Store,
    meaning: spec_fn(Operator, int, int) -> int,
)
    requires
        call_free(e),
    ensures
        ({
            let lowered = lower_expr(e, temps);
            let after = run(lowered.code, store, meaning);
            &&& value(after, lowered.name) == eval(e, store, meaning)
            &&& same_but(after, store, temps, lowered.temps)
            &&& temps <= lowered.temps
            &&& lowered.name is Temp ==> temporary_between(lowered.name, temps, lowered.temps)
        }),
    decreases e,
{
    match e {
        Expr::Binary(op, left, right) => {
            let l = lower_expr(*left, temps);
            let r = lower_expr(*right, l.temps);
            let t = r.temps + 1;
            let s1 = run(l.code, store, meaning);
            let s2 = run(r.code, s1, meaning);
            let last = apply(op, t, l.name, r.name);
            lemma_code_computes_expression(*left, temps, store, meaning);
            lemma_code_computes_expression(*right, l.temps, s1, meaning);
            lemma_eval_reads_variables(*right, s1, store, meaning);
            lemma_run_add(l.code, r.code, store, meaning);
            lemma_run_add(l.code + r.code, last, store, meaning);
            assert(last.drop_last() =~= seq![InstrView::Declare(OperandView::Temp(t))]);
            assert(last.drop_last().drop_last() =~= Seq::empty());
            reveal_with_fuel(run, 3);
            let s3 = run(last, s2, meaning);
            assert(s3 == s2.insert(
                OperandView::Temp(t),
                meaning(op, value(s2, l.name), value(s2, r.name)),
            ));
            assert(value(s2, l.name) == value(s1, l.name));
            assert forall|a: OperandView| !temporary_between(a, temps, t) implies #[trigger] s3[a]
                == store[a] by {
                assert(!temporary_between(a, temps, l.temps));
                assert(!temporary_between(a, l.temps, r.temps));
                assert(s1[a] == store[a]);
                assert(s2[a] == s1[a]);
            }
        },
        _ => {},
    }
}

} // verus!
