//! Three-address code: the instructions that the front end emits.

use vstd::prelude::*;

verus! {

/// The operator of a three-operand instruction.
#[derive(Debug, Clone, Copy, PartialEq, Eq, Structural)]
pub enum Operator {
    Add,
    Sub,
    Mul,
    Div,
    Mod,
    Less,
    LessEqual,
    Greater,
    GreaterEqual,
    Equal,
    NotEqual,
}

/// The role a label plays in the construct it belongs to.
#[derive(Debug, Clone, Copy, PartialEq, Eq, Structural)]
pub enum LabelKind {
    LoopBegin,
    LoopBody,
    EndLoop,
    IfTrue,
    Else,
    EndIf,
}

/// A jump target: the role and the number of the loop or conditional.
#[derive(Debug, Clone, Copy, PartialEq, Eq, Structural)]
pub struct Label {
    pub kind: LabelKind,
    pub id: u64,
}

/// A label as contracts see it.
pub struct LabelView {
    pub kind: LabelKind,
    pub id: nat,
}

impl View for Label {
    type V = LabelView;

    open spec fn view(&self) -> LabelView {
        LabelView { kind: self.kind, id: self.id as nat }
    }
}

/// What an instruction reads or writes.
#[derive(Debug)]
pub enum Operand {
    /// An integer literal.
    Num(i32),
    /// A variable of the source program.
    Var(String),
    /// A temporary, by its number.
    Temp(u64),
    /// An argument of the enclosing function, by its position.
    Arg(usize),
}

/// An operand as contracts see it.
pub enum OperandView {
    Num(i32),
    Var(Seq<char>),
    Temp(nat),
    Arg(nat),
}

impl View for Operand {
    type V = OperandView;

    open spec fn view(&self) -> OperandView {
        match self {
            Operand::Num(n) => OperandView::Num(*n),
            Operand::Var(name) => OperandView::Var(name@),
            Operand::Temp(t) => OperandView::Temp(*t as nat),
            Operand::Arg(k) => OperandView::Arg(*k as nat),
        }
    }
}

impl DeepView for Operand {
    type V = OperandView;

    open spec fn deep_view(&self) -> OperandView {
        self@
    }
}

impl Clone for Operand {
    fn clone(&self) -> (r: Self)
        ensures
            r@ == self@,
    {
        match self {
            Operand::Num(n) => Operand::Num(*n),
            Operand::Var(name) => Operand::Var(name.clone()),
            Operand::Temp(t) => Operand::Temp(*t),
            Operand::Arg(k) => Operand::Arg(*k),
        }
    }
}

/// One instruction.
#[derive(Debug)]
pub enum Instr {
    /// Opens a function.
    Func(String),
    /// Closes a function.
    EndFunc,
    /// Declares a variable or a temporary.
    Declare(Operand),
    /// Copies the second operand into the first.
    Move(Operand, Operand),
    /// Applies the operator to the last two operands and stores into the first.
    Binary(Operator, Operand, Operand, Operand),
    /// Marks a position.
    Label(Label),
    /// Jumps.
    Jump(Label),
    /// Jumps if the operand holds a true value.
    BranchIf(Label, Operand),
    /// Writes the operand out.
    Output(Operand),
    /// Reads into the operand.
    Input(Operand),
    /// Returns the operand from the function.
    Return(Operand),
    /// Hands the operand to the call that follows.
    Param(Operand),
    /// Calls the named function and stores what it returns.
    Call(String, Operand),
}

/// An instruction as contracts see it.
pub enum InstrView {
    Func(Seq<char>),
    EndFunc,
    Declare(OperandView),
    Move(OperandView, OperandView),
    Binary(Operator, OperandView, OperandView, OperandView),
    Label(LabelView),
    Jump(LabelView),
    BranchIf(LabelView, OperandView),
    Output(OperandView),
    Input(OperandView),
    Return(OperandView),
    Param(OperandView),
    Call(Seq<char>, OperandView),
}

impl View for Instr {
    type V = InstrView;

    open spec fn view(&self) -> InstrView {
        match self {
            Instr::Func(name) => InstrView::Func(name@),
            Instr::EndFunc => InstrView::EndFunc,
            Instr::Declare(a) => InstrView::Declare(a@),
            Instr::Move(a, b) => InstrView::Move(a@, b@),
            Instr::Binary(op, a, b, c) => InstrView::Binary(*op, a@, b@, c@),
            Instr::Label(l) => InstrView::Label(l@),
            Instr::Jump(l) => InstrView::Jump(l@),
            Instr::BranchIf(l, a) => InstrView::BranchIf(l@, a@),
            Instr::Output(a) => InstrView::Output(a@),
            Instr::Input(a) => InstrView::Input(a@),
            Instr::Return(a) => InstrView::Return(a@),
            Instr::Param(a) => InstrView::Param(a@),
            Instr::Call(name, a) => InstrView::Call(name@, a@),
        }
    }
}

impl DeepView for Instr {
    type V = InstrView;

    open spec fn deep_view(&self) -> InstrView {
        self@
    }
}

} // verus!
