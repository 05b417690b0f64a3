//! The parser of the textual intermediate code: it turns the tokens of one
//! function into instructions over numbered variables.

use crate::ir_lexer::{IRTok, IRTokView};
use crate::text::same_text;
use vstd::prelude::*;
use vstd::string::StringExecFns;

verus! {

/// An operand: a number, or a variable by the number it was declared with.
#[derive(Debug, Clone, Copy, PartialEq, Eq, Structural)]
pub enum Op {
    Num(i32),
    Var(i32),
}

/// What a name was declared as: an integer with its number, or an array
/// with its number and its length.
#[derive(Debug, Clone, Copy, PartialEq, Eq, Structural)]
pub enum VariableType {
    IntVar(i32),
    ArrayVar(i32, i32),
}

/// One instruction.
#[derive(Debug, Clone, Copy, PartialEq, Eq, Structural)]
pub enum Bytecode {
    /// The end of the function.
    End,
    Int(Op),
    IntArray(Op, Op),
    Out(Op),
    In(Op),
    Mov(Op, Op),
    Add(Op, Op, Op),
    Sub(Op, Op, Op),
    Mult(Op, Op, Op),
    Div(Op, Op, Op),
    Mod(Op, Op, Op),
    LessThan(Op, Op, Op),
    LessEqual(Op, Op, Op),
    NotEqual(Op, Op, Op),
    Equal(Op, Op, Op),
    GreaterEqual(Op, Op, Op),
    GreaterThan(Op, Op, Op),
    Return(Op),
}

/// Why a token sequence is not a function of the intermediate code.
#[derive(Debug, Clone, PartialEq, Eq)]
pub enum IrError {
    /// A token was required and none was left.
    UnexpectedEnd,
    /// The function does not open with `%func`.
    ExpectedFunc,
    /// `%func` is not followed by a name.
    ExpectedFunctionName,
    /// The line of `%func` goes on behind the name.
    ExpectedHeaderEnd,
    /// `%int` is not followed by a name.
    ExpectedIntOperand,
    /// `%int[]` is not followed by a name, a comma and a number.
    ExpectedArrayFormat,
    /// The name is declared a second time.
    Redeclared(String),
    /// The name is used and was not declared.
    Undeclared(String),
    /// The name is that of an array and stands where an integer is required.
    NotAnInteger(String),
    /// `%ret` is not followed by a name or a number.
    ExpectedReturnOperand,
    /// `%out` is not followed by a name or a number.
    ExpectedOutOperand,
    /// `%in` is not followed by a name.
    ExpectedInOperand,
    /// `%mov` is not followed by a name, a comma and a name or number.
    ExpectedMovFormat,
    /// The operands of `%mov` are not separated by a comma.
    MissingComma,
    /// The first operand of a three-operand instruction is no name.
    InvalidDest,
    /// The operands of a three-operand instruction are not separated by commas.
    ExpectedComma,
    /// The second operand of a three-operand instruction is no name or number.
    InvalidSrc1,
    /// The third operand of a three-operand instruction is no name or number.
    InvalidSrc2,
    /// No instruction starts with this token.
    InvalidInstruction,
    /// An instruction goes on behind its last operand.
    ExpectedNewline,
    /// Calls and jumps are not read yet.
    Unsupported,
    /// All variable numbers are given out.
    TooManyVariables,
}

/// An error as contracts see it.
pub enum IrFailure {
    UnexpectedEnd,
    ExpectedFunc,
    ExpectedFunctionName,
    ExpectedHeaderEnd,
    ExpectedIntOperand,
    ExpectedArrayFormat,
    Redeclared(Seq<char>),
    Undeclared(Seq<char>),
    NotAnInteger(Seq<char>),
    ExpectedReturnOperand,
    ExpectedOutOperand,
    ExpectedInOperand,
    ExpectedMovFormat,
    MissingComma,
    InvalidDest,
    ExpectedComma,
    InvalidSrc1,
    InvalidSrc2,
    InvalidInstruction,
    ExpectedNewline,
    Unsupported,
    TooManyVariables,
}

impl View for IrError {
    type V = IrFailure;

    open spec fn view(&self) -> IrFailure {
        match self {
            IrError::UnexpectedEnd => IrFailure::UnexpectedEnd,
            IrError::ExpectedFunc => IrFailure::ExpectedFunc,
            IrError::ExpectedFunctionName => IrFailure::ExpectedFunctionName,
            IrError::ExpectedHeaderEnd => IrFailure::ExpectedHeaderEnd,
            IrError::ExpectedIntOperand => IrFailure::ExpectedIntOperand,
            IrError::ExpectedArrayFormat => IrFailure::ExpectedArrayFormat,
            IrError::Redeclared(name) => IrFailure::Redeclared(name@),
            IrError::Undeclared(name) => IrFailure::Undeclared(name@),
            IrError::NotAnInteger(name) => IrFailure::NotAnInteger(name@),
            IrError::ExpectedReturnOperand => IrFailure::ExpectedReturnOperand,
            IrError::ExpectedOutOperand => IrFailure::ExpectedOutOperand,
            IrError::ExpectedInOperand => IrFailure::ExpectedInOperand,
            IrError::ExpectedMovFormat => IrFailure::ExpectedMovFormat,
            IrError::MissingComma => IrFailure::MissingComma,
            IrError::InvalidDest => IrFailure::InvalidDest,
            IrError::ExpectedComma => IrFailure::ExpectedComma,
            IrError::InvalidSrc1 => IrFailure::InvalidSrc1,
            IrError::InvalidSrc2 => IrFailure::InvalidSrc2,
            IrError::InvalidInstruction => IrFailure::InvalidInstruction,
            IrError::ExpectedNewline => IrFailure::ExpectedNewline,
            IrError::Unsupported => IrFailure::Unsupported,
            IrError::TooManyVariables => IrFailure::TooManyVariables,
        }
    }
}

impl IrFailure {
    /// The text of the message for this error. An error about a name
    /// holds the name.
    pub open spec fn message_text(self) -> Seq<char> {
        match self {
            IrFailure::UnexpectedEnd => "unexpected end."@,
            IrFailure::ExpectedFunc => "func IR needs to begin with '%func'"@,
            IrFailure::ExpectedFunctionName => "func IR must have an identifier name such as '%func main'"@,
            IrFailure::ExpectedHeaderEnd => "%func header must end with a newline"@,
            IrFailure::ExpectedIntOperand => "invalid instruction. expected identifier like '%int variable'"@,
            IrFailure::ExpectedArrayFormat => "invalid instruction. expected format like '%int[] array, 10'"@,
            IrFailure::Redeclared(name) => "invalid instruction. identifier '"@ + name
                + "' declared too many times"@,
            IrFailure::Undeclared(name) => "invalid instruction. identifier '"@ + name
                + "' has not been declared."@,
            IrFailure::NotAnInteger(name) => "invalid operand. "@ + name
                + " is an array, not an integer."@,
            IrFailure::ExpectedReturnOperand => "invalid instruction. expected format like '%ret variable'"@,
            IrFailure::ExpectedOutOperand => "invalid instruction. expected format like '%out variable'"@,
            IrFailure::ExpectedInOperand => "invalid instruction. expected format like '%in variable'"@,
            IrFailure::ExpectedMovFormat => "invalid instruction. expected format like '%mov variable, 10'"@,
            IrFailure::MissingComma => "invalid instruction. missing comma. expected format like '%mov variable, 10'"@,
            IrFailure::InvalidDest => "invalid dest."@,
            IrFailure::ExpectedComma => "invalid 3-address code. expected comma."@,
            IrFailure::InvalidSrc1 => "invalid src1."@,
            IrFailure::InvalidSrc2 => "invalid src2."@,
            IrFailure::InvalidInstruction => "invalid instruction."@,
            IrFailure::ExpectedNewline => "expected newline."@,
            IrFailure::Unsupported => "invalid instruction. calls and jumps are not read."@,
            IrFailure::TooManyVariables => "invalid instruction. too many variables."@,
        }
    }
}

/// The text `before`, the name and the text `after`, in a row.
fn around(before: &str, name: &String, after: &str) -> (text: String)
    ensures
        text@ == before@ + name@ + after@,
{
    let mut text = String::from_str(before);
    text.append(name.as_str());
    text.append(after);
    text
}

impl IrError {
    /// The message for this error, as shown to the user.
    pub fn message(&self) -> (text: String)
        ensures
            text@ == self@.message_text(),
    {
        match self {
            IrError::UnexpectedEnd => String::from_str("unexpected end."),
            IrError::ExpectedFunc => String::from_str("func IR needs to begin with '%func'"),
            IrError::ExpectedFunctionName => String::from_str(
                "func IR must have an identifier name such as '%func main'",
            ),
            IrError::ExpectedHeaderEnd => String::from_str("%func header must end with a newline"),
            IrError::ExpectedIntOperand => String::from_str(
                "invalid instruction. expected identifier like '%int variable'",
            ),
            IrError::ExpectedArrayFormat => String::from_str(
                "invalid instruction. expected format like '%int[] array, 10'",
            ),
            IrError::Redeclared(name) => around(
                "invalid instruction. identifier '",
                name,
                "' declared too many times",
            ),
            IrError::Undeclared(name) => around(
                "invalid instruction. identifier '",
                name,
                "' has not been declared.",
            ),
            IrError::NotAnInteger(name) => around(
                "invalid operand. ",
                name,
                " is an array, not an integer.",
            ),
            IrError::ExpectedReturnOperand => String::from_str(
                "invalid instruction. expected format like '%ret variable'",
            ),
            IrError::ExpectedOutOperand => String::from_str(
                "invalid instruction. expected format like '%out variable'",
            ),
            IrError::ExpectedInOperand => String::from_str(
                "invalid instruction. expected format like '%in variable'",
            ),
            IrError::ExpectedMovFormat => String::from_str(
                "invalid instruction. expected format like '%mov variable, 10'",
            ),
            IrError::MissingComma => String::from_str(
                "invalid instruction. missing comma. expected format like '%mov variable, 10'",
            ),
            IrError::InvalidDest => String::from_str("invalid dest."),
            IrError::ExpectedComma => String::from_str("invalid 3-address code. expected comma."),
            IrError::InvalidSrc1 => String::from_str("invalid src1."),
            IrError::InvalidSrc2 => String::from_str("invalid src2."),
            IrError::InvalidInstruction => String::from_str("invalid instruction."),
            IrError::ExpectedNewline => String::from_str("expected newline."),
            IrError::Unsupported => String::from_str(
                "invalid instruction. calls and jumps are not read.",
            ),
            IrError::TooManyVariables => String::from_str("invalid instruction. too many variables."),
        }
    }
}

/// A declared name.
#[derive(Debug)]
pub struct Variable {
    pub name: String,
    pub kind: VariableType,
}

/// What is known of the function being read: its name, the next variable
/// number, and the names declared so far, in the order of declaration.
#[derive(Debug)]
pub struct FunctionBytecode {
    pub name: String,
    pub id: i32,
    pub variables: Vec<Variable>,
}

/// A function being read as contracts see it.
pub struct FunctionView {
    pub name: Seq<char>,
    pub id: i32,
    pub variables: Seq<(Seq<char>, VariableType)>,
}

impl View for FunctionBytecode {
    type V = FunctionView;

    open spec fn view(&self) -> FunctionView {
        FunctionView {
            name: self.name@,
            id: self.id,
            variables: Seq::new(
                self.variables@.len(),
                |k: int| (self.variables@[k].name@, self.variables@[k].kind),
            ),
        }
    }
}

/// What `name` was declared as among `variables`, if it was declared.
pub open spec fn declared(variables: Seq<(Seq<char>, VariableType)>, name: Seq<char>) -> Option<
    VariableType,
>
    decreases variables.len(),
{
    if variables.len() == 0 {
        None
    } else if variables.last().0 == name {
        Some(variables.last().1)
    } else {
        declared(variables.drop_last(), name)
    }
}

impl FunctionView {
    /// This function with `name` declared as `kind` and the next number.
    pub open spec fn declare(self, name: Seq<char>, kind: VariableType) -> FunctionView {
        FunctionView {
            name: self.name,
            id: (self.id + 1) as i32,
            variables: self.variables.push((name, kind)),
        }
    }

    /// The operand that the integer variable `name` is, or why it is none:
    /// the name is that of an array, or it was not declared.
    pub open spec fn integer(self, name: Seq<char>) -> Result<Op, IrFailure> {
        match declared(self.variables, name) {
            Some(VariableType::IntVar(id)) => Ok(Op::Var(id)),
            Some(VariableType::ArrayVar(_, _)) => Err(IrFailure::NotAnInteger(name)),
            None => Err(IrFailure::Undeclared(name)),
        }
    }
}

/// The token at `i`, if there is one.
pub open spec fn token(tokens: Seq<IRTokView>, i: int) -> Option<IRTokView> {
    if 0 <= i < tokens.len() {
        Some(tokens[i])
    } else {
        None
    }
}

/// Where the cursor stands after a token at `i` was asked for: behind it,
/// or still at `i` if there was none.
pub open spec fn taken(tokens: Seq<IRTokView>, i: int) -> int {
    if 0 <= i < tokens.len() {
        i + 1
    } else {
        i
    }
}

/// The operand at `i`, which has to be a declared integer variable.
pub open spec fn destination(tokens: Seq<IRTokView>, i: int, f: FunctionView, error: IrFailure) -> Result<
    Op,
    IrFailure,
> {
    match token(tokens, i) {
        None => Err(IrFailure::UnexpectedEnd),
        Some(IRTokView::Var(name)) => f.integer(name),
        Some(_) => Err(error),
    }
}

/// The operand at `i`, which has to be a declared integer variable or a number.
pub open spec fn source(tokens: Seq<IRTokView>, i: int, f: FunctionView, error: IrFailure) -> Result<
    Op,
    IrFailure,
> {
    match token(tokens, i) {
        None => Err(IrFailure::UnexpectedEnd),
        Some(IRTokView::Var(name)) => f.integer(name),
        Some(IRTokView::Num(n)) => Ok(Op::Num(n)),
        Some(_) => Err(error),
    }
}

/// Why the token at `i` is no comma, if it is none.
pub open spec fn comma(tokens: Seq<IRTokView>, i: int, error: IrFailure) -> Option<IrFailure> {
    match token(tokens, i) {
        None => Some(IrFailure::UnexpectedEnd),
        Some(IRTokView::Comma) => None,
        Some(_) => Some(error),
    }
}

/// The three operands at `i`: a destination and two sources, with commas
/// between them. An error comes with the position the cursor stops at.
pub open spec fn operands(tokens: Seq<IRTokView>, i: int, f: FunctionView) -> Result<
    (Op, Op, Op),
    (IrFailure, int),
> {
    match destination(tokens, i, f, IrFailure::InvalidDest) {
        Err(e) => Err((e, taken(tokens, i))),
        Ok(dest) => match comma(tokens, i + 1, IrFailure::ExpectedComma) {
            Some(e) => Err((e, taken(tokens, i + 1))),
            None => match source(tokens, i + 2, f, IrFailure::InvalidSrc1) {
                Err(e) => Err((e, taken(tokens, i + 2))),
                Ok(src1) => match comma(tokens, i + 3, IrFailure::ExpectedComma) {
                    Some(e) => Err((e, taken(tokens, i + 3))),
                    None => match source(tokens, i + 4, f, IrFailure::InvalidSrc2) {
                        Err(e) => Err((e, taken(tokens, i + 4))),
                        Ok(src2) => Ok((dest, src1, src2)),
                    },
                },
            },
        },
    }
}

/// What reading one instruction gives: the instruction, the position behind
/// it and what is then known of the function; or the error, the position
/// the cursor stops at and what is then known of the function.
pub enum Step {
    Emit { code: Bytecode, next: int, state: FunctionView },
    Fail { error: IrFailure, at: int, state: FunctionView },
}

/// The end of an instruction: the line has to end at `i`.
pub open spec fn line_end(tokens: Seq<IRTokView>, i: int, code: Bytecode, state: FunctionView) -> Step {
    match token(tokens, i) {
        None => Step::Fail { error: IrFailure::UnexpectedEnd, at: i, state },
        Some(IRTokView::EndInstr) => Step::Emit { code, next: i + 1, state },
        Some(_) => Step::Fail { error: IrFailure::ExpectedNewline, at: i + 1, state },
    }
}

/// The instruction with three operands that `op` opens, if it opens one.
pub open spec fn three_operand(op: IRTokView, d: Op, a: Op, b: Op) -> Option<Bytecode> {
    match op {
        IRTokView::Add => Some(Bytecode::Add(d, a, b)),
        IRTokView::Sub => Some(Bytecode::Sub(d, a, b)),
        IRTokView::Mult => Some(Bytecode::Mult(d, a, b)),
        IRTokView::Div => Some(Bytecode::Div(d, a, b)),
        IRTokView::Mod => Some(Bytecode::Mod(d, a, b)),
        IRTokView::LessThan => Some(Bytecode::LessThan(d, a, b)),
        IRTokView::LessEqual => Some(Bytecode::LessEqual(d, a, b)),
        IRTokView::NotEqual => Some(Bytecode::NotEqual(d, a, b)),
        IRTokView::Equal => Some(Bytecode::Equal(d, a, b)),
        IRTokView::GreaterEqual => Some(Bytecode::GreaterEqual(d, a, b)),
        IRTokView::GreaterThan => Some(Bytecode::GreaterThan(d, a, b)),
        _ => None,
    }
}

/// Whether `op` opens an instruction with three operands.
pub open spec fn takes_three(op: IRTokView) -> bool {
    three_operand(op, Op::Num(0), Op::Num(0), Op::Num(0)) is Some
}

/// The declaration of `name` as `kind`, made at `i`: the name must be new
/// and a number must be left for it.
pub open spec fn declaration(
    tokens: Seq<IRTokView>,
    i: int,
    f: FunctionView,
    name: Seq<char>,
    kind: VariableType,
    code: Bytecode,
) -> Step {
    if declared(f.variables, name) is Some {
        Step::Fail { error: IrFailure::Redeclared(name), at: i, state: f }
    } else if f.id == i32::MAX {
        Step::Fail { error: IrFailure::TooManyVariables, at: i, state: f }
    } else {
        line_end(tokens, i, code, f.declare(name, kind))
    }
}

/// The instruction at `i`.
///
/// `%endfunc` gives `End` and is not taken. A declaration gives the name
/// the next number. Every other instruction reads its operands, which must
/// be numbers or declared integers, and must end with its line.
pub open spec fn instruction(tokens: Seq<IRTokView>, i: int, f: FunctionView) -> Step {
    match token(tokens, i) {
        None => Step::Fail { error: IrFailure::UnexpectedEnd, at: i, state: f },
        Some(IRTokView::EndFunc) => Step::Emit { code: Bytecode::End, next: i, state: f },
        Some(IRTokView::Int) => match token(tokens, i + 1) {
            None => Step::Fail { error: IrFailure::UnexpectedEnd, at: i + 1, state: f },
            Some(IRTokView::Var(name)) => declaration(
                tokens,
                i + 2,
                f,
                name,
                VariableType::IntVar(f.id),
                Bytecode::Int(Op::Var(f.id)),
            ),
            Some(_) => Step::Fail { error: IrFailure::ExpectedIntOperand, at: i + 2, state: f },
        },
        Some(IRTokView::IntArray) => match token(tokens, i + 1) {
            None => Step::Fail { error: IrFailure::UnexpectedEnd, at: i + 1, state: f },
            Some(IRTokView::Var(name)) => match comma(tokens, i + 2, IrFailure::ExpectedArrayFormat) {
                Some(error) => Step::Fail { error, at: taken(tokens, i + 2), state: f },
                None => match token(tokens, i + 3) {
                    None => Step::Fail { error: IrFailure::UnexpectedEnd, at: i + 3, state: f },
                    Some(IRTokView::Num(n)) => declaration(
                        tokens,
                        i + 4,
                        f,
                        name,
                        VariableType::ArrayVar(f.id, n),
                        Bytecode::IntArray(Op::Var(f.id), Op::Num(n)),
                    ),
                    Some(_) => Step::Fail {
                        error: IrFailure::ExpectedArrayFormat,
                        at: i + 4,
                        state: f,
                    },
                },
            },
            Some(_) => Step::Fail { error: IrFailure::ExpectedArrayFormat, at: i + 2, state: f },
        },
        Some(IRTokView::Call) => Step::Fail { error: IrFailure::Unsupported, at: i + 1, state: f },
        Some(IRTokView::Jump) => Step::Fail { error: IrFailure::Unsupported, at: i + 1, state: f },
        Some(IRTokView::BranchIf) => Step::Fail { error: IrFailure::Unsupported, at: i + 1, state: f },
        Some(IRTokView::BranchIfNot) => Step::Fail {
            error: IrFailure::Unsupported,
            at: i + 1,
            state: f,
        },
        Some(IRTokView::Return) => match source(tokens, i + 1, f, IrFailure::ExpectedReturnOperand) {
            Err(error) => Step::Fail { error, at: taken(tokens, i + 1), state: f },
            Ok(op) => line_end(tokens, i + 2, Bytecode::Return(op), f),
        },
        Some(IRTokView::Out) => match source(tokens, i + 1, f, IrFailure::ExpectedOutOperand) {
            Err(error) => Step::Fail { error, at: taken(tokens, i + 1), state: f },
            Ok(op) => line_end(tokens, i + 2, Bytecode::Out(op), f),
        },
        Some(IRTokView::In) => match destination(tokens, i + 1, f, IrFailure::ExpectedInOperand) {
            Err(error) => Step::Fail { error, at: taken(tokens, i + 1), state: f },
            Ok(op) => line_end(tokens, i + 2, Bytecode::In(op), f),
        },
        Some(IRTokView::Mov) => match destination(tokens, i + 1, f, IrFailure::ExpectedMovFormat) {
            Err(error) => Step::Fail { error, at: taken(tokens, i + 1), state: f },
            Ok(dest) => match comma(tokens, i + 2, IrFailure::MissingComma) {
                Some(error) => Step::Fail { error, at: taken(tokens, i + 2), state: f },
                None => match source(tokens, i + 3, f, IrFailure::ExpectedMovFormat) {
                    Err(error) => Step::Fail { error, at: taken(tokens, i + 3), state: f },
                    Ok(src) => line_end(tokens, i + 4, Bytecode::Mov(dest, src), f),
                },
            },
        },
        Some(op) => if takes_three(op) {
            match operands(tokens, i + 1, f) {
                Err((error, at)) => Step::Fail { error, at, state: f },
                Ok((d, a, b)) => line_end(tokens, i + 6, three_operand(op, d, a, b)->0, f),
            }
        } else {
            Step::Fail { error: IrFailure::InvalidInstruction, at: i, state: f }
        },
    }
}

/// What reading the instructions of a function gives: the position
/// behind them, or the error and the position the cursor stops at; either
/// way with the instructions that were read.
pub enum Listing {
    Whole { code: Seq<Bytecode>, next: int },
    Broken { code: Seq<Bytecode>, error: IrFailure, at: int },
}

/// The instructions from `i` on, behind the instructions `done`, up to and
/// with `End`, whose `%endfunc` is taken; or the first error, with the
/// instructions read before it.
pub open spec fn instructions(
    tokens: Seq<IRTokView>,
    i: int,
    f: FunctionView,
    done: Seq<Bytecode>,
) -> Listing
    decreases tokens.len() - i,
{
    proof {
        lemma_instruction_advances(tokens, i, f);
    }
    match instruction(tokens, i, f) {
        Step::Emit { code: Bytecode::End, next, .. } => Listing::Whole {
            code: done.push(Bytecode::End),
            next: next + 1,
        },
        Step::Emit { code, next, state } => instructions(tokens, next, state, done.push(code)),
        Step::Fail { error, at, .. } => Listing::Broken { code: done, error, at },
    }
}

/// What is known of a function when its name was read.
pub open spec fn opened(name: Seq<char>) -> FunctionView {
    FunctionView { name, id: 0, variables: Seq::empty() }
}

/// The function at `i`: `%func`, its name, the end of the line, and its
/// instructions up to and with `%endfunc`, behind the instructions `done`.
pub open spec fn function(tokens: Seq<IRTokView>, i: int, done: Seq<Bytecode>) -> Listing {
    match token(tokens, i) {
        None => Listing::Broken { code: done, error: IrFailure::UnexpectedEnd, at: i },
        Some(IRTokView::Func) => match token(tokens, i + 1) {
            None => Listing::Broken { code: done, error: IrFailure::UnexpectedEnd, at: i + 1 },
            Some(IRTokView::Var(name)) => match token(tokens, i + 2) {
                None => Listing::Broken { code: done, error: IrFailure::UnexpectedEnd, at: i + 2 },
                Some(IRTokView::EndInstr) => instructions(tokens, i + 3, opened(name), done),
                Some(_) => Listing::Broken {
                    code: done,
                    error: IrFailure::ExpectedHeaderEnd,
                    at: i + 3,
                },
            },
            Some(_) => Listing::Broken {
                code: done,
                error: IrFailure::ExpectedFunctionName,
                at: i + 2,
            },
        },
        Some(_) => Listing::Broken { code: done, error: IrFailure::ExpectedFunc, at: i + 1 },
    }
}

/// Whether `r` is the result that `expected` says: the same value, or an
/// error with the same view.
pub open spec fn same<T>(r: Result<T, IrError>, expected: Result<T, IrFailure>) -> bool {
    match expected {
        Ok(value) => r is Ok && r->Ok_0 == value,
        Err(error) => r is Err && r->Err_0@ == error,
    }
}

/// The token at `index`, if there is one.
pub fn peek<'a>(tokens: &'a Vec<IRTok>, index: usize) -> (r: Option<&'a IRTok>)
    ensures
        r == if index < tokens.len() {
            Some(&tokens@[index as int])
        } else {
            None
        },
{
    if index < tokens.len() {
        Some(&tokens[index])
    } else {
        None
    }
}

/// Takes the token at `index` and moves behind it, if there is one.
pub fn next<'a>(tokens: &'a Vec<IRTok>, index: &mut usize) -> (r: Option<&'a IRTok>)
    ensures
        r == if *old(index) < tokens.len() {
            Some(&tokens@[*old(index) as int])
        } else {
            None
        },
        *final(index) == taken(tokens.deep_view(), *old(index) as int),
{
    if *index < tokens.len() {
        let at = *index;
        *index += 1;
        Some(&tokens[at])
    } else {
        None
    }
}

/// The token at `index`, or the error that says that none is left.
pub fn peek_result<'a>(tokens: &'a Vec<IRTok>, index: usize) -> (r: Result<&'a IRTok, IrError>)
    ensures
        same(
            r,
            if index < tokens.len() {
                Ok(&tokens@[index as int])
            } else {
                Err(IrFailure::UnexpectedEnd)
            },
        ),
{
    if index < tokens.len() {
        Ok(&tokens[index])
    } else {
        Err(IrError::UnexpectedEnd)
    }
}

/// Takes the token at `index` and moves behind it, or gives the error that
/// says that none is left.
pub fn next_result<'a>(tokens: &'a Vec<IRTok>, index: &mut usize) -> (r: Result<&'a IRTok, IrError>)
    ensures
        same(
            r,
            if *old(index) < tokens.len() {
                Ok(&tokens@[*old(index) as int])
            } else {
                Err(IrFailure::UnexpectedEnd)
            },
        ),
        *final(index) == taken(tokens.deep_view(), *old(index) as int),
{
    if *index < tokens.len() {
        let at = *index;
        *index += 1;
        Ok(&tokens[at])
    } else {
        Err(IrError::UnexpectedEnd)
    }
}

/// The next variable number of `function`, which is then given out.
pub fn get_id(function: &mut FunctionBytecode) -> (id: i32)
    requires
        old(function).id < i32::MAX,
    ensures
        id == old(function).id,
        final(function).id == id + 1,
        final(function).name == old(function).name,
        final(function).variables == old(function).variables,
{
    let id = function.id;
    function.id = function.id + 1;
    id
}

/// What `ident` was declared as in `function`, if it was declared.
pub fn lookup(function: &FunctionBytecode, ident: &String) -> (r: Option<VariableType>)
    ensures
        r == declared(function@.variables, ident@),
{
    let ghost all = function@.variables;
    let mut k = function.variables.len();
    assert(all.take(k as int) =~= all);
    while k > 0
        invariant
            k <= function.variables.len(),
            all == function@.variables,
            declared(all, ident@) == declared(all.take(k as int), ident@),
        decreases k,
    {
        k -= 1;
        proof {
            let upto = all.take(k + 1);
            assert(upto.drop_last() =~= all.take(k as int));
            assert(upto.last() == all[k as int]);
        }
        if same_text(function.variables[k].name.as_str(), ident.as_str()) {
            return Some(function.variables[k].kind);
        }
    }
    None
}

/// The operand that the integer variable `ident` is in `function`, or the
/// error that names `ident`: it is an array, or it was not declared.
pub fn lookup_integer_variable_id(function: &FunctionBytecode, ident: &String) -> (r: Result<
    Op,
    IrError,
>)
    ensures
        same(r, function@.integer(ident@)),
{
    match lookup(function, ident) {
        Some(VariableType::IntVar(id)) => Ok(Op::Var(id)),
        Some(VariableType::ArrayVar(_, _)) => Err(IrError::NotAnInteger(ident.clone())),
        None => Err(IrError::Undeclared(ident.clone())),
    }
}

/// Takes the operand at the cursor, which has to be a declared integer variable.
fn read_destination(
    function: &FunctionBytecode,
    tokens: &Vec<IRTok>,
    idx: &mut usize,
    error: IrError,
) -> (r: Result<Op, IrError>)
    ensures
        same(r, destination(tokens.deep_view(), *old(idx) as int, function@, error@)),
        *final(idx) == taken(tokens.deep_view(), *old(idx) as int),
{
    match next_result(tokens, idx) {
        Err(e) => Err(e),
        Ok(IRTok::Var(ident)) => lookup_integer_variable_id(function, ident),
        Ok(_) => Err(error),
    }
}

/// Takes the operand at the cursor, which has to be a declared integer
/// variable or a number.
fn read_source(function: &FunctionBytecode, tokens: &Vec<IRTok>, idx: &mut usize, error: IrError) -> (r:
    Result<Op, IrError>)
    ensures
        same(r, source(tokens.deep_view(), *old(idx) as int, function@, error@)),
        *final(idx) == taken(tokens.deep_view(), *old(idx) as int),
{
    match next_result(tokens, idx) {
        Err(e) => Err(e),
        Ok(IRTok::Var(ident)) => lookup_integer_variable_id(function, ident),
        Ok(IRTok::Num(n)) => Ok(Op::Num(*n)),
        Ok(_) => Err(error),
    }
}

/// Takes the token at the cursor, which has to be a comma.
fn read_comma(tokens: &Vec<IRTok>, idx: &mut usize, error: IrError) -> (r: Result<(), IrError>)
    ensures
        match comma(tokens.deep_view(), *old(idx) as int, error@) {
            Some(e) => r is Err && r->Err_0@ == e,
            None => r is Ok,
        },
        *final(idx) == taken(tokens.deep_view(), *old(idx) as int),
{
    match next_result(tokens, idx) {
        Err(e) => Err(e),
        Ok(IRTok::Comma) => Ok(()),
        Ok(_) => Err(error),
    }
}

/// Reads the three operands of an instruction: a destination and two
/// sources, with commas between them.
pub fn addr_code3(function: &FunctionBytecode, tokens: &Vec<IRTok>, idx: &mut usize) -> (r: Result<
    (Op, Op, Op),
    IrError,
>)
    ensures
        match operands(tokens.deep_view(), *old(idx) as int, function@) {
            Ok(ops) => r is Ok && r->Ok_0 == ops && *final(idx) == *old(idx) + 5,
            Err((error, at)) => r is Err && r->Err_0@ == error && *final(idx) == at,
        },
{
    let dest = match read_destination(function, tokens, idx, IrError::InvalidDest) {
        Ok(op) => op,
        Err(e) => {
            return Err(e);
        },
    };
    match read_comma(tokens, idx, IrError::ExpectedComma) {
        Ok(()) => {},
        Err(e) => {
            return Err(e);
        },
    }
    let src1 = match read_source(function, tokens, idx, IrError::InvalidSrc1) {
        Ok(op) => op,
        Err(e) => {
            return Err(e);
        },
    };
    match read_comma(tokens, idx, IrError::ExpectedComma) {
        Ok(()) => {},
        Err(e) => {
            return Err(e);
        },
    }
    let src2 = match read_source(function, tokens, idx, IrError::InvalidSrc2) {
        Ok(op) => op,
        Err(e) => {
            return Err(e);
        },
    };
    Ok((dest, src1, src2))
}

/// Whether reading an instruction did what `expected` says: the result,
/// the cursor and what is known of the function.
pub open spec fn stepped(
    expected: Step,
    r: Result<Bytecode, IrError>,
    idx: int,
    function: FunctionView,
) -> bool {
    match expected {
        Step::Emit { code, next, state } => {
            &&& r is Ok
            &&& r->Ok_0 == code
            &&& idx == next
            &&& function == state
        },
        Step::Fail { error, at, state } => {
            &&& r is Err
            &&& r->Err_0@ == error
            &&& idx == at
            &&& function == state
        },
    }
}

/// Declares `ident` in `function` as the integer, or the array of length
/// `length`, with the next number.
fn declare(function: &mut FunctionBytecode, ident: &String, length: Option<i32>) -> (id: i32)
    requires
        old(function).id < i32::MAX,
    ensures
        id == old(function).id,
        final(function)@ == old(function)@.declare(
            ident@,
            match length {
                Some(n) => VariableType::ArrayVar(id, n),
                None => VariableType::IntVar(id),
            },
        ),
{
    let id = get_id(function);
    let kind = match length {
        Some(n) => VariableType::ArrayVar(id, n),
        None => VariableType::IntVar(id),
    };
    function.variables.push(Variable { name: ident.clone(), kind });
    assert(function@.variables =~= old(function)@.variables.push((ident@, kind)));
    id
}

/// Takes the end of the line behind an instruction.
fn read_line_end(tokens: &Vec<IRTok>, idx: &mut usize, code: Bytecode) -> (r: Result<
    Bytecode,
    IrError,
>)
    ensures
        forall|state: FunctionView|
            stepped(
                #[trigger] line_end(tokens.deep_view(), *old(idx) as int, code, state),
                r,
                *final(idx) as int,
                state,
            ),
{
    match next_result(tokens, idx) {
        Err(e) => Err(e),
        Ok(IRTok::EndInstr) => Ok(code),
        Ok(_) => Err(IrError::ExpectedNewline),
    }
}

/// Reads one instruction.
///
/// A declaration gives its name the next number of `function`; a name
/// that is declared already gives the error that holds it, and `function`
/// stays as it was.
pub fn parse_instruction(function: &mut FunctionBytecode, tokens: &Vec<IRTok>, idx: &mut usize) -> (r:
    Result<Bytecode, IrError>)
    ensures
        stepped(
            instruction(tokens.deep_view(), *old(idx) as int, old(function)@),
            r,
            *final(idx) as int,
            final(function)@,
        ),
{
    let ghost start = *idx as int;
    let ghost all = tokens.deep_view();
    let opcode = match peek_result(tokens, *idx) {
        Ok(opcode) => opcode,
        Err(e) => {
            return Err(e);
        },
    };
    assert(token(all, start) == Some(opcode@));
    let bytecode = match opcode {
        IRTok::EndFunc => {
            return Ok(Bytecode::End);
        },
        IRTok::Int => {
            *idx += 1;
            let ident = match next_result(tokens, idx) {
                Ok(IRTok::Var(ident)) => ident,
                Ok(_) => {
                    return Err(IrError::ExpectedIntOperand);
                },
                Err(e) => {
                    return Err(e);
                },
            };
            if lookup(function, ident).is_some() {
                return Err(IrError::Redeclared(ident.clone()));
            }
            if function.id == i32::MAX {
                return Err(IrError::TooManyVariables);
            }
            let id = declare(function, ident, None);
            Bytecode::Int(Op::Var(id))
        },
        IRTok::IntArray => {
            *idx += 1;
            let ident = match next_result(tokens, idx) {
                Ok(IRTok::Var(ident)) => ident,
                Ok(_) => {
                    return Err(IrError::ExpectedArrayFormat);
                },
                Err(e) => {
                    return Err(e);
                },
            };
            match read_comma(tokens, idx, IrError::ExpectedArrayFormat) {
                Ok(()) => {},
                Err(e) => {
                    return Err(e);
                },
            }
            let num = match next_result(tokens, idx) {
                Ok(IRTok::Num(num)) => *num,
                Ok(_) => {
                    return Err(IrError::ExpectedArrayFormat);
                },
                Err(e) => {
                    return Err(e);
                },
            };
            if lookup(function, ident).is_some() {
                return Err(IrError::Redeclared(ident.clone()));
            }
            if function.id == i32::MAX {
                return Err(IrError::TooManyVariables);
            }
            let id = declare(function, ident, Some(num));
            Bytecode::IntArray(Op::Var(id), Op::Num(num))
        },
        IRTok::Call | IRTok::Jump | IRTok::BranchIf | IRTok::BranchIfNot => {
            *idx += 1;
            return Err(IrError::Unsupported);
        },
        IRTok::Return => {
            *idx += 1;
            match read_source(function, tokens, idx, IrError::ExpectedReturnOperand) {
                Ok(op) => Bytecode::Return(op),
                Err(e) => {
                    return Err(e);
                },
            }
        },
        IRTok::Out => {
            *idx += 1;
            match read_source(function, tokens, idx, IrError::ExpectedOutOperand) {
                Ok(op) => Bytecode::Out(op),
                Err(e) => {
                    return Err(e);
                },
            }
        },
        IRTok::In => {
            *idx += 1;
            match read_destination(function, tokens, idx, IrError::ExpectedInOperand) {
                Ok(op) => Bytecode::In(op),
                Err(e) => {
                    return Err(e);
                },
            }
        },
        IRTok::Mov => {
            *idx += 1;
            let dest = match read_destination(function, tokens, idx, IrError::ExpectedMovFormat) {
                Ok(op) => op,
                Err(e) => {
                    return Err(e);
                },
            };
            match read_comma(tokens, idx, IrError::MissingComma) {
                Ok(()) => {},
                Err(e) => {
                    return Err(e);
                },
            }
            match read_source(function, tokens, idx, IrError::ExpectedMovFormat) {
                Ok(src) => Bytecode::Mov(dest, src),
                Err(e) => {
                    return Err(e);
                },
            }
        },
        IRTok::Add | IRTok::Sub | IRTok::Mult | IRTok::Div | IRTok::Mod | IRTok::LessThan
        | IRTok::LessEqual | IRTok::NotEqual | IRTok::Equal | IRTok::GreaterEqual
        | IRTok::GreaterThan => {
            *idx += 1;
            let (d, a, b) = match addr_code3(function, tokens, idx) {
                Ok(ops) => ops,
                Err(e) => {
                    return Err(e);
                },
            };
            match opcode {
                IRTok::Add => Bytecode::Add(d, a, b),
                IRTok::Sub => Bytecode::Sub(d, a, b),
                IRTok::Mult => Bytecode::Mult(d, a, b),
                IRTok::Div => Bytecode::Div(d, a, b),
                IRTok::Mod => Bytecode::Mod(d, a, b),
                IRTok::LessThan => Bytecode::LessThan(d, a, b),
                IRTok::LessEqual => Bytecode::LessEqual(d, a, b),
                IRTok::NotEqual => Bytecode::NotEqual(d, a, b),
                IRTok::Equal => Bytecode::Equal(d, a, b),
                IRTok::GreaterEqual => Bytecode::GreaterEqual(d, a, b),
                _ => Bytecode::GreaterThan(d, a, b),
            }
        },
        _ => {
            return Err(IrError::InvalidInstruction);
        },
    };
    read_line_end(tokens, idx, bytecode)
}

/// Reads one function: `%func`, its name, and its instructions up to and
/// with `%endfunc`.
///
/// Each instruction is appended to `code` as it is read, `End` last; where
/// the result is an error, `code` holds the instructions read before it.
pub fn parse_ir(tokens: &Vec<IRTok>, idx: &mut usize, code: &mut Vec<Bytecode>) -> (r: Result<
    (),
    IrError,
>)
    ensures
        match function(tokens.deep_view(), *old(idx) as int, old(code)@) {
            Listing::Whole { code: all, next } => {
                &&& r is Ok
                &&& final(code)@ == all
                &&& *final(idx) == next
            },
            Listing::Broken { code: read, error, at } => {
                &&& r is Err
                &&& r->Err_0@ == error
                &&& final(code)@ == read
                &&& *final(idx) == at
            },
        },
{
    let ghost all = tokens.deep_view();
    match next_result(tokens, idx) {
        Ok(IRTok::Func) => {},
        Ok(_) => {
            return Err(IrError::ExpectedFunc);
        },
        Err(e) => {
            return Err(e);
        },
    }
    let name = match next_result(tokens, idx) {
        Ok(IRTok::Var(name)) => name.clone(),
        Ok(_) => {
            return Err(IrError::ExpectedFunctionName);
        },
        Err(e) => {
            return Err(e);
        },
    };
    match next_result(tokens, idx) {
        Ok(IRTok::EndInstr) => {},
        Ok(_) => {
            return Err(IrError::ExpectedHeaderEnd);
        },
        Err(e) => {
            return Err(e);
        },
    }
    let mut function_bytecode = FunctionBytecode { name, id: 0, variables: Vec::new() };
    assert(function_bytecode@ == opened(name@)) by {
        assert(function_bytecode@.variables =~= Seq::empty());
    }
    let ghost start = *idx as int;
    loop
        invariant
            all == tokens.deep_view(),
            start <= *idx <= tokens.len(),
            function(all, *old(idx) as int, old(code)@) == instructions(
                all,
                *idx as int,
                function_bytecode@,
                code@,
            ),
        decreases tokens.len() - *idx,
    {
        let ghost here = *idx as int;
        let ghost known = function_bytecode@;
        let bytecode = match parse_instruction(&mut function_bytecode, tokens, idx) {
            Ok(bytecode) => bytecode,
            Err(e) => {
                return Err(e);
            },
        };
        code.push(bytecode);
        proof {
            lemma_instruction_advances(all, here, known);
        }
        match bytecode {
            Bytecode::End => {
                assert(*idx < tokens.len());
                *idx += 1;
                return Ok(());
            },
            _ => {},
        }
        assert(here < *idx <= tokens.len());
    }
}

/// An instruction that was read ends behind where it starts, except `End`,
/// which stands at `%endfunc` and takes nothing.
pub proof fn lemma_instruction_advances(tokens: Seq<IRTokView>, i: int, f: FunctionView)
    ensures
        match instruction(tokens, i, f) {
            Step::Emit { code: Bytecode::End, next, .. } => next == i && 0 <= i < tokens.len(),
            Step::Emit { next, .. } => i < next <= tokens.len(),
            Step::Fail { .. } => true,
        },
{
}

} // verus!
