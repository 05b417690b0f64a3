//! The text form of three-address code: one instruction per line.

use crate::tac::{Instr, InstrView, Label, LabelKind, LabelView, Operand, OperandView, Operator};
use crate::text::{decimal_value, digit_value};
use vstd::prelude::*;
use vstd::string::StringExecFns;

verus! {

/// The character that writes the digit `d`.
pub open spec fn digit_char(d: nat) -> char {
    ('0' as int + d) as char
}

/// The decimal digits of `n`, without leading zeros.
pub open spec fn digits(n: nat) -> Seq<char>
    decreases n,
{
    if n < 10 {
        seq![digit_char(n)]
    } else {
        digits(n / 10).push(digit_char(n % 10))
    }
}

/// The decimal text of `n`, with a minus sign if it is negative.
pub open spec fn number_text(n: int) -> Seq<char> {
    if n < 0 {
        seq!['-'] + digits((-n) as nat)
    } else {
        digits(n as nat)
    }
}

/// How an operand is written: a number in decimal, a variable by its name,
/// the temporary `n` as `_tempn`, the argument `n` as `$n`.
pub open spec fn operand_text(a: OperandView) -> Seq<char> {
    match a {
        OperandView::Num(n) => number_text(n as int),
        OperandView::Var(name) => name,
        OperandView::Temp(t) => "_temp"@ + digits(t),
        OperandView::Arg(k) => "$"@ + digits(k),
    }
}

/// The word that a label of the given role starts with.
pub open spec fn role_text(kind: LabelKind) -> Seq<char> {
    match kind {
        LabelKind::LoopBegin => "loopbegin"@,
        LabelKind::LoopBody => "loopbody"@,
        LabelKind::EndLoop => "endloop"@,
        LabelKind::IfTrue => "iftrue"@,
        LabelKind::Else => "else"@,
        LabelKind::EndIf => "endif"@,
    }
}

/// How a label is written: the word of its role, then its number.
pub open spec fn label_text(l: LabelView) -> Seq<char> {
    role_text(l.kind) + digits(l.id)
}

/// How an operator is written.
pub open spec fn operator_text(op: Operator) -> Seq<char> {
    match op {
        Operator::Add => "+"@,
        Operator::Sub => "-"@,
        Operator::Mul => "*"@,
        Operator::Div => "/"@,
        Operator::Mod => "%"@,
        Operator::Less => "<"@,
        Operator::LessEqual => "<="@,
        Operator::Greater => ">"@,
        Operator::GreaterEqual => ">="@,
        Operator::Equal => "=="@,
        Operator::NotEqual => "!="@,
    }
}

/// The line that writes an instruction: the opcode, the operands with
/// `, ` between them, and a line feed. The end of a function is followed
/// by an empty line.
pub open spec fn instr_text(i: InstrView) -> Seq<char> {
    match i {
        InstrView::Func(name) => "func "@ + name + "\n"@,
        InstrView::EndFunc => "endfunc\n\n"@,
        InstrView::Declare(a) => ". "@ + operand_text(a) + "\n"@,
        InstrView::Move(a, b) => "= "@ + operand_text(a) + ", "@ + operand_text(b) + "\n"@,
        InstrView::Binary(op, a, b, c) => operator_text(op) + " "@ + operand_text(a) + ", "@
            + operand_text(b) + ", "@ + operand_text(c) + "\n"@,
        InstrView::Label(l) => ": "@ + label_text(l) + "\n"@,
        InstrView::Jump(l) => ":= "@ + label_text(l) + "\n"@,
        InstrView::BranchIf(l, a) => "?:= "@ + label_text(l) + ", "@ + operand_text(a) + "\n"@,
        InstrView::Output(a) => ".> "@ + operand_text(a) + "\n"@,
        InstrView::Input(a) => ".< "@ + operand_text(a) + "\n"@,
        InstrView::Return(a) => "ret "@ + operand_text(a) + "\n"@,
        InstrView::Param(a) => "param "@ + operand_text(a) + "\n"@,
        InstrView::Call(name, a) => "call "@ + name + ", "@ + operand_text(a) + "\n"@,
    }
}

/// The text of a sequence of instructions: their lines, one after the other.
pub open spec fn code_text(code: Seq<InstrView>) -> Seq<char>
    decreases code.len(),
{
    if code.len() == 0 {
        Seq::empty()
    } else {
        code_text(code.drop_last()) + instr_text(code.last())
    }
}

/// Appends the decimal digits of `n` to `out`.
pub fn write_digits(out: &mut String, n: u64)
    ensures
        final(out)@ == old(out)@ + digits(n as nat),
    decreases n,
{
    if n >= 10 {
        write_digits(out, n / 10);
    }
    let d: u8 = (n % 10) as u8;
    let c: char = (48u8 + d) as char;
    assert(c == digit_char((n % 10) as nat));
    out.push(c);
    assert(out@ =~= old(out)@ + digits(n as nat));
}

/// Appends the decimal text of `n` to `out`.
pub fn write_number(out: &mut String, n: i32)
    ensures
        final(out)@ == old(out)@ + number_text(n as int),
{
    if n < 0 {
        out.push('-');
        write_digits(out, (-(n as i64)) as u64);
        assert(out@ =~= old(out)@ + number_text(n as int));
    } else {
        write_digits(out, n as u64);
    }
}

/// Appends an operand to `out`.
pub fn write_operand(out: &mut String, a: &Operand)
    ensures
        final(out)@ == old(out)@ + operand_text(a@),
{
    match a {
        Operand::Num(n) => {
            write_number(out, *n);
        },
        Operand::Var(name) => {
            out.append(name.as_str());
        },
        Operand::Temp(t) => {
            out.append("_temp");
            write_digits(out, *t);
            assert(out@ =~= old(out)@ + operand_text(a@));
        },
        Operand::Arg(k) => {
            out.append("$");
            write_digits(out, *k as u64);
            assert(out@ =~= old(out)@ + operand_text(a@));
        },
    }
}

/// Appends a label to `out`.
pub fn write_label(out: &mut String, l: &Label)
    ensures
        final(out)@ == old(out)@ + label_text(l@),
{
    match l.kind {
        LabelKind::LoopBegin => out.append("loopbegin"),
        LabelKind::LoopBody => out.append("loopbody"),
        LabelKind::EndLoop => out.append("endloop"),
        LabelKind::IfTrue => out.append("iftrue"),
        LabelKind::Else => out.append("else"),
        LabelKind::EndIf => out.append("endif"),
    }
    write_digits(out, l.id);
    assert(out@ =~= old(out)@ + label_text(l@));
}

/// Appends an operator to `out`.
pub fn write_operator(out: &mut String, op: Operator)
    ensures
        final(out)@ == old(out)@ + operator_text(op),
{
    match op {
        Operator::Add => out.append("+"),
        Operator::Sub => out.append("-"),
        Operator::Mul => out.append("*"),
        Operator::Div => out.append("/"),
        Operator::Mod => out.append("%"),
        Operator::Less => out.append("<"),
        Operator::LessEqual => out.append("<="),
        Operator::Greater => out.append(">"),
        Operator::GreaterEqual => out.append(">="),
        Operator::Equal => out.append("=="),
        Operator::NotEqual => out.append("!="),
    }
}

/// Appends `opcode`, one operand and a line feed to `out`.
fn write_unary(out: &mut String, opcode: &str, a: &Operand)
    ensures
        final(out)@ == old(out)@ + (opcode@ + operand_text(a@) + "\n"@),
{
    out.append(opcode);
    write_operand(out, a);
    out.append("\n");
    assert(out@ =~= old(out)@ + (opcode@ + operand_text(a@) + "\n"@));
}

/// Appends the line of one instruction to `out`.
pub fn write_instr(out: &mut String, i: &Instr)
    ensures
        final(out)@ == old(out)@ + instr_text(i@),
{
    match i {
        Instr::Func(name) => {
            out.append("func ");
            out.append(name.as_str());
            out.append("\n");
        },
        Instr::EndFunc => {
            out.append("endfunc\n\n");
        },
        Instr::Declare(a) => {
            write_unary(out, ". ", a);
        },
        Instr::Move(a, b) => {
            out.append("= ");
            write_operand(out, a);
            out.append(", ");
            write_operand(out, b);
            out.append("\n");
        },
        Instr::Binary(op, a, b, c) => {
            write_operator(out, *op);
            out.append(" ");
            write_operand(out, a);
            out.append(", ");
            write_operand(out, b);
            out.append(", ");
            write_operand(out, c);
            out.append("\n");
        },
        Instr::Label(l) => {
            out.append(": ");
            write_label(out, l);
            out.append("\n");
        },
        Instr::Jump(l) => {
            out.append(":= ");
            write_label(out, l);
            out.append("\n");
        },
        Instr::BranchIf(l, a) => {
            out.append("?:= ");
            write_label(out, l);
            out.append(", ");
            write_operand(out, a);
            out.append("\n");
        },
        Instr::Output(a) => {
            write_unary(out, ".> ", a);
        },
        Instr::Input(a) => {
            write_unary(out, ".< ", a);
        },
        Instr::Return(a) => {
            write_unary(out, "ret ", a);
        },
        Instr::Param(a) => {
            write_unary(out, "param ", a);
        },
        Instr::Call(name, a) => {
            out.append("call ");
            out.append(name.as_str());
            out.append(", ");
            write_operand(out, a);
            out.append("\n");
        },
    }
    assert(out@ =~= old(out)@ + instr_text(i@));
}

/// The text of `code`: the line of each instruction, in order.
pub fn render(code: &Vec<Instr>) -> (text: String)
    ensures
        text@ == code_text(code.deep_view()),
{
    let mut text = String::new();
    let mut k: usize = 0;
    let ghost all = code.deep_view();
    assert(all.take(0) =~= Seq::empty());
    while k < code.len()
        invariant
            k <= code.len(),
            all == code.deep_view(),
            text@ == code_text(all.take(k as int)),
        decreases code.len() - k,
    {
        write_instr(&mut text, &code[k]);
        proof {
            assert(all.take(k + 1).drop_last() =~= all.take(k as int));
            assert(all.take(k + 1).last() == code@[k as int]@);
        }
        k += 1;
    }
    assert(all.take(k as int) =~= all);
    text
}

/// The digits of a number write that number.
pub proof fn lemma_digits_write(n: nat)
    ensures
        decimal_value(digits(n)) == n,
    decreases n,
{
    reveal_with_fuel(decimal_value, 2);
    if n < 10 {
        assert(digits(n).drop_last() =~= Seq::empty());
        assert(digit_value(digit_char(n)) == n);
    } else {
        lemma_digits_write(n / 10);
        assert(digits(n).drop_last() =~= digits(n / 10));
        assert(digit_value(digit_char(n % 10)) == n % 10);
    }
}

/// Two temporaries with different numbers are written differently.
pub proof fn lemma_temporary_names_differ(a: nat, b: nat)
    requires
        a != b,
    ensures
        operand_text(OperandView::Temp(a)) != operand_text(OperandView::Temp(b)),
{
    lemma_digits_write(a);
    lemma_digits_write(b);
    let head = "_temp"@;
    if head + digits(a) == head + digits(b) {
        assert(digits(a) =~= (head + digits(a)).subrange(
            head.len() as int,
            (head + digits(a)).len() as int,
        ));
        assert(digits(b) =~= (head + digits(b)).subrange(
            head.len() as int,
            (head + digits(b)).len() as int,
        ));
    }
}

} // verus!
