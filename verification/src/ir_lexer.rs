//! The lexer of the textual intermediate code whose opcodes start with `%`:
//! one instruction per line, operands separated by commas.

use crate::text::{characters, decimal_value, digit, is_digit, same_text, text_between, unicode_whitespace};
use vstd::prelude::*;
use vstd::string::StrSliceExecFns;

verus! {

/// A token of the intermediate code.
#[derive(Debug)]
pub enum IRTok {
    Func,
    EndFunc,
    Int,
    IntArray,
    Call,
    Return,
    Out,
    In,
    Mov,
    Add,
    Sub,
    Mult,
    Div,
    Mod,
    LessThan,
    LessEqual,
    NotEqual,
    Equal,
    GreaterEqual,
    GreaterThan,
    Jump,
    BranchIf,
    BranchIfNot,
    Comma,
    LBrace,
    RBrace,
    /// The end of a line.
    EndInstr,
    Num(i32),
    Var(String),
}

/// A token of the intermediate code as contracts see it.
pub enum IRTokView {
    Func,
    EndFunc,
    Int,
    IntArray,
    Call,
    Return,
    Out,
    In,
    Mov,
    Add,
    Sub,
    Mult,
    Div,
    Mod,
    LessThan,
    LessEqual,
    NotEqual,
    Equal,
    GreaterEqual,
    GreaterThan,
    Jump,
    BranchIf,
    BranchIfNot,
    Comma,
    LBrace,
    RBrace,
    EndInstr,
    Num(i32),
    Var(Seq<char>),
}

impl View for IRTok {
    type V = IRTokView;

    open spec fn view(&self) -> IRTokView {
        match self {
            IRTok::Func => IRTokView::Func,
            IRTok::EndFunc => IRTokView::EndFunc,
            IRTok::Int => IRTokView::Int,
            IRTok::IntArray => IRTokView::IntArray,
            IRTok::Call => IRTokView::Call,
            IRTok::Return => IRTokView::Return,
            IRTok::Out => IRTokView::Out,
            IRTok::In => IRTokView::In,
            IRTok::Mov => IRTokView::Mov,
            IRTok::Add => IRTokView::Add,
            IRTok::Sub => IRTokView::Sub,
            IRTok::Mult => IRTokView::Mult,
            IRTok::Div => IRTokView::Div,
            IRTok::Mod => IRTokView::Mod,
            IRTok::LessThan => IRTokView::LessThan,
            IRTok::LessEqual => IRTokView::LessEqual,
            IRTok::NotEqual => IRTokView::NotEqual,
            IRTok::Equal => IRTokView::Equal,
            IRTok::GreaterEqual => IRTokView::GreaterEqual,
            IRTok::GreaterThan => IRTokView::GreaterThan,
            IRTok::Jump => IRTokView::Jump,
            IRTok::BranchIf => IRTokView::BranchIf,
            IRTok::BranchIfNot => IRTokView::BranchIfNot,
            IRTok::Comma => IRTokView::Comma,
            IRTok::LBrace => IRTokView::LBrace,
            IRTok::RBrace => IRTokView::RBrace,
            IRTok::EndInstr => IRTokView::EndInstr,
            IRTok::Num(n) => IRTokView::Num(*n),
            IRTok::Var(name) => IRTokView::Var(name@),
        }
    }
}

impl DeepView for IRTok {
    type V = IRTokView;

    open spec fn deep_view(&self) -> IRTokView {
        self@
    }
}

/// The opcode that `text` names, if it names one.
pub open spec fn opcode_of(text: Seq<char>) -> Option<IRTokView> {
    if text == "%func"@ {
        Some(IRTokView::Func)
    } else if text == "%endfunc"@ {
        Some(IRTokView::EndFunc)
    } else if text == "%int"@ {
        Some(IRTokView::Int)
    } else if text == "%int[]"@ {
        Some(IRTokView::IntArray)
    } else if text == "%call"@ {
        Some(IRTokView::Call)
    } else if text == "%ret"@ {
        Some(IRTokView::Return)
    } else if text == "%out"@ {
        Some(IRTokView::Out)
    } else if text == "%in"@ {
        Some(IRTokView::In)
    } else if text == "%mov"@ {
        Some(IRTokView::Mov)
    } else if text == "%add"@ {
        Some(IRTokView::Add)
    } else if text == "%sub"@ {
        Some(IRTokView::Sub)
    } else if text == "%mult"@ {
        Some(IRTokView::Mult)
    } else if text == "%div"@ {
        Some(IRTokView::Div)
    } else if text == "%mod"@ {
        Some(IRTokView::Mod)
    } else if text == "%lt"@ {
        Some(IRTokView::LessThan)
    } else if text == "%le"@ {
        Some(IRTokView::LessEqual)
    } else if text == "%neq"@ {
        Some(IRTokView::NotEqual)
    } else if text == "%eq"@ {
        Some(IRTokView::Equal)
    } else if text == "%gt"@ {
        Some(IRTokView::GreaterThan)
    } else if text == "%ge"@ {
        Some(IRTokView::GreaterEqual)
    } else if text == "%jmp"@ {
        Some(IRTokView::Jump)
    } else if text == "%branch_if"@ {
        Some(IRTokView::BranchIf)
    } else if text == "%branch_if_not"@ {
        Some(IRTokView::BranchIfNot)
    } else {
        None
    }
}

/// The opcode that `text` names, if it names one.
pub fn opcode(text: &str) -> (token: Option<IRTok>)
    ensures
        match opcode_of(text@) {
            Some(view) => token is Some && token->0@ == view,
            None => token is None,
        },
{
    if same_text(text, "%func") {
        Some(IRTok::Func)
    } else if same_text(text, "%endfunc") {
        Some(IRTok::EndFunc)
    } else if same_text(text, "%int") {
        Some(IRTok::Int)
    } else if same_text(text, "%int[]") {
        Some(IRTok::IntArray)
    } else if same_text(text, "%call") {
        Some(IRTok::Call)
    } else if same_text(text, "%ret") {
        Some(IRTok::Return)
    } else if same_text(text, "%out") {
        Some(IRTok::Out)
    } else if same_text(text, "%in") {
        Some(IRTok::In)
    } else if same_text(text, "%mov") {
        Some(IRTok::Mov)
    } else if same_text(text, "%add") {
        Some(IRTok::Add)
    } else if same_text(text, "%sub") {
        Some(IRTok::Sub)
    } else if same_text(text, "%mult") {
        Some(IRTok::Mult)
    } else if same_text(text, "%div") {
        Some(IRTok::Div)
    } else if same_text(text, "%mod") {
        Some(IRTok::Mod)
    } else if same_text(text, "%lt") {
        Some(IRTok::LessThan)
    } else if same_text(text, "%le") {
        Some(IRTok::LessEqual)
    } else if same_text(text, "%neq") {
        Some(IRTok::NotEqual)
    } else if same_text(text, "%eq") {
        Some(IRTok::Equal)
    } else if same_text(text, "%gt") {
        Some(IRTok::GreaterThan)
    } else if same_text(text, "%ge") {
        Some(IRTok::GreaterEqual)
    } else if same_text(text, "%jmp") {
        Some(IRTok::Jump)
    } else if same_text(text, "%branch_if") {
        Some(IRTok::BranchIf)
    } else if same_text(text, "%branch_if_not") {
        Some(IRTok::BranchIfNot)
    } else {
        None
    }
}

/// For each character of `code`, whether it is white space.
pub open spec fn whiteness(code: Seq<char>) -> Seq<bool> {
    Seq::new(code.len(), |k: int| unicode_whitespace(code[k]))
}

/// Whether the character at `i` is white space that does not end a line;
/// `white` says of each character whether it is white space.
pub open spec fn is_blank(code: Seq<char>, white: Seq<bool>, i: int) -> bool {
    white[i] && code[i] != '\n'
}

/// The first position at or behind `i` that holds no blank.
pub open spec fn blanks_end(code: Seq<char>, white: Seq<bool>, i: int) -> int
    decreases code.len() - i,
{
    if 0 <= i < code.len() && is_blank(code, white, i) {
        blanks_end(code, white, i + 1)
    } else {
        i
    }
}

/// Whether `c` ends an opcode without belonging to it.
pub open spec fn ends_opcode(c: char) -> bool {
    c == ',' || c == '\n' || c == ';'
}

/// Whether `c` ends a name without belonging to it.
pub open spec fn ends_name(c: char) -> bool {
    c == ',' || c == '\n' || c == '[' || c == ']' || c == ';'
}

/// The first position at or behind `i` that holds white space or a
/// character that ends an opcode.
pub open spec fn opcode_end(code: Seq<char>, white: Seq<bool>, i: int) -> int
    decreases code.len() - i,
{
    if 0 <= i < code.len() && !ends_opcode(code[i]) && !white[i] {
        opcode_end(code, white, i + 1)
    } else {
        i
    }
}

/// The first position at or behind `i` that holds white space or a
/// character that ends a name.
pub open spec fn name_end(code: Seq<char>, white: Seq<bool>, i: int) -> int
    decreases code.len() - i,
{
    if 0 <= i < code.len() && !ends_name(code[i]) && !white[i] {
        name_end(code, white, i + 1)
    } else {
        i
    }
}

/// The first position at or behind `i` that holds no digit.
pub open spec fn number_end(code: Seq<char>, i: int) -> int
    decreases code.len() - i,
{
    if 0 <= i < code.len() && is_digit(code[i]) {
        number_end(code, i + 1)
    } else {
        i
    }
}

/// The first position at or behind `i` that holds a line feed.
pub open spec fn comment_end(code: Seq<char>, i: int) -> int
    decreases code.len() - i,
{
    if 0 <= i < code.len() && code[i] != '\n' {
        comment_end(code, i + 1)
    } else {
        i
    }
}

/// The position behind a token that ends at `end`: a blank that ends it is
/// taken with it, anything else is left.
pub open spec fn behind(code: Seq<char>, white: Seq<bool>, end: int) -> int {
    if 0 <= end < code.len() && is_blank(code, white, end) {
        end + 1
    } else {
        end
    }
}

/// The number that the digits `text` write, if it is no more than the
/// largest `i32`.
pub open spec fn number_of(text: Seq<char>) -> Option<IRTokView> {
    if decimal_value(text) <= i32::MAX {
        Some(IRTokView::Num(decimal_value(text) as i32))
    } else {
        None
    }
}

/// The first token of `code` at or behind `i`, if there is one, and the
/// position behind it; `white` says of each character whether it is white
/// space.
///
/// Blanks before the token are skipped. A line feed is the token that ends
/// an instruction, and so is a comment, which runs from `;` to the line
/// feed and takes it. An opcode starts with `%`, a number with a digit, and
/// anything else but `,`, `[` and `]` starts a name. There is no token
/// where only blanks are left, where a comment runs into the end of the
/// text, where `%` starts no opcode, and where a number is too large.
pub open spec fn token_with(code: Seq<char>, white: Seq<bool>, i: int) -> (Option<IRTokView>, int) {
    let at = blanks_end(code, white, i);
    if !(0 <= at < code.len()) {
        (None, at)
    } else {
        let c = code[at];
        if c == '\n' {
            (Some(IRTokView::EndInstr), at + 1)
        } else if c == '%' {
            let end = opcode_end(code, white, at + 1);
            (opcode_of(code.subrange(at, end)), behind(code, white, end))
        } else if c == ',' {
            (Some(IRTokView::Comma), at + 1)
        } else if c == '[' {
            (Some(IRTokView::LBrace), at + 1)
        } else if c == ']' {
            (Some(IRTokView::RBrace), at + 1)
        } else if is_digit(c) {
            let end = number_end(code, at + 1);
            (number_of(code.subrange(at, end)), end)
        } else if c == ';' {
            let end = comment_end(code, at + 1);
            if end < code.len() {
                (Some(IRTokView::EndInstr), end + 1)
            } else {
                (None, end)
            }
        } else {
            let end = name_end(code, white, at + 1);
            (Some(IRTokView::Var(code.subrange(at, end))), behind(code, white, end))
        }
    }
}

/// The first token of `code` at or behind `i`, if there is one, and the
/// position behind it, with each character taken as the white space that
/// Unicode makes it.
pub open spec fn token_at(code: Seq<char>, i: int) -> (Option<IRTokView>, int) {
    token_with(code, whiteness(code), i)
}

/// The tokens of `code` from `i` on, behind the tokens `done`. They end
/// with the text, and before that where there is no token.
pub open spec fn tokens_from(code: Seq<char>, i: int, done: Seq<IRTokView>) -> Seq<IRTokView>
    decreases code.len() - i,
{
    if !(0 <= i < code.len()) {
        done
    } else {
        proof {
            lemma_token_advances(code, whiteness(code), i);
        }
        match token_at(code, i) {
            (Some(token), next) => tokens_from(code, next, done.push(token)),
            (None, _) => done,
        }
    }
}

/// The runs that `token_with` measures end behind where they start and not
/// behind the text.
pub proof fn lemma_runs_in_range(code: Seq<char>, white: Seq<bool>, i: int)
    requires
        0 <= i <= code.len(),
    ensures
        i <= blanks_end(code, white, i) <= code.len(),
        i <= opcode_end(code, white, i) <= code.len(),
        i <= name_end(code, white, i) <= code.len(),
        i <= number_end(code, i) <= code.len(),
        i <= comment_end(code, i) <= code.len(),
        forall|k: int| i <= k < number_end(code, i) ==> is_digit(#[trigger] code[k]),
    decreases code.len() - i,
{
    if i < code.len() {
        lemma_runs_in_range(code, white, i + 1);
    }
}

/// A token ends behind where it starts and not behind the text.
pub proof fn lemma_token_advances(code: Seq<char>, white: Seq<bool>, i: int)
    requires
        0 <= i < code.len(),
    ensures
        token_with(code, white, i).0 is Some ==> i < token_with(code, white, i).1 <= code.len(),
        i <= token_with(code, white, i).1 <= code.len(),
{
    lemma_runs_in_range(code, white, i);
    let at = blanks_end(code, white, i);
    if at < code.len() {
        lemma_runs_in_range(code, white, at + 1);
    }
}

/// For each character of `chars`, whether it is white space.
pub fn whitespace_of(chars: &Vec<char>) -> (white: Vec<bool>)
    ensures
        white@ == whiteness(chars@),
{
    let mut white: Vec<bool> = Vec::new();
    let mut k: usize = 0;
    while k < chars.len()
        invariant
            k <= chars.len(),
            white@ == whiteness(chars@).take(k as int),
        decreases chars.len() - k,
    {
        white.push(chars[k].is_whitespace());
        k += 1;
        assert(white@ =~= whiteness(chars@).take(k as int));
    }
    assert(whiteness(chars@).take(k as int) =~= whiteness(chars@));
    white
}

/// The first token of `chars` at or behind `i`, if there is one, and the
/// position behind it; `white` says of each character what it is taken
/// for, white space or not.
pub fn next_token(chars: &Vec<char>, white: &Vec<bool>, i: usize) -> (r: (Option<IRTok>, usize))
    requires
        i <= chars.len(),
        white.len() == chars.len(),
    ensures
        match token_with(chars@, white@, i as int).0 {
            Some(view) => r.0 is Some && r.0->0@ == view,
            None => r.0 is None,
        },
        r.1 == token_with(chars@, white@, i as int).1,
        i <= r.1 <= chars.len(),
{
    proof {
        lemma_runs_in_range(chars@, white@, i as int);
    }
    let mut at = i;
    while at < chars.len() && white[at] && chars[at] != '\n'
        invariant
            i <= at <= chars.len(),
            white.len() == chars.len(),
            blanks_end(chars@, white@, i as int) == blanks_end(chars@, white@, at as int),
        decreases chars.len() - at,
    {
        at += 1;
    }
    if at >= chars.len() {
        return (None, at);
    }
    proof {
        lemma_runs_in_range(chars@, white@, at + 1);
    }
    let c = chars[at];
    if c == '\n' {
        (Some(IRTok::EndInstr), at + 1)
    } else if c == '%' {
        let mut end = at + 1;
        while end < chars.len() && !(chars[end] == ',' || chars[end] == '\n' || chars[end] == ';')
            && !white[end]
            invariant
                at < end <= chars.len(),
                white.len() == chars.len(),
                opcode_end(chars@, white@, at + 1) == opcode_end(chars@, white@, end as int),
            decreases chars.len() - end,
        {
            end += 1;
        }
        let text = text_between(chars, at, end);
        let token = opcode(text.as_str());
        (token, skip_blank(chars, white, end))
    } else if c == ',' {
        (Some(IRTok::Comma), at + 1)
    } else if c == '[' {
        (Some(IRTok::LBrace), at + 1)
    } else if c == ']' {
        (Some(IRTok::RBrace), at + 1)
    } else if digit(c) {
        let mut end = at + 1;
        while end < chars.len() && digit(chars[end])
            invariant
                at < end <= chars.len(),
                number_end(chars@, at + 1) == number_end(chars@, end as int),
            decreases chars.len() - end,
        {
            end += 1;
        }
        proof {
            let text = chars@.subrange(at as int, end as int);
            assert forall|k: int| 0 <= k < text.len() implies is_digit(#[trigger] text[k]) by {
                assert(text[k] == chars@[at + k]);
            }
        }
        match crate::text::create_number(chars, at, end) {
            Some(value) => (Some(IRTok::Num(value)), end),
            None => (None, end),
        }
    } else if c == ';' {
        let mut end = at + 1;
        while end < chars.len() && chars[end] != '\n'
            invariant
                at < end <= chars.len(),
                comment_end(chars@, at + 1) == comment_end(chars@, end as int),
            decreases chars.len() - end,
        {
            end += 1;
        }
        if end < chars.len() {
            (Some(IRTok::EndInstr), end + 1)
        } else {
            (None, end)
        }
    } else {
        let mut end = at + 1;
        while end < chars.len() && !(chars[end] == ',' || chars[end] == '\n' || chars[end] == '['
            || chars[end] == ']' || chars[end] == ';') && !white[end]
            invariant
                at < end <= chars.len(),
                white.len() == chars.len(),
                name_end(chars@, white@, at + 1) == name_end(chars@, white@, end as int),
            decreases chars.len() - end,
        {
            end += 1;
        }
        let text = text_between(chars, at, end);
        (Some(IRTok::Var(text)), skip_blank(chars, white, end))
    }
}

/// The position behind a token that ends at `end`.
fn skip_blank(chars: &Vec<char>, white: &Vec<bool>, end: usize) -> (r: usize)
    requires
        end <= chars.len(),
        white.len() == chars.len(),
    ensures
        r == behind(chars@, white@, end as int),
        end <= r <= chars.len(),
{
    if end < chars.len() && white[end] && chars[end] != '\n' {
        end + 1
    } else {
        end
    }
}

/// The first token of `code`, if there is one, and the text behind it.
pub fn lex_ir_token(code: &str) -> (r: (Option<IRTok>, &str))
    ensures
        match token_at(code@, 0).0 {
            Some(view) => r.0 is Some && r.0->0@ == view,
            None => r.0 is None,
        },
        r.1@ == code@.subrange(token_at(code@, 0).1, code@.len() as int),
{
    let chars = characters(code);
    let white = whitespace_of(&chars);
    let (token, next) = next_token(&chars, &white, 0);
    (token, code.substring_char(next, chars.len()))
}

/// The tokens of `code`.
pub fn lex_ir(code: &str) -> (tokens: Vec<IRTok>)
    ensures
        tokens.deep_view() == tokens_from(code@, 0, Seq::empty()),
{
    let chars = characters(code);
    let white = whitespace_of(&chars);
    let mut tokens: Vec<IRTok> = Vec::new();
    let mut i: usize = 0;
    assert(tokens.deep_view() =~= Seq::empty());
    while i < chars.len()
        invariant
            chars@ == code@,
            white@ == whiteness(chars@),
            i <= chars.len(),
            tokens_from(chars@, 0, Seq::empty()) == tokens_from(
                chars@,
                i as int,
                tokens.deep_view(),
            ),
        decreases chars.len() - i,
    {
        let (token, next) = next_token(&chars, &white, i);
        proof {
            lemma_token_advances(chars@, white@, i as int);
        }
        match token {
            None => {
                return tokens;
            },
            Some(token) => {
                let ghost done = tokens.deep_view();
                tokens.push(token);
                assert(tokens.deep_view() =~= done.push(token@));
            },
        }
        i = next;
    }
    tokens
}

} // verus!
