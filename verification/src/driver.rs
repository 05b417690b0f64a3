//! From source text to the text of the generated code, and from an error
//! to the message that reports it.

use crate::codegen::generate;
use crate::error::SyntaxError;
use crate::grammar::{program, Parsed};
use crate::lexer::{lex, lexed, LexError, LexErrorKind, LexFailure, Scanned};
use crate::lowering::{lower_program, Ids};
use crate::render::{code_text, number_text, render, write_number};
use crate::token::Loc;
use vstd::prelude::*;
use vstd::string::StringExecFns;

verus! {

/// Why a source text could not be compiled.
#[derive(Debug)]
pub enum CompileError {
    /// The text is no sequence of tokens.
    Lexical(LexError),
    /// The tokens are no program. The location is that of the token the
    /// error is reported at; there is none where there is no token at all.
    Syntax { error: SyntaxError, location: Option<Loc> },
}

/// A compile error as contracts see it.
pub enum CompileFailure {
    Lexical(LexFailure),
    Syntax { error: SyntaxError, location: Option<Loc> },
}

impl View for CompileError {
    type V = CompileFailure;

    open spec fn view(&self) -> CompileFailure {
        match self {
            CompileError::Lexical(e) => CompileFailure::Lexical(e@),
            CompileError::Syntax { error, location } => CompileFailure::Syntax {
                error: *error,
                location: *location,
            },
        }
    }
}

/// The location that an error is reported at, when the cursor stopped at
/// `at`: that of the token before the cursor, of the last token if the
/// cursor stands behind all, of the first if it stands at the first.
pub open spec fn blamed(locs: Seq<Loc>, at: int) -> Option<Loc> {
    if locs.len() == 0 {
        None
    } else if at >= locs.len() {
        Some(locs.last())
    } else if at > 0 {
        Some(locs[at - 1])
    } else {
        Some(locs[0])
    }
}

/// The location that an error is reported at, when the cursor stopped at `index`.
pub fn error_location(locations: &Vec<Loc>, index: usize) -> (r: Option<Loc>)
    ensures
        r == blamed(locations@, index as int),
{
    if locations.len() == 0 {
        None
    } else if index >= locations.len() {
        Some(locations[locations.len() - 1])
    } else if index > 0 {
        Some(locations[index - 1])
    } else {
        Some(locations[0])
    }
}

/// What compiling `code` gives: the text of the code of its functions, or
/// the lexical error, or the first syntax error with its location.
pub open spec fn compiled(code: Seq<char>) -> Result<Seq<char>, CompileFailure> {
    match lexed(code) {
        Scanned::Stopped(failure) => Err(CompileFailure::Lexical(failure)),
        Scanned::Going(s) => match program(s.tokens, 0, false, Seq::empty()) {
            Parsed::Done { value, .. } => Ok(
                code_text(lower_program(value, Ids { temps: 0, loops: 0, ifs: 0 }, None).code),
            ),
            Parsed::Failed { error, at } => Err(
                CompileFailure::Syntax { error, location: blamed(s.locs, at) },
            ),
        },
    }
}

/// Compiles `code`: splits it into tokens, parses them, and writes the
/// generated code out as text.
pub fn compile(code: &str) -> (r: Result<String, CompileError>)
    ensures
        match compiled(code@) {
            Ok(text) => r is Ok && r->Ok_0@ == text,
            Err(failure) => r is Err && r->Err_0@ == failure,
        },
{
    let (tokens, locations) = match lex(code) {
        Ok(pair) => pair,
        Err(error) => {
            return Err(CompileError::Lexical(error));
        },
    };
    match generate(&tokens) {
        Ok(instructions) => Ok(render(&instructions)),
        Err((error, index)) => Err(
            CompileError::Syntax { error, location: error_location(&locations, index) },
        ),
    }
}

/// The words that open the report of an error at `loc`.
pub open spec fn position_text(line: i32, col: i32) -> Seq<char> {
    "Error at line "@ + number_text(line as int) + ":"@ + number_text(col as int) + ". "@
}

/// Appends the words that open the report of an error to `out`.
fn write_position(out: &mut String, line: i32, col: i32)
    ensures
        final(out)@ == old(out)@ + position_text(line, col),
{
    out.append("Error at line ");
    write_number(out, line);
    out.append(":");
    write_number(out, col);
    out.append(". ");
    assert(out@ =~= old(out)@ + position_text(line, col));
}

impl LexFailure {
    /// The report of this error.
    pub open spec fn message_text(self) -> Seq<char> {
        match self.kind {
            LexErrorKind::UnidentifiedSymbol => position_text(self.line, self.col)
                + "Unidentified symbol '"@ + self.text + "'"@,
            LexErrorKind::InvalidNumber => position_text(self.line, self.col) + "Invalid Number '"@
                + self.text + "'"@,
            LexErrorKind::NumberTooLarge => position_text(self.line, self.col)
                + "Number too large '"@ + self.text + "'"@,
            LexErrorKind::InvalidSymbol => "invalid symbol "@ + self.text,
        }
    }
}

impl LexError {
    /// The report of this error, as shown to the user.
    pub fn message(&self) -> (text: String)
        ensures
            text@ == self@.message_text(),
    {
        let mut out = String::new();
        match self.kind {
            LexErrorKind::UnidentifiedSymbol => {
                write_position(&mut out, self.line, self.col);
                out.append("Unidentified symbol '");
                out.append(self.text.as_str());
                out.append("'");
            },
            LexErrorKind::InvalidNumber => {
                write_position(&mut out, self.line, self.col);
                out.append("Invalid Number '");
                out.append(self.text.as_str());
                out.append("'");
            },
            LexErrorKind::NumberTooLarge => {
                write_position(&mut out, self.line, self.col);
                out.append("Number too large '");
                out.append(self.text.as_str());
                out.append("'");
            },
            LexErrorKind::InvalidSymbol => {
                out.append("invalid symbol ");
                out.append(self.text.as_str());
            },
        }
        assert(out@ =~= self@.message_text());
        out
    }
}

impl CompileFailure {
    /// The report of this error.
    pub open spec fn message_text(self) -> Seq<char> {
        match self {
            CompileFailure::Lexical(e) => e.message_text(),
            CompileFailure::Syntax { error, location: Some(loc) } => position_text(
                loc.line,
                loc.col,
            ) + error.message_text(),
            CompileFailure::Syntax { error, location: None } => error.message_text(),
        }
    }
}

impl CompileError {
    /// The report of this error, as shown to the user.
    pub fn message(&self) -> (text: String)
        ensures
            text@ == self@.message_text(),
    {
        match self {
            CompileError::Lexical(e) => e.message(),
            CompileError::Syntax { error, location: Some(loc) } => {
                let mut out = String::new();
                write_position(&mut out, loc.line, loc.col);
                let said = error.message();
                out.append(said.as_str());
                assert(out@ =~= self@.message_text());
                out
            },
            CompileError::Syntax { error, location: None } => error.message(),
        }
    }
}

} // verus!
