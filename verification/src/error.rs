//! What a parse can fail with.

use vstd::prelude::*;
use vstd::string::StringExecFns;

verus! {

/// The first thing that kept a token sequence from being a program.
///
/// Where one particular token is required, the error names it, whether
/// another token stood in its place or the tokens had run out.
#[derive(Debug, Clone, Copy, PartialEq, Eq, Structural)]
pub enum SyntaxError {
    /// A token was required and none was left.
    UnexpectedEnd,
    /// A definition at the top level did not open with `func`.
    ExpectedFunc,
    /// `func` was not followed by a name.
    ExpectedFunctionName,
    /// A `(` was required.
    ExpectedLeftParen,
    /// A list was neither continued by `,` nor closed by `)`.
    ExpectedCommaOrRightParen,
    /// `int` in a parameter list was not followed by a name.
    ExpectedParameterName,
    /// A parameter list held something other than `int` or `)`.
    ExpectedIntOrRightParen,
    /// A `{` was required.
    ExpectedLeftCurly,
    /// A `}` was required.
    ExpectedRightCurly,
    /// `int` in a declaration was not followed by a name.
    ExpectedIdentifier,
    /// The name that opens an assignment was not followed by `=`.
    ExpectedAssign,
    /// `print` or `read` was not followed by `(`.
    ExpectedOpeningParen,
    /// The operand of `print` or `read` was not followed by `)`.
    ExpectedClosingParen,
    /// No statement starts with this token.
    InvalidStatement,
    /// A statement was not closed by `;`.
    ExpectedSemicolon,
    /// The first term of a condition was not followed by a comparison operator.
    InvalidBoolean,
    /// A parenthesised expression was not closed by `)`.
    ExpectedRightParen,
    /// No expression starts with this token.
    InvalidExpression,
    /// `break` outside every loop.
    BreakOutsideLoop,
    /// `continue` outside every loop.
    ContinueOutsideLoop,
}

impl SyntaxError {
    /// The text of the message for this error.
    pub open spec fn message_text(self) -> Seq<char> {
        match self {
            SyntaxError::UnexpectedEnd => "expected a token, but got nothing"@,
            SyntaxError::ExpectedFunc => "functions must begin with func"@,
            SyntaxError::ExpectedFunctionName => "functions must have a function identifier"@,
            SyntaxError::ExpectedLeftParen => "expected '('"@,
            SyntaxError::ExpectedCommaOrRightParen => "expected ',' or ')'"@,
            SyntaxError::ExpectedParameterName => "expected ident function parameter"@,
            SyntaxError::ExpectedIntOrRightParen => "expected 'int' keyword or ')' token"@,
            SyntaxError::ExpectedLeftCurly => "expected '{'"@,
            SyntaxError::ExpectedRightCurly => "expected '}'"@,
            SyntaxError::ExpectedIdentifier => "expected identifier"@,
            SyntaxError::ExpectedAssign => "expected '=' assignment operator"@,
            SyntaxError::ExpectedOpeningParen => "expect '(' closing statement"@,
            SyntaxError::ExpectedClosingParen => "expect ')' closing statement"@,
            SyntaxError::InvalidStatement => "invalid statement."@,
            SyntaxError::ExpectedSemicolon => "expect ';' closing statement"@,
            SyntaxError::InvalidBoolean => "invalid boolean expression. expected comparison operator."@,
            SyntaxError::ExpectedRightParen => "expected ')' parenthesis"@,
            SyntaxError::InvalidExpression => "invalid expression"@,
            SyntaxError::BreakOutsideLoop => "'break' outside of a loop"@,
            SyntaxError::ContinueOutsideLoop => "'continue' outside of a loop"@,
        }
    }

    /// The message for this error, as shown to the user.
    pub fn message(&self) -> (text: String)
        ensures
            text@ == self.message_text(),
    {
        match self {
            SyntaxError::UnexpectedEnd => String::from_str("expected a token, but got nothing"),
            SyntaxError::ExpectedFunc => String::from_str("functions must begin with func"),
            SyntaxError::ExpectedFunctionName => String::from_str(
                "functions must have a function identifier",
            ),
            SyntaxError::ExpectedLeftParen => String::from_str("expected '('"),
            SyntaxError::ExpectedCommaOrRightParen => String::from_str("expected ',' or ')'"),
            SyntaxError::ExpectedParameterName => String::from_str(
                "expected ident function parameter",
            ),
            SyntaxError::ExpectedIntOrRightParen => String::from_str(
                "expected 'int' keyword or ')' token",
            ),
            SyntaxError::ExpectedLeftCurly => String::from_str("expected '{'"),
            SyntaxError::ExpectedRightCurly => String::from_str("expected '}'"),
            SyntaxError::ExpectedIdentifier => String::from_str("expected identifier"),
            SyntaxError::ExpectedAssign => String::from_str("expected '=' assignment operator"),
            SyntaxError::ExpectedOpeningParen => String::from_str("expect '(' closing statement"),
            SyntaxError::ExpectedClosingParen => String::from_str("expect ')' closing statement"),
            SyntaxError::InvalidStatement => String::from_str("invalid statement."),
            SyntaxError::ExpectedSemicolon => String::from_str("expect ';' closing statement"),
            SyntaxError::InvalidBoolean => String::from_str(
                "invalid boolean expression. expected comparison operator.",
            ),
            SyntaxError::ExpectedRightParen => String::from_str("expected ')' parenthesis"),
            SyntaxError::InvalidExpression => String::from_str("invalid expression"),
            SyntaxError::BreakOutsideLoop => String::from_str("'break' outside of a loop"),
            SyntaxError::ContinueOutsideLoop => String::from_str("'continue' outside of a loop"),
        }
    }
}

} // verus!
