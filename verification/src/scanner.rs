//! A second, simpler lexer: it reads the bytes of a source text, records
//! no positions, and closes the tokens with an end mark.
//!
//! It knows the ASCII letters and digits only, and the operators that are
//! one character long.

use crate::lexer::{create_identifier, word};
use crate::text::decimal_value;
use crate::token::{Lexeme, Token, TokenKind};
use vstd::prelude::*;
use vstd::string::{StringExecFns, StringSliceAdditionalSpecFns};

verus! {

/// Why a text is not a sequence of tokens.
#[derive(Debug, Clone, Copy, PartialEq, Eq, Structural)]
pub enum ScanError {
    /// A byte that starts no token.
    UnrecognizedSymbol(u8),
    /// Digits run on into a letter: a malformed number.
    InvalidNumber,
    /// A number above the largest `i32`.
    NumberTooLarge,
}

impl ScanError {
    /// The text of the message for this error.
    pub open spec fn message_text(self) -> Seq<char> {
        match self {
            ScanError::UnrecognizedSymbol(b) => "Unrecognized symbol '"@.push(b as char) + "'"@,
            ScanError::InvalidNumber => "Invalid number"@,
            ScanError::NumberTooLarge => "Number too large"@,
        }
    }

    /// The message for this error, as shown to the user.
    pub fn message(&self) -> (text: String)
        ensures
            text@ == self.message_text(),
    {
        match self {
            ScanError::UnrecognizedSymbol(b) => {
                let mut text = String::from_str("Unrecognized symbol '");
                text.push(*b as char);
                text.append("'");
                text
            },
            ScanError::InvalidNumber => String::from_str("Invalid number"),
            ScanError::NumberTooLarge => String::from_str("Number too large"),
        }
    }
}

/// Whether `b` is an ASCII digit.
pub open spec fn is_digit_byte(b: u8) -> bool {
    48 <= b <= 57
}

/// Whether `b` is an ASCII letter.
pub open spec fn is_letter_byte(b: u8) -> bool {
    (97 <= b <= 122) || (65 <= b <= 90)
}

/// Whether `b` is an ASCII letter or digit.
pub open spec fn is_word_byte(b: u8) -> bool {
    is_letter_byte(b) || is_digit_byte(b)
}

/// The bytes from `from` up to `to` as characters.
pub open spec fn as_text(bytes: Seq<u8>, from: int, to: int) -> Seq<char> {
    Seq::new((to - from) as nat, |k: int| bytes[from + k] as char)
}

/// The first position at or behind `i` whose byte is no digit.
pub open spec fn digits_end(bytes: Seq<u8>, i: int) -> int
    decreases bytes.len() - i,
{
    if 0 <= i < bytes.len() && is_digit_byte(bytes[i]) {
        digits_end(bytes, i + 1)
    } else {
        i
    }
}

/// The first position at or behind `i` whose byte is no letter and no digit.
pub open spec fn word_end(bytes: Seq<u8>, i: int) -> int
    decreases bytes.len() - i,
{
    if 0 <= i < bytes.len() && is_word_byte(bytes[i]) {
        word_end(bytes, i + 1)
    } else {
        i
    }
}

/// The position behind the line that `i` is in.
pub open spec fn line_end(bytes: Seq<u8>, i: int) -> int
    decreases bytes.len() - i,
{
    if 0 <= i < bytes.len() {
        if bytes[i] == 10 {
            i + 1
        } else {
            line_end(bytes, i + 1)
        }
    } else {
        i
    }
}

/// The token that the single byte `b` is, if it is one.
pub open spec fn symbol(b: u8) -> Option<TokenKind> {
    if b == 60 {
        Some(TokenKind::Less)
    } else if b == 43 {
        Some(TokenKind::Plus)
    } else if b == 45 {
        Some(TokenKind::Subtract)
    } else if b == 42 {
        Some(TokenKind::Multiply)
    } else if b == 47 {
        Some(TokenKind::Divide)
    } else if b == 37 {
        Some(TokenKind::Modulus)
    } else if b == 61 {
        Some(TokenKind::Assign)
    } else if b == 59 {
        Some(TokenKind::Semicolon)
    } else if b == 40 {
        Some(TokenKind::LeftParen)
    } else if b == 41 {
        Some(TokenKind::RightParen)
    } else if b == 123 {
        Some(TokenKind::LeftCurly)
    } else if b == 125 {
        Some(TokenKind::RightCurly)
    } else if b == 44 {
        Some(TokenKind::Comma)
    } else {
        None
    }
}

/// A run ends behind where it starts and not behind the text.
pub proof fn lemma_ends_in_range(bytes: Seq<u8>, i: int)
    requires
        0 <= i <= bytes.len(),
    ensures
        i <= digits_end(bytes, i) <= bytes.len(),
        i <= word_end(bytes, i) <= bytes.len(),
        i <= line_end(bytes, i) <= bytes.len(),
    decreases bytes.len() - i,
{
    if i < bytes.len() {
        lemma_ends_in_range(bytes, i + 1);
    }
}

/// The tokens of `bytes` from `i` on, behind the tokens `done`, closed by
/// the end mark; or the first error.
///
/// A number is the longest run of digits, and no letter may follow it; a
/// word is the longest run of letters and digits that starts with a letter. A comment runs from `#` to the end
/// of the line. Spaces and line feeds separate tokens.
pub open spec fn scanned(bytes: Seq<u8>, i: int, done: Seq<Lexeme>) -> Result<Seq<Lexeme>, ScanError>
    decreases bytes.len() - i,
{
    if !(0 <= i < bytes.len()) {
        Ok(done.push(Lexeme::plain(TokenKind::End)))
    } else {
        proof {
            lemma_ends_in_range(bytes, i + 1);
        }
        let b = bytes[i];
        if is_digit_byte(b) {
            let end = digits_end(bytes, i + 1);
            let value = decimal_value(as_text(bytes, i, end));
            if end < bytes.len() && is_letter_byte(bytes[end]) {
                Err(ScanError::InvalidNumber)
            } else if value > i32::MAX {
                Err(ScanError::NumberTooLarge)
            } else {
                scanned(bytes, end, done.push(Lexeme::num(value as i32)))
            }
        } else if is_letter_byte(b) {
            let end = word_end(bytes, i + 1);
            scanned(bytes, end, done.push(word(as_text(bytes, i, end))))
        } else if b == 35 {
            scanned(bytes, line_end(bytes, i + 1), done)
        } else if b == 32 || b == 10 {
            scanned(bytes, i + 1, done)
        } else {
            match symbol(b) {
                Some(kind) => scanned(bytes, i + 1, done.push(Lexeme::plain(kind))),
                None => Err(ScanError::UnrecognizedSymbol(b)),
            }
        }
    }
}

/// The token that the single byte `b` is, if it is one.
fn create_symbol(b: u8) -> (token: Option<Token>)
    ensures
        match symbol(b) {
            Some(kind) => token is Some && token->0@ == Lexeme::plain(kind),
            None => token is None,
        },
{
    if b == 60 {
        Some(Token::Less)
    } else if b == 43 {
        Some(Token::Plus)
    } else if b == 45 {
        Some(Token::Subtract)
    } else if b == 42 {
        Some(Token::Multiply)
    } else if b == 47 {
        Some(Token::Divide)
    } else if b == 37 {
        Some(Token::Modulus)
    } else if b == 61 {
        Some(Token::Assign)
    } else if b == 59 {
        Some(Token::Semicolon)
    } else if b == 40 {
        Some(Token::LeftParen)
    } else if b == 41 {
        Some(Token::RightParen)
    } else if b == 123 {
        Some(Token::LeftCurly)
    } else if b == 125 {
        Some(Token::RightCurly)
    } else if b == 44 {
        Some(Token::Comma)
    } else {
        None
    }
}

/// Splits `code` into tokens and closes them with the end mark.
pub fn lex(code: &str) -> (r: Result<Vec<Token>, ScanError>)
    ensures
        match scanned(code.spec_bytes(), 0, Seq::empty()) {
            Ok(tokens) => r is Ok && r->Ok_0.deep_view() == tokens,
            Err(error) => r == Err::<Vec<Token>, ScanError>(error),
        },
{
    let bytes = code.as_bytes();
    let mut tokens: Vec<Token> = Vec::new();
    let mut i: usize = 0;
    assert(tokens.deep_view() =~= Seq::empty());
    while i < bytes.len()
        invariant
            bytes@ == code.spec_bytes(),
            i <= bytes.len(),
            scanned(bytes@, 0, Seq::empty()) == scanned(bytes@, i as int, tokens.deep_view()),
        decreases bytes.len() - i,
    {
        let b = bytes[i];
        let ghost done = tokens.deep_view();
        if b >= 48 && b <= 57 {
            let start = i;
            let mut value: i32 = (b - 48) as i32;
            let mut fits = true;
            i += 1;
            proof {
                reveal_with_fuel(decimal_value, 2);
                let one = as_text(bytes@, start as int, i as int);
                assert(one.drop_last() =~= Seq::empty());
                assert(one.last() == b as char);
                assert(decimal_value(one) == value);
                lemma_ends_in_range(bytes@, i as int);
            }
            while i < bytes.len() && bytes[i] >= 48 && bytes[i] <= 57
                invariant
                    start < i <= bytes.len(),
                    digits_end(bytes@, start + 1) == digits_end(bytes@, i as int),
                    fits ==> value == decimal_value(as_text(bytes@, start as int, i as int)),
                    !fits ==> decimal_value(as_text(bytes@, start as int, i as int)) > i32::MAX,
                decreases bytes.len() - i,
            {
                let d: i32 = (bytes[i] - 48) as i32;
                proof {
                    let upto = as_text(bytes@, start as int, i + 1);
                    assert(upto.drop_last() =~= as_text(bytes@, start as int, i as int));
                    assert(upto.last() == bytes@[i as int] as char);
                }
                if fits && value <= (i32::MAX - d) / 10 {
                    value = value * 10 + d;
                } else {
                    fits = false;
                }
                i += 1;
            }
            if i < bytes.len() && ((bytes[i] >= 97 && bytes[i] <= 122) || (bytes[i] >= 65
                && bytes[i] <= 90)) {
                return Err(ScanError::InvalidNumber);
            }
            if !fits {
                return Err(ScanError::NumberTooLarge);
            }
            tokens.push(Token::Num(value));
            assert(tokens.deep_view() =~= done.push(Lexeme::num(value)));
        } else if (b >= 97 && b <= 122) || (b >= 65 && b <= 90) {
            let start = i;
            let mut text = String::new();
            text.push(b as char);
            i += 1;
            proof {
                assert(text@ =~= as_text(bytes@, start as int, i as int));
                lemma_ends_in_range(bytes@, i as int);
            }
            while i < bytes.len() && ((bytes[i] >= 97 && bytes[i] <= 122) || (bytes[i] >= 65
                && bytes[i] <= 90) || (bytes[i] >= 48 && bytes[i] <= 57))
                invariant
                    start < i <= bytes.len(),
                    word_end(bytes@, start + 1) == word_end(bytes@, i as int),
                    text@ == as_text(bytes@, start as int, i as int),
                decreases bytes.len() - i,
            {
                text.push(bytes[i] as char);
                i += 1;
                assert(text@ =~= as_text(bytes@, start as int, i as int));
            }
            tokens.push(create_identifier(text.as_str()));
            assert(tokens.deep_view() =~= done.push(word(text@)));
        } else if b == 35 {
            let ghost start = i;
            i += 1;
            proof {
                lemma_ends_in_range(bytes@, i as int);
            }
            let mut open = true;
            while open && i < bytes.len()
                invariant
                    start < i <= bytes.len(),
                    open ==> line_end(bytes@, start + 1) == line_end(bytes@, i as int),
                    !open ==> line_end(bytes@, start + 1) == i,
                decreases bytes.len() - i + if open { 1int } else { 0int },
            {
                if bytes[i] == 10 {
                    open = false;
                }
                i += 1;
            }
        } else if b == 32 || b == 10 {
            i += 1;
        } else {
            match create_symbol(b) {
                Some(token) => {
                    tokens.push(token);
                    assert(tokens.deep_view() =~= done.push(token@));
                    i += 1;
                },
                None => {
                    return Err(ScanError::UnrecognizedSymbol(b));
                },
            }
        }
    }
    let ghost done = tokens.deep_view();
    tokens.push(Token::End);
    assert(tokens.deep_view() =~= done.push(Lexeme::plain(TokenKind::End)));
    Ok(tokens)
}

} // verus!
