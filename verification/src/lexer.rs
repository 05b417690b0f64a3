//! The lexer: a state machine that reads source text character by
//! character and gives the tokens with the positions they were read at.
//!
//! A token is recorded when the character that ends it is read, at the
//! line and column of that character; a token that the text ends in is
//! recorded at the position behind the last character. Lines and
//! columns count from one and stop counting at the largest `i32`.

use crate::text::{
    all_digits, characters, create_number, decimal_value, digit, is_digit, same_text,
    text_between, unicode_alphabetic, unicode_whitespace,
};
use crate::token::{Lexeme, Loc, Token, TokenKind};
use vstd::prelude::*;

verus! {

/// What the lexer is in the middle of.
#[derive(Debug, Clone, Copy, PartialEq, Eq, Structural)]
pub enum Mode {
    /// Between tokens.
    Init,
    /// In a number.
    Number,
    /// In a name or keyword.
    Ident,
    /// In a run of the characters `<`, `>`, `=` and `!`.
    Sign,
    /// In a comment, which runs from `#` to the end of the line.
    Comment,
    /// In digits that a letter or `_` has spoilt: no number.
    ErrorNum,
}

/// Why a text is not a sequence of tokens.
#[derive(Debug, Clone, Copy, PartialEq, Eq, Structural)]
pub enum LexErrorKind {
    /// A character that starts no token.
    UnidentifiedSymbol,
    /// Digits run on into letters or `_`: a malformed number.
    InvalidNumber,
    /// A run of `<`, `>`, `=` and `!` that is no operator.
    InvalidSymbol,
    /// A number above the largest `i32`.
    NumberTooLarge,
}

/// The first thing that kept a text from being a sequence of tokens: what
/// it was, the text in question, and where the lexer stood.
#[derive(Debug)]
pub struct LexError {
    pub kind: LexErrorKind,
    pub text: String,
    pub line: i32,
    pub col: i32,
}

/// A lexical error as contracts see it.
pub struct LexFailure {
    pub kind: LexErrorKind,
    pub text: Seq<char>,
    pub line: i32,
    pub col: i32,
}

impl View for LexError {
    type V = LexFailure;

    open spec fn view(&self) -> LexFailure {
        LexFailure { kind: self.kind, text: self.text@, line: self.line, col: self.col }
    }
}

/// The state of the lexer between two characters.
pub struct Scan {
    pub mode: Mode,
    /// Where the token being read starts.
    pub start: int,
    pub tokens: Seq<Lexeme>,
    pub locs: Seq<Loc>,
    pub line: i32,
    pub col: i32,
}

/// The lexer after some characters: still going, or stopped at an error.
pub enum Scanned {
    Going(Scan),
    Stopped(LexFailure),
}

impl Scan {
    /// This state with one more token, recorded at the current position.
    pub open spec fn record(self, token: Lexeme) -> Scan {
        Scan {
            tokens: self.tokens.push(token),
            locs: self.locs.push(Loc { line: self.line, col: self.col }),
            ..self
        }
    }

    /// This state in another mode.
    pub open spec fn turn(self, mode: Mode) -> Scan {
        Scan { mode, ..self }
    }

    /// This state in another mode, with a token starting at `start`.
    pub open spec fn open(self, mode: Mode, start: int) -> Scan {
        Scan { mode, start, ..self }
    }

    /// The error of the given kind about `text`, at the current position.
    pub open spec fn fail(self, kind: LexErrorKind, text: Seq<char>) -> Scanned {
        Scanned::Stopped(LexFailure { kind, text, line: self.line, col: self.col })
    }
}

/// One more, unless `n` is the largest `i32`.
pub open spec fn bump(n: i32) -> i32 {
    if n < i32::MAX {
        (n + 1) as i32
    } else {
        n
    }
}

/// Whether `c` is one of the characters that comparison operators and the
/// assignment are made of.
pub open spec fn is_sign(c: char) -> bool {
    c == '<' || c == '>' || c == '=' || c == '!'
}

/// The token that the word `text` is: a keyword, or else an identifier.
pub open spec fn word(text: Seq<char>) -> Lexeme {
    if text == "func"@ {
        Lexeme::plain(TokenKind::Func)
    } else if text == "return"@ {
        Lexeme::plain(TokenKind::Return)
    } else if text == "int"@ {
        Lexeme::plain(TokenKind::Int)
    } else if text == "print"@ {
        Lexeme::plain(TokenKind::Print)
    } else if text == "read"@ {
        Lexeme::plain(TokenKind::Read)
    } else if text == "while"@ {
        Lexeme::plain(TokenKind::While)
    } else if text == "if"@ {
        Lexeme::plain(TokenKind::If)
    } else if text == "else"@ {
        Lexeme::plain(TokenKind::Else)
    } else if text == "break"@ {
        Lexeme::plain(TokenKind::Break)
    } else if text == "continue"@ {
        Lexeme::plain(TokenKind::Continue)
    } else {
        Lexeme::ident(text)
    }
}

/// The operator that the run `text` of sign characters is, if it is one.
pub open spec fn sign(text: Seq<char>) -> Option<TokenKind> {
    if text == "<"@ {
        Some(TokenKind::Less)
    } else if text == "<="@ {
        Some(TokenKind::LessEqual)
    } else if text == ">"@ {
        Some(TokenKind::Greater)
    } else if text == ">="@ {
        Some(TokenKind::GreaterEqual)
    } else if text == "=="@ {
        Some(TokenKind::Equality)
    } else if text == "="@ {
        Some(TokenKind::Assign)
    } else if text == "!="@ {
        Some(TokenKind::NotEqual)
    } else {
        None
    }
}

/// The token that the single character `c` is, if it is one.
pub open spec fn punctuation(c: char) -> Option<TokenKind> {
    if c == '+' {
        Some(TokenKind::Plus)
    } else if c == '-' {
        Some(TokenKind::Subtract)
    } else if c == '*' {
        Some(TokenKind::Multiply)
    } else if c == '/' {
        Some(TokenKind::Divide)
    } else if c == '%' {
        Some(TokenKind::Modulus)
    } else if c == ',' {
        Some(TokenKind::Comma)
    } else if c == '{' {
        Some(TokenKind::LeftCurly)
    } else if c == '}' {
        Some(TokenKind::RightCurly)
    } else if c == '(' {
        Some(TokenKind::LeftParen)
    } else if c == ')' {
        Some(TokenKind::RightParen)
    } else if c == ';' {
        Some(TokenKind::Semicolon)
    } else {
        None
    }
}

/// The state with the number `code[s.start..i]` recorded, or the error
/// that it is too large.
pub open spec fn close_number(code: Seq<char>, s: Scan, i: int) -> Scanned {
    let text = code.subrange(s.start, i);
    if decimal_value(text) <= i32::MAX {
        Scanned::Going(s.record(Lexeme::num(decimal_value(text) as i32)))
    } else {
        s.fail(LexErrorKind::NumberTooLarge, text)
    }
}

/// The state with the operator `code[s.start..i]` recorded, or the error
/// that it is none.
pub open spec fn close_sign(code: Seq<char>, s: Scan, i: int) -> Scanned {
    let text = code.subrange(s.start, i);
    match sign(text) {
        Some(kind) => Scanned::Going(s.record(Lexeme::plain(kind))),
        None => s.fail(LexErrorKind::InvalidSymbol, text),
    }
}

/// The mode that a character puts the lexer into when no token is open;
/// `alphabetic` says whether the character is a letter.
pub open spec fn start_mode(c: char, alphabetic: bool) -> Mode {
    if alphabetic {
        Mode::Ident
    } else if is_digit(c) {
        Mode::Number
    } else if is_sign(c) {
        Mode::Sign
    } else if c == '#' {
        Mode::Comment
    } else {
        Mode::Init
    }
}

/// What follows the closing of a token by the character at `i`: that
/// character opens what it can open.
pub open spec fn reopen(closed: Scanned, code: Seq<char>, i: int, alphabetic: bool) -> Scanned {
    match closed {
        Scanned::Going(s) => Scanned::Going(s.open(start_mode(code[i], alphabetic), i)),
        stopped => stopped,
    }
}

/// The first half of a step: the lexer meets the character at `i`, closes
/// the token that it ends, and changes mode. `alphabetic` says whether the
/// character is a letter.
///
/// A name runs on over letters, digits and `_`, a number over digits, an
/// operator over `<`, `>`, `=` and `!`, a comment to the end of the line.
/// A letter or `_` behind a number spoils it: the run of letters, digits
/// and `_` that follows is no token, and the character that ends it stops
/// the lexer.
pub open spec fn enter(code: Seq<char>, s: Scan, i: int, alphabetic: bool) -> Scanned {
    let c = code[i];
    match s.mode {
        Mode::Init => Scanned::Going(s.open(start_mode(c, alphabetic), i)),
        Mode::Number => {
            if is_digit(c) {
                Scanned::Going(s)
            } else if alphabetic || c == '_' {
                Scanned::Going(s.turn(Mode::ErrorNum))
            } else {
                reopen(close_number(code, s, i), code, i, alphabetic)
            }
        },
        Mode::Ident => {
            if alphabetic || is_digit(c) || c == '_' {
                Scanned::Going(s)
            } else {
                reopen(
                    Scanned::Going(s.record(word(code.subrange(s.start, i)))),
                    code,
                    i,
                    alphabetic,
                )
            }
        },
        Mode::ErrorNum => {
            if alphabetic || is_digit(c) || c == '_' {
                Scanned::Going(s)
            } else {
                s.fail(LexErrorKind::InvalidNumber, code.subrange(s.start, i + 1))
            }
        },
        Mode::Comment => {
            if c == '\n' {
                Scanned::Going(s.open(Mode::Init, i))
            } else {
                Scanned::Going(s)
            }
        },
        Mode::Sign => {
            if is_sign(c) {
                Scanned::Going(s)
            } else {
                reopen(close_sign(code, s, i), code, i, alphabetic)
            }
        },
    }
}

/// The second half of a step: between tokens, the character at `i` is a
/// token of its own, or white space, or an error. `whitespace` says
/// whether the character is white space.
pub open spec fn act(code: Seq<char>, s: Scan, i: int, whitespace: bool) -> Scanned {
    let c = code[i];
    match s.mode {
        Mode::Init => {
            match punctuation(c) {
                Some(kind) => Scanned::Going(s.record(Lexeme::plain(kind))),
                None => {
                    if whitespace {
                        Scanned::Going(s)
                    } else {
                        s.fail(LexErrorKind::UnidentifiedSymbol, code.subrange(i, i + 1))
                    }
                },
            }
        },
        _ => Scanned::Going(s),
    }
}

/// The position behind the character `c`.
pub open spec fn pass(s: Scan, c: char) -> Scan {
    if c == '\n' {
        Scan { line: bump(s.line), col: 1, ..s }
    } else {
        Scan { col: bump(s.col), ..s }
    }
}

/// One step of the lexer, over the character at `i`, of which
/// `alphabetic` and `whitespace` say whether it is a letter and whether it
/// is white space.
pub open spec fn step(code: Seq<char>, s: Scan, i: int, alphabetic: bool, whitespace: bool) -> Scanned {
    match enter(code, s, i, alphabetic) {
        Scanned::Going(entered) => {
            match act(code, entered, i, whitespace) {
                Scanned::Going(acted) => Scanned::Going(pass(acted, code[i])),
                stopped => stopped,
            }
        },
        stopped => stopped,
    }
}

/// The lexer before the first character.
pub open spec fn fresh() -> Scan {
    Scan { mode: Mode::Init, start: 0, tokens: Seq::empty(), locs: Seq::empty(), line: 1, col: 1 }
}

/// The lexer after the first `n` characters of `code`: each character is
/// taken as the letter and as the white space that Unicode makes it.
pub open spec fn run(code: Seq<char>, n: int) -> Scanned
    decreases n,
{
    if n <= 0 {
        Scanned::Going(fresh())
    } else {
        match run(code, n - 1) {
            Scanned::Going(s) => step(
                code,
                s,
                n - 1,
                unicode_alphabetic(code[n - 1]),
                unicode_whitespace(code[n - 1]),
            ),
            stopped => stopped,
        }
    }
}

/// What the lexer does where the text ends: it closes the name, number or
/// operator that it is in the middle of, and a spoilt number stops it.
pub open spec fn finish(code: Seq<char>, s: Scan) -> Scanned {
    match s.mode {
        Mode::Number => close_number(code, s, code.len() as int),
        Mode::Ident => Scanned::Going(s.record(word(code.subrange(s.start, code.len() as int)))),
        Mode::Sign => close_sign(code, s, code.len() as int),
        Mode::ErrorNum => s.fail(
            LexErrorKind::InvalidNumber,
            code.subrange(s.start, code.len() as int),
        ),
        _ => Scanned::Going(s),
    }
}

/// The tokens of `code`, with their positions, or the first error.
pub open spec fn lexed(code: Seq<char>) -> Scanned {
    match run(code, code.len() as int) {
        Scanned::Going(s) => finish(code, s),
        stopped => stopped,
    }
}

/// Whether `s` can be the state of the lexer before the character at `i`
/// of `code`: the open token starts at or before `i`, there is a position
/// for each token, and an open number is made of digits.
pub open spec fn fits(s: Scan, code: Seq<char>, i: int) -> bool {
    &&& 0 <= s.start <= i <= code.len()
    &&& s.tokens.len() == s.locs.len()
    &&& s.mode == Mode::Number ==> all_digits(code.subrange(s.start, i))
}

/// An error stops the lexer for good: the characters behind it change nothing.
pub proof fn lemma_stopped_stays(code: Seq<char>, n: int, m: int)
    requires
        0 <= n <= m,
        run(code, n) is Stopped,
    ensures
        run(code, m) == run(code, n),
    decreases m - n,
{
    if n < m {
        lemma_stopped_stays(code, n, m - 1);
    }
}

/// After any number of characters the lexer holds as many positions as tokens.
pub proof fn lemma_run_pairs_positions(code: Seq<char>, n: int)
    ensures
        run(code, n) matches Scanned::Going(s) ==> s.tokens.len() == s.locs.len(),
    decreases n,
{
    if n > 0 {
        lemma_run_pairs_positions(code, n - 1);
    }
}

/// The lexer gives one position for each token.
pub proof fn lemma_one_position_per_token(code: Seq<char>)
    ensures
        lexed(code) matches Scanned::Going(s) ==> s.tokens.len() == s.locs.len(),
{
    lemma_run_pairs_positions(code, code.len() as int);
}

/// A text that ends in digits followed by letters is no sequence of
/// tokens: a spoilt number is reported wherever it stands.
pub proof fn lemma_spoilt_number_is_reported(code: Seq<char>)
    requires
        run(code, code.len() as int) matches Scanned::Going(s) && s.mode == Mode::ErrorNum,
    ensures
        lexed(code) matches Scanned::Stopped(failure) && failure.kind == LexErrorKind::InvalidNumber,
{
}

/// The keyword that `text` is, or else the identifier of that name.
pub fn create_identifier(text: &str) -> (token: Token)
    ensures
        token@ == word(text@),
{
    if same_text(text, "func") {
        Token::Func
    } else if same_text(text, "return") {
        Token::Return
    } else if same_text(text, "int") {
        Token::Int
    } else if same_text(text, "print") {
        Token::Print
    } else if same_text(text, "read") {
        Token::Read
    } else if same_text(text, "while") {
        Token::While
    } else if same_text(text, "if") {
        Token::If
    } else if same_text(text, "else") {
        Token::Else
    } else if same_text(text, "break") {
        Token::Break
    } else if same_text(text, "continue") {
        Token::Continue
    } else {
        Token::Ident(text.to_owned())
    }
}

/// The operator that `text` is, if it is one.
pub fn create_sign(text: &str) -> (token: Option<Token>)
    ensures
        match sign(text@) {
            Some(kind) => token is Some && token->0@ == Lexeme::plain(kind),
            None => token is None,
        },
{
    if same_text(text, "<") {
        Some(Token::Less)
    } else if same_text(text, "<=") {
        Some(Token::LessEqual)
    } else if same_text(text, ">") {
        Some(Token::Greater)
    } else if same_text(text, ">=") {
        Some(Token::GreaterEqual)
    } else if same_text(text, "==") {
        Some(Token::Equality)
    } else if same_text(text, "=") {
        Some(Token::Assign)
    } else if same_text(text, "!=") {
        Some(Token::NotEqual)
    } else {
        None
    }
}

/// The token that the single character `c` is, if it is one.
fn create_punctuation(c: char) -> (token: Option<Token>)
    ensures
        match punctuation(c) {
            Some(kind) => token is Some && token->0@ == Lexeme::plain(kind),
            None => token is None,
        },
{
    if c == '+' {
        Some(Token::Plus)
    } else if c == '-' {
        Some(Token::Subtract)
    } else if c == '*' {
        Some(Token::Multiply)
    } else if c == '/' {
        Some(Token::Divide)
    } else if c == '%' {
        Some(Token::Modulus)
    } else if c == ',' {
        Some(Token::Comma)
    } else if c == '{' {
        Some(Token::LeftCurly)
    } else if c == '}' {
        Some(Token::RightCurly)
    } else if c == '(' {
        Some(Token::LeftParen)
    } else if c == ')' {
        Some(Token::RightParen)
    } else if c == ';' {
        Some(Token::Semicolon)
    } else {
        None
    }
}

/// Whether `c` is one of `<`, `>`, `=` and `!`.
fn sign_character(c: char) -> (r: bool)
    ensures
        r == is_sign(c),
{
    c == '<' || c == '>' || c == '=' || c == '!'
}

/// One more, unless `n` is the largest `i32`.
fn bumped(n: i32) -> (r: i32)
    ensures
        r == bump(n),
{
    if n < i32::MAX {
        n + 1
    } else {
        n
    }
}

/// The lexer between two characters: what it is in the middle of, where
/// the open token starts, the tokens and positions so far, and the
/// position of the next character.
#[derive(Debug)]
pub struct Lexer {
    pub mode: Mode,
    pub start: usize,
    pub tokens: Vec<Token>,
    pub locations: Vec<Loc>,
    pub line: i32,
    pub col: i32,
}

impl View for Lexer {
    type V = Scan;

    open spec fn view(&self) -> Scan {
        Scan {
            mode: self.mode,
            start: self.start as int,
            tokens: self.tokens.deep_view(),
            locs: self.locations@,
            line: self.line,
            col: self.col,
        }
    }
}

impl Lexer {
    /// The lexer before the first character.
    pub fn new() -> (lexer: Lexer)
        ensures
            lexer@ == fresh(),
    {
        let lexer = Lexer {
            mode: Mode::Init,
            start: 0,
            tokens: Vec::new(),
            locations: Vec::new(),
            line: 1,
            col: 1,
        };
        assert(lexer@.tokens =~= Seq::empty());
        lexer
    }

    /// Records `token` at the current position.
    fn record(&mut self, token: Token)
        ensures
            final(self)@ == old(self)@.record(token@),
    {
        self.tokens.push(token);
        self.locations.push(Loc { line: self.line, col: self.col });
        assert(self@.tokens =~= old(self)@.tokens.push(token@));
    }

    /// The error of the given kind about the characters from `from` up to
    /// `to`, at the current position.
    fn fail(&self, kind: LexErrorKind, chars: &Vec<char>, from: usize, to: usize) -> (error: LexError)
        requires
            from <= to <= chars.len(),
        ensures
            self@.fail(kind, chars@.subrange(from as int, to as int)) == Scanned::Stopped(error@),
    {
        LexError { kind, text: text_between(chars, from, to), line: self.line, col: self.col }
    }

    /// Closes the open token, which ends before `i`, where it is a number,
    /// a name or an operator.
    fn close(&mut self, chars: &Vec<char>, i: usize) -> (r: Result<(), LexError>)
        requires
            fits(old(self)@, chars@, i as int),
            old(self).mode == Mode::Number || old(self).mode == Mode::Ident || old(self).mode
                == Mode::Sign,
        ensures
            ({
                let closed = match old(self).mode {
                    Mode::Number => close_number(chars@, old(self)@, i as int),
                    Mode::Sign => close_sign(chars@, old(self)@, i as int),
                    _ => Scanned::Going(
                        old(self)@.record(word(chars@.subrange(old(self).start as int, i as int))),
                    ),
                };
                match closed {
                    Scanned::Going(s) => r is Ok && final(self)@ == s,
                    Scanned::Stopped(failure) => r is Err && r->Err_0@ == failure,
                }
            }),
    {
        match self.mode {
            Mode::Number => {
                match create_number(chars, self.start, i) {
                    Some(value) => {
                        self.record(Token::Num(value));
                        Ok(())
                    },
                    None => Err(self.fail(LexErrorKind::NumberTooLarge, chars, self.start, i)),
                }
            },
            Mode::Sign => {
                let text = text_between(chars, self.start, i);
                match create_sign(text.as_str()) {
                    Some(token) => {
                        self.record(token);
                        Ok(())
                    },
                    None => Err(self.fail(LexErrorKind::InvalidSymbol, chars, self.start, i)),
                }
            },
            _ => {
                let text = text_between(chars, self.start, i);
                self.record(create_identifier(text.as_str()));
                Ok(())
            },
        }
    }

    /// One step of the lexer, over the character at `i` of `chars`.
    ///
    /// `alphabetic` and `whitespace` say what the character is taken for: a
    /// letter or not, white space or not. The result is what `step` makes of
    /// the state: the state behind the character, or the error that stops
    /// the lexer.
    pub fn step(self, chars: &Vec<char>, i: usize, alphabetic: bool, whitespace: bool) -> (r: Result<
        Lexer,
        LexError,
    >)
        requires
            i < chars.len(),
            fits(self@, chars@, i as int),
        ensures
            match step(chars@, self@, i as int, alphabetic, whitespace) {
                Scanned::Going(s) => r is Ok && r->Ok_0@ == s && fits(s, chars@, i + 1),
                Scanned::Stopped(failure) => r is Err && r->Err_0@ == failure,
            },
    {
        let mut lexer = self;
        let c = chars[i];
        let opens = if alphabetic {
            Mode::Ident
        } else if digit(c) {
            Mode::Number
        } else if sign_character(c) {
            Mode::Sign
        } else if c == '#' {
            Mode::Comment
        } else {
            Mode::Init
        };
        let runs_on = match lexer.mode {
            Mode::Init => false,
            Mode::Number => digit(c) || alphabetic || c == '_',
            Mode::Ident => alphabetic || digit(c) || c == '_',
            Mode::ErrorNum => alphabetic || digit(c) || c == '_',
            Mode::Comment => c != '\n',
            Mode::Sign => sign_character(c),
        };
        if runs_on {
            if lexer.mode == Mode::Number && !digit(c) {
                lexer.mode = Mode::ErrorNum;
            }
        } else {
            match lexer.mode {
                Mode::ErrorNum => {
                    return Err(lexer.fail(LexErrorKind::InvalidNumber, chars, lexer.start, i + 1));
                },
                Mode::Number | Mode::Ident | Mode::Sign => {
                    match lexer.close(chars, i) {
                        Ok(()) => {},
                        Err(error) => {
                            return Err(error);
                        },
                    }
                    lexer.mode = opens;
                },
                Mode::Comment => {
                    lexer.mode = Mode::Init;
                },
                Mode::Init => {
                    lexer.mode = opens;
                },
            }
            lexer.start = i;
        }
        assert(enter(chars@, self@, i as int, alphabetic) == Scanned::Going(lexer@));
        if lexer.mode == Mode::Init {
            match create_punctuation(c) {
                Some(token) => {
                    lexer.record(token);
                },
                None => {
                    if !whitespace {
                        return Err(lexer.fail(LexErrorKind::UnidentifiedSymbol, chars, i, i + 1));
                    }
                },
            }
        }
        if c == '\n' {
            lexer.col = 1;
            lexer.line = bumped(lexer.line);
        } else {
            lexer.col = bumped(lexer.col);
        }
        proof {
            if lexer.mode == Mode::Number {
                let upto = chars@.subrange(lexer.start as int, i + 1);
                assert forall|k: int| 0 <= k < upto.len() implies is_digit(#[trigger] upto[k]) by {
                    if k < upto.len() - 1 {
                        assert(upto[k] == chars@.subrange(self.start as int, i as int)[k]);
                    }
                }
            }
        }
        Ok(lexer)
    }

    /// What the lexer does where the text ends: the tokens and their
    /// positions, with the token that the text ends in, or the error that
    /// the text ends in.
    pub fn finish(self, chars: &Vec<char>) -> (r: Result<(Vec<Token>, Vec<Loc>), LexError>)
        requires
            fits(self@, chars@, chars.len() as int),
        ensures
            match finish(chars@, self@) {
                Scanned::Going(s) => {
                    &&& r is Ok
                    &&& r->Ok_0.0.deep_view() == s.tokens
                    &&& r->Ok_0.1@ == s.locs
                    &&& r->Ok_0.0.len() == r->Ok_0.1.len()
                },
                Scanned::Stopped(failure) => r is Err && r->Err_0@ == failure,
            },
    {
        let mut lexer = self;
        match lexer.mode {
            Mode::Number | Mode::Ident | Mode::Sign => {
                match lexer.close(chars, chars.len()) {
                    Ok(()) => {},
                    Err(error) => {
                        return Err(error);
                    },
                }
            },
            Mode::ErrorNum => {
                return Err(
                    lexer.fail(LexErrorKind::InvalidNumber, chars, lexer.start, chars.len()),
                );
            },
            _ => {},
        }
        assert(lexer.tokens.len() == lexer@.tokens.len());
        assert(lexer.locations.len() == lexer@.locs.len());
        Ok((lexer.tokens, lexer.locations))
    }
}

/// Splits `code` into tokens and gives, beside them, the position at which
/// each was recorded.
///
/// The result is what the state machine `lexed` gives: the tokens and as
/// many positions, or the first error.
pub fn lex(code: &str) -> (r: Result<(Vec<Token>, Vec<Loc>), LexError>)
    ensures
        match lexed(code@) {
            Scanned::Going(s) => {
                &&& r is Ok
                &&& r->Ok_0.0.deep_view() == s.tokens
                &&& r->Ok_0.1@ == s.locs
                &&& r->Ok_0.0.len() == r->Ok_0.1.len()
            },
            Scanned::Stopped(failure) => r is Err && r->Err_0@ == failure,
        },
{
    let chars = characters(code);
    let mut lexer = Lexer::new();
    let mut i: usize = 0;
    while i < chars.len()
        invariant
            chars@ == code@,
            i <= chars.len(),
            run(chars@, i as int) == Scanned::Going(lexer@),
            fits(lexer@, chars@, i as int),
        decreases chars.len() - i,
    {
        let c = chars[i];
        lexer = match lexer.step(&chars, i, c.is_alphabetic(), c.is_whitespace()) {
            Ok(next) => next,
            Err(error) => {
                proof {
                    assert(run(chars@, i + 1) is Stopped);
                    lemma_stopped_stays(chars@, i + 1, chars@.len() as int);
                }
                return Err(error);
            },
        };
        i += 1;
    }
    lexer.finish(&chars)
}

} // verus!
