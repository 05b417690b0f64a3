//! Front end of a small imperative-language compiler.
//!
//! Source text is split into tokens (`lexer`), the tokens are parsed by
//! recursive descent and three-address code is emitted in the same pass
//! (`codegen`), and the code is written out as text (`render`); `driver`
//! does the three in a row. Loops and conditionals are lowered to labels
//! and jumps.
//!
//! What the parser has to return is said by two layers of specification:
//! `grammar` finds the syntax tree in the tokens, `lowering` says what code
//! a tree becomes. `numbering`, `renumbering` and `semantics` prove what
//! that code guarantees.
//!
//! Beside the front end stand a simpler lexer that closes its tokens with
//! an end mark (`scanner`) and a reader of a textual intermediate code
//! (`ir_lexer`, `ir_parser`).

pub mod codegen;
pub mod context;
pub mod cursor;
pub mod driver;
pub mod error;
pub mod grammar;
pub mod ir_lexer;
pub mod ir_parser;
pub mod lexer;
pub mod lowering;
pub mod numbering;
pub mod render;
pub mod renumbering;
pub mod scanner;
pub mod semantics;
pub mod tac;
pub mod text;
pub mod token;
