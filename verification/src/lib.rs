//! Lexical front end of the Calypso compiler: spans, a character stream,
//! string interning and the lexer state machine, each with a proved contract.

pub mod buffer;
pub mod chars;
pub mod diagnostic;
pub mod grammar;
pub mod keyword;
pub mod kw;
pub mod lexer;
pub mod span;
pub mod stream;
pub mod symbol;
pub mod token;
