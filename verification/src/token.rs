//! Token kinds, and the tables of operator and punctuation spellings.

use crate::span::Spanned;
use vstd::prelude::*;

verus! {

/// The reserved words of the language.
#[derive(Clone, Copy, Debug, PartialEq, Eq, Hash, Structural)]
pub enum Keyword {
    KwIs,
    KwIsa,
    KwBoolTy,
    KwSintTy,
    KwUintTy,
    KwFloatTy,
    KwStringTy,
    KwCharTy,
    KwTupleTy,
    KwArrayTy,
    KwFalse,
    KwTrue,
    KwIf,
    KwElse,
    KwFor,
    KwIn,
    KwLoop,
    KwWhile,
    KwMatch,
    KwRet,
    KwBreak,
    KwFn,
    KwNative,
    KwMod,
    KwUse,
    KwImport,
    KwPub,
    KwLet,
    KwMut,
    KwUndef,
    KwNull,
    KwDel,
    KwAs,
}

/// What a token is.
#[derive(Clone, Copy, Debug, PartialEq, Eq, Hash, Structural)]
pub enum TokenType {
    /// The end of the input.
    Eof,
    /// A stretch of white space and comments.
    Ws,
    Ident,
    Keyword(Keyword),
    /// `_` on its own.
    Under,
    /// `<>`
    GreaterLess,
    /// `<<=`
    ShlAssign,
    /// `<<`
    Shl,
    /// `<=`
    LessEqual,
    /// `<`
    Less,
    /// `>>=`
    ShrAssign,
    /// `>>`
    Shr,
    /// `>=`
    GreaterEqual,
    /// `>`
    Greater,
    /// `==`
    BoolEqual,
    /// `=`
    Equal,
    /// `!=`
    NotEqual,
    /// `!`
    Bang,
    /// `||`
    BoolOr,
    /// `|=`
    PipeAssign,
    /// `|`
    Pipe,
    /// `&&`
    BoolAnd,
    /// `&=`
    AndAssign,
    /// `&`
    And,
    /// `+=`
    PlusAssign,
    /// `+`
    Plus,
    /// `-=`
    MinusAssign,
    /// `-`
    Minus,
    /// `**=`
    ExpAssign,
    /// `**`
    Exp,
    /// `*=`
    StarAssign,
    /// `*`
    Star,
    /// `/=`
    SlashAssign,
    /// `/`
    Slash,
    /// `%=`
    RemAssign,
    /// `%`
    Rem,
    /// `^=`
    CaretAssign,
    /// `^`
    Caret,
    /// `~`
    Tilde,
    /// `(`
    LeftParen,
    /// `)`
    RightParen,
    /// `{`
    LeftBrace,
    /// `}`
    RightBrace,
    /// `[`
    LeftBracket,
    /// `]`
    RightBracket,
    /// `,`
    Comma,
    /// `;`
    Semi,
    /// `..=`
    RangeInc,
    /// `..`
    Range,
    /// `.`
    Dot,
    /// `#!`
    HashBang,
    /// `#`
    Hash,
}

/// The source text a token was scanned from.
pub type Lexeme<'lex> = &'lex [char];

/// A token: its kind and its text, with the span of the text.
pub type Token<'lex> = Spanned<(TokenType, Lexeme<'lex>)>;

/// The token spelled by the single character `a`, if there is one.
pub open spec fn operator1(a: char) -> Option<TokenType> {
    if a == '<' {
        Some(TokenType::Less)
    } else if a == '>' {
        Some(TokenType::Greater)
    } else if a == '=' {
        Some(TokenType::Equal)
    } else if a == '!' {
        Some(TokenType::Bang)
    } else if a == '|' {
        Some(TokenType::Pipe)
    } else if a == '&' {
        Some(TokenType::And)
    } else if a == '+' {
        Some(TokenType::Plus)
    } else if a == '-' {
        Some(TokenType::Minus)
    } else if a == '*' {
        Some(TokenType::Star)
    } else if a == '/' {
        Some(TokenType::Slash)
    } else if a == '%' {
        Some(TokenType::Rem)
    } else if a == '^' {
        Some(TokenType::Caret)
    } else if a == '~' {
        Some(TokenType::Tilde)
    } else if a == '(' {
        Some(TokenType::LeftParen)
    } else if a == ')' {
        Some(TokenType::RightParen)
    } else if a == '{' {
        Some(TokenType::LeftBrace)
    } else if a == '}' {
        Some(TokenType::RightBrace)
    } else if a == '[' {
        Some(TokenType::LeftBracket)
    } else if a == ']' {
        Some(TokenType::RightBracket)
    } else if a == ',' {
        Some(TokenType::Comma)
    } else if a == ';' {
        Some(TokenType::Semi)
    } else if a == '.' {
        Some(TokenType::Dot)
    } else if a == '#' {
        Some(TokenType::Hash)
    } else {
        None
    }
}

/// The token spelled by the two characters `a`, `b`, if there is one.
pub open spec fn operator2(a: char, b: char) -> Option<TokenType> {
    if a == '<' && b == '>' {
        Some(TokenType::GreaterLess)
    } else if a == '<' && b == '<' {
        Some(TokenType::Shl)
    } else if a == '<' && b == '=' {
        Some(TokenType::LessEqual)
    } else if a == '>' && b == '>' {
        Some(TokenType::Shr)
    } else if a == '>' && b == '=' {
        Some(TokenType::GreaterEqual)
    } else if a == '=' && b == '=' {
        Some(TokenType::BoolEqual)
    } else if a == '!' && b == '=' {
        Some(TokenType::NotEqual)
    } else if a == '|' && b == '|' {
        Some(TokenType::BoolOr)
    } else if a == '|' && b == '=' {
        Some(TokenType::PipeAssign)
    } else if a == '&' && b == '&' {
        Some(TokenType::BoolAnd)
    } else if a == '&' && b == '=' {
        Some(TokenType::AndAssign)
    } else if a == '+' && b == '=' {
        Some(TokenType::PlusAssign)
    } else if a == '-' && b == '=' {
        Some(TokenType::MinusAssign)
    } else if a == '*' && b == '*' {
        Some(TokenType::Exp)
    } else if a == '*' && b == '=' {
        Some(TokenType::StarAssign)
    } else if a == '/' && b == '=' {
        Some(TokenType::SlashAssign)
    } else if a == '%' && b == '=' {
        Some(TokenType::RemAssign)
    } else if a == '^' && b == '=' {
        Some(TokenType::CaretAssign)
    } else if a == '.' && b == '.' {
        Some(TokenType::Range)
    } else if a == '#' && b == '!' {
        Some(TokenType::HashBang)
    } else {
        None
    }
}

/// The token spelled by the three characters `a`, `b`, `c`, if there is one.
pub open spec fn operator3(a: char, b: char, c: char) -> Option<TokenType> {
    if a == '<' && b == '<' && c == '=' {
        Some(TokenType::ShlAssign)
    } else if a == '>' && b == '>' && c == '=' {
        Some(TokenType::ShrAssign)
    } else if a == '*' && b == '*' && c == '=' {
        Some(TokenType::ExpAssign)
    } else if a == '.' && b == '.' && c == '=' {
        Some(TokenType::RangeInc)
    } else {
        None
    }
}

/// The operator or punctuation token whose spelling is exactly `lexeme`, if
/// there is one.
pub open spec fn operator(lexeme: Seq<char>) -> Option<TokenType> {
    if lexeme.len() == 1 {
        operator1(lexeme[0])
    } else if lexeme.len() == 2 {
        operator2(lexeme[0], lexeme[1])
    } else if lexeme.len() == 3 {
        operator3(lexeme[0], lexeme[1], lexeme[2])
    } else {
        None
    }
}

} // verus!
