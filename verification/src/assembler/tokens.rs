//! Tokens and errors of the AtlASM assembler, with their mathematical views.

use vstd::prelude::*;

verus! {

/// The different kinds of tokens in assembly code.
#[derive(Debug)]
pub enum AssemblyTokenType {
    Colon,
    Comma,
    /// Left square bracket.
    LSquare,
    /// Right square bracket.
    RSquare,
    Identifier(Vec<char>),
    Number(u32),
    Register(usize),
    /// A string literal, after its escapes are resolved.
    Str(Vec<char>),
}

/// The view of a token type: the same shape, with sequences in place of vectors.
pub enum TokenKind {
    Colon,
    Comma,
    LSquare,
    RSquare,
    Identifier(Seq<char>),
    Number(u32),
    Register(usize),
    Str(Seq<char>),
}

impl View for AssemblyTokenType {
    type V = TokenKind;

    open spec fn view(&self) -> TokenKind {
        match self {
            AssemblyTokenType::Colon => TokenKind::Colon,
            AssemblyTokenType::Comma => TokenKind::Comma,
            AssemblyTokenType::LSquare => TokenKind::LSquare,
            AssemblyTokenType::RSquare => TokenKind::RSquare,
            AssemblyTokenType::Identifier(v) => TokenKind::Identifier(v@),
            AssemblyTokenType::Number(n) => TokenKind::Number(*n),
            AssemblyTokenType::Register(r) => TokenKind::Register(*r),
            AssemblyTokenType::Str(v) => TokenKind::Str(v@),
        }
    }
}

impl AssemblyTokenType {
    /// Returns a copy of the token type.
    pub fn duplicate(&self) -> (r: AssemblyTokenType)
        ensures
            r@ == self@,
    {
        match self {
            AssemblyTokenType::Colon => AssemblyTokenType::Colon,
            AssemblyTokenType::Comma => AssemblyTokenType::Comma,
            AssemblyTokenType::LSquare => AssemblyTokenType::LSquare,
            AssemblyTokenType::RSquare => AssemblyTokenType::RSquare,
            AssemblyTokenType::Identifier(v) => AssemblyTokenType::Identifier(v.clone()),
            AssemblyTokenType::Number(n) => AssemblyTokenType::Number(*n),
            AssemblyTokenType::Register(r) => AssemblyTokenType::Register(*r),
            AssemblyTokenType::Str(v) => AssemblyTokenType::Str(v.clone()),
        }
    }
}

/// An assembly token: its type and the line it starts on.
#[derive(Debug)]
pub struct AssemblyToken {
    pub ttype: AssemblyTokenType,
    pub line_no: usize,
}

/// The view of a token: its kind and its line.
pub struct TokenView {
    pub kind: TokenKind,
    pub line: nat,
}

impl View for AssemblyToken {
    type V = TokenView;

    open spec fn view(&self) -> TokenView {
        TokenView { kind: self.ttype@, line: self.line_no as nat }
    }
}

/// The views of a list of tokens.
pub open spec fn tokens_view(v: Seq<AssemblyToken>) -> Seq<TokenView> {
    Seq::new(v.len(), |i: int| v[i]@)
}

/// The different kinds of errors that can happen when assembling.
#[derive(Debug)]
pub enum AssembleErrorType {
    /// Invalid character.
    InvalidCharacter(char),
    /// Unexpected end of file.
    UnexpectedEOF,
    /// Unexpected token.
    UnexpectedToken(AssemblyTokenType),
    /// The instruction being executed isn't known.
    InvalidInstruction(Vec<char>),
    /// The instruction has been given invalid operands.
    InvalidOperands,
    /// The label being referenced isn't defined.
    UndefinedLabel(Vec<char>),
}

/// The view of an error kind.
pub enum ErrorKind {
    InvalidCharacter(char),
    UnexpectedEOF,
    UnexpectedToken(TokenKind),
    InvalidInstruction(Seq<char>),
    InvalidOperands,
    UndefinedLabel(Seq<char>),
}

impl View for AssembleErrorType {
    type V = ErrorKind;

    open spec fn view(&self) -> ErrorKind {
        match self {
            AssembleErrorType::InvalidCharacter(c) => ErrorKind::InvalidCharacter(*c),
            AssembleErrorType::UnexpectedEOF => ErrorKind::UnexpectedEOF,
            AssembleErrorType::UnexpectedToken(t) => ErrorKind::UnexpectedToken(t@),
            AssembleErrorType::InvalidInstruction(v) => ErrorKind::InvalidInstruction(v@),
            AssembleErrorType::InvalidOperands => ErrorKind::InvalidOperands,
            AssembleErrorType::UndefinedLabel(v) => ErrorKind::UndefinedLabel(v@),
        }
    }
}

/// An error that may occur when assembling, with the line it occurred on.
#[derive(Debug)]
pub struct AssembleError {
    pub etype: AssembleErrorType,
    pub line_no: usize,
}

/// The view of an error: its kind and its line.
pub struct ErrorView {
    pub kind: ErrorKind,
    pub line: nat,
}

impl View for AssembleError {
    type V = ErrorView;

    open spec fn view(&self) -> ErrorView {
        ErrorView { kind: self.etype@, line: self.line_no as nat }
    }
}

/// Builds an error view.
pub open spec fn err_at(kind: ErrorKind, line: nat) -> ErrorView {
    ErrorView { kind, line }
}

} // verus!
