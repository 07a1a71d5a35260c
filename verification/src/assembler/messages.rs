//! The text of tokens and of assembler errors, as the assembler shows them to its users.

use vstd::prelude::*;
use vstd::string::StringExecFns;

use crate::assembler::tokens::{
    AssembleError, AssembleErrorType, AssemblyTokenType, ErrorKind, ErrorView, TokenKind,
};

verus! {

/// Appends a character to a string. Calls `String::push`, which the standard library
/// documents as appending the given char to the end of the string.
#[verifier::external_body]
fn push_char(s: &mut String, c: char)
    ensures
        final(s)@ == old(s)@.push(c),
{
    s.push(c);
}

/// Appends a string slice to a string.
fn push_text(s: &mut String, t: &str)
    ensures
        final(s)@ == old(s)@ + t@,
{
    s.append(t);
}

/// The character of a decimal digit.
pub open spec fn digit_char(d: nat) -> char {
    if d == 0 {
        '0'
    } else if d == 1 {
        '1'
    } else if d == 2 {
        '2'
    } else if d == 3 {
        '3'
    } else if d == 4 {
        '4'
    } else if d == 5 {
        '5'
    } else if d == 6 {
        '6'
    } else if d == 7 {
        '7'
    } else if d == 8 {
        '8'
    } else {
        '9'
    }
}

/// A number written in decimal, with no leading zero.
pub open spec fn decimal(n: nat) -> Seq<char>
    decreases n,
{
    if n < 10 {
        seq![digit_char(n)]
    } else {
        decimal(n / 10).push(digit_char(n % 10))
    }
}

/// How a token is shown: punctuation as itself, identifiers as they are, numbers in
/// decimal, registers after a dollar sign and strings between double quotes.
pub open spec fn token_text(t: TokenKind) -> Seq<char> {
    match t {
        TokenKind::Colon => ":"@,
        TokenKind::Comma => ","@,
        TokenKind::LSquare => "["@,
        TokenKind::RSquare => "]"@,
        TokenKind::Identifier(v) => v,
        TokenKind::Number(n) => decimal(n as nat),
        TokenKind::Register(r) => "$"@ + decimal(r as nat),
        TokenKind::Str(v) => "\""@ + v + "\""@,
    }
}

/// How a kind of error is shown.
pub open spec fn error_kind_text(e: ErrorKind) -> Seq<char> {
    match e {
        ErrorKind::InvalidCharacter(c) => "Unexpected character: '"@ + seq![c] + "'"@,
        ErrorKind::UnexpectedEOF => "Unexpected end of file"@,
        ErrorKind::UnexpectedToken(t) => "Unexpected token: "@ + token_text(t),
        ErrorKind::InvalidInstruction(v) => "Invalid instruction: "@ + v,
        ErrorKind::InvalidOperands => "Invalid operands"@,
        ErrorKind::UndefinedLabel(v) => "Undefined label: "@ + v,
    }
}

/// How an error is shown: its line, then its kind.
pub open spec fn error_text(e: ErrorView) -> Seq<char> {
    "Error on line "@ + decimal(e.line) + ": "@ + error_kind_text(e.kind)
}

/// The character of the decimal digit `d`.
fn digit(d: usize) -> (r: char)
    requires
        d < 10,
    ensures
        r == digit_char(d as nat),
{
    match d {
        0 => '0',
        1 => '1',
        2 => '2',
        3 => '3',
        4 => '4',
        5 => '5',
        6 => '6',
        7 => '7',
        8 => '8',
        _ => '9',
    }
}

/// Appends `n` in decimal.
fn push_decimal(s: &mut String, n: usize)
    ensures
        final(s)@ == old(s)@ + decimal(n as nat),
    decreases n,
{
    if n >= 10 {
        push_decimal(s, n / 10);
    }
    push_char(s, digit(n % 10));
    proof {
        if n >= 10 {
            assert(old(s)@ + decimal(n as nat) =~= (old(s)@ + decimal((n / 10) as nat)).push(digit_char((n % 10) as nat)));
        } else {
            assert(old(s)@ + decimal(n as nat) =~= old(s)@.push(digit_char(n as nat)));
        }
    }
}

/// Appends every character of `v`.
fn push_chars(s: &mut String, v: &Vec<char>)
    ensures
        final(s)@ == old(s)@ + v@,
{
    let mut k: usize = 0;
    while k < v.len()
        invariant
            k <= v@.len(),
            s@ == old(s)@ + v@.subrange(0, k as int),
        decreases v@.len() - k,
    {
        push_char(s, v[k]);
        k = k + 1;
        assert(s@ =~= old(s)@ + v@.subrange(0, k as int));
    }
    assert(v@.subrange(0, k as int) =~= v@);
}

impl AssemblyTokenType {
    /// Appends the text of the token.
    fn push_to(&self, s: &mut String)
        ensures
            final(s)@ == old(s)@ + token_text(self@),
    {
        match self {
            AssemblyTokenType::Colon => push_text(s, ":"),
            AssemblyTokenType::Comma => push_text(s, ","),
            AssemblyTokenType::LSquare => push_text(s, "["),
            AssemblyTokenType::RSquare => push_text(s, "]"),
            AssemblyTokenType::Identifier(v) => push_chars(s, v),
            AssemblyTokenType::Number(n) => push_decimal(s, *n as usize),
            AssemblyTokenType::Register(r) => {
                push_text(s, "$");
                push_decimal(s, *r);
                assert(s@ =~= old(s)@ + token_text(self@));
            },
            AssemblyTokenType::Str(v) => {
                push_text(s, "\"");
                push_chars(s, v);
                push_text(s, "\"");
                assert(s@ =~= old(s)@ + token_text(self@));
            },
        }
    }

    /// Returns the text of the token, as the assembler shows it.
    pub fn to_string(&self) -> (r: String)
        ensures
            r@ == token_text(self@),
    {
        let mut s = String::new();
        self.push_to(&mut s);
        assert(s@ =~= token_text(self@));
        s
    }
}

impl AssembleErrorType {
    /// Appends the text of the error kind.
    fn push_to(&self, s: &mut String)
        ensures
            final(s)@ == old(s)@ + error_kind_text(self@),
    {
        match self {
            AssembleErrorType::InvalidCharacter(c) => {
                push_text(s, "Unexpected character: '");
                push_char(s, *c);
                push_text(s, "'");
            },
            AssembleErrorType::UnexpectedEOF => push_text(s, "Unexpected end of file"),
            AssembleErrorType::UnexpectedToken(t) => {
                push_text(s, "Unexpected token: ");
                t.push_to(s);
            },
            AssembleErrorType::InvalidInstruction(v) => {
                push_text(s, "Invalid instruction: ");
                push_chars(s, v);
            },
            AssembleErrorType::InvalidOperands => push_text(s, "Invalid operands"),
            AssembleErrorType::UndefinedLabel(v) => {
                push_text(s, "Undefined label: ");
                push_chars(s, v);
            },
        }
        assert(s@ =~= old(s)@ + error_kind_text(self@));
    }

    /// Returns the text of the error kind, as the assembler shows it.
    pub fn to_string(&self) -> (r: String)
        ensures
            r@ == error_kind_text(self@),
    {
        let mut s = String::new();
        self.push_to(&mut s);
        assert(s@ =~= error_kind_text(self@));
        s
    }
}

impl AssembleError {
    /// Returns the text of the error, as the assembler shows it: "Error on line", the line,
    /// a colon and the kind of error.
    pub fn to_string(&self) -> (r: String)
        ensures
            r@ == error_text(self@),
    {
        let mut s = String::new();
        push_text(&mut s, "Error on line ");
        push_decimal(&mut s, self.line_no);
        push_text(&mut s, ": ");
        self.etype.push_to(&mut s);
        assert(s@ =~= error_text(self@));
        s
    }
}

} // verus!
