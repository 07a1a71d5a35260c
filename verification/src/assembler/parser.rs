//! The parser of the AtlASM assembler: from tokens to instructions.

use vstd::prelude::*;
use vstd::utf8::encode_utf8;

use vstd::utf8::encode_scalar;

use crate::assembler::instructions::{instrs_view, label_view, InstrKind, InstrView, Instruction, InstructionType};
use crate::assembler::tokens::{
    err_at, tokens_view, AssembleError, AssembleErrorType, AssemblyToken, AssemblyTokenType,
    ErrorKind, ErrorView, TokenKind, TokenView,
};

verus! {

/// The view of an operand type.
pub enum OperandKind {
    Immediate(u16),
    ImmediateAddress(u16),
    Label(Seq<char>),
    Register(usize),
    RegisterAddress(usize),
    Str(Seq<char>),
}

/// The view of an operand: its kind and the line of its first token.
pub struct OperandView {
    pub kind: OperandKind,
    pub line: nat,
}

/// The line of the token at `p`, or the line of the last token past the end.
pub open spec fn line_at(t: Seq<TokenView>, p: int, eof: nat) -> nat {
    if 0 <= p < t.len() {
        t[p].line
    } else {
        eof
    }
}

/// Eats a token of the given kind at `p`; gives the position after it.
pub open spec fn spec_eat_kind(t: Seq<TokenView>, p: int, eof: nat, k: TokenKind) -> Result<int, ErrorView> {
    if p < 0 || p >= t.len() {
        Err(err_at(ErrorKind::UnexpectedEOF, eof))
    } else if t[p].kind == k {
        Ok(p + 1)
    } else {
        Err(err_at(ErrorKind::UnexpectedToken(t[p].kind), t[p].line))
    }
}

/// Eats an identifier at `p`; gives its characters and the position after it.
pub open spec fn spec_eat_ident(t: Seq<TokenView>, p: int, eof: nat) -> Result<(Seq<char>, int), ErrorView> {
    if p < 0 || p >= t.len() {
        Err(err_at(ErrorKind::UnexpectedEOF, eof))
    } else {
        match t[p].kind {
            TokenKind::Identifier(id) => Ok((id, p + 1)),
            _ => Err(err_at(ErrorKind::UnexpectedToken(t[p].kind), t[p].line)),
        }
    }
}

/// Eats an operand at `p`; gives it and the position after it.
pub open spec fn spec_eat_operand(t: Seq<TokenView>, p: int, eof: nat) -> Result<(OperandView, int), ErrorView>
    decreases t.len() - p,
{
    if p < 0 || p >= t.len() {
        Err(err_at(ErrorKind::UnexpectedEOF, eof))
    } else {
        let ln = t[p].line;
        match t[p].kind {
            TokenKind::Number(n) => Ok((OperandView { kind: OperandKind::Immediate(n as u16), line: ln }, p + 1)),
            TokenKind::Identifier(id) => Ok((OperandView { kind: OperandKind::Label(id), line: ln }, p + 1)),
            TokenKind::Register(r) => Ok((OperandView { kind: OperandKind::Register(r), line: ln }, p + 1)),
            TokenKind::Str(s) => Ok((OperandView { kind: OperandKind::Str(s), line: ln }, p + 1)),
            TokenKind::LSquare => match spec_eat_operand(t, p + 1, eof) {
                Err(e) => Err(e),
                Ok((op, q)) => match spec_eat_kind(t, q, eof, TokenKind::RSquare) {
                    Err(e) => Err(e),
                    Ok(q2) => match op.kind {
                        OperandKind::Immediate(i) => Ok((OperandView { kind: OperandKind::ImmediateAddress(i), line: ln }, q2)),
                        OperandKind::Register(r) => Ok((OperandView { kind: OperandKind::RegisterAddress(r), line: ln }, q2)),
                        _ => Err(err_at(ErrorKind::InvalidOperands, ln)),
                    },
                },
            },
            _ => Err(err_at(ErrorKind::UnexpectedToken(t[p].kind), ln)),
        }
    }
}

pub proof fn lemma_eat_operand_progress(t: Seq<TokenView>, p: int, eof: nat)
    requires
        0 <= p,
    ensures
        spec_eat_operand(t, p, eof) matches Ok((_, q)) ==> p < q <= t.len(),
    decreases t.len() - p,
{
    if p < t.len() {
        lemma_eat_operand_progress(t, p + 1, eof);
    }
}

/// The bytes that an operand of a data directive writes.
pub open spec fn operand_bytes(op: OperandView) -> Result<Seq<u8>, ErrorView> {
    match op.kind {
        OperandKind::Immediate(i) => Ok(seq![i as u8]),
        OperandKind::Str(s) => Ok(encode_utf8(s)),
        _ => Err(err_at(ErrorKind::InvalidOperands, op.line)),
    }
}

/// The further operands of a data directive, each after a comma, from `q` on.
pub open spec fn db_rest(t: Seq<TokenView>, q: int, eof: nat, acc: Seq<u8>) -> Result<(Seq<u8>, int), ErrorView>
    decreases t.len() - q,
{
    if 0 <= q < t.len() && t[q].kind == TokenKind::Comma {
        match spec_eat_operand(t, q + 1, eof) {
            Err(e) => Err(e),
            Ok((op, r)) => match operand_bytes(op) {
                Err(e) => Err(e),
                Ok(b) => {
                    proof {
                        lemma_eat_operand_progress(t, q + 1, eof);
                    }
                    db_rest(t, r, eof, acc + b)
                },
            },
        }
    } else {
        Ok((acc, q))
    }
}

/// Two operands separated by a comma.
pub open spec fn two_operands(t: Seq<TokenView>, p: int, eof: nat) -> Result<(OperandKind, OperandKind, int), ErrorView> {
    match spec_eat_operand(t, p, eof) {
        Err(e) => Err(e),
        Ok((op1, q1)) => match spec_eat_kind(t, q1, eof, TokenKind::Comma) {
            Err(e) => Err(e),
            Ok(q2) => match spec_eat_operand(t, q2, eof) {
                Err(e) => Err(e),
                Ok((op2, q3)) => Ok((op1.kind, op2.kind, q3)),
            },
        },
    }
}

/// Three operands separated by commas.
pub open spec fn three_operands(t: Seq<TokenView>, p: int, eof: nat) -> Result<(OperandKind, OperandKind, OperandKind, int), ErrorView> {
    match two_operands(t, p, eof) {
        Err(e) => Err(e),
        Ok((a, b, q)) => match spec_eat_kind(t, q, eof, TokenKind::Comma) {
            Err(e) => Err(e),
            Ok(q2) => match spec_eat_operand(t, q2, eof) {
                Err(e) => Err(e),
                Ok((op3, q3)) => Ok((a, b, op3.kind, q3)),
            },
        },
    }
}

/// An instruction of the given kind, label and line, with the position after it.
pub open spec fn instr_at(kind: InstrKind, label: Option<Seq<char>>, line: nat, q: int) -> Result<(InstrView, int), ErrorView> {
    Ok((InstrView { kind, label, line }, q))
}

/// The operands of the instruction named `name`, read from `p`.
pub open spec fn parse_body(name: Seq<char>, t: Seq<TokenView>, p: int, eof: nat, label: Option<Seq<char>>, line: nat) -> Result<(InstrView, int), ErrorView> {
    let bad = err_at(ErrorKind::InvalidOperands, line);
    if name == seq!['m', 'o', 'v'] {
        match two_operands(t, p, eof) {
            Err(e) => Err(e),
            Ok((a, b, q)) => match (a, b) {
                (OperandKind::Immediate(imm), OperandKind::Register(reg)) => instr_at(InstrKind::MoveImmToReg(imm, reg), label, line, q),
                (OperandKind::Label(l), OperandKind::Register(reg)) => instr_at(InstrKind::MoveLabelToReg(l, reg), label, line, q),
                (OperandKind::Register(r1), OperandKind::Register(r2)) => instr_at(InstrKind::MoveRegToReg(r1, r2), label, line, q),
                (OperandKind::RegisterAddress(r1), OperandKind::Register(r2)) => instr_at(InstrKind::MoveRegAddrToReg(r1, r2), label, line, q),
                (OperandKind::Register(r1), OperandKind::RegisterAddress(r2)) => instr_at(InstrKind::MoveRegToRegAddr(r1, r2), label, line, q),
                _ => Err(bad),
            },
        }
    } else if name == seq!['m', 'o', 'v', 'b'] {
        match two_operands(t, p, eof) {
            Err(e) => Err(e),
            Ok((a, b, q)) => match (a, b) {
                (OperandKind::RegisterAddress(r1), OperandKind::Register(r2)) => instr_at(InstrKind::MoveByteRegAddrToReg(r1, r2), label, line, q),
                (OperandKind::Register(r1), OperandKind::RegisterAddress(r2)) => instr_at(InstrKind::MoveByteRegToRegAddr(r1, r2), label, line, q),
                _ => Err(bad),
            },
        }
    } else if name == seq!['a', 'd', 'd'] {
        match three_operands(t, p, eof) {
            Err(e) => Err(e),
            Ok((a, b, c, q)) => match (a, b, c) {
                (OperandKind::Register(r1), OperandKind::Immediate(imm), OperandKind::Register(r2)) => instr_at(InstrKind::AddImmToReg(r1, imm, r2), label, line, q),
                (OperandKind::Register(r1), OperandKind::Register(r2), OperandKind::Register(r3)) => instr_at(InstrKind::AddRegToReg(r1, r2, r3), label, line, q),
                _ => Err(bad),
            },
        }
    } else if name == seq!['s', 'u', 'b'] {
        match three_operands(t, p, eof) {
            Err(e) => Err(e),
            Ok((a, b, c, q)) => match (a, b, c) {
                (OperandKind::Register(r1), OperandKind::Immediate(imm), OperandKind::Register(r2)) => instr_at(InstrKind::SubImmFromReg(r1, imm, r2), label, line, q),
                (OperandKind::Register(r1), OperandKind::Register(r2), OperandKind::Register(r3)) => instr_at(InstrKind::SubRegFromReg(r1, r2, r3), label, line, q),
                _ => Err(bad),
            },
        }
    } else if name == seq!['b'] {
        match spec_eat_operand(t, p, eof) {
            Err(e) => Err(e),
            Ok((op, q)) => match op.kind {
                OperandKind::Label(l) => instr_at(InstrKind::BranchToLabel(l), label, line, q),
                _ => Err(bad),
            },
        }
    } else if name == seq!['b', 'e', 'q'] {
        match three_operands(t, p, eof) {
            Err(e) => Err(e),
            Ok((a, b, c, q)) => match (a, b, c) {
                (OperandKind::Register(reg), OperandKind::Immediate(imm), OperandKind::Label(l)) => instr_at(InstrKind::BranchToLabelIfEqual(reg, imm, l), label, line, q),
                _ => Err(bad),
            },
        }
    } else if name == seq!['b', 'l', 'e', 'q'] {
        match three_operands(t, p, eof) {
            Err(e) => Err(e),
            Ok((a, b, c, q)) => match (a, b, c) {
                (OperandKind::Register(reg), OperandKind::Immediate(imm), OperandKind::Label(l)) => instr_at(InstrKind::BranchToLabelIfLessThanOrEqual(reg, imm, l), label, line, q),
                _ => Err(bad),
            },
        }
    } else if name == seq!['c', 'a', 'l', 'l'] {
        match spec_eat_operand(t, p, eof) {
            Err(e) => Err(e),
            Ok((op, q)) => match op.kind {
                OperandKind::Label(l) => instr_at(InstrKind::CallLabel(l), label, line, q),
                _ => Err(bad),
            },
        }
    } else if name == seq!['r', 'e', 't'] {
        instr_at(InstrKind::Ret, label, line, p)
    } else if name == seq!['.', 'd', 'b'] {
        match spec_eat_operand(t, p, eof) {
            Err(e) => Err(e),
            Ok((op, q)) => match operand_bytes(op) {
                Err(e) => Err(e),
                Ok(b) => match db_rest(t, q, eof, b) {
                    Err(e) => Err(e),
                    Ok((bytes, q2)) => instr_at(InstrKind::DataDirective(bytes), label, line, q2),
                },
            },
        }
    } else if name == seq!['h', 'a', 'l', 't'] {
        instr_at(InstrKind::Halt, label, line, p)
    } else {
        Err(err_at(ErrorKind::InvalidInstruction(name), line))
    }
}

/// Parses one instruction at `p`: an optional label and a colon, the instruction's name and
/// its operands. Its line is that of the token after the name (or after the label and colon).
pub open spec fn parse_instr(t: Seq<TokenView>, p: int, eof: nat) -> Result<(InstrView, int), ErrorView> {
    match spec_eat_ident(t, p, eof) {
        Err(e) => Err(e),
        Ok((ident, p1)) => if 0 <= p1 < t.len() && t[p1].kind == TokenKind::Colon {
            let line = line_at(t, p1 + 1, eof);
            match spec_eat_ident(t, p1 + 1, eof) {
                Err(e) => Err(e),
                Ok((name, p2)) => parse_body(name, t, p2, eof, Some(ident), line),
            }
        } else {
            parse_body(ident, t, p1, eof, None, line_at(t, p1, eof))
        },
    }
}

pub proof fn lemma_db_rest_progress(t: Seq<TokenView>, q: int, eof: nat, acc: Seq<u8>)
    requires
        0 <= q <= t.len(),
    ensures
        db_rest(t, q, eof, acc) matches Ok((_, r)) ==> q <= r <= t.len(),
    decreases t.len() - q,
{
    if 0 <= q < t.len() && t[q].kind == TokenKind::Comma {
        lemma_eat_operand_progress(t, q + 1, eof);
        if let Ok((op, r)) = spec_eat_operand(t, q + 1, eof) {
            if let Ok(b) = operand_bytes(op) {
                lemma_db_rest_progress(t, r, eof, acc + b);
            }
        }
    }
}

pub proof fn lemma_operands_progress(t: Seq<TokenView>, p: int, eof: nat)
    requires
        0 <= p <= t.len(),
    ensures
        two_operands(t, p, eof) matches Ok((_, _, q)) ==> p < q <= t.len(),
        three_operands(t, p, eof) matches Ok((_, _, _, q)) ==> p < q <= t.len(),
{
    lemma_eat_operand_progress(t, p, eof);
    if let Ok((op1, q1)) = spec_eat_operand(t, p, eof) {
        if let Ok(q2) = spec_eat_kind(t, q1, eof, TokenKind::Comma) {
            lemma_eat_operand_progress(t, q2, eof);
            if let Ok((op2, q3)) = spec_eat_operand(t, q2, eof) {
                if let Ok(q4) = spec_eat_kind(t, q3, eof, TokenKind::Comma) {
                    lemma_eat_operand_progress(t, q4, eof);
                }
            }
        }
    }
}

pub proof fn lemma_parse_body_progress(name: Seq<char>, t: Seq<TokenView>, p: int, eof: nat, label: Option<Seq<char>>, line: nat)
    requires
        0 <= p <= t.len(),
    ensures
        parse_body(name, t, p, eof, label, line) matches Ok((_, q)) ==> p <= q <= t.len(),
{
    lemma_operands_progress(t, p, eof);
    lemma_eat_operand_progress(t, p, eof);
    if let Ok((op, q)) = spec_eat_operand(t, p, eof) {
        if let Ok(b) = operand_bytes(op) {
            lemma_db_rest_progress(t, q, eof, b);
        }
    }
}

pub proof fn lemma_parse_instr_progress(t: Seq<TokenView>, p: int, eof: nat)
    requires
        0 <= p <= t.len(),
    ensures
        parse_instr(t, p, eof) matches Ok((_, q)) ==> p < q <= t.len(),
{
    if let Ok((ident, p1)) = spec_eat_ident(t, p, eof) {
        if 0 <= p1 < t.len() && t[p1].kind == TokenKind::Colon {
            if let Ok((name, p2)) = spec_eat_ident(t, p1 + 1, eof) {
                lemma_parse_body_progress(name, t, p2, eof, Some(ident), line_at(t, p1 + 1, eof));
            }
        } else {
            lemma_parse_body_progress(ident, t, p1, eof, None, line_at(t, p1, eof));
        }
    }
}

/// Parses instructions from `p` to the end, after those parsed so far.
pub open spec fn parse_all(t: Seq<TokenView>, p: int, eof: nat, acc: Seq<InstrView>) -> Result<Seq<InstrView>, ErrorView>
    decreases t.len() - p,
{
    if p < 0 || p >= t.len() {
        Ok(acc)
    } else {
        match parse_instr(t, p, eof) {
            Err(e) => Err(e),
            Ok((ins, q)) => {
                proof {
                    lemma_parse_instr_progress(t, p, eof);
                }
                parse_all(t, q, eof, acc.push(ins))
            },
        }
    }
}

/// Parses a list of tokens; the end of the input is on the line of the last token.
pub open spec fn parse(t: Seq<TokenView>) -> Result<Seq<InstrView>, ErrorView> {
    parse_all(t, 0, t.last().line, seq![])
}

/// An assembly operand type.
pub enum AssemblyOperandType {
    Immediate(u16),
    ImmediateAddress(u16),
    Label(Vec<char>),
    Register(usize),
    RegisterAddress(usize),
    Str(Vec<char>),
}

impl View for AssemblyOperandType {
    type V = OperandKind;

    open spec fn view(&self) -> OperandKind {
        match self {
            AssemblyOperandType::Immediate(i) => OperandKind::Immediate(*i),
            AssemblyOperandType::ImmediateAddress(i) => OperandKind::ImmediateAddress(*i),
            AssemblyOperandType::Label(l) => OperandKind::Label(l@),
            AssemblyOperandType::Register(r) => OperandKind::Register(*r),
            AssemblyOperandType::RegisterAddress(r) => OperandKind::RegisterAddress(*r),
            AssemblyOperandType::Str(s) => OperandKind::Str(s@),
        }
    }
}

/// An assembly operand: its type and the line of its first token.
pub struct AssemblyOperand {
    pub otype: AssemblyOperandType,
    pub line_no: usize,
}

impl View for AssemblyOperand {
    type V = OperandView;

    open spec fn view(&self) -> OperandView {
        OperandView { kind: self.otype@, line: self.line_no as nat }
    }
}

/// Appends the UTF-8 encoding of a character.
fn push_utf8(out: &mut Vec<u8>, c: char)
    ensures
        final(out)@ == old(out)@ + encode_scalar(c as u32),
{
    let v = c as u32;
    proof {
        vstd::utf8::char_is_scalar(c);
    }
    if v <= 0x7f {
        out.push((v & 0x7f) as u8);
    } else if v <= 0x7ff {
        out.push(0xc0 | ((v >> 6) & 0x1f) as u8);
        out.push(0x80 | (v & 0x3f) as u8);
    } else if v <= 0xffff {
        out.push(0xe0 | ((v >> 12) & 0x0f) as u8);
        out.push(0x80 | ((v >> 6) & 0x3f) as u8);
        out.push(0x80 | (v & 0x3f) as u8);
    } else {
        out.push(0xf0 | ((v >> 18) & 0x7) as u8);
        out.push(0x80 | ((v >> 12) & 0x3f) as u8);
        out.push(0x80 | ((v >> 6) & 0x3f) as u8);
        out.push(0x80 | (v & 0x3f) as u8);
    }
    assert(final(out)@ =~= old(out)@ + encode_scalar(c as u32));
}

proof fn lemma_encode_utf8_push(s: Seq<char>, c: char)
    ensures
        encode_utf8(s.push(c)) == encode_utf8(s) + encode_scalar(c as u32),
    decreases s.len(),
{
    if s.len() == 0 {
        assert(s.push(c).drop_first() =~= s);
        assert(encode_utf8(s) =~= seq![]);
        assert(encode_utf8(s.push(c).drop_first()) =~= seq![]);
        assert(encode_utf8(s.push(c)) =~= encode_utf8(s) + encode_scalar(c as u32));
    } else {
        lemma_encode_utf8_push(s.drop_first(), c);
        assert(s.push(c).drop_first() =~= s.drop_first().push(c));
        assert(encode_utf8(s.push(c)) =~= encode_utf8(s) + encode_scalar(c as u32));
    }
}

/// The UTF-8 encoding of a list of characters.
fn encode_chars(v: &Vec<char>) -> (r: Vec<u8>)
    ensures
        r@ == encode_utf8(v@),
{
    let mut out: Vec<u8> = Vec::new();
    let mut k: usize = 0;
    assert(encode_utf8(v@.subrange(0, 0)) =~= seq![]);
    while k < v.len()
        invariant
            k <= v@.len(),
            out@ == encode_utf8(v@.subrange(0, k as int)),
        decreases v@.len() - k,
    {
        proof {
            lemma_encode_utf8_push(v@.subrange(0, k as int), v@[k as int]);
            assert(v@.subrange(0, k + 1) =~= v@.subrange(0, k as int).push(v@[k as int]));
        }
        push_utf8(&mut out, v[k]);
        k = k + 1;
    }
    assert(v@.subrange(0, k as int) =~= v@);
    out
}

impl AssemblyOperand {
    /// The bytes that this operand writes in a data directive.
    pub fn as_bytes(&self) -> (r: Result<Vec<u8>, AssembleError>)
        ensures
            match operand_bytes(self@) {
                Ok(b) => r matches Ok(v) && v@ == b,
                Err(e) => r matches Err(x) && x@ == e,
            },
    {
        match &self.otype {
            AssemblyOperandType::Immediate(imm) => {
                let v = vec![*imm as u8];
                assert(v@ =~= seq![*imm as u8]);
                Ok(v)
            },
            AssemblyOperandType::Str(st) => Ok(encode_chars(st)),
            _ => Err(AssembleError { etype: AssembleErrorType::InvalidOperands, line_no: self.line_no }),
        }
    }
}

/// Whether a list of characters equals a word.
pub(crate) fn is_word(v: &Vec<char>, w: &[char]) -> (r: bool)
    ensures
        r == (v@ == w@),
{
    if v.len() != w.len() {
        assert(v@.len() != w@.len());
        return false;
    }
    let mut k: usize = 0;
    while k < v.len()
        invariant
            v@.len() == w@.len(),
            k <= v@.len(),
            forall|j: int| 0 <= j < k ==> v@[j] == w@[j],
        decreases v@.len() - k,
    {
        if v[k] != w[k] {
            return false;
        }
        k = k + 1;
    }
    assert(v@ =~= w@);
    true
}

/// Whether two token types are equal.
fn same_token_type(a: &AssemblyTokenType, b: &AssemblyTokenType) -> (r: bool)
    ensures
        r == (a@ == b@),
{
    match (a, b) {
        (AssemblyTokenType::Colon, AssemblyTokenType::Colon) => true,
        (AssemblyTokenType::Comma, AssemblyTokenType::Comma) => true,
        (AssemblyTokenType::LSquare, AssemblyTokenType::LSquare) => true,
        (AssemblyTokenType::RSquare, AssemblyTokenType::RSquare) => true,
        (AssemblyTokenType::Identifier(x), AssemblyTokenType::Identifier(y)) => is_word(x, y.as_slice()),
        (AssemblyTokenType::Number(x), AssemblyTokenType::Number(y)) => *x == *y,
        (AssemblyTokenType::Register(x), AssemblyTokenType::Register(y)) => *x == *y,
        (AssemblyTokenType::Str(x), AssemblyTokenType::Str(y)) => is_word(x, y.as_slice()),
        _ => false,
    }
}

/// A parser for the ATLAS assembly language: the tokens, the position of the next token,
/// and the line of the last token.
pub struct AssemblyParser {
    pub tokens: Vec<AssemblyToken>,
    pub pos: usize,
    pub eof_line_no: usize,
}

impl AssemblyParser {
    /// The views of the parser's tokens.
    pub open spec fn toks(&self) -> Seq<TokenView> {
        tokens_view(self.tokens@)
    }

    /// The parser is well formed: its position is within its tokens.
    pub open spec fn wf(&self) -> bool {
        self.pos <= self.tokens@.len()
    }

    /// Two states of a parser over the same tokens.
    pub open spec fn same_input(&self, other: &Self) -> bool {
        &&& self.tokens == other.tokens
        &&& self.eof_line_no == other.eof_line_no
    }

    /// Returns a new parser at the first of the given tokens.
    pub fn new(tokens: Vec<AssemblyToken>) -> (r: Self)
        requires
            tokens@.len() > 0,
        ensures
            r.tokens == tokens,
            r.pos == 0,
            r.eof_line_no == tokens@.last().line_no,
    {
        let eof_line_no = tokens[tokens.len() - 1].line_no;
        AssemblyParser { tokens, pos: 0, eof_line_no }
    }

    /// Returns the next token while consuming it.
    pub fn eat_token(&mut self) -> (r: Result<AssemblyToken, AssembleError>)
        requires
            old(self).wf(),
        ensures
            final(self).wf(),
            final(self).same_input(old(self)),
            old(self).pos < old(self).tokens@.len() ==> (r matches Ok(t) && t@ == old(self).toks()[old(self).pos as int]
                && final(self).pos == old(self).pos + 1),
            old(self).pos >= old(self).tokens@.len() ==> (r matches Err(e)
                && e@ == err_at(ErrorKind::UnexpectedEOF, old(self).eof_line_no as nat)
                && final(self).pos == old(self).pos),
    {
        if self.pos < self.tokens.len() {
            let t = &self.tokens[self.pos];
            let r = AssemblyToken { ttype: t.ttype.duplicate(), line_no: t.line_no };
            self.pos = self.pos + 1;
            Ok(r)
        } else {
            Err(AssembleError { etype: AssembleErrorType::UnexpectedEOF, line_no: self.eof_line_no })
        }
    }

    /// Eats a token if it equals the given type, otherwise returns an error.
    pub fn eat_token_of_type(&mut self, ttype: AssemblyTokenType) -> (r: Result<(), AssembleError>)
        requires
            old(self).wf(),
        ensures
            final(self).wf(),
            final(self).same_input(old(self)),
            match spec_eat_kind(old(self).toks(), old(self).pos as int, old(self).eof_line_no as nat, ttype@) {
                Ok(q) => r is Ok && final(self).pos == q,
                Err(e) => r matches Err(x) && x@ == e,
            },
            old(self).pos < old(self).tokens@.len() ==> final(self).pos == old(self).pos + 1,
            old(self).pos >= old(self).tokens@.len() ==> final(self).pos == old(self).pos,
    {
        let token = self.eat_token()?;
        if same_token_type(&token.ttype, &ttype) {
            Ok(())
        } else {
            Err(AssembleError { etype: AssembleErrorType::UnexpectedToken(token.ttype), line_no: token.line_no })
        }
    }

    /// Returns the line of the next token, or the line of the last token if none is left.
    pub fn get_line_no(&self) -> (r: usize)
        requires
            self.wf(),
        ensures
            r as nat == line_at(self.toks(), self.pos as int, self.eof_line_no as nat),
    {
        if self.pos < self.tokens.len() {
            self.tokens[self.pos].line_no
        } else {
            self.eof_line_no
        }
    }

    /// Returns the characters of the next identifier, otherwise returns an error.
    pub fn eat_ident(&mut self) -> (r: Result<Vec<char>, AssembleError>)
        requires
            old(self).wf(),
        ensures
            final(self).wf(),
            final(self).same_input(old(self)),
            match spec_eat_ident(old(self).toks(), old(self).pos as int, old(self).eof_line_no as nat) {
                Ok((id, q)) => r matches Ok(v) && v@ == id && final(self).pos == q,
                Err(e) => r matches Err(x) && x@ == e,
            },
            old(self).pos < old(self).tokens@.len() ==> final(self).pos == old(self).pos + 1,
            old(self).pos >= old(self).tokens@.len() ==> final(self).pos == old(self).pos,
    {
        let token = self.eat_token()?;
        match token.ttype {
            AssemblyTokenType::Identifier(ident) => Ok(ident),
            other => Err(AssembleError { etype: AssembleErrorType::UnexpectedToken(other), line_no: token.line_no }),
        }
    }

    /// Returns the next operand if there is one, otherwise returns an error.
    pub fn eat_operand(&mut self) -> (r: Result<AssemblyOperand, AssembleError>)
        requires
            old(self).wf(),
        ensures
            final(self).wf(),
            final(self).same_input(old(self)),
            match spec_eat_operand(old(self).toks(), old(self).pos as int, old(self).eof_line_no as nat) {
                Ok((op, q)) => r matches Ok(o) && o@ == op && final(self).pos == q,
                Err(e) => r matches Err(x) && x@ == e,
            },
        decreases old(self).tokens@.len() - old(self).pos,
    {
        let token = self.eat_token()?;
        let line_no = token.line_no;
        match token.ttype {
            AssemblyTokenType::Number(num) => Ok(AssemblyOperand { otype: AssemblyOperandType::Immediate(num as u16), line_no }),
            AssemblyTokenType::Identifier(ident) => Ok(AssemblyOperand { otype: AssemblyOperandType::Label(ident), line_no }),
            AssemblyTokenType::Register(reg) => Ok(AssemblyOperand { otype: AssemblyOperandType::Register(reg), line_no }),
            AssemblyTokenType::Str(st) => Ok(AssemblyOperand { otype: AssemblyOperandType::Str(st), line_no }),
            AssemblyTokenType::LSquare => {
                let operand = self.eat_operand()?;
                self.eat_token_of_type(AssemblyTokenType::RSquare)?;
                match operand.otype {
                    AssemblyOperandType::Immediate(imm) => Ok(AssemblyOperand { otype: AssemblyOperandType::ImmediateAddress(imm), line_no }),
                    AssemblyOperandType::Register(reg) => Ok(AssemblyOperand { otype: AssemblyOperandType::RegisterAddress(reg), line_no }),
                    _ => Err(AssembleError { etype: AssembleErrorType::InvalidOperands, line_no }),
                }
            },
            other => Err(AssembleError { etype: AssembleErrorType::UnexpectedToken(other), line_no }),
        }
    }

    /// Reads two operands separated by a comma.
    fn eat_two_operands(&mut self) -> (r: Result<(AssemblyOperandType, AssemblyOperandType), AssembleError>)
        requires
            old(self).wf(),
        ensures
            final(self).wf(),
            final(self).same_input(old(self)),
            match two_operands(old(self).toks(), old(self).pos as int, old(self).eof_line_no as nat) {
                Ok((a, b, q)) => r matches Ok((x, y)) && x@ == a && y@ == b && final(self).pos == q,
                Err(e) => r matches Err(x) && x@ == e,
            },
    {
        let op1 = self.eat_operand()?;
        self.eat_token_of_type(AssemblyTokenType::Comma)?;
        let op2 = self.eat_operand()?;
        Ok((op1.otype, op2.otype))
    }

    /// Reads three operands separated by commas.
    fn eat_three_operands(&mut self) -> (r: Result<(AssemblyOperandType, AssemblyOperandType, AssemblyOperandType), AssembleError>)
        requires
            old(self).wf(),
        ensures
            final(self).wf(),
            final(self).same_input(old(self)),
            match three_operands(old(self).toks(), old(self).pos as int, old(self).eof_line_no as nat) {
                Ok((a, b, c, q)) => r matches Ok((x, y, z)) && x@ == a && y@ == b && z@ == c && final(self).pos == q,
                Err(e) => r matches Err(x) && x@ == e,
            },
    {
        let (op1, op2) = self.eat_two_operands()?;
        self.eat_token_of_type(AssemblyTokenType::Comma)?;
        let op3 = self.eat_operand()?;
        Ok((op1, op2, op3.otype))
    }

    /// Reads the operands of a data directive and gives the bytes they write.
    fn eat_data(&mut self) -> (r: Result<Vec<u8>, AssembleError>)
        requires
            old(self).wf(),
        ensures
            final(self).wf(),
            final(self).same_input(old(self)),
            match spec_eat_operand(old(self).toks(), old(self).pos as int, old(self).eof_line_no as nat) {
                Err(e) => r matches Err(x) && x@ == e,
                Ok((op, q)) => match operand_bytes(op) {
                    Err(e) => r matches Err(x) && x@ == e,
                    Ok(b) => match db_rest(old(self).toks(), q, old(self).eof_line_no as nat, b) {
                        Ok((bytes, q2)) => r matches Ok(v) && v@ == bytes && final(self).pos == q2,
                        Err(e) => r matches Err(x) && x@ == e,
                    },
                },
            },
    {
        let ghost t = self.toks();
        let ghost eof = self.eof_line_no as nat;
        let operand = self.eat_operand()?;
        let mut bytes = operand.as_bytes()?;
        let ghost q0 = self.pos as int;
        let ghost b0 = bytes@;
        let ghost op0 = operand@;
        loop
            invariant
                spec_eat_operand(old(self).toks(), old(self).pos as int, old(self).eof_line_no as nat) == Ok::<(OperandView, int), ErrorView>((op0, q0)),
                operand_bytes(op0) == Ok::<Seq<u8>, ErrorView>(b0),
                self.wf(),
                self.same_input(old(self)),
                t == self.toks(),
                eof == self.eof_line_no as nat,
                db_rest(t, self.pos as int, eof, bytes@) == db_rest(t, q0, eof, b0),
            decreases self.tokens@.len() - self.pos,
        {
            if self.pos < self.tokens.len() && matches!(self.tokens[self.pos].ttype, AssemblyTokenType::Comma) {
                let _ = self.eat_token();
                let operand = self.eat_operand()?;
                let mut more = operand.as_bytes()?;
                bytes.append(&mut more);
            } else {
                return Ok(bytes);
            }
        }
    }

    /// Reads the operands of the instruction named `name` and builds the instruction.
    fn parse_body(&mut self, name: Vec<char>, label: Option<Vec<char>>, line_no: usize) -> (r: Result<Instruction, AssembleError>)
        requires
            old(self).wf(),
        ensures
            final(self).wf(),
            final(self).same_input(old(self)),
            match parse_body(name@, old(self).toks(), old(self).pos as int, old(self).eof_line_no as nat, label_view(label), line_no as nat) {
                Ok((ins, q)) => r matches Ok(i) && i@ == ins && final(self).pos == q,
                Err(e) => r matches Err(x) && x@ == e,
            },
    {
        let bad = AssembleError { etype: AssembleErrorType::InvalidOperands, line_no };
        let branch_word: &[char] = &['b'];
        assert(branch_word@ =~= seq!['b']);
        if is_word(&name, &['m', 'o', 'v']) {
            let (a, b) = self.eat_two_operands()?;
            match (a, b) {
                (AssemblyOperandType::Immediate(imm), AssemblyOperandType::Register(reg)) => Ok(Instruction { itype: InstructionType::MoveImmToReg(imm, reg), label, line_no }),
                (AssemblyOperandType::Label(l), AssemblyOperandType::Register(reg)) => Ok(Instruction { itype: InstructionType::MoveLabelToReg(l, reg), label, line_no }),
                (AssemblyOperandType::Register(r1), AssemblyOperandType::Register(r2)) => Ok(Instruction { itype: InstructionType::MoveRegToReg(r1, r2), label, line_no }),
                (AssemblyOperandType::RegisterAddress(r1), AssemblyOperandType::Register(r2)) => Ok(Instruction { itype: InstructionType::MoveRegAddrToReg(r1, r2), label, line_no }),
                (AssemblyOperandType::Register(r1), AssemblyOperandType::RegisterAddress(r2)) => Ok(Instruction { itype: InstructionType::MoveRegToRegAddr(r1, r2), label, line_no }),
                _ => Err(bad),
            }
        } else if is_word(&name, &['m', 'o', 'v', 'b']) {
            let (a, b) = self.eat_two_operands()?;
            match (a, b) {
                (AssemblyOperandType::RegisterAddress(r1), AssemblyOperandType::Register(r2)) => Ok(Instruction { itype: InstructionType::MoveByteRegAddrToReg(r1, r2), label, line_no }),
                (AssemblyOperandType::Register(r1), AssemblyOperandType::RegisterAddress(r2)) => Ok(Instruction { itype: InstructionType::MoveByteRegToRegAddr(r1, r2), label, line_no }),
                _ => Err(bad),
            }
        } else if is_word(&name, &['a', 'd', 'd']) {
            let (a, b, c) = self.eat_three_operands()?;
            match (a, b, c) {
                (AssemblyOperandType::Register(r1), AssemblyOperandType::Immediate(imm), AssemblyOperandType::Register(r2)) => Ok(Instruction { itype: InstructionType::AddImmToReg(r1, imm, r2), label, line_no }),
                (AssemblyOperandType::Register(r1), AssemblyOperandType::Register(r2), AssemblyOperandType::Register(r3)) => Ok(Instruction { itype: InstructionType::AddRegToReg(r1, r2, r3), label, line_no }),
                _ => Err(bad),
            }
        } else if is_word(&name, &['s', 'u', 'b']) {
            let (a, b, c) = self.eat_three_operands()?;
            match (a, b, c) {
                (AssemblyOperandType::Register(r1), AssemblyOperandType::Immediate(imm), AssemblyOperandType::Register(r2)) => Ok(Instruction { itype: InstructionType::SubImmFromReg(r1, imm, r2), label, line_no }),
                (AssemblyOperandType::Register(r1), AssemblyOperandType::Register(r2), AssemblyOperandType::Register(r3)) => Ok(Instruction { itype: InstructionType::SubRegFromReg(r1, r2, r3), label, line_no }),
                _ => Err(bad),
            }
        } else if is_word(&name, branch_word) {
            let op = self.eat_operand()?;
            match op.otype {
                AssemblyOperandType::Label(l) => Ok(Instruction { itype: InstructionType::BranchToLabel(l), label, line_no }),
                _ => Err(bad),
            }
        } else if is_word(&name, &['b', 'e', 'q']) {
            let (a, b, c) = self.eat_three_operands()?;
            match (a, b, c) {
                (AssemblyOperandType::Register(reg), AssemblyOperandType::Immediate(imm), AssemblyOperandType::Label(l)) => Ok(Instruction { itype: InstructionType::BranchToLabelIfEqual(reg, imm, l), label, line_no }),
                _ => Err(bad),
            }
        } else if is_word(&name, &['b', 'l', 'e', 'q']) {
            let (a, b, c) = self.eat_three_operands()?;
            match (a, b, c) {
                (AssemblyOperandType::Register(reg), AssemblyOperandType::Immediate(imm), AssemblyOperandType::Label(l)) => Ok(Instruction { itype: InstructionType::BranchToLabelIfLessThanOrEqual(reg, imm, l), label, line_no }),
                _ => Err(bad),
            }
        } else if is_word(&name, &['c', 'a', 'l', 'l']) {
            let op = self.eat_operand()?;
            match op.otype {
                AssemblyOperandType::Label(l) => Ok(Instruction { itype: InstructionType::CallLabel(l), label, line_no }),
                _ => Err(bad),
            }
        } else if is_word(&name, &['r', 'e', 't']) {
            Ok(Instruction { itype: InstructionType::Ret, label, line_no })
        } else if is_word(&name, &['.', 'd', 'b']) {
            let bytes = self.eat_data()?;
            Ok(Instruction { itype: InstructionType::DataDirective(bytes), label, line_no })
        } else if is_word(&name, &['h', 'a', 'l', 't']) {
            Ok(Instruction { itype: InstructionType::Halt, label, line_no })
        } else {
            Err(AssembleError { etype: AssembleErrorType::InvalidInstruction(name), line_no })
        }
    }

    /// Parses one instruction: an optional label and a colon, the instruction's name and
    /// its operands.
    pub fn parse_instruction(&mut self) -> (r: Result<Instruction, AssembleError>)
        requires
            old(self).wf(),
        ensures
            final(self).wf(),
            final(self).same_input(old(self)),
            match parse_instr(old(self).toks(), old(self).pos as int, old(self).eof_line_no as nat) {
                Ok((ins, q)) => r matches Ok(i) && i@ == ins && final(self).pos == q,
                Err(e) => r matches Err(x) && x@ == e,
            },
    {
        let ident = self.eat_ident()?;
        if self.pos < self.tokens.len() && matches!(self.tokens[self.pos].ttype, AssemblyTokenType::Colon) {
            self.pos = self.pos + 1;
            let line_no = self.get_line_no();
            let instr_name = self.eat_ident()?;
            self.parse_body(instr_name, Some(ident), line_no)
        } else {
            let line_no = self.get_line_no();
            self.parse_body(ident, None, line_no)
        }
    }

    /// Parses the tokens from the current position on and returns the list of instructions.
    pub fn parse(&mut self) -> (r: Result<Vec<Instruction>, AssembleError>)
        requires
            old(self).wf(),
        ensures
            final(self).same_input(old(self)),
            match parse_all(old(self).toks(), old(self).pos as int, old(self).eof_line_no as nat, seq![]) {
                Ok(v) => r matches Ok(instrs) && instrs_view(instrs@) == v,
                Err(e) => r matches Err(x) && x@ == e,
            },
    {
        let ghost t = self.toks();
        let ghost eof = self.eof_line_no as nat;
        let ghost p0 = self.pos as int;
        let mut result: Vec<Instruction> = Vec::new();
        assert(instrs_view(result@) =~= seq![]);
        while self.pos < self.tokens.len()
            invariant
                self.wf(),
                self.same_input(old(self)),
                t == self.toks(),
                t == old(self).toks(),
                eof == self.eof_line_no as nat,
                eof == old(self).eof_line_no as nat,
                p0 == old(self).pos as int,
                parse_all(t, self.pos as int, eof, instrs_view(result@)) == parse_all(t, p0, eof, seq![]),
            decreases self.tokens@.len() - self.pos,
        {
            let ghost acc = instrs_view(result@);
            proof {
                lemma_parse_instr_progress(t, self.pos as int, eof);
            }
            let instr = self.parse_instruction()?;
            result.push(instr);
            assert(instrs_view(result@) =~= acc.push(instr@));
        }
        Ok(result)
    }
}

} // verus!
