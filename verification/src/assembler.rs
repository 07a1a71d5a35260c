//! The AtlASM assembler.

pub mod instructions;
pub mod lexer;
pub mod messages;
pub mod parser;
pub mod tokens;

use vstd::prelude::*;

use crate::assembler::instructions::{
    instr_size, instrs_view, is_label_kind, machine_code, InstrKind, InstrView, Instruction,
    InstructionType,
};
use crate::assembler::lexer::{lex, lex_assembly, LexOutcome, LexResult};
use crate::assembler::parser::{is_word, parse, AssemblyParser};
use crate::assembler::tokens::{err_at, AssembleError, AssembleErrorType, ErrorKind, ErrorView};

verus! {

/// The total machine-code size of the first `j` instructions: the address of instruction `j`.
pub open spec fn code_size_upto(ins: Seq<InstrView>, j: int) -> nat
    decreases j,
{
    if j <= 0 {
        0
    } else {
        code_size_upto(ins, j - 1) + instr_size(ins[j - 1].kind)
    }
}

/// The address of the last of the first `n` instructions that carries the label `l`.
pub open spec fn find_label(ins: Seq<InstrView>, l: Seq<char>, n: int) -> Option<nat>
    decreases n,
{
    if n <= 0 {
        None
    } else if ins[n - 1].label == Some(l) {
        Some(code_size_upto(ins, n - 1))
    } else {
        find_label(ins, l, n - 1)
    }
}

/// The 16 bits of an address that an instruction holds.
pub open spec fn addr16(a: nat) -> u16 {
    (a % 0x10000) as u16
}

/// An instruction with its label replaced by the label's address, or the label that no
/// instruction carries.
pub open spec fn resolve_kind(k: InstrKind, ins: Seq<InstrView>) -> Result<InstrKind, Seq<char>> {
    match k {
        InstrKind::MoveLabelToReg(l, reg) => match find_label(ins, l, ins.len() as int) {
            Some(a) => Ok(InstrKind::MoveImmToReg(addr16(a), reg)),
            None => Err(l),
        },
        InstrKind::BranchToLabel(l) => match find_label(ins, l, ins.len() as int) {
            Some(a) => Ok(InstrKind::Branch(addr16(a))),
            None => Err(l),
        },
        InstrKind::BranchToLabelIfEqual(reg, imm, l) => match find_label(ins, l, ins.len() as int) {
            Some(a) => Ok(InstrKind::BranchIfEqual(reg, imm, addr16(a))),
            None => Err(l),
        },
        InstrKind::BranchToLabelIfLessThanOrEqual(reg, imm, l) => match find_label(ins, l, ins.len() as int) {
            Some(a) => Ok(InstrKind::BranchIfLessThanOrEqual(reg, imm, addr16(a))),
            None => Err(l),
        },
        InstrKind::CallLabel(l) => match find_label(ins, l, ins.len() as int) {
            Some(a) => Ok(InstrKind::Call(addr16(a))),
            None => Err(l),
        },
        _ => Ok(k),
    }
}

/// Resolves the labels of the instructions from `i` on, after those resolved so far; the
/// first instruction that names an undefined label gives the error.
pub open spec fn resolve_loop(ins: Seq<InstrView>, i: int, acc: Seq<InstrKind>) -> Result<Seq<InstrKind>, ErrorView>
    decreases ins.len() - i,
{
    if i < 0 || i >= ins.len() {
        Ok(acc)
    } else {
        match resolve_kind(ins[i].kind, ins) {
            Err(l) => Err(err_at(ErrorKind::UndefinedLabel(l), ins[i].line)),
            Ok(k) => resolve_loop(ins, i + 1, acc.push(k)),
        }
    }
}

/// The machine code of a list of instructions, one after another.
pub open spec fn code_of(ks: Seq<InstrKind>) -> Seq<u8>
    decreases ks.len(),
{
    if ks.len() == 0 {
        seq![]
    } else {
        code_of(ks.drop_last()) + machine_code(ks.last())
    }
}

/// The programs that the assembler takes: those whose numbers and registers all have
/// digits and fit their types, and that hold at least one token if they lex.
pub open spec fn assembly_accepted(s: Seq<char>) -> bool {
    match lex(s) {
        LexOutcome::Tokens(t) => t.len() > 0,
        LexOutcome::Failed(_) => true,
        LexOutcome::Malformed => false,
    }
}

/// The result of assembling a program that the assembler takes.
pub open spec fn assemble_spec(s: Seq<char>) -> Result<Seq<u8>, ErrorView> {
    match lex(s) {
        LexOutcome::Tokens(t) => match parse(t) {
            Err(e) => Err(e),
            Ok(ins) => match resolve_loop(ins, 0, seq![]) {
                Err(e) => Err(e),
                Ok(ks) => Ok(code_of(ks)),
            },
        },
        LexOutcome::Failed(e) => Err(e),
        LexOutcome::Malformed => Err(err_at(ErrorKind::UnexpectedEOF, 0)),
    }
}

/// The characters of a string.
fn string_chars(s: &String) -> (r: Vec<char>)
    ensures
        r@ == s@,
{
    let st = s.as_str();
    let n = st.unicode_len();
    let mut v: Vec<char> = Vec::new();
    let mut i: usize = 0;
    while i < n
        invariant
            n == st@.len(),
            st@ == s@,
            i <= n,
            v@ == st@.subrange(0, i as int),
        decreases n - i,
    {
        v.push(st.get_char(i));
        i = i + 1;
        assert(v@ =~= st@.subrange(0, i as int));
    }
    assert(v@ =~= st@);
    v
}

proof fn lemma_code_size_upto_push(ins: Seq<InstrView>, j: int)
    requires
        0 <= j,
    ensures
        code_size_upto(ins, j + 1) == code_size_upto(ins, j) + instr_size(ins[j].kind),
{
}

/// The 16-bit addresses of the instructions.
fn addresses(instrs: &Vec<Instruction>) -> (r: Vec<u16>)
    ensures
        r@.len() == instrs@.len(),
        forall|j: int| 0 <= j < instrs@.len() ==> r@[j] == addr16(code_size_upto(instrs_view(instrs@), j)),
{
    let ghost iv = instrs_view(instrs@);
    let n = instrs.len();
    let mut addrs: Vec<u16> = Vec::new();
    let mut cur: u16 = 0;
    let mut k: usize = 0;
    while k < n
        invariant
            n == instrs@.len(),
            iv == instrs_view(instrs@),
            k <= n,
            addrs@.len() == k,
            forall|j: int| 0 <= j < k ==> addrs@[j] == addr16(code_size_upto(iv, j)),
            cur == addr16(code_size_upto(iv, k as int)),
        decreases n - k,
    {
        addrs.push(cur);
        let sz = instrs[k].itype.get_machine_code_size();
        let next = ((cur as usize + sz % 0x10000) % 0x10000) as u16;
        proof {
            lemma_code_size_upto_push(iv, k as int);
            let a = code_size_upto(iv, k as int);
            vstd::arithmetic::div_mod::lemma_add_mod_noop(a as int, sz as int, 0x10000);
            assert(code_size_upto(iv, k + 1) == a + sz);
        }
        cur = next;
        k = k + 1;
    }
    addrs
}

/// The address of the last instruction that carries the label.
fn find_label_address(instrs: &Vec<Instruction>, addrs: &Vec<u16>, label: &Vec<char>) -> (r: Option<u16>)
    requires
        addrs@.len() == instrs@.len(),
        forall|j: int| 0 <= j < instrs@.len() ==> addrs@[j] == addr16(code_size_upto(instrs_view(instrs@), j)),
    ensures
        match find_label(instrs_view(instrs@), label@, instrs@.len() as int) {
            Some(a) => r == Some(addr16(a)),
            None => r is None,
        },
{
    let ghost iv = instrs_view(instrs@);
    let mut k = instrs.len();
    while k > 0
        invariant
            k <= instrs@.len(),
            iv == instrs_view(instrs@),
            addrs@.len() == instrs@.len(),
            forall|j: int| 0 <= j < instrs@.len() ==> addrs@[j] == addr16(code_size_upto(iv, j)),
            find_label(iv, label@, k as int) == find_label(iv, label@, instrs@.len() as int),
        decreases k,
    {
        k = k - 1;
        match &instrs[k].label {
            Some(lb) => {
                if is_word(lb, label.as_slice()) {
                    return Some(addrs[k]);
                }
            },
            None => {},
        }
    }
    None
}

proof fn lemma_code_of_push(ks: Seq<InstrKind>, k: InstrKind)
    ensures
        code_of(ks.push(k)) == code_of(ks) + machine_code(k),
{
    assert(ks.push(k).drop_last() =~= ks);
}

/// Resolves the labels of the instructions and gives their machine code.
fn resolve_and_emit(instrs: &Vec<Instruction>) -> (r: Result<Vec<u8>, AssembleError>)
    ensures
        match resolve_loop(instrs_view(instrs@), 0, seq![]) {
            Ok(ks) => r matches Ok(v) && v@ == code_of(ks),
            Err(e) => r matches Err(x) && x@ == e,
        },
{
    let ghost iv = instrs_view(instrs@);
    let addrs = addresses(instrs);
    let n = instrs.len();
    let mut out: Vec<u8> = Vec::new();
    let mut i: usize = 0;
    let ghost mut acc: Seq<InstrKind> = seq![];
    assert(code_of(acc) =~= seq![]);
    while i < n
        invariant
            n == instrs@.len(),
            iv == instrs_view(instrs@),
            i <= n,
            addrs@.len() == instrs@.len(),
            forall|j: int| 0 <= j < instrs@.len() ==> addrs@[j] == addr16(code_size_upto(iv, j)),
            resolve_loop(iv, i as int, acc) == resolve_loop(iv, 0, seq![]),
            out@ == code_of(acc),
        decreases n - i,
    {
        let instr = &instrs[i];
        let line_no = instr.line_no;
        let resolved: InstructionType = match &instr.itype {
            InstructionType::MoveLabelToReg(label, reg) => match find_label_address(instrs, &addrs, label) {
                Some(a) => InstructionType::MoveImmToReg(a, *reg),
                None => {
                    return Err(AssembleError { etype: AssembleErrorType::UndefinedLabel(label.clone()), line_no });
                },
            },
            InstructionType::BranchToLabel(label) => match find_label_address(instrs, &addrs, label) {
                Some(a) => InstructionType::Branch(a),
                None => {
                    return Err(AssembleError { etype: AssembleErrorType::UndefinedLabel(label.clone()), line_no });
                },
            },
            InstructionType::BranchToLabelIfEqual(reg, imm, label) => match find_label_address(instrs, &addrs, label) {
                Some(a) => InstructionType::BranchIfEqual(*reg, *imm, a),
                None => {
                    return Err(AssembleError { etype: AssembleErrorType::UndefinedLabel(label.clone()), line_no });
                },
            },
            InstructionType::BranchToLabelIfLessThanOrEqual(reg, imm, label) => match find_label_address(instrs, &addrs, label) {
                Some(a) => InstructionType::BranchIfLessThanOrEqual(*reg, *imm, a),
                None => {
                    return Err(AssembleError { etype: AssembleErrorType::UndefinedLabel(label.clone()), line_no });
                },
            },
            InstructionType::CallLabel(label) => match find_label_address(instrs, &addrs, label) {
                Some(a) => InstructionType::Call(a),
                None => {
                    return Err(AssembleError { etype: AssembleErrorType::UndefinedLabel(label.clone()), line_no });
                },
            },
            InstructionType::DataDirective(data) => InstructionType::DataDirective(data.clone()),
            InstructionType::Halt => InstructionType::Halt,
            InstructionType::MoveRegToReg(a, b) => InstructionType::MoveRegToReg(*a, *b),
            InstructionType::MoveImmToReg(a, b) => InstructionType::MoveImmToReg(*a, *b),
            InstructionType::MoveRegToRegAddr(a, b) => InstructionType::MoveRegToRegAddr(*a, *b),
            InstructionType::MoveRegAddrToReg(a, b) => InstructionType::MoveRegAddrToReg(*a, *b),
            InstructionType::MoveByteRegToRegAddr(a, b) => InstructionType::MoveByteRegToRegAddr(*a, *b),
            InstructionType::MoveByteRegAddrToReg(a, b) => InstructionType::MoveByteRegAddrToReg(*a, *b),
            InstructionType::AddRegToReg(a, b, c) => InstructionType::AddRegToReg(*a, *b, *c),
            InstructionType::AddImmToReg(a, b, c) => InstructionType::AddImmToReg(*a, *b, *c),
            InstructionType::SubRegFromReg(a, b, c) => InstructionType::SubRegFromReg(*a, *b, *c),
            InstructionType::SubImmFromReg(a, b, c) => InstructionType::SubImmFromReg(*a, *b, *c),
            InstructionType::Branch(a) => InstructionType::Branch(*a),
            InstructionType::BranchIfEqual(a, b, c) => InstructionType::BranchIfEqual(*a, *b, *c),
            InstructionType::BranchIfLessThanOrEqual(a, b, c) => InstructionType::BranchIfLessThanOrEqual(*a, *b, *c),
            InstructionType::Call(a) => InstructionType::Call(*a),
            InstructionType::Ret => InstructionType::Ret,
        };
        assert(resolve_kind(iv[i as int].kind, iv) == Ok::<InstrKind, Seq<char>>(resolved@));
        let mut code = resolved.as_machine_code();
        proof {
            lemma_code_of_push(acc, resolved@);
        }
        out.append(&mut code);
        proof {
            acc = acc.push(resolved@);
        }
        i = i + 1;
    }
    Ok(out)
}

/// Assembles a list of characters; `None` where the assembler does not take the program.
fn assemble_chars(s: &Vec<char>) -> (r: Option<Result<Vec<u8>, AssembleError>>)
    requires
        s@.len() < usize::MAX,
    ensures
        r is None <==> !assembly_accepted(s@),
        r matches Some(res) ==> match assemble_spec(s@) {
            Ok(b) => res matches Ok(v) && v@ == b,
            Err(e) => res matches Err(x) && x@ == e,
        },
{
    // Convert assembly to tokens
    let tokens = match lex_assembly(s) {
        LexResult::Tokens(t) => t,
        LexResult::Failed(e) => {
            return Some(Err(e));
        },
        LexResult::Malformed => {
            return None;
        },
    };
    if tokens.len() == 0 {
        return None;
    }
    // Convert tokens to parsed instructions
    let mut parser = AssemblyParser::new(tokens);
    let instrs = match parser.parse() {
        Ok(v) => v,
        Err(e) => {
            return Some(Err(e));
        },
    };
    // Resolve labels to addresses and convert the instructions into machine code
    Some(resolve_and_emit(&instrs))
}

/// Produces machine code given an assembly program.
pub fn assemble(assembly: String) -> (r: Result<Vec<u8>, AssembleError>)
    requires
        assembly@.len() < usize::MAX,
        assembly_accepted(assembly@),
    ensures
        match assemble_spec(assembly@) {
            Ok(b) => r matches Ok(v) && v@ == b,
            Err(e) => r matches Err(x) && x@ == e,
        },
{
    let chars = string_chars(&assembly);
    match assemble_chars(&chars) {
        Some(res) => res,
        None => {
            assert(false);
            Err(AssembleError { etype: AssembleErrorType::UnexpectedEOF, line_no: 0 })
        },
    }
}

/// Assembles a program if the assembler takes it: `None` for a program whose numbers or
/// registers have no digits or do not fit their types, or that holds no token.
pub fn try_assemble(assembly: String) -> (r: Option<Result<Vec<u8>, AssembleError>>)
    ensures
        r is None <==> !(assembly@.len() < usize::MAX && assembly_accepted(assembly@)),
        r matches Some(res) ==> match assemble_spec(assembly@) {
            Ok(b) => res matches Ok(v) && v@ == b,
            Err(e) => res matches Err(x) && x@ == e,
        },
{
    let chars = string_chars(&assembly);
    if chars.len() == usize::MAX {
        return None;
    }
    assemble_chars(&chars)
}

proof fn lemma_resolve_preserves_size(k: InstrKind, ins: Seq<InstrView>, k2: InstrKind)
    requires
        resolve_kind(k, ins) == Ok::<InstrKind, Seq<char>>(k2),
    ensures
        !is_label_kind(k2),
        machine_code(k2).len() == instr_size(k),
{
}

proof fn lemma_resolve_loop_shape(ins: Seq<InstrView>, i: int, acc: Seq<InstrKind>, ks: Seq<InstrKind>)
    requires
        0 <= i <= ins.len(),
        resolve_loop(ins, i, acc) == Ok::<Seq<InstrKind>, ErrorView>(ks),
    ensures
        ks.len() == acc.len() + ins.len() - i,
        forall|t: int| 0 <= t < acc.len() ==> ks[t] == acc[t],
        forall|j: int| i <= j < ins.len() ==> resolve_kind(ins[j].kind, ins) == Ok::<InstrKind, Seq<char>>(#[trigger] ks[acc.len() + j - i]),
    decreases ins.len() - i,
{
    if i < ins.len() {
        if let Ok(k) = resolve_kind(ins[i].kind, ins) {
            lemma_resolve_loop_shape(ins, i + 1, acc.push(k), ks);
            assert forall|j: int| i <= j < ins.len() implies resolve_kind(ins[j].kind, ins) == Ok::<InstrKind, Seq<char>>(#[trigger] ks[acc.len() + j - i]) by {
                if j == i {
                    assert(ks[acc.len() as int] == acc.push(k)[acc.len() as int]);
                } else {
                    assert(ks[acc.push(k).len() + j - (i + 1)] == ks[acc.len() + j - i]);
                }
            }
        }
    } else {
        assert(ks == acc);
    }
}

proof fn lemma_code_of_take(ks: Seq<InstrKind>, m: int)
    requires
        0 <= m < ks.len(),
    ensures
        code_of(ks.take(m + 1)) == code_of(ks.take(m)) + machine_code(ks[m]),
{
    assert(ks.take(m + 1).drop_last() =~= ks.take(m));
}

proof fn lemma_code_of_prefix(ks: Seq<InstrKind>, m: int)
    requires
        0 <= m <= ks.len(),
    ensures
        code_of(ks.take(m)).len() <= code_of(ks).len(),
        code_of(ks).subrange(0, code_of(ks.take(m)).len() as int) == code_of(ks.take(m)),
    decreases ks.len() - m,
{
    if m == ks.len() {
        assert(ks.take(m) =~= ks);
        assert(code_of(ks).subrange(0, code_of(ks).len() as int) =~= code_of(ks));
    } else {
        lemma_code_of_prefix(ks, m + 1);
        lemma_code_of_take(ks, m);
        let small = code_of(ks.take(m));
        let big = code_of(ks.take(m + 1));
        assert(code_of(ks).subrange(0, small.len() as int) =~= big.subrange(0, small.len() as int));
        assert(big.subrange(0, small.len() as int) =~= small);
    }
}

proof fn lemma_code_len_upto(ins: Seq<InstrView>, ks: Seq<InstrKind>, j: int)
    requires
        0 <= j <= ks.len(),
        ks.len() == ins.len(),
        forall|t: int| 0 <= t < ins.len() ==> machine_code(#[trigger] ks[t]).len() == instr_size(ins[t].kind),
    ensures
        code_of(ks.take(j)).len() == code_size_upto(ins, j),
    decreases j,
{
    if j == 0 {
        assert(ks.take(0) =~= seq![]);
    } else {
        lemma_code_len_upto(ins, ks, j - 1);
        lemma_code_of_take(ks, j - 1);
    }
}

/// Labels resolve to code offsets: once a program's labels are resolved, the machine code
/// of instruction `j` stands in the output at the address that a label on `j` resolves
/// to, and the output is as long as all the instructions together.
pub proof fn lemma_instruction_at_its_address(ins: Seq<InstrView>, ks: Seq<InstrKind>, j: int)
    requires
        resolve_loop(ins, 0, seq![]) == Ok::<Seq<InstrKind>, ErrorView>(ks),
        0 <= j < ins.len(),
    ensures
        ks.len() == ins.len(),
        code_of(ks).len() == code_size_upto(ins, ins.len() as int),
        code_size_upto(ins, j + 1) <= code_of(ks).len(),
        code_of(ks).subrange(code_size_upto(ins, j) as int, code_size_upto(ins, j + 1) as int) == machine_code(ks[j]),
{
    lemma_resolve_loop_shape(ins, 0, seq![], ks);
    assert forall|t: int| 0 <= t < ins.len() implies machine_code(#[trigger] ks[t]).len() == instr_size(ins[t].kind) by {
        assert(ks[0 + t - 0] == ks[t]);
        lemma_resolve_preserves_size(ins[t].kind, ins, ks[t]);
    }
    lemma_code_len_upto(ins, ks, j);
    lemma_code_len_upto(ins, ks, j + 1);
    lemma_code_len_upto(ins, ks, ins.len() as int);
    assert(ks.take(ins.len() as int) =~= ks);
    lemma_code_of_take(ks, j);
    lemma_code_of_prefix(ks, j + 1);
    let a = code_of(ks.take(j));
    let b = code_of(ks.take(j + 1));
    assert(code_of(ks).subrange(a.len() as int, b.len() as int) =~= b.subrange(a.len() as int, b.len() as int));
    assert(b.subrange(a.len() as int, b.len() as int) =~= machine_code(ks[j]));
}

/// A label carried by one instruction only resolves to that instruction's address.
pub proof fn lemma_unique_label_address(ins: Seq<InstrView>, l: Seq<char>, k: int)
    requires
        0 <= k < ins.len(),
        ins[k].label == Some(l),
        forall|j: int| 0 <= j < ins.len() && j != k ==> ins[j].label != Some(l),
    ensures
        find_label(ins, l, ins.len() as int) == Some(code_size_upto(ins, k)),
{
    lemma_find_label_from(ins, l, k, ins.len() as int);
}

proof fn lemma_find_label_from(ins: Seq<InstrView>, l: Seq<char>, k: int, n: int)
    requires
        0 <= k < n <= ins.len(),
        ins[k].label == Some(l),
        forall|j: int| k < j < n ==> ins[j].label != Some(l),
    ensures
        find_label(ins, l, n) == Some(code_size_upto(ins, k)),
    decreases n,
{
    if n - 1 != k {
        lemma_find_label_from(ins, l, k, n - 1);
    }
}

/// A lexing or parsing error is what assembling gives: the first error comes back
/// unchanged, and no machine code is produced.
pub proof fn lemma_assemble_passes_errors(s: Seq<char>)
    ensures
        lex(s) matches LexOutcome::Failed(e) ==> assemble_spec(s) == Err::<Seq<u8>, ErrorView>(e),
        lex(s) matches LexOutcome::Tokens(t) ==> (parse(t) matches Err(e) ==> assemble_spec(s) == Err::<Seq<u8>, ErrorView>(e)),
{
}

} // verus!
