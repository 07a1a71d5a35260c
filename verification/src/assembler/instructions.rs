//! The ATLAS instruction set and its machine code.

use vstd::prelude::*;

verus! {

/// The set of ATLAS assembly instructions.
#[derive(Debug)]
pub enum InstructionType {
    /// Halts the program.
    Halt,
    /// Moves the data in the first register to the second register.
    MoveRegToReg(usize, usize),
    /// Move an immediate value into a register.
    MoveImmToReg(u16, usize),
    /// Moves the data in the first register to the address stored in the second register.
    MoveRegToRegAddr(usize, usize),
    /// Moves the data from the address stored in the first register to the second register.
    MoveRegAddrToReg(usize, usize),
    /// Moves a byte from the first register to the address stored in the second register.
    MoveByteRegToRegAddr(usize, usize),
    /// Moves a byte from the address stored in the first register to the second register.
    MoveByteRegAddrToReg(usize, usize),
    /// Adds the first register and second register and stores the result in the third register.
    AddRegToReg(usize, usize, usize),
    /// Adds the immediate value to the first register and stores the result in the second register.
    AddImmToReg(usize, u16, usize),
    /// Subtracts the second register from the first register and stores the result in the third register.
    SubRegFromReg(usize, usize, usize),
    /// Subtracts the immediate value from the first register and stores the result in the second register.
    SubImmFromReg(usize, u16, usize),
    /// Branches to a given address.
    Branch(u16),
    /// Branches to a given address if the register's value is equal to the immediate.
    BranchIfEqual(usize, u16, u16),
    /// Branches to a given address if the register's value is less than or equal to the immediate.
    BranchIfLessThanOrEqual(usize, u16, u16),
    /// Jumps to an address and saves the next instruction address in $15.
    Call(u16),
    /// Jumps to the address in $15.
    Ret,
    /// Writes some data to the binary output.
    DataDirective(Vec<u8>),
    /// Moves the address represented by a label into a register.
    MoveLabelToReg(Vec<char>, usize),
    /// Branch, but branches to a label.
    BranchToLabel(Vec<char>),
    /// BranchIfEqual, but branches to a label.
    BranchToLabelIfEqual(usize, u16, Vec<char>),
    /// BranchIfLessThanOrEqual, but branches to a label.
    BranchToLabelIfLessThanOrEqual(usize, u16, Vec<char>),
    /// Call, but calls a label.
    CallLabel(Vec<char>),
}

/// The view of an instruction type: the same shape, with sequences in place of vectors.
pub enum InstrKind {
    Halt,
    MoveRegToReg(usize, usize),
    MoveImmToReg(u16, usize),
    MoveRegToRegAddr(usize, usize),
    MoveRegAddrToReg(usize, usize),
    MoveByteRegToRegAddr(usize, usize),
    MoveByteRegAddrToReg(usize, usize),
    AddRegToReg(usize, usize, usize),
    AddImmToReg(usize, u16, usize),
    SubRegFromReg(usize, usize, usize),
    SubImmFromReg(usize, u16, usize),
    Branch(u16),
    BranchIfEqual(usize, u16, u16),
    BranchIfLessThanOrEqual(usize, u16, u16),
    Call(u16),
    Ret,
    DataDirective(Seq<u8>),
    MoveLabelToReg(Seq<char>, usize),
    BranchToLabel(Seq<char>),
    BranchToLabelIfEqual(usize, u16, Seq<char>),
    BranchToLabelIfLessThanOrEqual(usize, u16, Seq<char>),
    CallLabel(Seq<char>),
}

impl View for InstructionType {
    type V = InstrKind;

    open spec fn view(&self) -> InstrKind {
        match self {
            InstructionType::Halt => InstrKind::Halt,
            InstructionType::MoveRegToReg(a, b) => InstrKind::MoveRegToReg(*a, *b),
            InstructionType::MoveImmToReg(a, b) => InstrKind::MoveImmToReg(*a, *b),
            InstructionType::MoveRegToRegAddr(a, b) => InstrKind::MoveRegToRegAddr(*a, *b),
            InstructionType::MoveRegAddrToReg(a, b) => InstrKind::MoveRegAddrToReg(*a, *b),
            InstructionType::MoveByteRegToRegAddr(a, b) => InstrKind::MoveByteRegToRegAddr(*a, *b),
            InstructionType::MoveByteRegAddrToReg(a, b) => InstrKind::MoveByteRegAddrToReg(*a, *b),
            InstructionType::AddRegToReg(a, b, c) => InstrKind::AddRegToReg(*a, *b, *c),
            InstructionType::AddImmToReg(a, b, c) => InstrKind::AddImmToReg(*a, *b, *c),
            InstructionType::SubRegFromReg(a, b, c) => InstrKind::SubRegFromReg(*a, *b, *c),
            InstructionType::SubImmFromReg(a, b, c) => InstrKind::SubImmFromReg(*a, *b, *c),
            InstructionType::Branch(a) => InstrKind::Branch(*a),
            InstructionType::BranchIfEqual(a, b, c) => InstrKind::BranchIfEqual(*a, *b, *c),
            InstructionType::BranchIfLessThanOrEqual(a, b, c) => InstrKind::BranchIfLessThanOrEqual(*a, *b, *c),
            InstructionType::Call(a) => InstrKind::Call(*a),
            InstructionType::Ret => InstrKind::Ret,
            InstructionType::DataDirective(d) => InstrKind::DataDirective(d@),
            InstructionType::MoveLabelToReg(l, r) => InstrKind::MoveLabelToReg(l@, *r),
            InstructionType::BranchToLabel(l) => InstrKind::BranchToLabel(l@),
            InstructionType::BranchToLabelIfEqual(r, i, l) => InstrKind::BranchToLabelIfEqual(*r, *i, l@),
            InstructionType::BranchToLabelIfLessThanOrEqual(r, i, l) => InstrKind::BranchToLabelIfLessThanOrEqual(*r, *i, l@),
            InstructionType::CallLabel(l) => InstrKind::CallLabel(l@),
        }
    }
}

/// An assembly instruction: its type, an optional label and its line.
#[derive(Debug)]
pub struct Instruction {
    pub itype: InstructionType,
    pub label: Option<Vec<char>>,
    pub line_no: usize,
}

/// The view of an instruction.
pub struct InstrView {
    pub kind: InstrKind,
    pub label: Option<Seq<char>>,
    pub line: nat,
}

impl View for Instruction {
    type V = InstrView;

    open spec fn view(&self) -> InstrView {
        InstrView {
            kind: self.itype@,
            label: label_view(self.label),
            line: self.line_no as nat,
        }
    }
}

/// The view of an optional label.
pub open spec fn label_view(l: Option<Vec<char>>) -> Option<Seq<char>> {
    match l {
        Some(v) => Some(v@),
        None => None,
    }
}

/// The views of a list of instructions.
pub open spec fn instrs_view(v: Seq<Instruction>) -> Seq<InstrView> {
    Seq::new(v.len(), |i: int| v[i]@)
}

/// An instruction type that names a label, in place of the address that it stands for.
pub open spec fn is_label_kind(k: InstrKind) -> bool {
    ||| k is MoveLabelToReg
    ||| k is BranchToLabel
    ||| k is BranchToLabelIfEqual
    ||| k is BranchToLabelIfLessThanOrEqual
    ||| k is CallLabel
}

/// The high byte of a 16-bit value (the first of its big-endian bytes).
pub open spec fn hi(x: u16) -> u8 {
    (x / 256) as u8
}

/// The low byte of a 16-bit value (the second of its big-endian bytes).
pub open spec fn lo(x: u16) -> u8 {
    (x % 256) as u8
}

/// The machine code of an instruction that names no label.
pub open spec fn machine_code(k: InstrKind) -> Seq<u8> {
    match k {
        InstrKind::Halt => seq![0x00u8, 0xffu8],
        InstrKind::MoveRegToReg(r1, r2) => seq![0x01u8, 0xffu8, r1 as u8, r2 as u8],
        InstrKind::MoveImmToReg(imm, reg) => seq![0x02u8, reg as u8, hi(imm), lo(imm)],
        InstrKind::MoveRegToRegAddr(r1, r2) => seq![0x03u8, 0xffu8, r1 as u8, r2 as u8],
        InstrKind::MoveRegAddrToReg(r1, r2) => seq![0x04u8, 0xffu8, r1 as u8, r2 as u8],
        InstrKind::AddRegToReg(r1, r2, r3) => seq![0x06u8, r1 as u8, r2 as u8, r3 as u8],
        InstrKind::AddImmToReg(r1, imm, r2) => seq![0x07u8, 0xffu8, r1 as u8, r2 as u8, hi(imm), lo(imm)],
        InstrKind::SubRegFromReg(r1, r2, r3) => seq![0x26u8, r1 as u8, r2 as u8, r3 as u8],
        InstrKind::SubImmFromReg(r1, imm, r2) => seq![0x27u8, 0xffu8, r1 as u8, r2 as u8, hi(imm), lo(imm)],
        InstrKind::Branch(addr) => seq![0x08u8, 0xffu8, hi(addr), lo(addr)],
        InstrKind::BranchIfEqual(reg, imm, addr) => seq![0x09u8, reg as u8, hi(imm), lo(imm), hi(addr), lo(addr)],
        InstrKind::BranchIfLessThanOrEqual(reg, imm, addr) => seq![0x0au8, reg as u8, hi(imm), lo(imm), hi(addr), lo(addr)],
        InstrKind::MoveByteRegToRegAddr(r1, r2) => seq![0x13u8, 0xffu8, r1 as u8, r2 as u8],
        InstrKind::MoveByteRegAddrToReg(r1, r2) => seq![0x14u8, 0xffu8, r1 as u8, r2 as u8],
        InstrKind::Call(addr) => seq![0x16u8, 0x0fu8, hi(addr), lo(addr)],
        InstrKind::Ret => seq![0x17u8, 0x0fu8],
        InstrKind::DataDirective(d) => d,
        _ => seq![],
    }
}

/// The size of an instruction in machine code. An instruction that names a label takes the
/// size of the instruction that it becomes once the label is resolved.
pub open spec fn instr_size(k: InstrKind) -> nat {
    match k {
        InstrKind::MoveLabelToReg(_, _) => 4,
        InstrKind::BranchToLabel(_) => 4,
        InstrKind::BranchToLabelIfEqual(_, _, _) => 6,
        InstrKind::BranchToLabelIfLessThanOrEqual(_, _, _) => 6,
        InstrKind::CallLabel(_) => 4,
        _ => machine_code(k).len(),
    }
}

impl InstructionType {
    /// Returns the instruction as a machine code instruction.
    pub fn as_machine_code(&self) -> (r: Vec<u8>)
        requires
            !is_label_kind(self@),
        ensures
            r@ == machine_code(self@),
    {
        match self {
            InstructionType::Halt => vec![0x00, 0xff],
            InstructionType::MoveRegToReg(r1, r2) => vec![0x01, 0xff, *r1 as u8, *r2 as u8],
            InstructionType::MoveImmToReg(imm, reg) => vec![0x02, *reg as u8, (*imm / 256) as u8, (*imm % 256) as u8],
            InstructionType::MoveRegToRegAddr(r1, r2) => vec![0x03, 0xff, *r1 as u8, *r2 as u8],
            InstructionType::MoveRegAddrToReg(r1, r2) => vec![0x04, 0xff, *r1 as u8, *r2 as u8],
            InstructionType::AddRegToReg(r1, r2, r3) => vec![0x06, *r1 as u8, *r2 as u8, *r3 as u8],
            InstructionType::AddImmToReg(r1, imm, r2) => vec![0x07, 0xff, *r1 as u8, *r2 as u8, (*imm / 256) as u8, (*imm % 256) as u8],
            InstructionType::SubRegFromReg(r1, r2, r3) => vec![0x26, *r1 as u8, *r2 as u8, *r3 as u8],
            InstructionType::SubImmFromReg(r1, imm, r2) => vec![0x27, 0xff, *r1 as u8, *r2 as u8, (*imm / 256) as u8, (*imm % 256) as u8],
            InstructionType::Branch(addr) => vec![0x08, 0xff, (*addr / 256) as u8, (*addr % 256) as u8],
            InstructionType::BranchIfEqual(reg, imm, addr) => vec![0x09, *reg as u8, (*imm / 256) as u8, (*imm % 256) as u8, (*addr / 256) as u8, (*addr % 256) as u8],
            InstructionType::BranchIfLessThanOrEqual(reg, imm, addr) => vec![0x0a, *reg as u8, (*imm / 256) as u8, (*imm % 256) as u8, (*addr / 256) as u8, (*addr % 256) as u8],
            InstructionType::MoveByteRegToRegAddr(r1, r2) => vec![0x13, 0xff, *r1 as u8, *r2 as u8],
            InstructionType::MoveByteRegAddrToReg(r1, r2) => vec![0x14, 0xff, *r1 as u8, *r2 as u8],
            InstructionType::Call(addr) => vec![0x16, 0x0f, (*addr / 256) as u8, (*addr % 256) as u8],
            InstructionType::Ret => vec![0x17, 0x0f],
            InstructionType::DataDirective(data) => data.clone(),
            _ => vec![],
        }
    }

    /// Returns the size of the instruction in machine code.
    pub fn get_machine_code_size(&self) -> (r: usize)
        ensures
            r == instr_size(self@),
    {
        match self {
            InstructionType::MoveLabelToReg(_, _) => 4,
            InstructionType::BranchToLabel(_) => 4,
            InstructionType::BranchToLabelIfEqual(_, _, _) => 6,
            InstructionType::BranchToLabelIfLessThanOrEqual(_, _, _) => 6,
            InstructionType::CallLabel(_) => 4,
            _ => self.as_machine_code().len(),
        }
    }
}

/// Every 16-bit immediate and address in machine code is written big-endian: its two
/// bytes, high then low, read back as the value itself, at the places the instruction
/// set gives them.
pub proof fn lemma_machine_code_big_endian(k: InstrKind)
    ensures
        k matches InstrKind::MoveImmToReg(imm, _) ==> machine_code(k).len() == 4
            && machine_code(k)[2] * 256 + machine_code(k)[3] == imm,
        k matches InstrKind::AddImmToReg(_, imm, _) ==> machine_code(k).len() == 6
            && machine_code(k)[4] * 256 + machine_code(k)[5] == imm,
        k matches InstrKind::SubImmFromReg(_, imm, _) ==> machine_code(k).len() == 6
            && machine_code(k)[4] * 256 + machine_code(k)[5] == imm,
        k matches InstrKind::Branch(addr) ==> machine_code(k).len() == 4
            && machine_code(k)[2] * 256 + machine_code(k)[3] == addr,
        k matches InstrKind::BranchIfEqual(_, imm, addr) ==> machine_code(k).len() == 6
            && machine_code(k)[2] * 256 + machine_code(k)[3] == imm
            && machine_code(k)[4] * 256 + machine_code(k)[5] == addr,
        k matches InstrKind::BranchIfLessThanOrEqual(_, imm, addr) ==> machine_code(k).len() == 6
            && machine_code(k)[2] * 256 + machine_code(k)[3] == imm
            && machine_code(k)[4] * 256 + machine_code(k)[5] == addr,
        k matches InstrKind::Call(addr) ==> machine_code(k).len() == 4
            && machine_code(k)[2] * 256 + machine_code(k)[3] == addr,
{
    assert forall|x: u16| #[trigger] hi(x) * 256 + lo(x) == x by {
        assert(x / 256 < 256);
    }
}

} // verus!
