//! The assembly language: opcodes, operands, instructions and their sizes.

use vstd::prelude::*;
use crate::text::{chars_of, push_chars, push_decimal, decimal};

verus! {

/// Two-operand instructions (B1).
#[allow(clippy::upper_case_acronyms)]
#[derive(Debug, Clone, Copy, PartialEq, Eq, Structural)]
pub enum OpcodeB1 {
    MOV,
    ADD,
    SUB,
    CMP,
    AND,
    OR,
    XOR,
}

/// One-operand instructions (B2).
#[allow(clippy::upper_case_acronyms)]
#[derive(Debug, Clone, Copy, PartialEq, Eq, Structural)]
pub enum OpcodeB2 {
    CLR,
    NEG,
    INC,
    DEC,
    ASL,
    ASR,
    LSR,
    ROL,
    ROR,
    RLC,
    RRC,
    JMP,
    CALL,
    PUSH,
    POP,
}

/// Relative branches (B3).
#[allow(clippy::upper_case_acronyms)]
#[derive(Debug, Clone, Copy, PartialEq, Eq, Structural)]
pub enum OpcodeB3 {
    BR,
    BNE,
    BEQ,
    BPL,
    BMI,
    BCS,
    BCC,
    BVS,
    BVC,
}

/// Control and system instructions (B4).
#[allow(non_camel_case_types)]
#[allow(clippy::upper_case_acronyms)]
#[derive(Debug, Clone, Copy, PartialEq, Eq, Structural)]
pub enum OpcodeB4 {
    CLC,
    CLV,
    CLZ,
    CLS,
    CCC,
    SEC,
    SEV,
    SEZ,
    SES,
    SCC,
    NOP,
    RET,
    RETI,
    HALT,
    WAIT,
    PUSH_PC,
    POP_PC,
    PUSH_FLAG,
    POP_FLAG,
}

impl OpcodeB1 {
    /// Position of the variant in the declaration.
    pub open spec fn number(self) -> u16 {
        match self {
            OpcodeB1::MOV => 0,
            OpcodeB1::ADD => 1,
            OpcodeB1::SUB => 2,
            OpcodeB1::CMP => 3,
            OpcodeB1::AND => 4,
            OpcodeB1::OR => 5,
            OpcodeB1::XOR => 6,
        }
    }

    /// The variant at position `i`.
    pub open spec fn from_number(i: u16) -> OpcodeB1 {
        match i {
            0 => OpcodeB1::MOV,
            1 => OpcodeB1::ADD,
            2 => OpcodeB1::SUB,
            3 => OpcodeB1::CMP,
            4 => OpcodeB1::AND,
            5 => OpcodeB1::OR,
            _ => OpcodeB1::XOR,
        }
    }

    /// The upper-case name of the variant.
    pub open spec fn name(self) -> Seq<char> {
        match self {
            OpcodeB1::MOV => seq!['M', 'O', 'V'],
            OpcodeB1::ADD => seq!['A', 'D', 'D'],
            OpcodeB1::SUB => seq!['S', 'U', 'B'],
            OpcodeB1::CMP => seq!['C', 'M', 'P'],
            OpcodeB1::AND => seq!['A', 'N', 'D'],
            OpcodeB1::OR => seq!['O', 'R'],
            OpcodeB1::XOR => seq!['X', 'O', 'R'],
        }
    }

    fn exec_from_number(i: u16) -> (r: OpcodeB1)
        ensures
            r == Self::from_number(i),
    {
        match i {
            0 => OpcodeB1::MOV,
            1 => OpcodeB1::ADD,
            2 => OpcodeB1::SUB,
            3 => OpcodeB1::CMP,
            4 => OpcodeB1::AND,
            5 => OpcodeB1::OR,
            _ => OpcodeB1::XOR,
        }
    }

    fn exec_number(&self) -> (r: u16)
        ensures
            r == self.number(),
    {
        match self {
            OpcodeB1::MOV => 0,
            OpcodeB1::ADD => 1,
            OpcodeB1::SUB => 2,
            OpcodeB1::CMP => 3,
            OpcodeB1::AND => 4,
            OpcodeB1::OR => 5,
            OpcodeB1::XOR => 6,
        }
    }

    fn exec_name(&self) -> (r: Vec<char>)
        ensures
            r@ == self.name(),
    {
        match self {
            OpcodeB1::MOV => vec!['M', 'O', 'V'],
            OpcodeB1::ADD => vec!['A', 'D', 'D'],
            OpcodeB1::SUB => vec!['S', 'U', 'B'],
            OpcodeB1::CMP => vec!['C', 'M', 'P'],
            OpcodeB1::AND => vec!['A', 'N', 'D'],
            OpcodeB1::OR => vec!['O', 'R'],
            OpcodeB1::XOR => vec!['X', 'O', 'R'],
        }
    }

}

impl OpcodeB2 {
    /// Position of the variant in the declaration.
    pub open spec fn number(self) -> u16 {
        match self {
            OpcodeB2::CLR => 0,
            OpcodeB2::NEG => 1,
            OpcodeB2::INC => 2,
            OpcodeB2::DEC => 3,
            OpcodeB2::ASL => 4,
            OpcodeB2::ASR => 5,
            OpcodeB2::LSR => 6,
            OpcodeB2::ROL => 7,
            OpcodeB2::ROR => 8,
            OpcodeB2::RLC => 9,
            OpcodeB2::RRC => 10,
            OpcodeB2::JMP => 11,
            OpcodeB2::CALL => 12,
            OpcodeB2::PUSH => 13,
            OpcodeB2::POP => 14,
        }
    }

    /// The variant at position `i`.
    pub open spec fn from_number(i: u16) -> OpcodeB2 {
        match i {
            0 => OpcodeB2::CLR,
            1 => OpcodeB2::NEG,
            2 => OpcodeB2::INC,
            3 => OpcodeB2::DEC,
            4 => OpcodeB2::ASL,
            5 => OpcodeB2::ASR,
            6 => OpcodeB2::LSR,
            7 => OpcodeB2::ROL,
            8 => OpcodeB2::ROR,
            9 => OpcodeB2::RLC,
            10 => OpcodeB2::RRC,
            11 => OpcodeB2::JMP,
            12 => OpcodeB2::CALL,
            13 => OpcodeB2::PUSH,
            _ => OpcodeB2::POP,
        }
    }

    /// The upper-case name of the variant.
    pub open spec fn name(self) -> Seq<char> {
        match self {
            OpcodeB2::CLR => seq!['C', 'L', 'R'],
            OpcodeB2::NEG => seq!['N', 'E', 'G'],
            OpcodeB2::INC => seq!['I', 'N', 'C'],
            OpcodeB2::DEC => seq!['D', 'E', 'C'],
            OpcodeB2::ASL => seq!['A', 'S', 'L'],
            OpcodeB2::ASR => seq!['A', 'S', 'R'],
            OpcodeB2::LSR => seq!['L', 'S', 'R'],
            OpcodeB2::ROL => seq!['R', 'O', 'L'],
            OpcodeB2::ROR => seq!['R', 'O', 'R'],
            OpcodeB2::RLC => seq!['R', 'L', 'C'],
            OpcodeB2::RRC => seq!['R', 'R', 'C'],
            OpcodeB2::JMP => seq!['J', 'M', 'P'],
            OpcodeB2::CALL => seq!['C', 'A', 'L', 'L'],
            OpcodeB2::PUSH => seq!['P', 'U', 'S', 'H'],
            OpcodeB2::POP => seq!['P', 'O', 'P'],
        }
    }

    fn exec_from_number(i: u16) -> (r: OpcodeB2)
        ensures
            r == Self::from_number(i),
    {
        match i {
            0 => OpcodeB2::CLR,
            1 => OpcodeB2::NEG,
            2 => OpcodeB2::INC,
            3 => OpcodeB2::DEC,
            4 => OpcodeB2::ASL,
            5 => OpcodeB2::ASR,
            6 => OpcodeB2::LSR,
            7 => OpcodeB2::ROL,
            8 => OpcodeB2::ROR,
            9 => OpcodeB2::RLC,
            10 => OpcodeB2::RRC,
            11 => OpcodeB2::JMP,
            12 => OpcodeB2::CALL,
            13 => OpcodeB2::PUSH,
            _ => OpcodeB2::POP,
        }
    }

    fn exec_number(&self) -> (r: u16)
        ensures
            r == self.number(),
    {
        match self {
            OpcodeB2::CLR => 0,
            OpcodeB2::NEG => 1,
            OpcodeB2::INC => 2,
            OpcodeB2::DEC => 3,
            OpcodeB2::ASL => 4,
            OpcodeB2::ASR => 5,
            OpcodeB2::LSR => 6,
            OpcodeB2::ROL => 7,
            OpcodeB2::ROR => 8,
            OpcodeB2::RLC => 9,
            OpcodeB2::RRC => 10,
            OpcodeB2::JMP => 11,
            OpcodeB2::CALL => 12,
            OpcodeB2::PUSH => 13,
            OpcodeB2::POP => 14,
        }
    }

    fn exec_name(&self) -> (r: Vec<char>)
        ensures
            r@ == self.name(),
    {
        match self {
            OpcodeB2::CLR => vec!['C', 'L', 'R'],
            OpcodeB2::NEG => vec!['N', 'E', 'G'],
            OpcodeB2::INC => vec!['I', 'N', 'C'],
            OpcodeB2::DEC => vec!['D', 'E', 'C'],
            OpcodeB2::ASL => vec!['A', 'S', 'L'],
            OpcodeB2::ASR => vec!['A', 'S', 'R'],
            OpcodeB2::LSR => vec!['L', 'S', 'R'],
            OpcodeB2::ROL => vec!['R', 'O', 'L'],
            OpcodeB2::ROR => vec!['R', 'O', 'R'],
            OpcodeB2::RLC => vec!['R', 'L', 'C'],
            OpcodeB2::RRC => vec!['R', 'R', 'C'],
            OpcodeB2::JMP => vec!['J', 'M', 'P'],
            OpcodeB2::CALL => vec!['C', 'A', 'L', 'L'],
            OpcodeB2::PUSH => vec!['P', 'U', 'S', 'H'],
            OpcodeB2::POP => vec!['P', 'O', 'P'],
        }
    }

}

impl OpcodeB3 {
    /// Position of the variant in the declaration.
    pub open spec fn number(self) -> u16 {
        match self {
            OpcodeB3::BR => 0,
            OpcodeB3::BNE => 1,
            OpcodeB3::BEQ => 2,
            OpcodeB3::BPL => 3,
            OpcodeB3::BMI => 4,
            OpcodeB3::BCS => 5,
            OpcodeB3::BCC => 6,
            OpcodeB3::BVS => 7,
            OpcodeB3::BVC => 8,
        }
    }

    /// The variant at position `i`.
    pub open spec fn from_number(i: u16) -> OpcodeB3 {
        match i {
            0 => OpcodeB3::BR,
            1 => OpcodeB3::BNE,
            2 => OpcodeB3::BEQ,
            3 => OpcodeB3::BPL,
            4 => OpcodeB3::BMI,
            5 => OpcodeB3::BCS,
            6 => OpcodeB3::BCC,
            7 => OpcodeB3::BVS,
            _ => OpcodeB3::BVC,
        }
    }

    /// The upper-case name of the variant.
    pub open spec fn name(self) -> Seq<char> {
        match self {
            OpcodeB3::BR => seq!['B', 'R'],
            OpcodeB3::BNE => seq!['B', 'N', 'E'],
            OpcodeB3::BEQ => seq!['B', 'E', 'Q'],
            OpcodeB3::BPL => seq!['B', 'P', 'L'],
            OpcodeB3::BMI => seq!['B', 'M', 'I'],
            OpcodeB3::BCS => seq!['B', 'C', 'S'],
            OpcodeB3::BCC => seq!['B', 'C', 'C'],
            OpcodeB3::BVS => seq!['B', 'V', 'S'],
            OpcodeB3::BVC => seq!['B', 'V', 'C'],
        }
    }

    fn exec_from_number(i: u16) -> (r: OpcodeB3)
        ensures
            r == Self::from_number(i),
    {
        match i {
            0 => OpcodeB3::BR,
            1 => OpcodeB3::BNE,
            2 => OpcodeB3::BEQ,
            3 => OpcodeB3::BPL,
            4 => OpcodeB3::BMI,
            5 => OpcodeB3::BCS,
            6 => OpcodeB3::BCC,
            7 => OpcodeB3::BVS,
            _ => OpcodeB3::BVC,
        }
    }

    fn exec_number(&self) -> (r: u16)
        ensures
            r == self.number(),
    {
        match self {
            OpcodeB3::BR => 0,
            OpcodeB3::BNE => 1,
            OpcodeB3::BEQ => 2,
            OpcodeB3::BPL => 3,
            OpcodeB3::BMI => 4,
            OpcodeB3::BCS => 5,
            OpcodeB3::BCC => 6,
            OpcodeB3::BVS => 7,
            OpcodeB3::BVC => 8,
        }
    }

    fn exec_name(&self) -> (r: Vec<char>)
        ensures
            r@ == self.name(),
    {
        match self {
            OpcodeB3::BR => vec!['B', 'R'],
            OpcodeB3::BNE => vec!['B', 'N', 'E'],
            OpcodeB3::BEQ => vec!['B', 'E', 'Q'],
            OpcodeB3::BPL => vec!['B', 'P', 'L'],
            OpcodeB3::BMI => vec!['B', 'M', 'I'],
            OpcodeB3::BCS => vec!['B', 'C', 'S'],
            OpcodeB3::BCC => vec!['B', 'C', 'C'],
            OpcodeB3::BVS => vec!['B', 'V', 'S'],
            OpcodeB3::BVC => vec!['B', 'V', 'C'],
        }
    }

}

impl OpcodeB4 {
    /// Position of the variant in the declaration.
    pub open spec fn number(self) -> u16 {
        match self {
            OpcodeB4::CLC => 0,
            OpcodeB4::CLV => 1,
            OpcodeB4::CLZ => 2,
            OpcodeB4::CLS => 3,
            OpcodeB4::CCC => 4,
            OpcodeB4::SEC => 5,
            OpcodeB4::SEV => 6,
            OpcodeB4::SEZ => 7,
            OpcodeB4::SES => 8,
            OpcodeB4::SCC => 9,
            OpcodeB4::NOP => 10,
            OpcodeB4::RET => 11,
            OpcodeB4::RETI => 12,
            OpcodeB4::HALT => 13,
            OpcodeB4::WAIT => 14,
            OpcodeB4::PUSH_PC => 15,
            OpcodeB4::POP_PC => 16,
            OpcodeB4::PUSH_FLAG => 17,
            OpcodeB4::POP_FLAG => 18,
        }
    }

    /// The variant at position `i`.
    pub open spec fn from_number(i: u16) -> OpcodeB4 {
        match i {
            0 => OpcodeB4::CLC,
            1 => OpcodeB4::CLV,
            2 => OpcodeB4::CLZ,
            3 => OpcodeB4::CLS,
            4 => OpcodeB4::CCC,
            5 => OpcodeB4::SEC,
            6 => OpcodeB4::SEV,
            7 => OpcodeB4::SEZ,
            8 => OpcodeB4::SES,
            9 => OpcodeB4::SCC,
            10 => OpcodeB4::NOP,
            11 => OpcodeB4::RET,
            12 => OpcodeB4::RETI,
            13 => OpcodeB4::HALT,
            14 => OpcodeB4::WAIT,
            15 => OpcodeB4::PUSH_PC,
            16 => OpcodeB4::POP_PC,
            17 => OpcodeB4::PUSH_FLAG,
            _ => OpcodeB4::POP_FLAG,
        }
    }

    /// The upper-case name of the variant.
    pub open spec fn name(self) -> Seq<char> {
        match self {
            OpcodeB4::CLC => seq!['C', 'L', 'C'],
            OpcodeB4::CLV => seq!['C', 'L', 'V'],
            OpcodeB4::CLZ => seq!['C', 'L', 'Z'],
            OpcodeB4::CLS => seq!['C', 'L', 'S'],
            OpcodeB4::CCC => seq!['C', 'C', 'C'],
            OpcodeB4::SEC => seq!['S', 'E', 'C'],
            OpcodeB4::SEV => seq!['S', 'E', 'V'],
            OpcodeB4::SEZ => seq!['S', 'E', 'Z'],
            OpcodeB4::SES => seq!['S', 'E', 'S'],
            OpcodeB4::SCC => seq!['S', 'C', 'C'],
            OpcodeB4::NOP => seq!['N', 'O', 'P'],
            OpcodeB4::RET => seq!['R', 'E', 'T'],
            OpcodeB4::RETI => seq!['R', 'E', 'T', 'I'],
            OpcodeB4::HALT => seq!['H', 'A', 'L', 'T'],
            OpcodeB4::WAIT => seq!['W', 'A', 'I', 'T'],
            OpcodeB4::PUSH_PC => seq!['P', 'U', 'S', 'H', '_', 'P', 'C'],
            OpcodeB4::POP_PC => seq!['P', 'O', 'P', '_', 'P', 'C'],
            OpcodeB4::PUSH_FLAG => seq!['P', 'U', 'S', 'H', '_', 'F', 'L', 'A', 'G'],
            OpcodeB4::POP_FLAG => seq!['P', 'O', 'P', '_', 'F', 'L', 'A', 'G'],
        }
    }

    fn exec_from_number(i: u16) -> (r: OpcodeB4)
        ensures
            r == Self::from_number(i),
    {
        match i {
            0 => OpcodeB4::CLC,
            1 => OpcodeB4::CLV,
            2 => OpcodeB4::CLZ,
            3 => OpcodeB4::CLS,
            4 => OpcodeB4::CCC,
            5 => OpcodeB4::SEC,
            6 => OpcodeB4::SEV,
            7 => OpcodeB4::SEZ,
            8 => OpcodeB4::SES,
            9 => OpcodeB4::SCC,
            10 => OpcodeB4::NOP,
            11 => OpcodeB4::RET,
            12 => OpcodeB4::RETI,
            13 => OpcodeB4::HALT,
            14 => OpcodeB4::WAIT,
            15 => OpcodeB4::PUSH_PC,
            16 => OpcodeB4::POP_PC,
            17 => OpcodeB4::PUSH_FLAG,
            _ => OpcodeB4::POP_FLAG,
        }
    }

    fn exec_number(&self) -> (r: u16)
        ensures
            r == self.number(),
    {
        match self {
            OpcodeB4::CLC => 0,
            OpcodeB4::CLV => 1,
            OpcodeB4::CLZ => 2,
            OpcodeB4::CLS => 3,
            OpcodeB4::CCC => 4,
            OpcodeB4::SEC => 5,
            OpcodeB4::SEV => 6,
            OpcodeB4::SEZ => 7,
            OpcodeB4::SES => 8,
            OpcodeB4::SCC => 9,
            OpcodeB4::NOP => 10,
            OpcodeB4::RET => 11,
            OpcodeB4::RETI => 12,
            OpcodeB4::HALT => 13,
            OpcodeB4::WAIT => 14,
            OpcodeB4::PUSH_PC => 15,
            OpcodeB4::POP_PC => 16,
            OpcodeB4::PUSH_FLAG => 17,
            OpcodeB4::POP_FLAG => 18,
        }
    }

    fn exec_name(&self) -> (r: Vec<char>)
        ensures
            r@ == self.name(),
    {
        match self {
            OpcodeB4::CLC => vec!['C', 'L', 'C'],
            OpcodeB4::CLV => vec!['C', 'L', 'V'],
            OpcodeB4::CLZ => vec!['C', 'L', 'Z'],
            OpcodeB4::CLS => vec!['C', 'L', 'S'],
            OpcodeB4::CCC => vec!['C', 'C', 'C'],
            OpcodeB4::SEC => vec!['S', 'E', 'C'],
            OpcodeB4::SEV => vec!['S', 'E', 'V'],
            OpcodeB4::SEZ => vec!['S', 'E', 'Z'],
            OpcodeB4::SES => vec!['S', 'E', 'S'],
            OpcodeB4::SCC => vec!['S', 'C', 'C'],
            OpcodeB4::NOP => vec!['N', 'O', 'P'],
            OpcodeB4::RET => vec!['R', 'E', 'T'],
            OpcodeB4::RETI => vec!['R', 'E', 'T', 'I'],
            OpcodeB4::HALT => vec!['H', 'A', 'L', 'T'],
            OpcodeB4::WAIT => vec!['W', 'A', 'I', 'T'],
            OpcodeB4::PUSH_PC => vec!['P', 'U', 'S', 'H', '_', 'P', 'C'],
            OpcodeB4::POP_PC => vec!['P', 'O', 'P', '_', 'P', 'C'],
            OpcodeB4::PUSH_FLAG => vec!['P', 'U', 'S', 'H', '_', 'F', 'L', 'A', 'G'],
            OpcodeB4::POP_FLAG => vec!['P', 'O', 'P', '_', 'F', 'L', 'A', 'G'],
        }
    }

}

/// Machine words of the B4 instructions, in declaration order.
pub open spec fn b4_words() -> Seq<u16> {
    seq![0xE0F7, 0xE0FE, 0xE0FB, 0xE0FD, 0xE0F0, 0xE108, 0xE101, 0xE104, 0xE102, 0xE10F, 0xE200, 0xEA00, 0xEC00, 0xE300, 0xEB00, 0xE600, 0xE700, 0xE800, 0xE900]
}

fn exec_b4_words() -> (r: Vec<u16>)
    ensures
        r@ == b4_words(),
{
    let r: Vec<u16> = vec![0xE0F7, 0xE0FE, 0xE0FB, 0xE0FD, 0xE0F0, 0xE108, 0xE101, 0xE104, 0xE102, 0xE10F, 0xE200, 0xEA00, 0xEC00, 0xE300, 0xEB00, 0xE600, 0xE700, 0xE800, 0xE900];
    r
}

/// An opcode, in one of the four instruction groups.
#[allow(clippy::upper_case_acronyms)]
#[derive(Debug, Clone, Copy, PartialEq, Eq, Structural)]
pub enum Opcode {
    B1(OpcodeB1),
    B2(OpcodeB2),
    B3(OpcodeB3),
    B4(OpcodeB4),
}

/// Number of opcodes over all groups.
pub const OPCODE_COUNT: u16 = 50;

/// Code point of the ASCII lower case of `c`.
pub open spec fn ascii_lower(c: char) -> u32 {
    if 'A' <= c && c <= 'Z' {
        ((c as u32) + 32) as u32
    } else {
        c as u32
    }
}

/// Whether `a` and `b` are equal up to ASCII case.
pub open spec fn eq_ignore_ascii_case(a: Seq<char>, b: Seq<char>) -> bool {
    a.len() == b.len() && forall|i: int| 0 <= i < a.len() ==> ascii_lower(#[trigger] a[i]) == ascii_lower(b[i])
}

fn chars_eq_ignore_ascii_case(a: &[char], b: &[char]) -> (r: bool)
    ensures
        r == eq_ignore_ascii_case(a@, b@),
{
    if a.len() != b.len() {
        return false;
    }
    let mut i: usize = 0;
    while i < a.len()
        invariant
            a@.len() == b@.len(),
            i <= a@.len(),
            forall|j: int| 0 <= j < i ==> ascii_lower(#[trigger] a@[j]) == ascii_lower(b@[j]),
        decreases a@.len() - i,
    {
        let x = a[i];
        let y = b[i];
        let lx: u32 = if 'A' <= x && x <= 'Z' { (x as u32) + 32 } else { x as u32 };
        let ly: u32 = if 'A' <= y && y <= 'Z' { (y as u32) + 32 } else { y as u32 };
        if lx != ly {
            return false;
        }
        i = i + 1;
    }
    true
}

impl Opcode {
    /// Position of the opcode over all groups: B1, then B2, B3 and B4.
    pub open spec fn index(self) -> u16 {
        match self {
            Opcode::B1(op) => op.number(),
            Opcode::B2(op) => (7 + op.number()) as u16,
            Opcode::B3(op) => (22 + op.number()) as u16,
            Opcode::B4(op) => (31 + op.number()) as u16,
        }
    }

    /// The opcode at position `i` over all groups (`i < 50`).
    pub open spec fn from_index(i: u16) -> Opcode {
        if i < 7 {
            Opcode::B1(OpcodeB1::from_number(i))
        } else if i < 22 {
            Opcode::B2(OpcodeB2::from_number((i - 7) as u16))
        } else if i < 31 {
            Opcode::B3(OpcodeB3::from_number((i - 22) as u16))
        } else {
            Opcode::B4(OpcodeB4::from_number((i - 31) as u16))
        }
    }

    /// The instruction group: 0 for B1 up to 3 for B4.
    pub open spec fn group(self) -> u16 {
        match self {
            Opcode::B1(_) => 0,
            Opcode::B2(_) => 1,
            Opcode::B3(_) => 2,
            Opcode::B4(_) => 3,
        }
    }

    /// The upper-case name of the opcode.
    pub open spec fn name(self) -> Seq<char> {
        match self {
            Opcode::B1(op) => op.name(),
            Opcode::B2(op) => op.name(),
            Opcode::B3(op) => op.name(),
            Opcode::B4(op) => op.name(),
        }
    }

    /// Position of the opcode over all groups.
    pub fn to_u16(self) -> (r: u16)
        ensures
            r == self.index(),
            r < OPCODE_COUNT,
    {
        match self {
            Opcode::B1(op) => op.exec_number(),
            Opcode::B2(op) => op.exec_number() + 7,
            Opcode::B3(op) => op.exec_number() + 22,
            Opcode::B4(op) => op.exec_number() + 31,
        }
    }

    fn at_index(i: u16) -> (r: Opcode)
        requires
            i < OPCODE_COUNT,
        ensures
            r == Self::from_index(i),
    {
        if i < 7 {
            Opcode::B1(OpcodeB1::exec_from_number(i))
        } else if i < 22 {
            Opcode::B2(OpcodeB2::exec_from_number(i - 7))
        } else if i < 31 {
            Opcode::B3(OpcodeB3::exec_from_number(i - 22))
        } else {
            Opcode::B4(OpcodeB4::exec_from_number(i - 31))
        }
    }

    fn exec_name(&self) -> (r: Vec<char>)
        ensures
            r@ == self.name(),
    {
        match self {
            Opcode::B1(op) => op.exec_name(),
            Opcode::B2(op) => op.exec_name(),
            Opcode::B3(op) => op.exec_name(),
            Opcode::B4(op) => op.exec_name(),
        }
    }

    /// Machine words of the B4 instructions, in declaration order.
    #[allow(non_snake_case)]
    pub fn get_B4_opcodes() -> (r: Vec<u16>)
        ensures
            r@ == b4_words(),
    {
        exec_b4_words()
    }

    /// Parses an opcode name, ignoring ASCII case.
    pub fn from_str(opcode_str: &str) -> (r: Result<Self, String>)
        ensures
            r matches Ok(op) ==> parse_opcode(opcode_str@) == Some(op),
            r matches Err(e) ==> parse_opcode(opcode_str@) is None && e@ == unknown_opcode_message(opcode_str@),
    {
        let chars = chars_of(opcode_str);
        parse_opcode_chars(chars.as_slice())
    }
}

impl std::str::FromStr for Opcode {
    type Err = String;

    fn from_str(opcode_str: &str) -> (r: Result<Self, Self::Err>)
        ensures
            r matches Ok(op) ==> parse_opcode(opcode_str@) == Some(op),
            r matches Err(e) ==> parse_opcode(opcode_str@) is None && e@ == unknown_opcode_message(opcode_str@),
    {
        Opcode::from_str(opcode_str)
    }
}

/// The first opcode at position `i` or later whose name equals `s` up to ASCII case.
pub open spec fn find_opcode(s: Seq<char>, i: u16) -> Option<Opcode>
    decreases OPCODE_COUNT - i,
{
    if i >= OPCODE_COUNT {
        None
    } else if eq_ignore_ascii_case(s, Opcode::from_index(i).name()) {
        Some(Opcode::from_index(i))
    } else {
        find_opcode(s, (i + 1) as u16)
    }
}

/// The opcode named `s` up to ASCII case, trying B1, B2, B3 and B4 in turn.
pub open spec fn parse_opcode(s: Seq<char>) -> Option<Opcode> {
    find_opcode(s, 0)
}

pub open spec fn unknown_opcode_message(s: Seq<char>) -> Seq<char> {
    "Unknown opcode: "@ + s
}

/// Parses an opcode name given as characters.
pub fn parse_opcode_chars(s: &[char]) -> (r: Result<Opcode, String>)
    ensures
        r matches Ok(op) ==> parse_opcode(s@) == Some(op),
        r matches Err(e) ==> parse_opcode(s@) is None && e@ == unknown_opcode_message(s@),
{
    let mut i: u16 = 0;
    while i < OPCODE_COUNT
        invariant
            i <= OPCODE_COUNT,
            parse_opcode(s@) == find_opcode(s@, i),
        decreases OPCODE_COUNT - i,
    {
        let op = Opcode::at_index(i);
        let name = op.exec_name();
        if chars_eq_ignore_ascii_case(s, name.as_slice()) {
            return Ok(op);
        }
        i = i + 1;
    }
    let mut e = String::new();
    e.append("Unknown opcode: ");
    push_chars(&mut e, s);
    Err(e)
}

/// Size of an encoded instruction: one, two or three 16-bit words.
#[derive(Debug, Clone, Copy, PartialEq, Eq, Structural)]
pub enum InstructionSize {
    Word,
    DoubleWord,
    TripleWord,
}

impl InstructionSize {
    /// Size in bytes: 2, 4 or 6.
    pub open spec fn bytes(self) -> u16 {
        match self {
            InstructionSize::Word => 2,
            InstructionSize::DoubleWord => 4,
            InstructionSize::TripleWord => 6,
        }
    }

    /// Size in bytes.
    pub fn byte_count(&self) -> (r: u16)
        ensures
            r == self.bytes(),
    {
        match self {
            InstructionSize::Word => 2,
            InstructionSize::DoubleWord => 4,
            InstructionSize::TripleWord => 6,
        }
    }

    /// The size of `value` bytes; only 2, 4 and 6 are sizes.
    pub fn from_u8(value: u8) -> (r: Result<Self, String>)
        ensures
            r is Ok <==> (value == 2 || value == 4 || value == 6),
            r matches Ok(size) ==> size.bytes() == value,
            r matches Err(e) ==> e@ == "Invalid instruction size: "@ + decimal(value as nat),
    {
        match value {
            2 => Ok(InstructionSize::Word),
            4 => Ok(InstructionSize::DoubleWord),
            6 => Ok(InstructionSize::TripleWord),
            _ => {
                let mut e = String::new();
                e.append("Invalid instruction size: ");
                push_decimal(&mut e, value as u64);
                Err(e)
            },
        }
    }
}

/// A general register, by number.
#[derive(Debug, Clone, Copy, PartialEq, Eq, Structural)]
pub struct Register(pub u8);

/// An operand and its addressing mode.
#[derive(Debug, Clone, Copy, PartialEq, Eq, Structural)]
pub enum Operand {
    /// Immediate value (AM).
    Immediate(u16),
    /// Register (AD).
    Direct(Register),
    /// Memory at the address in a register (AI).
    Indirect(Register),
    /// Memory at a register plus an offset (AX).
    Indexed(Register, u16),
}

/// An instruction of one of the four groups.
#[derive(Debug)]
pub enum Instruction {
    /// B1: destination and source.
    TwoOperands { opcode: Opcode, src: Operand, dst: Operand },
    /// B2: one operand.
    OneOperand { opcode: Opcode, dst: Operand },
    /// B3: branch to a label.
    Jump { opcode: Opcode, label: String },
    /// B4: no operand.
    Diverse { opcode: Opcode },
}

/// An instruction as a value, its branch label as characters.
pub enum InstructionModel {
    TwoOperands { opcode: Opcode, src: Operand, dst: Operand },
    OneOperand { opcode: Opcode, dst: Operand },
    Jump { opcode: Opcode, label: Seq<char> },
    Diverse { opcode: Opcode },
}

impl View for Instruction {
    type V = InstructionModel;

    open spec fn view(&self) -> InstructionModel {
        match self {
            Instruction::TwoOperands { opcode, src, dst } => InstructionModel::TwoOperands {
                opcode: *opcode,
                src: *src,
                dst: *dst,
            },
            Instruction::OneOperand { opcode, dst } => InstructionModel::OneOperand { opcode: *opcode, dst: *dst },
            Instruction::Jump { opcode, label } => InstructionModel::Jump { opcode: *opcode, label: label@ },
            Instruction::Diverse { opcode } => InstructionModel::Diverse { opcode: *opcode },
        }
    }
}

impl InstructionModel {
    pub open spec fn opcode(self) -> Opcode {
        match self {
            InstructionModel::TwoOperands { opcode, .. } => opcode,
            InstructionModel::OneOperand { opcode, .. } => opcode,
            InstructionModel::Jump { opcode, .. } => opcode,
            InstructionModel::Diverse { opcode } => opcode,
        }
    }
}

/// An instruction placed at an address, with its size and source line (from 1).
pub struct AddressableInstruction {
    pub instruction: Instruction,
    pub address: u16,
    pub size: InstructionSize,
    pub source_line: usize,
}

/// A placed instruction as a value.
pub struct LocatedInstruction {
    pub instruction: InstructionModel,
    pub address: u16,
    pub size: InstructionSize,
    pub source_line: usize,
}

impl View for AddressableInstruction {
    type V = LocatedInstruction;

    open spec fn view(&self) -> LocatedInstruction {
        LocatedInstruction {
            instruction: self.instruction@,
            address: self.address,
            size: self.size,
            source_line: self.source_line,
        }
    }
}

/// The labels of a program and their addresses; a later definition of a label
/// replaces an earlier one.
pub struct SymbolTable {
    entries: Vec<(String, u16)>,
}

/// The map that a list of definitions denotes, later ones winning.
pub open spec fn definitions_map(es: Seq<(Seq<char>, u16)>) -> Map<Seq<char>, u16>
    decreases es.len(),
{
    if es.len() == 0 {
        Map::empty()
    } else {
        definitions_map(es.drop_last()).insert(es.last().0, es.last().1)
    }
}

impl SymbolTable {
    pub closed spec fn definitions(&self) -> Seq<(Seq<char>, u16)> {
        self.entries@.map_values(|e: (String, u16)| (e.0@, e.1))
    }
}

impl View for SymbolTable {
    type V = Map<Seq<char>, u16>;

    open spec fn view(&self) -> Map<Seq<char>, u16> {
        definitions_map(self.definitions())
    }
}

impl SymbolTable {
    /// A table with no label.
    pub fn new() -> (r: Self)
        ensures
            r@ == Map::<Seq<char>, u16>::empty(),
    {
        let r = SymbolTable { entries: Vec::new() };
        assert(r.definitions() =~= Seq::<(Seq<char>, u16)>::empty());
        r
    }

    /// Defines `label` at `address`, replacing an earlier definition.
    pub fn insert(&mut self, label: String, address: u16)
        ensures
            final(self)@ == old(self)@.insert(label@, address),
    {
        let ghost l = label@;
        self.entries.push((label, address));
        assert(self.definitions().drop_last() =~= old(self).definitions());
        assert(self.definitions().last() == (l, address));
    }

    /// The address of `label`, if it is defined.
    pub fn get(&self, label: &String) -> (r: Option<u16>)
        ensures
            r == (if self@.contains_key(label@) { Some(self@[label@]) } else { None }),
    {
        let ghost ds = self.definitions();
        let mut i = self.entries.len();
        assert(ds.take(i as int) =~= ds);
        while i > 0
            invariant
                i <= self.entries@.len() == ds.len(),
                ds == self.definitions(),
                definitions_map(ds).contains_key(label@) == definitions_map(ds.take(i as int)).contains_key(label@),
                definitions_map(ds).contains_key(label@) ==> definitions_map(ds)[label@] == definitions_map(
                    ds.take(i as int),
                )[label@],
            decreases i,
        {
            let ghost pre = ds.take(i as int);
            assert(pre.drop_last() =~= ds.take(i - 1));
            assert(pre.last() == (self.entries@[i - 1].0@, self.entries@[i - 1].1));
            if self.entries[i - 1].0 == *label {
                return Some(self.entries[i - 1].1);
            }
            i = i - 1;
        }
        None
    }
}

/// Whether `a` and `b` agree up to ASCII case from position `k` on.
spec fn lowered_agree_from(a: Seq<char>, b: Seq<char>, k: nat) -> bool
    decreases a.len() - k,
{
    if k >= a.len() {
        true
    } else {
        ascii_lower(a[k as int]) == ascii_lower(b[k as int]) && lowered_agree_from(a, b, k + 1)
    }
}

proof fn lemma_lowered_agree_from(a: Seq<char>, b: Seq<char>, k: nat)
    requires
        a.len() == b.len(),
        k <= a.len(),
    ensures
        lowered_agree_from(a, b, k) <==> forall|i: int| k <= i < a.len() ==> ascii_lower(#[trigger] a[i]) == ascii_lower(b[i]),
    decreases a.len() - k,
{
    if k < a.len() {
        lemma_lowered_agree_from(a, b, k + 1);
    }
}

/// `find_opcode` with the case-blind comparison written recursively.
spec fn find_opcode_by_steps(s: Seq<char>, i: u16) -> Option<Opcode>
    decreases OPCODE_COUNT - i,
{
    if i >= OPCODE_COUNT {
        None
    } else if s.len() == Opcode::from_index(i).name().len() && lowered_agree_from(s, Opcode::from_index(i).name(), 0) {
        Some(Opcode::from_index(i))
    } else {
        find_opcode_by_steps(s, (i + 1) as u16)
    }
}

proof fn lemma_find_opcode_by_steps(s: Seq<char>, i: u16)
    ensures
        find_opcode(s, i) == find_opcode_by_steps(s, i),
    decreases OPCODE_COUNT - i,
{
    if i < OPCODE_COUNT {
        let n = Opcode::from_index(i).name();
        if s.len() == n.len() {
            lemma_lowered_agree_from(s, n, 0);
        }
        lemma_find_opcode_by_steps(s, (i + 1) as u16);
    }
}

#[verifier::rlimit(100)]
proof fn lemma_b1_names(op: OpcodeB1)
    ensures
        find_opcode_by_steps(Opcode::B1(op).name(), 0) == Some(Opcode::B1(op)),
{
    reveal_with_fuel(find_opcode_by_steps, 8);
    reveal_with_fuel(lowered_agree_from, 10);
    match op {
        OpcodeB1::MOV => {},
        OpcodeB1::ADD => {},
        OpcodeB1::SUB => {},
        OpcodeB1::CMP => {},
        OpcodeB1::AND => {},
        OpcodeB1::OR => {},
        OpcodeB1::XOR => {},
    }
}

#[verifier::rlimit(100)]
proof fn lemma_b2_names(op: OpcodeB2)
    ensures
        find_opcode_by_steps(Opcode::B2(op).name(), 0) == Some(Opcode::B2(op)),
{
    reveal_with_fuel(find_opcode_by_steps, 23);
    reveal_with_fuel(lowered_agree_from, 10);
    match op {
        OpcodeB2::CLR => {},
        OpcodeB2::NEG => {},
        OpcodeB2::INC => {},
        OpcodeB2::DEC => {},
        OpcodeB2::ASL => {},
        OpcodeB2::ASR => {},
        OpcodeB2::LSR => {},
        OpcodeB2::ROL => {},
        OpcodeB2::ROR => {},
        OpcodeB2::RLC => {},
        OpcodeB2::RRC => {},
        OpcodeB2::JMP => {},
        OpcodeB2::CALL => {},
        OpcodeB2::PUSH => {},
        OpcodeB2::POP => {},
    }
}

#[verifier::rlimit(100)]
proof fn lemma_b3_names(op: OpcodeB3)
    ensures
        find_opcode_by_steps(Opcode::B3(op).name(), 0) == Some(Opcode::B3(op)),
{
    reveal_with_fuel(find_opcode_by_steps, 32);
    reveal_with_fuel(lowered_agree_from, 10);
    match op {
        OpcodeB3::BR => {},
        OpcodeB3::BNE => {},
        OpcodeB3::BEQ => {},
        OpcodeB3::BPL => {},
        OpcodeB3::BMI => {},
        OpcodeB3::BCS => {},
        OpcodeB3::BCC => {},
        OpcodeB3::BVS => {},
        OpcodeB3::BVC => {},
    }
}

#[verifier::rlimit(100)]
proof fn lemma_b4_names(op: OpcodeB4)
    ensures
        find_opcode_by_steps(Opcode::B4(op).name(), 0) == Some(Opcode::B4(op)),
{
    reveal_with_fuel(find_opcode_by_steps, 51);
    reveal_with_fuel(lowered_agree_from, 10);
    match op {
        OpcodeB4::CLC => {},
        OpcodeB4::CLV => {},
        OpcodeB4::CLZ => {},
        OpcodeB4::CLS => {},
        OpcodeB4::CCC => {},
        OpcodeB4::SEC => {},
        OpcodeB4::SEV => {},
        OpcodeB4::SEZ => {},
        OpcodeB4::SES => {},
        OpcodeB4::SCC => {},
        OpcodeB4::NOP => {},
        OpcodeB4::RET => {},
        OpcodeB4::RETI => {},
        OpcodeB4::HALT => {},
        OpcodeB4::WAIT => {},
        OpcodeB4::PUSH_PC => {},
        OpcodeB4::POP_PC => {},
        OpcodeB4::PUSH_FLAG => {},
        OpcodeB4::POP_FLAG => {},
    }
}

/// Every opcode is read back from its own name.
pub proof fn lemma_name_parses(op: Opcode)
    ensures
        parse_opcode(op.name()) == Some(op),
{
    match op {
        Opcode::B1(o) => lemma_b1_names(o),
        Opcode::B2(o) => lemma_b2_names(o),
        Opcode::B3(o) => lemma_b3_names(o),
        Opcode::B4(o) => lemma_b4_names(o),
    }
    lemma_find_opcode_by_steps(op.name(), 0);
}

} // verus!
