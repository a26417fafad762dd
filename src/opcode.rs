use vstd::prelude::*;

verus! {

/// The operations of the machine. Every byte decodes to exactly one of them:
/// bytes outside the table decode to `ILLEGAL`.
#[allow(non_camel_case_types)]
#[derive(Debug, Clone, Copy, PartialEq, Eq, Structural)]
pub enum Opcode {
    LOAD,
    ADD,
    SUB,
    MUL,
    DIV,
    HLT,
    JMP,
    JMPF,
    JMPB,
    EQ,
    NEQ,
    GTE,
    LTE,
    GT,
    LT,
    JMPE,
    ILLEGAL,
    ALOC,
}

/// The opcode that a byte stands for.
pub open spec fn opcode_of(b: u8) -> Opcode {
    if b == 0 {
        Opcode::LOAD
    } else if b == 1 {
        Opcode::ADD
    } else if b == 2 {
        Opcode::SUB
    } else if b == 3 {
        Opcode::MUL
    } else if b == 4 {
        Opcode::DIV
    } else if b == 5 {
        Opcode::HLT
    } else if b == 6 {
        Opcode::JMP
    } else if b == 7 {
        Opcode::JMPF
    } else if b == 8 {
        Opcode::JMPB
    } else if b == 9 {
        Opcode::EQ
    } else if b == 10 {
        Opcode::NEQ
    } else if b == 11 {
        Opcode::GTE
    } else if b == 12 {
        Opcode::LTE
    } else if b == 13 {
        Opcode::GT
    } else if b == 14 {
        Opcode::LT
    } else if b == 15 {
        Opcode::JMPE
    } else if b == 17 {
        Opcode::ALOC
    } else {
        Opcode::ILLEGAL
    }
}

/// The byte that encodes an opcode.
pub open spec fn code_of(op: Opcode) -> u8 {
    match op {
        Opcode::LOAD => 0,
        Opcode::ADD => 1,
        Opcode::SUB => 2,
        Opcode::MUL => 3,
        Opcode::DIV => 4,
        Opcode::HLT => 5,
        Opcode::JMP => 6,
        Opcode::JMPF => 7,
        Opcode::JMPB => 8,
        Opcode::EQ => 9,
        Opcode::NEQ => 10,
        Opcode::GTE => 11,
        Opcode::LTE => 12,
        Opcode::GT => 13,
        Opcode::LT => 14,
        Opcode::JMPE => 15,
        Opcode::ILLEGAL => 16,
        Opcode::ALOC => 17,
    }
}

/// How many operand bytes the machine consumes after the opcode byte.
pub open spec fn operand_count(op: Opcode) -> nat {
    match op {
        Opcode::HLT | Opcode::ILLEGAL => 0,
        Opcode::JMP | Opcode::JMPF | Opcode::JMPB | Opcode::JMPE => 1,
        _ => 3,
    }
}

pub open spec fn is_arithmetic(op: Opcode) -> bool {
    op == Opcode::ADD || op == Opcode::SUB || op == Opcode::MUL || op == Opcode::DIV
}

pub open spec fn is_comparison(op: Opcode) -> bool {
    op == Opcode::EQ || op == Opcode::NEQ || op == Opcode::GTE || op == Opcode::LTE
        || op == Opcode::GT || op == Opcode::LT
}

pub open spec fn is_jump(op: Opcode) -> bool {
    op == Opcode::JMP || op == Opcode::JMPF || op == Opcode::JMPB || op == Opcode::JMPE
}

impl Opcode {
    /// Decodes a byte; this mapping is total.
    pub fn from_byte(b: u8) -> (op: Opcode)
        ensures
            op == opcode_of(b),
    {
        match b {
            0 => Opcode::LOAD,
            1 => Opcode::ADD,
            2 => Opcode::SUB,
            3 => Opcode::MUL,
            4 => Opcode::DIV,
            5 => Opcode::HLT,
            6 => Opcode::JMP,
            7 => Opcode::JMPF,
            8 => Opcode::JMPB,
            9 => Opcode::EQ,
            10 => Opcode::NEQ,
            11 => Opcode::GTE,
            12 => Opcode::LTE,
            13 => Opcode::GT,
            14 => Opcode::LT,
            15 => Opcode::JMPE,
            17 => Opcode::ALOC,
            _ => Opcode::ILLEGAL,
        }
    }

    /// The byte that encodes this opcode.
    pub fn to_byte(&self) -> (b: u8)
        ensures
            b == code_of(*self),
    {
        match self {
            Opcode::LOAD => 0,
            Opcode::ADD => 1,
            Opcode::SUB => 2,
            Opcode::MUL => 3,
            Opcode::DIV => 4,
            Opcode::HLT => 5,
            Opcode::JMP => 6,
            Opcode::JMPF => 7,
            Opcode::JMPB => 8,
            Opcode::EQ => 9,
            Opcode::NEQ => 10,
            Opcode::GTE => 11,
            Opcode::LTE => 12,
            Opcode::GT => 13,
            Opcode::LT => 14,
            Opcode::JMPE => 15,
            Opcode::ILLEGAL => 16,
            Opcode::ALOC => 17,
        }
    }

    /// The number of operand bytes that follow this opcode in the program.
    pub fn operand_len(&self) -> (n: usize)
        ensures
            n == operand_count(*self),
    {
        match self {
            Opcode::HLT | Opcode::ILLEGAL => 0,
            Opcode::JMP | Opcode::JMPF | Opcode::JMPB | Opcode::JMPE => 1,
            _ => 3,
        }
    }
}

/// Encoding an opcode and decoding the byte gives the opcode back.
pub proof fn lemma_opcode_round_trip(op: Opcode)
    ensures
        opcode_of(code_of(op)) == op,
{
}

} // verus!
