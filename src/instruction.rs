use vstd::prelude::*;

use crate::opcode::{code_of, Opcode};

verus! {

/// An opcode with its operand bytes, as the assembler produces it.
#[derive(Debug, PartialEq)]
pub struct Instruction {
    pub opcode: Opcode,
    pub operands: Vec<u8>,
}

/// The `i`-th operand byte, or zero past the last one.
pub open spec fn operand_or_zero(operands: Seq<u8>, i: int) -> u8 {
    if 0 <= i < operands.len() {
        operands[i]
    } else {
        0
    }
}

/// The four-byte record of an instruction: the opcode's byte, then the first
/// three operand bytes, padded with zeros.
pub open spec fn record(op: Opcode, operands: Seq<u8>) -> Seq<u8> {
    seq![
        code_of(op),
        operand_or_zero(operands, 0),
        operand_or_zero(operands, 1),
        operand_or_zero(operands, 2),
    ]
}

impl View for Instruction {
    type V = (Opcode, Seq<u8>);

    open spec fn view(&self) -> (Opcode, Seq<u8>) {
        (self.opcode, self.operands@)
    }
}

impl Instruction {
    pub fn new(opcode: Opcode, operands: Vec<u8>) -> (r: Instruction)
        ensures
            r@ == (opcode, operands@),
    {
        Instruction { opcode, operands }
    }

    /// The instruction's four-byte record.
    pub fn to_bytes(&self) -> (bytes: [u8; 4])
        ensures
            bytes@ == record(self@.0, self@.1),
    {
        let mut bytes = [0u8; 4];
        bytes[0] = self.opcode.to_byte();
        let mut i: usize = 0;
        while i < 3 && i < self.operands.len()
            invariant
                i <= 3,
                i <= self.operands@.len(),
                bytes@.len() == 4,
                bytes@[0] == code_of(self.opcode),
                forall|k: int| 0 <= k < i ==> bytes@[k + 1] == self.operands@[k],
                forall|k: int| i < k < 4 ==> bytes@[k] == 0,
            decreases 3 - i,
        {
            bytes[i + 1] = self.operands[i];
            i = i + 1;
        }
        assert(bytes@ =~= record(self@.0, self@.1));
        bytes
    }
}

} // verus!
