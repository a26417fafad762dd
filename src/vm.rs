use vstd::prelude::*;

use crate::opcode::{code_of, is_arithmetic, is_comparison, is_jump, opcode_of, operand_count, Opcode};

verus! {

/// Why an instruction could not be carried out. A faulting instruction
/// leaves the machine exactly as it was before the step.
#[derive(Debug, Clone, Copy, PartialEq, Eq, Structural)]
pub enum Fault {
    /// The program ends before the instruction's last byte.
    EndOfProgram,
    /// A register operand is 32 or more.
    InvalidRegister,
    /// A division whose divisor is zero.
    DivisionByZero,
    /// A result that does not fit in a 32-bit signed register.
    Overflow,
    /// A jump to an offset below zero or beyond the machine's address range.
    JumpOutOfRange,
    /// An allocation that would make the heap's length negative or too large.
    HeapOutOfRange,
}

/// How a bounded run came to an end without a fault.
#[derive(Debug, Clone, Copy, PartialEq, Eq, Structural)]
pub enum RunEnd {
    /// An instruction signalled a halt (`HLT` or an illegal opcode).
    Halted,
    /// The program counter reached the end of the program.
    EndOfProgram,
    /// The step budget ran out.
    StepLimit,
}

/// The abstract state of the machine.
pub struct MachineState {
    pub registers: Seq<i32>,
    pub pc: int,
    pub program: Seq<u8>,
    pub heap: Seq<u8>,
    pub remainder: usize,
    pub equal_flag: bool,
}

pub open spec fn operand(s: MachineState, k: int) -> u8 {
    s.program[s.pc + k]
}

/// The value of the register named by the `k`-th byte after the opcode.
pub open spec fn reg_at(s: MachineState, k: int) -> int {
    s.registers[operand(s, k) as int] as int
}

pub open spec fn is_register(b: u8) -> bool {
    b < 32
}

pub open spec fn fits_i32(v: int) -> bool {
    i32::MIN <= v <= i32::MAX
}

pub open spec fn abs(v: int) -> int {
    if v < 0 {
        -v
    } else {
        v
    }
}

/// Integer division rounding toward zero.
pub open spec fn trunc_div(a: int, b: int) -> int {
    let q = abs(a) / abs(b);
    if (a < 0) != (b < 0) {
        -q
    } else {
        q
    }
}

/// The remainder that goes with `trunc_div`: it takes the sign of `a`.
pub open spec fn trunc_rem(a: int, b: int) -> int {
    let r = abs(a) % abs(b);
    if a < 0 {
        -r
    } else {
        r
    }
}

pub open spec fn compare(op: Opcode, a: int, b: int) -> bool {
    match op {
        Opcode::EQ => a == b,
        Opcode::NEQ => a != b,
        Opcode::GTE => a >= b,
        Opcode::LTE => a <= b,
        Opcode::GT => a > b,
        _ => a < b,
    }
}

/// Whether every register operand of `op` at the program counter names a register.
pub open spec fn registers_valid(s: MachineState, op: Opcode) -> bool {
    if op == Opcode::LOAD || is_jump(op) || op == Opcode::ALOC {
        is_register(operand(s, 1))
    } else if is_comparison(op) {
        is_register(operand(s, 1)) && is_register(operand(s, 2))
    } else if is_arithmetic(op) {
        is_register(operand(s, 1)) && is_register(operand(s, 2)) && is_register(operand(s, 3))
    } else {
        true
    }
}

/// The exact result of an arithmetic opcode, before the range check.
pub open spec fn arith_value(op: Opcode, a: int, b: int) -> int {
    match op {
        Opcode::ADD => a + b,
        Opcode::SUB => a - b,
        Opcode::MUL => a * b,
        _ => trunc_div(a, b),
    }
}

/// The heap after its length is set to `n`: the kept prefix, then zeros.
pub open spec fn resized(heap: Seq<u8>, n: nat) -> Seq<u8> {
    Seq::new(n, |i: int| if i < heap.len() { heap[i] } else { 0u8 })
}

pub open spec fn with_pc(s: MachineState, pc: int) -> MachineState {
    MachineState { pc, ..s }
}

/// A jump to `target`, or a fault where the target is no offset.
pub open spec fn jump_to(s: MachineState, target: int) -> (MachineState, Result<bool, Fault>) {
    if 0 <= target <= usize::MAX {
        (with_pc(s, target), Ok(false))
    } else {
        (s, Err(Fault::JumpOutOfRange))
    }
}

/// Carries out `op`, whose bytes are all present and whose registers are valid.
pub open spec fn apply(s: MachineState, op: Opcode) -> (MachineState, Result<bool, Fault>) {
    let next = s.pc + 1 + operand_count(op);
    match op {
        Opcode::LOAD => (
            MachineState {
                registers: s.registers.update(
                    operand(s, 1) as int,
                    (operand(s, 2) as int * 256 + operand(s, 3) as int) as i32,
                ),
                pc: next,
                ..s
            },
            Ok(false),
        ),
        Opcode::ADD | Opcode::SUB | Opcode::MUL | Opcode::DIV => {
            let a = reg_at(s, 1);
            let b = reg_at(s, 2);
            if op == Opcode::DIV && b == 0 {
                (s, Err(Fault::DivisionByZero))
            } else if !fits_i32(arith_value(op, a, b)) {
                (s, Err(Fault::Overflow))
            } else {
                let regs = s.registers.update(operand(s, 3) as int, arith_value(op, a, b) as i32);
                if op == Opcode::DIV {
                    (
                        MachineState {
                            registers: regs,
                            pc: next,
                            remainder: trunc_rem(a, b) as usize,
                            ..s
                        },
                        Ok(false),
                    )
                } else {
                    (MachineState { registers: regs, pc: next, ..s }, Ok(false))
                }
            }
        },
        Opcode::HLT | Opcode::ILLEGAL => (with_pc(s, next), Ok(true)),
        Opcode::JMP => jump_to(s, reg_at(s, 1)),
        Opcode::JMPF => jump_to(s, next + reg_at(s, 1)),
        Opcode::JMPB => jump_to(s, next - reg_at(s, 1)),
        Opcode::JMPE => if s.equal_flag {
            jump_to(s, reg_at(s, 1))
        } else {
            (with_pc(s, next), Ok(false))
        },
        Opcode::ALOC => {
            let n = s.heap.len() + reg_at(s, 1);
            if 0 <= n <= usize::MAX {
                (MachineState { heap: resized(s.heap, n as nat), pc: next, ..s }, Ok(false))
            } else {
                (s, Err(Fault::HeapOutOfRange))
            }
        },
        _ => (
            MachineState {
                equal_flag: compare(op, reg_at(s, 1), reg_at(s, 2)),
                pc: next,
                ..s
            },
            Ok(false),
        ),
    }
}

/// One step of the machine: the state after it and whether it halted.
/// A step that faults leaves the state as it was.
pub open spec fn step(s: MachineState) -> (MachineState, Result<bool, Fault>) {
    if s.pc < 0 || s.pc >= s.program.len() {
        (s, Err(Fault::EndOfProgram))
    } else {
        let op = opcode_of(s.program[s.pc]);
        if s.pc + 1 + operand_count(op) > s.program.len() {
            (s, Err(Fault::EndOfProgram))
        } else if !registers_valid(s, op) {
            (s, Err(Fault::InvalidRegister))
        } else {
            apply(s, op)
        }
    }
}

/// At most `fuel` steps, stopping at a halt, a fault, or once the program
/// counter is at or past the end of the program.
pub open spec fn run(s: MachineState, fuel: nat) -> (MachineState, Result<RunEnd, Fault>)
    decreases fuel,
{
    if s.pc >= s.program.len() {
        (s, Ok(RunEnd::EndOfProgram))
    } else if fuel == 0 {
        (s, Ok(RunEnd::StepLimit))
    } else {
        let (t, r) = step(s);
        match r {
            Err(f) => (t, Err(f)),
            Ok(true) => (t, Ok(RunEnd::Halted)),
            Ok(false) => run(t, (fuel - 1) as nat),
        }
    }
}

/// The machine: registers, program, program counter, heap and flags.
pub struct VM {
    pub registers: [i32; 32],
    pub pc: usize,
    pub program: Vec<u8>,
    pub heap: Vec<u8>,
    pub remainder: usize,
    pub equal_flag: bool,
}

impl View for VM {
    type V = MachineState;

    open spec fn view(&self) -> MachineState {
        MachineState {
            registers: self.registers@,
            pc: self.pc as int,
            program: self.program@,
            heap: self.heap@,
            remainder: self.remainder,
            equal_flag: self.equal_flag,
        }
    }
}

impl VM {
    /// A machine with zeroed registers, no program, an empty heap and a clear flag.
    pub fn new() -> (vm: VM)
        ensures
            vm@.registers == Seq::new(32, |i: int| 0i32),
            vm@.pc == 0,
            vm@.program.len() == 0,
            vm@.heap.len() == 0,
            vm@.remainder == 0,
            !vm@.equal_flag,
    {
        let vm = VM {
            registers: [0i32; 32],
            pc: 0,
            program: Vec::new(),
            heap: Vec::new(),
            remainder: 0,
            equal_flag: false,
        };
        assert(vm@.registers =~= Seq::new(32, |i: int| 0i32));
        vm
    }
}


/// Sets the heap's length to `n`, appending zeros where it grows.
fn grow_heap(heap: &mut Vec<u8>, n: usize)
    requires
        old(heap)@.len() <= n,
    ensures
        final(heap)@ == resized(old(heap)@, n as nat),
{
    let ghost h0 = heap@;
    while heap.len() < n
        invariant
            h0.len() <= heap@.len() <= n,
            heap@ =~= resized(h0, heap@.len()),
        decreases n - heap@.len(),
    {
        heap.push(0u8);
    }
    assert(heap@ =~= resized(h0, n as nat));
}

impl VM {
    /// Reads the byte at the program counter and moves past it;
    /// the caller guarantees that the byte is there.
    fn fetch(&mut self) -> (b: u8)
        requires
            old(self).pc < old(self).program@.len(),
        ensures
            b == old(self).program@[old(self).pc as int],
            final(self)@ == with_pc(old(self)@, old(self).pc + 1),
    {
        let n = self.program.len();
        let b = self.program[self.pc];
        assert(self.pc < n);
        self.pc = self.pc + 1;
        b
    }

    /// Reads the byte at the program counter and advances past it, or fails
    /// at the end of the program, leaving the machine unchanged.
    pub fn next_8_bits(&mut self) -> (r: Result<u8, Fault>)
        ensures
            old(self).pc < old(self).program@.len() ==> r == Ok::<u8, Fault>(
                old(self).program@[old(self).pc as int],
            ) && final(self)@ == with_pc(old(self)@, old(self).pc + 1),
            old(self).pc >= old(self).program@.len() ==> r == Err::<u8, Fault>(Fault::EndOfProgram)
                && final(self)@ == old(self)@,
    {
        if self.pc < self.program.len() {
            Ok(self.fetch())
        } else {
            Err(Fault::EndOfProgram)
        }
    }

    /// Reads two bytes as a big-endian 16-bit value and advances past them,
    /// or fails where fewer than two bytes are left, leaving the machine unchanged.
    pub fn next_16_bits(&mut self) -> (r: Result<u16, Fault>)
        ensures
            old(self).pc + 2 <= old(self).program@.len() ==> r == Ok::<u16, Fault>(
                (old(self).program@[old(self).pc as int] as int * 256 + old(self).program@[old(
                self).pc + 1] as int) as u16,
            ) && final(self)@ == with_pc(old(self)@, old(self).pc + 2),
            old(self).pc + 2 > old(self).program@.len() ==> r == Err::<u16, Fault>(
                Fault::EndOfProgram,
            ) && final(self)@ == old(self)@,
    {
        if self.program.len() >= 2 && self.pc <= self.program.len() - 2 {
            let hi = self.fetch();
            let lo = self.fetch();
            Ok((hi as u16) * 256 + (lo as u16))
        } else {
            Err(Fault::EndOfProgram)
        }
    }

    /// Reads one byte and decodes it as an opcode.
    pub fn decode_opcode(&mut self) -> (r: Result<Opcode, Fault>)
        ensures
            old(self).pc < old(self).program@.len() ==> r == Ok::<Opcode, Fault>(
                opcode_of(old(self).program@[old(self).pc as int]),
            ) && final(self)@ == with_pc(old(self)@, old(self).pc + 1),
            old(self).pc >= old(self).program@.len() ==> r == Err::<Opcode, Fault>(
                Fault::EndOfProgram,
            ) && final(self)@ == old(self)@,
    {
        match self.next_8_bits() {
            Ok(b) => Ok(Opcode::from_byte(b)),
            Err(f) => Err(f),
        }
    }

    /// Appends one four-byte instruction record to the program.
    pub fn add_bytes(&mut self, bytes: &[u8; 4])
        requires
            old(self).program@.len() + 4 <= usize::MAX,
        ensures
            final(self)@ == (MachineState { program: old(self)@.program + bytes@, ..old(self)@ }),
    {
        self.program.extend_from_slice(bytes);
        assert(self.program@ =~= old(self).program@ + bytes@);
    }
}

impl VM {
    /// Target of a jump by `delta` from `base`, where it is an offset.
    fn offset_by(base: usize, delta: i32, forward: bool) -> (r: Option<usize>)
        ensures
            ({
                let t = if forward {
                    base + delta as int
                } else {
                    base - delta as int
                };
                (0 <= t <= usize::MAX ==> r == Some(t as usize)) && (!(0 <= t <= usize::MAX)
                    ==> r is None)
            }),
    {
        let up = (delta >= 0) == forward;
        let mag: u64 = if delta >= 0 {
            delta as u64
        } else {
            (-(delta as i64)) as u64
        };
        if up {
            if mag > (usize::MAX - base) as u64 {
                None
            } else {
                Some(base + mag as usize)
            }
        } else {
            if mag > base as u64 {
                None
            } else {
                Some(base - mag as usize)
            }
        }
    }

    /// Decodes and carries out one instruction. `Ok(true)` signals a halt
    /// (`HLT` or an illegal opcode), `Ok(false)` that execution may go on.
    /// A fault leaves the machine exactly as it was.
    #[verifier::rlimit(50)]
    pub fn execute_instruction(&mut self) -> (r: Result<bool, Fault>)
        ensures
            (final(self)@, r) == step(old(self)@),
    {
        let ghost s = self@;
        let len = self.program.len();
        if self.pc >= len {
            return Err(Fault::EndOfProgram);
        }
        let start = self.pc;
        let op = Opcode::from_byte(self.fetch());
        if len - self.pc < op.operand_len() {
            self.pc = start;
            return Err(Fault::EndOfProgram);
        }
        assert(self@ == with_pc(s, start + 1));
        match op {
            Opcode::HLT | Opcode::ILLEGAL => Ok(true),
            Opcode::LOAD => {
                let r = self.fetch();
                let hi = self.fetch();
                let lo = self.fetch();
                if r >= 32 {
                    self.pc = start;
                    return Err(Fault::InvalidRegister);
                }
                self.registers[r as usize] = (hi as i32) * 256 + (lo as i32);
                assert(self@.registers =~= apply(s, op).0.registers);
                Ok(false)
            },
            Opcode::ADD | Opcode::SUB | Opcode::MUL | Opcode::DIV => {
                let ra = self.fetch();
                let rb = self.fetch();
                let rd = self.fetch();
                if ra >= 32 || rb >= 32 || rd >= 32 {
                    self.pc = start;
                    return Err(Fault::InvalidRegister);
                }
                let a = self.registers[ra as usize] as i64;
                let b = self.registers[rb as usize] as i64;
                let mut rem: i64 = 0;
                let v: i64 = match op {
                    Opcode::ADD => a + b,
                    Opcode::SUB => a - b,
                    Opcode::MUL => {
                        assert(-0x8000_0000 * 0x8000_0000 <= a * b <= 0x8000_0000 * 0x8000_0000)
                            by (nonlinear_arith)
                            requires
                                i32::MIN <= a <= i32::MAX,
                                i32::MIN <= b <= i32::MAX,
                        ;
                        a * b
                    },
                    _ => {
                        if b == 0 {
                            self.pc = start;
                            return Err(Fault::DivisionByZero);
                        }
                        let ua: u64 = if a < 0 {
                            (-a) as u64
                        } else {
                            a as u64
                        };
                        let ub: u64 = if b < 0 {
                            (-b) as u64
                        } else {
                            b as u64
                        };
                        let q = ua / ub;
                        let m = ua % ub;
                        assert(q <= ua) by (nonlinear_arith)
                            requires
                                ub >= 1,
                                q == ua / ub,
                        ;
                        rem = if a < 0 {
                            -(m as i64)
                        } else {
                            m as i64
                        };
                        if (a < 0) != (b < 0) {
                            -(q as i64)
                        } else {
                            q as i64
                        }
                    },
                };
                if v < i32::MIN as i64 || v > i32::MAX as i64 {
                    self.pc = start;
                    return Err(Fault::Overflow);
                }
                self.registers[rd as usize] = v as i32;
                if op == Opcode::DIV {
                    self.remainder = rem as usize;
                }
                assert(self@.registers =~= apply(s, op).0.registers);
                Ok(false)
            },
            Opcode::EQ | Opcode::NEQ | Opcode::GTE | Opcode::LTE | Opcode::GT | Opcode::LT => {
                let ra = self.fetch();
                let rb = self.fetch();
                self.fetch();
                if ra >= 32 || rb >= 32 {
                    self.pc = start;
                    return Err(Fault::InvalidRegister);
                }
                let a = self.registers[ra as usize];
                let b = self.registers[rb as usize];
                self.equal_flag = match op {
                    Opcode::EQ => a == b,
                    Opcode::NEQ => a != b,
                    Opcode::GTE => a >= b,
                    Opcode::LTE => a <= b,
                    Opcode::GT => a > b,
                    _ => a < b,
                };
                Ok(false)
            },
            Opcode::JMP | Opcode::JMPF | Opcode::JMPB | Opcode::JMPE => {
                let ra = self.fetch();
                if ra >= 32 {
                    self.pc = start;
                    return Err(Fault::InvalidRegister);
                }
                let v = self.registers[ra as usize];
                let target = match op {
                    Opcode::JMPF => VM::offset_by(self.pc, v, true),
                    Opcode::JMPB => VM::offset_by(self.pc, v, false),
                    Opcode::JMPE if !self.equal_flag => Some(self.pc),
                    _ => VM::offset_by(0, v, true),
                };
                match target {
                    Some(t) => {
                        self.pc = t;
                        Ok(false)
                    },
                    None => {
                        self.pc = start;
                        Err(Fault::JumpOutOfRange)
                    },
                }
            },
            Opcode::ALOC => {
                let ra = self.fetch();
                self.fetch();
                self.fetch();
                if ra >= 32 {
                    self.pc = start;
                    return Err(Fault::InvalidRegister);
                }
                let v = self.registers[ra as usize];
                match VM::offset_by(self.heap.len(), v, true) {
                    Some(n) => {
                        if n <= self.heap.len() {
                            self.heap.truncate(n);
                        } else {
                            grow_heap(&mut self.heap, n);
                        }
                        assert(self.heap@ =~= resized(s.heap, n as nat));
                        Ok(false)
                    },
                    None => {
                        self.pc = start;
                        Err(Fault::HeapOutOfRange)
                    },
                }
            },
        }
    }
}

impl VM {
    /// Executes exactly one instruction, whatever it signals.
    pub fn run_once(&mut self) -> (r: Result<bool, Fault>)
        ensures
            (final(self)@, r) == step(old(self)@),
    {
        self.execute_instruction()
    }

    /// Executes instructions until one halts or faults, until the program
    /// counter is at or past the end of the program, or until `max_steps`
    /// instructions have run.
    pub fn run_with_limit(&mut self, max_steps: usize) -> (r: Result<RunEnd, Fault>)
        ensures
            (final(self)@, r) == run(old(self)@, max_steps as nat),
    {
        let mut fuel = max_steps;
        loop
            invariant
                run(self@, fuel as nat) == run(old(self)@, max_steps as nat),
            decreases fuel,
        {
            if self.pc >= self.program.len() {
                return Ok(RunEnd::EndOfProgram);
            }
            if fuel == 0 {
                return Ok(RunEnd::StepLimit);
            }
            match self.execute_instruction() {
                Err(f) => {
                    return Err(f);
                },
                Ok(true) => {
                    return Ok(RunEnd::Halted);
                },
                Ok(false) => {},
            }
            fuel = fuel - 1;
        }
    }

    /// Executes instructions until one halts or faults or the program counter
    /// is at or past the end of the program, for at most `usize::MAX` steps.
    pub fn run_loop(&mut self) -> (r: Result<RunEnd, Fault>)
        ensures
            (final(self)@, r) == run(old(self)@, usize::MAX as nat),
    {
        self.run_with_limit(usize::MAX)
    }
}

} // verus!
