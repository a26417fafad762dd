use vstd::prelude::*;

use crate::opcode::{is_arithmetic, is_jump, opcode_of, operand_count, Opcode};
use crate::vm::{
    abs, arith_value, operand, reg_at, run, step, trunc_div, trunc_rem, with_pc, Fault,
    MachineState, RunEnd, VM,
};

verus! {

/// A state that a `VM` can be in: 32 registers and an offset and a program that fit the machine.
pub open spec fn well_formed(s: MachineState) -> bool {
    s.registers.len() == 32 && 0 <= s.pc <= usize::MAX && s.program.len() <= usize::MAX
}

/// Every machine is in a well-formed state, so the laws below apply to it.
pub proof fn lemma_vm_well_formed(vm: &VM)
    ensures
        well_formed(vm@),
{
    broadcast use vstd::array::array_len_matches_n, vstd::std_specs::vec::axiom_spec_len;

    assert(vm.registers@.len() == 32);
    assert(vm.program@.len() == vm.program.len());
}

/// Whether one of the first `fuel` steps from `s` executes a jump opcode.
pub open spec fn executes_jump(s: MachineState, fuel: nat) -> bool
    decreases fuel,
{
    if s.pc >= s.program.len() || fuel == 0 {
        false
    } else {
        is_jump(opcode_of(s.program[s.pc])) || (step(s).1 == Ok::<bool, Fault>(false)
            && executes_jump(step(s).0, (fuel - 1) as nat))
    }
}

/// `LOAD r, v` stores `v` in register `r`, zero-extended from 16 bits, and
/// changes no other register.
pub proof fn lemma_load_stores_value(s: MachineState, r: u8, hi: u8, lo: u8)
    requires
        well_formed(s),
        s.pc + 4 <= s.program.len(),
        s.program[s.pc] == 0,
        s.program[s.pc + 1] == r,
        s.program[s.pc + 2] == hi,
        s.program[s.pc + 3] == lo,
        r < 32,
    ensures
        step(s).1 == Ok::<bool, Fault>(false),
        step(s).0.registers[r as int] == hi as int * 256 + lo as int,
        0 <= step(s).0.registers[r as int] <= 0xffff,
        forall|i: int| 0 <= i < 32 && i != r ==> step(s).0.registers[i] == s.registers[i],
        step(s).0.pc == s.pc + 4,
{
}

/// `ADD`, `SUB`, `MUL` and `DIV` write a function of the two source registers
/// to the destination register and change no other register.
pub proof fn lemma_arithmetic_writes_only_destination(s: MachineState)
    requires
        well_formed(s),
        s.pc < s.program.len(),
        is_arithmetic(opcode_of(s.program[s.pc])),
        step(s).1 is Ok,
    ensures
        ({
            let t = step(s).0;
            let op = opcode_of(s.program[s.pc]);
            &&& t.registers[operand(s, 3) as int] == arith_value(op, reg_at(s, 1), reg_at(s, 2))
            &&& forall|i: int|
                0 <= i < 32 && i != operand(s, 3) ==> t.registers[i] == s.registers[i]
            &&& t.registers.len() == 32
            &&& t.program == s.program
            &&& t.heap == s.heap
            &&& t.equal_flag == s.equal_flag
            &&& t.pc == s.pc + 4
        }),
{
}

/// Truncating division: `a == b * q + r`, with `|r| < |b|` and `r` zero or of
/// the sign of `a`.
pub proof fn lemma_trunc_div_rem(a: int, b: int)
    requires
        b != 0,
    ensures
        a == b * trunc_div(a, b) + trunc_rem(a, b),
        abs(trunc_rem(a, b)) < abs(b),
        trunc_rem(a, b) == 0 || (trunc_rem(a, b) < 0) == (a < 0),
{
    let q = abs(a) / abs(b);
    let m = abs(a) % abs(b);
    vstd::arithmetic::div_mod::lemma_fundamental_div_mod(abs(a), abs(b));
    vstd::arithmetic::div_mod::lemma_mod_bound(abs(a), abs(b));
    assert(abs(a) == abs(b) * q + m);
    if a < 0 && b < 0 {
        assert(a == b * q + (-m)) by (nonlinear_arith)
            requires
                -a == (-b) * q + m,
        ;
    } else if a < 0 {
        assert(a == b * (-q) + (-m)) by (nonlinear_arith)
            requires
                -a == b * q + m,
        ;
    } else if b < 0 {
        assert(a == b * (-q) + m) by (nonlinear_arith)
            requires
                a == (-b) * q + m,
        ;
    }
}

/// `DIV` stores the truncating quotient and keeps the matching remainder;
/// with a zero divisor it faults and changes nothing.
pub proof fn lemma_div_sets_remainder(s: MachineState)
    requires
        well_formed(s),
        s.pc + 4 <= s.program.len(),
        opcode_of(s.program[s.pc]) == Opcode::DIV,
        operand(s, 1) < 32,
        operand(s, 2) < 32,
        operand(s, 3) < 32,
    ensures
        reg_at(s, 2) == 0 ==> step(s) == (s, Err::<bool, Fault>(Fault::DivisionByZero)),
        reg_at(s, 2) != 0 && !(reg_at(s, 1) == i32::MIN && reg_at(s, 2) == -1) ==> {
            let t = step(s).0;
            &&& step(s).1 == Ok::<bool, Fault>(false)
            &&& t.registers[operand(s, 3) as int] == trunc_div(reg_at(s, 1), reg_at(s, 2))
            &&& t.remainder == trunc_rem(reg_at(s, 1), reg_at(s, 2)) as usize
            &&& reg_at(s, 1) == reg_at(s, 2) * trunc_div(reg_at(s, 1), reg_at(s, 2)) + trunc_rem(
                reg_at(s, 1),
                reg_at(s, 2),
            )
        },
{
    let a = reg_at(s, 1);
    let b = reg_at(s, 2);
    if b != 0 && !(a == i32::MIN && b == -1) {
        lemma_trunc_div_rem(a, b);
        let q = abs(a) / abs(b);
        assert(abs(a) / abs(b) <= abs(a)) by {
            vstd::arithmetic::div_mod::lemma_div_is_ordered_by_denominator(abs(a), 1, abs(b));
        }
        if abs(b) == 1 {
            assert(abs(a) / abs(b) == abs(a));
        } else {
            vstd::arithmetic::div_mod::lemma_div_is_ordered_by_denominator(abs(a), 2, abs(b));
            assert(abs(a) / 2 <= 0x4000_0000);
        }
    }
}

/// Jumps change nothing but the program counter, and `JMPE` with a clear
/// flag only moves past its operand.
pub proof fn lemma_jumps_change_only_pc(s: MachineState)
    requires
        well_formed(s),
        s.pc < s.program.len(),
        is_jump(opcode_of(s.program[s.pc])),
    ensures
        step(s).0 == with_pc(s, step(s).0.pc),
        opcode_of(s.program[s.pc]) == Opcode::JMPE && !s.equal_flag && s.pc + 2
            <= s.program.len() && operand(s, 1) < 32 ==> step(s) == (
            with_pc(s, s.pc + 2),
            Ok::<bool, Fault>(false),
        ),
{
}

/// A step that neither halts, faults nor executes a jump moves the program
/// counter forward past the whole instruction.
pub proof fn lemma_straight_step_advances(s: MachineState)
    requires
        well_formed(s),
        s.pc < s.program.len(),
        !is_jump(opcode_of(s.program[s.pc])),
        step(s).1 == Ok::<bool, Fault>(false),
    ensures
        step(s).0.pc == s.pc + 1 + operand_count(opcode_of(s.program[s.pc])),
        well_formed(step(s).0),
        step(s).0.program == s.program,
{
}

/// A run that executes no jump ends (by a halt, a fault or the end of the
/// program) within as many steps as there are bytes left in the program.
pub proof fn lemma_run_without_jumps_ends(s: MachineState, fuel: nat)
    requires
        well_formed(s),
        fuel >= s.program.len() - s.pc,
        !executes_jump(s, fuel),
    ensures
        run(s, fuel).1 != Ok::<RunEnd, Fault>(RunEnd::StepLimit),
    decreases fuel,
{
    if s.pc < s.program.len() && fuel > 0 {
        if step(s).1 == Ok::<bool, Fault>(false) {
            lemma_straight_step_advances(s);
            lemma_run_without_jumps_ends(step(s).0, (fuel - 1) as nat);
        }
    }
}

} // verus!
