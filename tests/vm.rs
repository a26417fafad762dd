use susuro::{AssemblyParser, Fault, Instruction, Opcode, RunEnd, VM};

#[test]
fn create_vm() {
    let vm = VM::new();
    assert_eq!(0, vm.pc);
}

#[test]
fn lib_test_load() {
    let mut vm = VM::new();
    vm.program = vec![0, 0, 1, 244];
    vm.run_once().unwrap();
    assert_eq!(vm.registers[0], 500);

    assert_eq!(
        Ok(Instruction::new(Opcode::LOAD, vec![0, 1, 244])),
        AssemblyParser::parse_instruction("LOAD $0 #500")
    );
}

#[test]
fn lib_test_add() {
    let mut vm = VM::new();
    vm.registers[0] = 1;
    vm.registers[1] = 2;
    vm.program = vec![1, 0, 1, 2];
    vm.run_once().unwrap();
    assert_eq!(vm.registers[2], 3);
}

#[test]
fn test_sub() {
    let mut vm = VM::new();
    vm.registers[0] = 2;
    vm.registers[1] = 1;
    vm.program = vec![2, 0, 1, 2];
    vm.run_once().unwrap();
    assert_eq!(vm.registers[2], 1);
}

#[test]
fn test_mul() {
    let mut vm = VM::new();
    vm.registers[0] = 2;
    vm.registers[1] = 3;
    vm.program = vec![3, 0, 1, 2];
    vm.run_once().unwrap();
    assert_eq!(vm.registers[2], 6);
}

#[test]
fn test_div() {
    let mut vm = VM::new();
    vm.registers[0] = 6;
    vm.registers[1] = 3;
    vm.program = vec![4, 0, 1, 2];
    vm.run_once().unwrap();
    assert_eq!(vm.registers[2], 2);
    assert_eq!(vm.remainder, 0);
}

#[test]
fn test_remiander() {
    let mut vm = VM::new();
    vm.registers[0] = 11;
    vm.registers[1] = 4;
    vm.program = vec![4, 0, 1, 2];
    vm.run_once().unwrap();
    assert_eq!(vm.registers[2], 2);
    assert_eq!(vm.remainder, 3);
}

#[test]
fn test_jmp() {
    let mut vm = VM::new();
    vm.registers[0] = 3;
    vm.program = vec![6, 0, 5, 0, 0, 0, 1];
    // jmp $0, hlt (skipped), load $0 #1
    vm.run_loop().unwrap();
    assert_eq!(vm.registers[0], 1);
}

#[test]
fn test_jmpf() {
    let mut vm = VM::new();
    vm.registers[0] = 1;
    vm.program = vec![7, 0, 5, 0, 0, 0, 2];
    // jmpf $0, hlt (skipped), load $0 #2
    vm.run_loop().unwrap();
    assert_eq!(vm.registers[0], 2);
}

#[test]
fn test_jmpb() {
    let mut vm = VM::new();
    vm.registers[0] = 1;
    vm.program = vec![8, 0];
    vm.run_once().unwrap();
    assert_eq!(vm.pc, 1);
}

#[test]
fn test_eq() {
    let mut vm = VM::new();
    vm.registers[0] = 1;
    vm.registers[1] = 1;
    vm.program = vec![9, 0, 1, 0, 9, 0, 1, 0];
    vm.run_once().unwrap();
    assert_eq!(vm.equal_flag, true);
    vm.registers[0] = 2;
    vm.run_once().unwrap();
    assert_eq!(vm.equal_flag, false);
}

#[test]
fn test_neq() {
    let mut vm = VM::new();
    vm.registers[1] = 2;
    vm.program = vec![10, 0, 1, 0];
    vm.run_once().unwrap();
    assert_eq!(vm.equal_flag, true);
}

#[test]
fn test_aloc() {
    let mut vm = VM::new();
    vm.registers[0] = 1024;
    vm.program = vec![17, 0, 0, 0];
    vm.run_once().unwrap();
    assert_eq!(vm.heap.len(), 1024);
}

#[test]
fn load_zero_extends_high_values() {
    let mut vm = VM::new();
    vm.program = vec![0, 5, 0xff, 0xff];
    assert_eq!(vm.run_once(), Ok(false));
    assert_eq!(vm.registers[5], 65535);
    for i in 0..32 {
        if i != 5 {
            assert_eq!(vm.registers[i], 0);
        }
    }
    assert_eq!(vm.pc, 4);
}

#[test]
fn arithmetic_touches_only_destination() {
    let mut vm = VM::new();
    vm.registers[3] = 7;
    vm.registers[4] = -2;
    vm.registers[9] = 99;
    vm.program = vec![3, 3, 4, 9];
    assert_eq!(vm.run_once(), Ok(false));
    assert_eq!(vm.registers[9], -14);
    assert_eq!(vm.registers[3], 7);
    assert_eq!(vm.registers[4], -2);
    assert_eq!(vm.heap.len(), 0);
    assert_eq!(vm.equal_flag, false);
}

#[test]
fn division_truncates_toward_zero() {
    let mut vm = VM::new();
    vm.registers[0] = -7;
    vm.registers[1] = 2;
    vm.program = vec![4, 0, 1, 2];
    assert_eq!(vm.run_once(), Ok(false));
    assert_eq!(vm.registers[2], -3);
    assert_eq!(vm.remainder, (-1i32) as usize);
}

#[test]
fn division_by_zero_faults_and_changes_nothing() {
    let mut vm = VM::new();
    vm.registers[0] = 5;
    vm.registers[2] = 42;
    vm.program = vec![4, 0, 1, 2];
    assert_eq!(vm.run_once(), Err(Fault::DivisionByZero));
    assert_eq!(vm.registers[2], 42);
    assert_eq!(vm.pc, 0);
    assert_eq!(vm.remainder, 0);
}

#[test]
fn overflow_faults() {
    let mut vm = VM::new();
    vm.registers[0] = i32::MAX;
    vm.registers[1] = 1;
    vm.program = vec![1, 0, 1, 2];
    assert_eq!(vm.run_once(), Err(Fault::Overflow));
    let mut vm = VM::new();
    vm.registers[0] = i32::MIN;
    vm.registers[1] = -1;
    vm.program = vec![4, 0, 1, 2];
    assert_eq!(vm.run_once(), Err(Fault::Overflow));
}

#[test]
fn invalid_register_faults() {
    let mut vm = VM::new();
    vm.program = vec![0, 32, 0, 1];
    assert_eq!(vm.run_once(), Err(Fault::InvalidRegister));
    assert_eq!(vm.pc, 0);
}

#[test]
fn truncated_instruction_faults() {
    let mut vm = VM::new();
    vm.program = vec![1, 0, 1];
    assert_eq!(vm.run_once(), Err(Fault::EndOfProgram));
    let mut empty = VM::new();
    assert_eq!(empty.run_once(), Err(Fault::EndOfProgram));
}

#[test]
fn jump_below_zero_faults() {
    let mut vm = VM::new();
    vm.registers[0] = 5;
    vm.program = vec![8, 0];
    assert_eq!(vm.run_once(), Err(Fault::JumpOutOfRange));
    vm.registers[0] = -1;
    vm.program = vec![6, 0];
    assert_eq!(vm.run_once(), Err(Fault::JumpOutOfRange));
}

#[test]
fn jmpe_without_flag_only_moves_on() {
    let mut vm = VM::new();
    vm.registers[0] = 100;
    vm.program = vec![15, 0];
    assert_eq!(vm.run_once(), Ok(false));
    assert_eq!(vm.pc, 2);
    assert_eq!(vm.registers[0], 100);
}

#[test]
fn jmpe_with_flag_jumps() {
    let mut vm = VM::new();
    vm.registers[0] = 1;
    vm.registers[1] = 1;
    vm.registers[2] = 0;
    vm.program = vec![9, 0, 1, 0, 15, 2];
    assert_eq!(vm.run_once(), Ok(false));
    assert_eq!(vm.run_once(), Ok(false));
    assert_eq!(vm.pc, 0);
}

#[test]
fn comparisons_set_flag() {
    let cases: [(u8, i32, i32, bool); 6] = [
        (11, 3, 3, true),
        (12, 4, 3, false),
        (13, 4, 3, true),
        (14, 4, 3, false),
        (10, 3, 3, false),
        (9, 2, 3, false),
    ];
    for (op, a, b, expected) in cases {
        let mut vm = VM::new();
        vm.registers[0] = a;
        vm.registers[1] = b;
        vm.program = vec![op, 0, 1, 0];
        assert_eq!(vm.run_once(), Ok(false));
        assert_eq!(vm.equal_flag, expected);
        assert_eq!(vm.pc, 4);
    }
}

#[test]
fn aloc_shrinks_and_rejects_negative_length() {
    let mut vm = VM::new();
    vm.registers[0] = 10;
    vm.registers[1] = -4;
    vm.registers[2] = -7;
    vm.program = vec![17, 0, 0, 0, 17, 1, 0, 0, 17, 2, 0, 0];
    assert_eq!(vm.run_once(), Ok(false));
    assert_eq!(vm.heap, vec![0u8; 10]);
    assert_eq!(vm.run_once(), Ok(false));
    assert_eq!(vm.heap.len(), 6);
    assert_eq!(vm.run_once(), Err(Fault::HeapOutOfRange));
    assert_eq!(vm.heap.len(), 6);
}

#[test]
fn halt_and_illegal_signal_halt() {
    let mut vm = VM::new();
    vm.program = vec![5, 200];
    assert_eq!(vm.run_once(), Ok(true));
    assert_eq!(vm.run_once(), Ok(true));
    assert_eq!(vm.pc, 2);
}

#[test]
fn run_loop_stops_at_end_without_halt() {
    let mut vm = VM::new();
    vm.program = vec![0, 0, 0, 1, 0, 1, 0, 2, 1, 0, 1, 2];
    assert_eq!(vm.run_loop(), Ok(RunEnd::EndOfProgram));
    assert_eq!(vm.registers[2], 3);
}

#[test]
fn run_loop_stops_at_halt() {
    let mut vm = VM::new();
    vm.program = vec![5, 0, 0, 7];
    assert_eq!(vm.run_loop(), Ok(RunEnd::Halted));
    assert_eq!(vm.registers[0], 0);
}

#[test]
fn run_with_limit_bounds_a_loop() {
    let mut vm = VM::new();
    vm.program = vec![6, 0];
    assert_eq!(vm.run_with_limit(100), Ok(RunEnd::StepLimit));
    assert_eq!(vm.pc, 0);
}

#[test]
fn decode_primitives() {
    let mut vm = VM::new();
    vm.add_bytes(&[0, 1, 0x01, 0xf4]);
    assert_eq!(vm.program, vec![0, 1, 1, 244]);
    assert_eq!(vm.decode_opcode(), Ok(Opcode::LOAD));
    assert_eq!(vm.next_8_bits(), Ok(1));
    assert_eq!(vm.next_16_bits(), Ok(500));
    assert_eq!(vm.next_8_bits(), Err(Fault::EndOfProgram));
    assert_eq!(vm.next_16_bits(), Err(Fault::EndOfProgram));
    assert_eq!(vm.pc, 4);
}

#[test]
fn opcode_table() {
    assert_eq!(Opcode::from_byte(17), Opcode::ALOC);
    assert_eq!(Opcode::from_byte(16), Opcode::ILLEGAL);
    assert_eq!(Opcode::from_byte(255), Opcode::ILLEGAL);
    for b in 0u8..=17 {
        assert_eq!(Opcode::from_byte(b).to_byte(), b);
    }
}
