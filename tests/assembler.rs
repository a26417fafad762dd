use susuro::{AssemblyParser, Instruction, Opcode, ParseError};

#[test]
fn parser_test_load() {
    assert_eq!(
        Ok(Instruction::new(Opcode::LOAD, vec![0, 1, 244])),
        AssemblyParser::parse_instruction("LOAD $0 #500")
    );
}

#[test]
fn parser_test_add() {
    assert_eq!(
        Ok(Instruction::new(Opcode::ADD, vec![0, 1, 2])),
        AssemblyParser::parse_instruction("ADD $0 $1 $2")
    );
}

#[test]
fn test_label() {
    assert_eq!(
        AssemblyParser::parse_instruction("a: LOAD $0 #1"),
        Ok(Instruction::new(Opcode::LOAD, vec![0, 0, 1]))
    );
}

#[test]
fn parses_every_mnemonic() {
    let cases: Vec<(&str, Opcode, Vec<u8>)> = vec![
        ("SUB $1 $2 $3", Opcode::SUB, vec![1, 2, 3]),
        ("MUL $1 $2 $3", Opcode::MUL, vec![1, 2, 3]),
        ("DIV $4 $5 $6", Opcode::DIV, vec![4, 5, 6]),
        ("HLT", Opcode::HLT, vec![]),
        ("JMP $7", Opcode::JMP, vec![7]),
        ("JMPF $7", Opcode::JMPF, vec![7]),
        ("JMPB $7", Opcode::JMPB, vec![7]),
        ("JMPE $7", Opcode::JMPE, vec![7]),
        ("EQ $1 $2", Opcode::EQ, vec![1, 2]),
        ("NEQ $1 $2", Opcode::NEQ, vec![1, 2]),
        ("GTE $1 $2", Opcode::GTE, vec![1, 2]),
        ("LTE $1 $2", Opcode::LTE, vec![1, 2]),
        ("GT $1 $2", Opcode::GT, vec![1, 2]),
        ("LT $1 $2", Opcode::LT, vec![1, 2]),
    ];
    for (line, op, operands) in cases {
        assert_eq!(
            AssemblyParser::parse_instruction(line),
            Ok(Instruction::new(op, operands))
        );
    }
}

#[test]
fn blanks_around_words_are_ignored() {
    assert_eq!(
        AssemblyParser::parse_instruction("  LOAD\t$31   #65535 \n"),
        Ok(Instruction::new(Opcode::LOAD, vec![31, 255, 255]))
    );
}

#[test]
fn parse_errors() {
    assert_eq!(
        AssemblyParser::parse_instruction(""),
        Err(ParseError::UnexpectedEndOfInput)
    );
    assert_eq!(
        AssemblyParser::parse_instruction("loop:"),
        Err(ParseError::UnexpectedEndOfInput)
    );
    assert_eq!(
        AssemblyParser::parse_instruction("ADD $0 $1"),
        Err(ParseError::UnexpectedEndOfInput)
    );
    assert_eq!(
        AssemblyParser::parse_instruction("FOO $0"),
        Err(ParseError::UnknownInstruction)
    );
    assert_eq!(
        AssemblyParser::parse_instruction("HLT $0"),
        Err(ParseError::Syntax)
    );
    assert_eq!(
        AssemblyParser::parse_instruction("LOAD $0 #65536"),
        Err(ParseError::Syntax)
    );
    assert_eq!(
        AssemblyParser::parse_instruction("LOAD $256 #1"),
        Err(ParseError::Syntax)
    );
    assert_eq!(
        AssemblyParser::parse_instruction("LOAD #1 $0"),
        Err(ParseError::Syntax)
    );
    assert_eq!(
        AssemblyParser::parse_instruction("JMP $x"),
        Err(ParseError::Syntax)
    );
    assert_eq!(
        ParseError::custom(String::from("bad")),
        ParseError::Custom(String::from("bad"))
    );
}

#[test]
fn to_bytes_pads_records() {
    assert_eq!(Instruction::new(Opcode::LOAD, vec![0, 1, 244]).to_bytes(), [0, 0, 1, 244]);
    assert_eq!(Instruction::new(Opcode::HLT, vec![]).to_bytes(), [5, 0, 0, 0]);
    assert_eq!(Instruction::new(Opcode::JMP, vec![3]).to_bytes(), [6, 3, 0, 0]);
    assert_eq!(Instruction::new(Opcode::ALOC, vec![1, 2, 3]).to_bytes(), [17, 1, 2, 3]);
}
