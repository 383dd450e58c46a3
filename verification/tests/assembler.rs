use micro_sequentia::assembler::architecture::{
    Instruction, InstructionSize, Opcode, OpcodeB1, OpcodeB2, OpcodeB3, OpcodeB4, Operand, Register, SymbolTable,
};
use micro_sequentia::assembler::encoder::{encode_parsed_code, OpcodeTable};
use micro_sequentia::assembler::parser::parse_text;
use micro_sequentia::memory::load_program;
use micro_sequentia::processor::signals::Memory;

fn assemble(source: &str) -> Vec<u8> {
    let parsed = parse_text(source).expect("source parses");
    assert!(parsed.labels_resolved());
    encode_parsed_code(parsed, &OpcodeTable::generate())
}

#[test]
fn opcode_names_parse_ignoring_case() {
    assert_eq!(Opcode::from_str("mov"), Ok(Opcode::B1(OpcodeB1::MOV)));
    assert_eq!(Opcode::from_str("Xor"), Ok(Opcode::B1(OpcodeB1::XOR)));
    assert_eq!(Opcode::from_str("CALL"), Ok(Opcode::B2(OpcodeB2::CALL)));
    assert_eq!(Opcode::from_str("bvc"), Ok(Opcode::B3(OpcodeB3::BVC)));
    assert_eq!(Opcode::from_str("push_flag"), Ok(Opcode::B4(OpcodeB4::PUSH_FLAG)));
    assert_eq!(Opcode::from_str("halt"), Ok(Opcode::B4(OpcodeB4::HALT)));
}

#[test]
fn every_opcode_name_reads_back() {
    let names = ["MOV", "ADD", "SUB", "CMP", "AND", "OR", "XOR", "CLR", "NEG", "INC", "DEC", "ASL", "ASR", "LSR", "ROL", "ROR", "RLC", "RRC", "JMP", "CALL", "PUSH", "POP", "BR", "BNE", "BEQ", "BPL", "BMI", "BCS", "BCC", "BVS", "BVC", "CLC", "CLV", "CLZ", "CLS", "CCC", "SEC", "SEV", "SEZ", "SES", "SCC", "NOP", "RET", "RETI", "HALT", "WAIT", "PUSH_PC", "POP_PC", "PUSH_FLAG", "POP_FLAG"];
    for (i, name) in names.iter().enumerate() {
        let op = Opcode::from_str(name).expect("every name parses");
        assert_eq!(op.to_u16() as usize, i);
        let lower = name.to_lowercase();
        let parsed: Opcode = lower.parse().expect("lower case parses too");
        assert_eq!(parsed, op);
    }
}

#[test]
fn unknown_opcode_is_reported() {
    assert_eq!(Opcode::from_str("foo"), Err("Unknown opcode: foo".to_string()));
    assert_eq!(Opcode::from_str(""), Err("Unknown opcode: ".to_string()));
    assert_eq!(Opcode::from_str("movv"), Err("Unknown opcode: movv".to_string()));
}

#[test]
fn opcode_positions_run_over_all_groups() {
    assert_eq!(Opcode::B1(OpcodeB1::MOV).to_u16(), 0);
    assert_eq!(Opcode::B1(OpcodeB1::XOR).to_u16(), 6);
    assert_eq!(Opcode::B2(OpcodeB2::CLR).to_u16(), 7);
    assert_eq!(Opcode::B2(OpcodeB2::POP).to_u16(), 21);
    assert_eq!(Opcode::B3(OpcodeB3::BR).to_u16(), 22);
    assert_eq!(Opcode::B3(OpcodeB3::BVC).to_u16(), 30);
    assert_eq!(Opcode::B4(OpcodeB4::CLC).to_u16(), 31);
    assert_eq!(Opcode::B4(OpcodeB4::POP_FLAG).to_u16(), 49);
}

#[test]
fn b4_words_are_fixed() {
    let words = Opcode::get_B4_opcodes();
    assert_eq!(words.len(), 19);
    assert_eq!(words[0], 0xE0F7);
    assert_eq!(words[12], 0xEC00);
    assert_eq!(words[13], 0xE300);
    assert_eq!(words[18], 0xE900);
}

#[test]
fn instruction_sizes() {
    assert_eq!(InstructionSize::from_u8(2), Ok(InstructionSize::Word));
    assert_eq!(InstructionSize::from_u8(4), Ok(InstructionSize::DoubleWord));
    assert_eq!(InstructionSize::from_u8(6), Ok(InstructionSize::TripleWord));
    assert_eq!(InstructionSize::from_u8(3), Err("Invalid instruction size: 3".to_string()));
    assert_eq!(InstructionSize::from_u8(255), Err("Invalid instruction size: 255".to_string()));
    assert_eq!(InstructionSize::TripleWord.byte_count(), 6);
}

#[test]
fn operands_in_every_addressing_mode() {
    let parsed = parse_text("mov R1, 24\nmov (R2), 256(R4)\nadd R15, R0").unwrap();
    assert_eq!(parsed.instructions.len(), 3);
    match &parsed.instructions[0].instruction {
        Instruction::TwoOperands { opcode, src, dst } => {
            assert_eq!(*opcode, Opcode::B1(OpcodeB1::MOV));
            assert_eq!(*dst, Operand::Direct(Register(1)));
            assert_eq!(*src, Operand::Immediate(24));
        }
        other => panic!("unexpected {other:?}"),
    }
    match &parsed.instructions[1].instruction {
        Instruction::TwoOperands { src, dst, .. } => {
            assert_eq!(*dst, Operand::Indirect(Register(2)));
            assert_eq!(*src, Operand::Indexed(Register(4), 256));
        }
        other => panic!("unexpected {other:?}"),
    }
    assert_eq!(parsed.instructions[0].size, InstructionSize::DoubleWord);
    assert_eq!(parsed.instructions[1].size, InstructionSize::DoubleWord);
    assert_eq!(parsed.instructions[2].size, InstructionSize::Word);
    assert_eq!(parsed.instructions[0].address, 0);
    assert_eq!(parsed.instructions[1].address, 4);
    assert_eq!(parsed.instructions[2].address, 8);
    assert_eq!(parsed.instructions[2].source_line, 3);
}

#[test]
fn three_word_instruction() {
    let parsed = parse_text("cmp 7, 8(R1)").unwrap();
    assert_eq!(parsed.instructions[0].size, InstructionSize::TripleWord);
}

#[test]
fn labels_comments_and_blank_lines() {
    let source = "; program\nstart:\n  nop # idle\n\nend: halt\n";
    let parsed = parse_text(source).unwrap();
    assert_eq!(parsed.instructions.len(), 2);
    assert_eq!(parsed.symbol_table.get(&"start".to_string()), Some(0));
    assert_eq!(parsed.symbol_table.get(&"end".to_string()), Some(2));
    assert_eq!(parsed.symbol_table.get(&"missing".to_string()), None);
    assert_eq!(parsed.instructions[0].source_line, 3);
    assert_eq!(parsed.instructions[1].source_line, 5);
    assert_eq!(parsed.instructions[1].address, 2);
}

#[test]
fn labels_point_at_the_next_instruction() {
    let parsed = parse_text("a:\n\nmov R0, 1\nb:\nc: inc R1\nend:").unwrap();
    assert_eq!(parsed.symbol_table.get(&"a".to_string()), Some(0));
    assert_eq!(parsed.symbol_table.get(&"b".to_string()), Some(4));
    assert_eq!(parsed.symbol_table.get(&"c".to_string()), Some(4));
    assert_eq!(parsed.symbol_table.get(&"end".to_string()), Some(6));
}

#[test]
fn later_label_definition_wins() {
    let parsed = parse_text("x: nop\nx: nop").unwrap();
    assert_eq!(parsed.symbol_table.get(&"x".to_string()), Some(2));
}

#[test]
fn two_word_opcodes_are_joined() {
    let parsed = parse_text("PUSH PC\nPOP FLAG").unwrap();
    match &parsed.instructions[0].instruction {
        Instruction::Diverse { opcode } => assert_eq!(*opcode, Opcode::B4(OpcodeB4::PUSH_PC)),
        other => panic!("unexpected {other:?}"),
    }
    match &parsed.instructions[1].instruction {
        Instruction::Diverse { opcode } => assert_eq!(*opcode, Opcode::B4(OpcodeB4::POP_FLAG)),
        other => panic!("unexpected {other:?}"),
    }
    // The joining is case-sensitive: "push pc" is a PUSH of the operand "pc".
    assert_eq!(parse_text("push pc").err(), Some("Line 1: Invalid operand: pc".to_string()));
}

#[test]
fn parse_errors_name_the_line() {
    assert_eq!(parse_text("mov R1").err(), Some("Line 1: mov expects 2 operands".to_string()));
    assert_eq!(parse_text("nop\ninc").err(), Some("Line 2: inc expects 1 operand".to_string()));
    assert_eq!(parse_text("bne").err(), Some("Line 1: bne expects a branch offset".to_string()));
    assert_eq!(
        parse_text("\n\nadd 5, R1").err(),
        Some("Line 3: Destination operand cannot be immediate: 5".to_string())
    );
    assert_eq!(parse_text("inc 5").err(), Some("Line 1: Destination operand cannot be immediate: 5".to_string()));
    assert_eq!(parse_text("jump R1").err(), Some("Line 1: Unknown opcode: jump".to_string()));
    assert_eq!(parse_text("mov R1, (X1)").err(), Some("Line 1: Invalid register syntax: (X1)".to_string()));
    assert_eq!(parse_text("mov R1, (R1x)").err(), Some("Line 1: Invalid register: (R1x)".to_string()));
    assert_eq!(parse_text("mov R1, 4(R1").err(), Some("Line 1: Invalid indexed operand: 4(R1".to_string()));
    assert_eq!(parse_text("mov R1, x(R1)").err(), Some("Line 1: Invalid offset: x(R1)".to_string()));
    assert_eq!(parse_text("mov R1, 4(Q1)").err(), Some("Line 1: Invalid register syntax: 4(Q1)".to_string()));
    assert_eq!(parse_text("mov R256, R1").err(), Some("Line 1: Invalid register: R256".to_string()));
    assert_eq!(parse_text("mov R1, 65536").err(), Some("Line 1: Invalid operand: 65536".to_string()));
    assert_eq!(parse_text(",").err(), Some("Line 1: Empty instruction line".to_string()));
}

#[test]
fn only_sixteen_registers() {
    assert!(parse_text("CLR R15").is_ok());
    assert!(parse_text("MOV (R15), 3(R0)").is_ok());
    assert_eq!(parse_text("CLR R16").err(), Some("Line 1: Invalid register: R16".to_string()));
    assert_eq!(parse_text("MOV R0, R255").err(), Some("Line 1: Invalid register: R255".to_string()));
    assert_eq!(parse_text("MOV (R16), R0").err(), Some("Line 1: Invalid register: (R16)".to_string()));
    assert_eq!(parse_text("MOV 2(R20), R0").err(), Some("Line 1: Invalid register: 2(R20)".to_string()));
}

#[test]
fn compare_accepts_immediate_destination() {
    assert!(parse_text("cmp 5, R1").is_ok());
}

#[test]
fn plus_sign_is_accepted_in_numbers() {
    let parsed = parse_text("mov R+3, +7").unwrap();
    match &parsed.instructions[0].instruction {
        Instruction::TwoOperands { src, dst, .. } => {
            assert_eq!(*dst, Operand::Direct(Register(3)));
            assert_eq!(*src, Operand::Immediate(7));
        }
        other => panic!("unexpected {other:?}"),
    }
}

#[test]
fn encodes_two_operand_instructions() {
    assert_eq!(assemble("mov R1, R2"), vec![0x91, 0x04]);
    assert_eq!(assemble("add R3, 24"), vec![0x13, 0x10, 0x18, 0x00]);
    assert_eq!(assemble("sub (R1), 2(R5)"), vec![0x61, 0x2D, 0x02, 0x00]);
    assert_eq!(assemble("cmp 1, 2"), vec![0x00, 0x30, 0x02, 0x00, 0x01, 0x00]);
}

#[test]
fn encodes_one_operand_instructions() {
    assert_eq!(assemble("dec R0"), vec![0x10, 0x83]);
    assert_eq!(assemble("push 4(R2)"), vec![0x32, 0x8D, 0x04, 0x00]);
}

#[test]
fn encodes_branches_relative_to_next_instruction() {
    assert_eq!(assemble("loop: dec R0\nbne loop\nhalt"), vec![0x10, 0x83, 0xFC, 0xC1, 0x00, 0xE3]);
    assert_eq!(assemble("br next\nnext: nop"), vec![0x00, 0xC0, 0x00, 0xE2]);
    assert_eq!(assemble("br skip\nnop\nskip: nop"), vec![0x02, 0xC0, 0x00, 0xE2, 0x00, 0xE2]);
}

#[test]
fn encodes_control_instructions() {
    assert_eq!(assemble("clc\nret\npop_flag"), vec![0xF7, 0xE0, 0x00, 0xEA, 0x00, 0xE9]);
}

#[test]
fn undefined_branch_label_is_detected() {
    let parsed = parse_text("br nowhere").unwrap();
    assert!(!parsed.labels_resolved());
}

#[test]
fn object_code_length_is_the_sum_of_sizes() {
    let source = "mov R1, 24\ncmp 1, 2(R3)\nnop\nbr end\nend: halt";
    let parsed = parse_text(source).unwrap();
    let total: u16 = parsed.instructions.iter().map(|i| i.size.byte_count()).sum();
    let last = &parsed.instructions[parsed.instructions.len() - 1];
    assert_eq!(last.address + last.size.byte_count(), total);
    assert_eq!(assemble(source).len(), total as usize);
}

#[test]
fn symbol_table_basics() {
    let mut table = SymbolTable::new();
    assert_eq!(table.get(&"a".to_string()), None);
    table.insert("a".to_string(), 4);
    table.insert("b".to_string(), 6);
    table.insert("a".to_string(), 8);
    assert_eq!(table.get(&"a".to_string()), Some(8));
    assert_eq!(table.get(&"b".to_string()), Some(6));
}

#[test]
fn loaded_object_code_gives_back_the_words() {
    let code = assemble("nop\nhalt");
    assert_eq!(code, vec![0x00, 0xE2, 0x00, 0xE3]);
    let mut memory = load_program(&code);
    let (mut ir, mut adr, mut mdr) = (0u16, 0u16, 0u16);
    memory.process_signal(&Memory::READ, &mut ir, &mut adr, &mut mdr);
    assert_eq!(mdr, 0xE200);
    adr = 1;
    memory.process_signal(&Memory::READ, &mut ir, &mut adr, &mut mdr);
    assert_eq!(mdr, 0xE300);
    adr = 2;
    memory.process_signal(&Memory::READ, &mut ir, &mut adr, &mut mdr);
    assert_eq!(mdr, 0);
}
