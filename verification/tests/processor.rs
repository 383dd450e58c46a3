use micro_sequentia::memory::{load_program, MemoryInterface};
use micro_sequentia::microprogram::parse_microprogram;
use micro_sequentia::processor::architecture::ISA;
use micro_sequentia::processor::control_unit::microarchitecture::{ControlUnit, MicroCode, MicroSignal};
use micro_sequentia::processor::control_unit::sequencer::Sequencer;
use micro_sequentia::processor::signals::{Memory, Other, ALU, DBUS, RBUS, SBUS};
use micro_sequentia::processor::{RunEnd, CPU};

fn machine() -> ISA {
    ISA::new(MemoryInterface::new())
}

/// A microinstruction from its fields.
fn mir(sbus: u64, dbus: u64, alu: u64, rbus: u64, memory: u64, other: u64, successor: u64, index: u64, t_f: u64, jump: u64) -> u64 {
    sbus << 32 | dbus << 28 | alu << 24 | rbus << 20 | memory << 18 | other << 14 | successor << 11 | index << 8 | t_f << 7 | jump
}

#[test]
fn new_machine_is_powered_on_and_zeroed() {
    let isa = machine();
    assert!(isa.BPO);
    assert_eq!(isa.FLAG, 0);
    assert_eq!(isa.RG, [0; 16]);
    assert!(!isa.BE1_CIL);
}

#[test]
fn sum_with_carry_sets_arithmetic_flags() {
    let mut isa = machine();
    isa.T = 0xFFFF;
    isa.MDR = 1;
    isa.IR = 2;
    isa.execute(&SBUS::PdT, &DBUS::PdMDR, &RBUS::PmRG, &ALU::SUM, &Memory::NoOp, &Other::PdCONDaritm);
    assert_eq!(isa.SBUS, 0xFFFF);
    assert_eq!(isa.DBUS, 1);
    assert_eq!(isa.RBUS, 0);
    assert_eq!(isa.RG[2], 0);
    assert!(isa.get_C());
    assert!(isa.get_Z());
    assert!(!isa.get_S());
    assert!(!isa.get_V());
}

#[test]
fn signed_overflow_on_sum() {
    let mut isa = machine();
    isa.T = 0x7FFF;
    isa.MDR = 1;
    isa.execute(&SBUS::PdT, &DBUS::PdMDR, &RBUS::NoOp, &ALU::SUM, &Memory::NoOp, &Other::PdCONDaritm);
    assert_eq!(isa.RBUS, 0x8000);
    assert!(!isa.get_C());
    assert!(!isa.get_Z());
    assert!(isa.get_S());
    assert!(isa.get_V());
}

#[test]
fn difference_with_borrow() {
    let mut isa = machine();
    isa.T = 1;
    isa.MDR = 2;
    isa.execute(&SBUS::PdT, &DBUS::PdMDR, &RBUS::PmT, &ALU::SUB, &Memory::NoOp, &Other::PdCONDaritm);
    assert_eq!(isa.T, 0xFFFF);
    assert!(isa.get_C());
    assert!(isa.get_S());
    assert!(!isa.get_V());
}

#[test]
fn carry_in_adds_one_after_flags() {
    let mut isa = machine();
    isa.T = 2;
    isa.MDR = 3;
    isa.execute(&SBUS::PdT, &DBUS::PdMDR, &RBUS::PmSP, &ALU::SUM, &Memory::NoOp, &Other::Cin_PdCONDaritm);
    assert_eq!(isa.SP, 6);
}

#[test]
fn shifts_and_rotations_move_a_bit_through_carry() {
    let mut isa = machine();
    isa.MDR = 0x8001;
    isa.execute(&SBUS::NoOp, &DBUS::PdMDR, &RBUS::NoOp, &ALU::ASL, &Memory::NoOp, &Other::NoOp);
    assert_eq!(isa.RBUS, 0x0002);
    assert!(isa.get_C());
    isa.execute(&SBUS::NoOp, &DBUS::PdMDR, &RBUS::NoOp, &ALU::ASR, &Memory::NoOp, &Other::NoOp);
    assert_eq!(isa.RBUS, 0xC000);
    isa.execute(&SBUS::NoOp, &DBUS::PdMDR, &RBUS::NoOp, &ALU::LSR, &Memory::NoOp, &Other::NoOp);
    assert_eq!(isa.RBUS, 0x4000);
    isa.execute(&SBUS::NoOp, &DBUS::PdMDR, &RBUS::NoOp, &ALU::ROL, &Memory::NoOp, &Other::NoOp);
    assert_eq!(isa.RBUS, 0x0003);
    isa.execute(&SBUS::NoOp, &DBUS::PdMDR, &RBUS::NoOp, &ALU::ROR, &Memory::NoOp, &Other::NoOp);
    assert_eq!(isa.RBUS, 0xC000);
    assert!(isa.get_C());
    isa.execute(&SBUS::NoOp, &DBUS::PdMDR, &RBUS::NoOp, &ALU::RLC, &Memory::NoOp, &Other::NoOp);
    assert_eq!(isa.RBUS, 0x0003);
    isa.MDR = 0x0002;
    isa.execute(&SBUS::NoOp, &DBUS::PdMDR, &RBUS::NoOp, &ALU::RRC, &Memory::NoOp, &Other::NoOp);
    assert_eq!(isa.RBUS, 0x8001);
    assert!(!isa.get_C());
}

#[test]
fn logic_operations_and_negated_buses() {
    let mut isa = machine();
    isa.T = 0x0F0F;
    isa.MDR = 0x00FF;
    isa.execute(&SBUS::PdTNeg, &DBUS::PdMDR, &RBUS::NoOp, &ALU::AND, &Memory::NoOp, &Other::PdCONDlog);
    assert_eq!(isa.RBUS, 0x00F0);
    isa.execute(&SBUS::PdT, &DBUS::PdMDRNeg, &RBUS::NoOp, &ALU::XOR, &Memory::NoOp, &Other::PdCONDlog);
    assert_eq!(isa.RBUS, 0xF00F);
    assert!(isa.get_S());
    isa.execute(&SBUS::Pd0, &DBUS::Pd0, &RBUS::NoOp, &ALU::OR, &Memory::NoOp, &Other::PdCONDlog);
    assert_eq!(isa.RBUS, 0);
    assert!(isa.get_Z());
}

#[test]
fn stack_and_program_counter_wrap() {
    let mut isa = machine();
    isa.execute(&SBUS::NoOp, &DBUS::NoOp, &RBUS::NoOp, &ALU::NoOp, &Memory::NoOp, &Other::minus2SP);
    assert_eq!(isa.SP, 0xFFFE);
    isa.execute(&SBUS::NoOp, &DBUS::NoOp, &RBUS::NoOp, &ALU::NoOp, &Memory::NoOp, &Other::plus2SP);
    assert_eq!(isa.SP, 0);
    isa.execute(&SBUS::NoOp, &DBUS::NoOp, &RBUS::NoOp, &ALU::NoOp, &Memory::NoOp, &Other::plus2PC);
    assert_eq!(isa.PC, 2);
    isa.execute(&SBUS::NoOp, &DBUS::NoOp, &RBUS::NoOp, &ALU::NoOp, &Memory::NoOp, &Other::INTA_minus2SP);
    assert!(isa.INTA);
    assert_eq!(isa.SP, 0xFFFE);
}

#[test]
fn status_operations() {
    let mut isa = machine();
    isa.execute(&SBUS::NoOp, &DBUS::NoOp, &RBUS::NoOp, &ALU::NoOp, &Memory::NoOp, &Other::A1BVI);
    assert_eq!(isa.FLAG, 0x80);
    isa.execute(&SBUS::NoOp, &DBUS::NoOp, &RBUS::NoOp, &ALU::NoOp, &Memory::NoOp, &Other::A1BE0);
    isa.execute(&SBUS::NoOp, &DBUS::NoOp, &RBUS::NoOp, &ALU::NoOp, &Memory::NoOp, &Other::A1BE1);
    assert!(isa.BE0_ACLOW && isa.BE1_CIL);
    isa.execute(&SBUS::NoOp, &DBUS::NoOp, &RBUS::NoOp, &ALU::NoOp, &Memory::NoOp, &Other::A0BE_A0BI);
    assert!(!isa.BE0_ACLOW && !isa.BE1_CIL);
    assert_eq!(isa.FLAG, 0);
    isa.execute(&SBUS::NoOp, &DBUS::NoOp, &RBUS::NoOp, &ALU::NoOp, &Memory::NoOp, &Other::A0BPO);
    assert!(!isa.BPO);
}

#[test]
fn flag_stores() {
    let mut isa = machine();
    isa.FLAG = 0x1234;
    isa.MDR = 0xABCD;
    isa.execute(&SBUS::NoOp, &DBUS::PdMDR, &RBUS::PmFLAG_3_0, &ALU::DBUS, &Memory::NoOp, &Other::NoOp);
    assert_eq!(isa.FLAG, 0x003D);
    isa.execute(&SBUS::NoOp, &DBUS::PdMDR, &RBUS::PmFLAG, &ALU::DBUS, &Memory::NoOp, &Other::NoOp);
    assert_eq!(isa.FLAG, 0xABCD);
}

#[test]
fn memory_write_then_read() {
    let mut isa = machine();
    isa.ADR = 0x0100;
    isa.MDR = 0xBEEF;
    isa.execute(&SBUS::NoOp, &DBUS::NoOp, &RBUS::NoOp, &ALU::NoOp, &Memory::WRITE, &Other::NoOp);
    isa.MDR = 0;
    isa.execute(&SBUS::NoOp, &DBUS::NoOp, &RBUS::NoOp, &ALU::NoOp, &Memory::READ, &Other::NoOp);
    assert_eq!(isa.MDR, 0xBEEF);
    isa.execute(&SBUS::NoOp, &DBUS::NoOp, &RBUS::NoOp, &ALU::NoOp, &Memory::IFCH, &Other::NoOp);
    assert_eq!(isa.IR, 0xBEEF);
}

#[test]
fn register_selection_uses_low_four_bits_of_ir() {
    let mut isa = machine();
    isa.RG[5] = 77;
    isa.IR = 0x0145; // destination field 5
    isa.execute(&SBUS::PdRG, &DBUS::PdRG, &RBUS::NoOp, &ALU::SUM, &Memory::NoOp, &Other::NoOp);
    assert_eq!(isa.SBUS, 77);
    assert_eq!(isa.RBUS, 154);
}

#[test]
fn program_loading_is_little_endian_by_word() {
    let mut memory = load_program(&[0x12, 0x34, 0x56]);
    let (mut ir, mut adr, mut mdr) = (0u16, 0u16, 0u16);
    memory.process_signal(&Memory::READ, &mut ir, &mut adr, &mut mdr);
    assert_eq!(mdr, 0x3412);
    adr = 1;
    memory.process_signal(&Memory::IFCH, &mut ir, &mut adr, &mut mdr);
    assert_eq!(ir, 0x0056);
    adr = 2;
    memory.process_signal(&Memory::READ, &mut ir, &mut adr, &mut mdr);
    assert_eq!(mdr, 0);
    mdr = 9;
    memory.process_signal(&Memory::WRITE, &mut ir, &mut adr, &mut mdr);
    mdr = 0;
    memory.process_signal(&Memory::READ, &mut ir, &mut adr, &mut mdr);
    assert_eq!(mdr, 9);
}

#[test]
fn dispatch_index_decodes_instruction_fields() {
    let mut mc = MicroCode::new(vec![]);
    mc.MIR = mir(0, 0, 0, 0, 0, 0, 0, 1, 0, 0);
    assert_eq!(mc.get_index(0x0491, false), 0);
    assert_eq!(mc.get_index(0x8310, false), 1);
    assert_eq!(mc.get_index(0xC1FC, false), 2);
    assert_eq!(mc.get_index(0xE300, false), 3);
    mc.MIR = mir(0, 0, 0, 0, 0, 0, 0, 2, 0, 0);
    assert_eq!(mc.get_index(0x2D61, false), 3);
    mc.MIR = mir(0, 0, 0, 0, 0, 0, 0, 3, 0, 0);
    assert_eq!(mc.get_index(0x2D61, false), 2);
    mc.MIR = mir(0, 0, 0, 0, 0, 0, 0, 4, 0, 0);
    assert_eq!(mc.get_index(0x2D61, false), 2);
    mc.MIR = mir(0, 0, 0, 0, 0, 0, 0, 5, 0, 0);
    assert_eq!(mc.get_index(0x8D32, false), 13);
    mc.MIR = mir(0, 0, 0, 0, 0, 0, 0, 6, 0, 0);
    assert_eq!(mc.get_index(0x8D32, false), 26);
    mc.MIR = mir(0, 0, 0, 0, 0, 0, 0, 7, 0, 0);
    assert_eq!(mc.get_index(0, true), 4);
    assert_eq!(mc.get_index(0, false), 0);
}

#[test]
fn branch_condition() {
    let mut mc = MicroCode::new(vec![]);
    let mut isa = machine();
    mc.MIR = mir(0, 0, 0, 0, 0, 0, 0, 0, 1, 0);
    assert!(!mc.get_g(&isa));
    mc.MIR = mir(0, 0, 0, 0, 0, 0, 1, 0, 0, 0);
    assert!(mc.get_g(&isa));
    mc.MIR = mir(0, 0, 0, 0, 0, 0, 5, 0, 0, 0); // Z, taken when set
    assert!(!mc.get_g(&isa));
    isa.FLAG = 0b0100;
    assert!(mc.get_g(&isa));
    mc.MIR = mir(0, 0, 0, 0, 0, 0, 5, 0, 1, 0); // Z, taken when clear
    assert!(!mc.get_g(&isa));
}

#[test]
fn microsignals_move_mar_and_mir() {
    let mut mc = MicroCode::new(vec![11, 22, 33]);
    mc.process_microsignal(&MicroSignal::LdMIR);
    assert_eq!(mc.MIR, 11);
    mc.process_microsignal(&MicroSignal::plus1MAR);
    assert_eq!(mc.MAR, 1);
    mc.process_microsignal(&MicroSignal::LdMIR);
    assert_eq!(mc.MIR, 22);
    mc.MIR = mir(0, 0, 0, 0, 0, 0, 0, 1, 0, 0x10);
    mc.process_microsignal(&MicroSignal::LdMAR(0xE300, false));
    assert_eq!(mc.MAR, 0x13);
}

#[test]
fn illegal_microinstruction_raises_exception() {
    let mut mc = MicroCode::new(vec![]);
    let mut isa = machine();
    mc.MIR = mir(0, 0, 15, 0, 0, 0, 0, 0, 0, 0);
    isa.T = 5;
    mc.generate_signals(&mut isa);
    assert!(isa.BE1_CIL);
    assert_eq!(isa.RBUS, 0);
    mc.MIR = mir(4, 0, 1, 5, 0, 0, 0, 0, 0, 0); // SBUS = T, ALU passes SBUS, result to T
    let mut isa = machine();
    isa.T = 5;
    mc.generate_signals(&mut isa);
    assert!(!isa.BE1_CIL);
    assert_eq!(isa.RBUS, 5);
}

#[test]
fn sequencer_cycles_through_three_phases() {
    let halt = mir(0, 0, 0, 0, 0, 11, 0, 0, 0, 0); // A0BPO
    let mut cu = ControlUnit::new(vec![halt]);
    let mut isa = machine();
    assert_eq!(cu.sequencer.state, 0);
    cu.sequencer.tick(&mut cu.micro_code, &mut isa);
    assert_eq!(cu.sequencer.state, 1);
    assert_eq!(cu.micro_code.MIR, halt);
    cu.sequencer.tick(&mut cu.micro_code, &mut isa);
    assert_eq!(cu.sequencer.state, 2);
    assert_eq!(cu.micro_code.MAR, 1);
    assert!(isa.BPO);
    cu.sequencer.tick(&mut cu.micro_code, &mut isa);
    assert_eq!(cu.sequencer.state, 0);
    assert!(!isa.BPO);
    let _ = Sequencer { state: 0 };
}

#[test]
fn cpu_halts_on_illegal_microinstruction() {
    let mut cpu = CPU::new(MemoryInterface::new(), vec![mir(0, 0, 15, 0, 0, 0, 0, 0, 0, 0)]);
    assert!(!cpu.is_halted());
    cpu.tick();
    cpu.tick();
    assert!(!cpu.is_halted());
    cpu.tick();
    assert!(cpu.is_halted());
    let snapshot = cpu.snapshot();
    assert!(snapshot.be1_cil);
    assert!(!snapshot.bpo);
    assert_eq!(snapshot.sequencer_state, 0);
    let signals = cpu.mir_signals_snapshot();
    assert_eq!(signals.alu, "INVALID(15)");
    assert_eq!(signals.sbus, "None");
    assert_eq!(signals.memory, "None");
}

#[test]
fn cpu_runs_a_microprogram_branch() {
    // 0: jump to 2 unconditionally; 1: halt (never reached); 2: T <- -1 then halt.
    let program = vec![
        mir(0, 0, 0, 0, 0, 0, 1, 0, 0, 2),
        mir(0, 0, 0, 0, 0, 11, 0, 0, 0, 0),
        mir(12, 0, 1, 5, 0, 11, 0, 0, 0, 0),
    ];
    let mut cpu = CPU::new(MemoryInterface::new(), program.clone());
    assert_eq!(cpu.microprogram(), program.as_slice());
    while !cpu.is_halted() {
        cpu.tick();
    }
    let snapshot = cpu.snapshot();
    assert_eq!(snapshot.t, 0xFFFF);
    assert_eq!(snapshot.mar, 3);
    let signals = cpu.mir_signals_snapshot();
    assert_eq!(signals.sbus, "PdNeg1");
    assert_eq!(signals.alu, "SBUS");
    assert_eq!(signals.rbus, "PmT");
    assert_eq!(signals.other, "A0BPO");
}

#[test]
fn microprogram_text() {
    assert_eq!(parse_microprogram("0x1F\n0xff\n"), Some(vec![0x1F, 0xFF]));
    assert_eq!(parse_microprogram("0x0xAB\r\n  12  "), Some(vec![0xAB, 0x12]));
    assert_eq!(parse_microprogram(""), Some(vec![]));
    assert_eq!(parse_microprogram("zz"), None);
    assert_eq!(parse_microprogram("1\n\n2"), None);
    assert_eq!(parse_microprogram("0x10000000000000000"), None);
    assert_eq!(parse_microprogram("+ffffffffffffffff"), Some(vec![u64::MAX]));
}

#[test]
fn memory_dump_gives_back_the_loaded_image() {
    let memory = load_program(&[0xAB, 0xCD, 0xEF]);
    let bytes = memory.dump_bytes();
    assert_eq!(bytes.len(), 131072);
    assert_eq!(&bytes[0..4], &[0xAB, 0xCD, 0xEF, 0x00]);
    assert!(bytes[4..].iter().all(|b| *b == 0));
}

#[test]
fn bounded_runs_stop_for_a_reason() {
    let program = vec![
        mir(0, 0, 0, 0, 0, 0, 1, 0, 0, 2),
        mir(0, 0, 0, 0, 0, 11, 0, 0, 0, 0),
        mir(12, 0, 1, 5, 0, 11, 0, 0, 0, 0),
    ];
    let mut cpu = CPU::new(MemoryInterface::new(), program.clone());
    assert_eq!(cpu.run_for(2), RunEnd::OutOfTicks);
    assert_eq!(cpu.snapshot().sequencer_state, 2);
    assert_eq!(cpu.run_for(100), RunEnd::Halted);
    assert_eq!(cpu.snapshot().t, 0xFFFF);
    assert_eq!(cpu.run_for(100), RunEnd::Halted);

    let mut empty = CPU::new(MemoryInterface::new(), vec![]);
    assert_eq!(empty.run_for(5), RunEnd::Stuck);
    assert!(!empty.is_halted());
}
