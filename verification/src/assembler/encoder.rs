//! The assembler's back end: machine words of placed instructions, written
//! as little-endian bytes.

use vstd::prelude::*;
use crate::assembler::architecture::{
    AddressableInstruction, Instruction, InstructionModel, InstructionSize, LocatedInstruction, Opcode,
    OpcodeB1, OpcodeB2, OpcodeB3, OpcodeB4, Operand, Register, SymbolTable, OPCODE_COUNT, b4_words,
};
use crate::processor::control_unit::microarchitecture::{dispatch_index, bit_value};
use crate::processor::architecture::{register_index, FLAG_C, FLAG_Z, FLAG_S, FLAG_V};
use crate::memory::{loaded_memory, MEMORY_WORDS};
use crate::assembler::parser::{form_matches_group, ParsedCode, ParseState, instruction_size, layout_consistent, next_address, parsed, lemma_parsed_layout};

verus! {

/// The first word of an instruction before operands are merged in:
/// B1 `n << 12`, B2 `0x8000 | n << 8`, B3 `0xC000 | n << 8`, B4 a fixed word,
/// where `n` is the opcode's position in its group.
pub open spec fn opcode_word(op: Opcode) -> u16 {
    match op {
        Opcode::B1(o) => o.number() << 12u16,
        Opcode::B2(o) => (o.number() << 8u16) | 0x8000u16,
        Opcode::B3(o) => (o.number() << 8u16) | 0xC000u16,
        Opcode::B4(o) => b4_words()[o.number() as int],
    }
}

/// The opcode words by opcode position.
pub open spec fn opcode_words() -> Seq<u16> {
    Seq::new(OPCODE_COUNT as nat, |i: int| opcode_word(Opcode::from_index(i as u16)))
}

/// The table of opcode words, indexed by `Opcode::to_u16`.
pub struct OpcodeTable(Vec<u16>);

impl OpcodeTable {
    #[verifier::type_invariant]
    spec fn inv(&self) -> bool {
        self.0@ == opcode_words()
    }

    pub closed spec fn words(&self) -> Seq<u16> {
        self.0@
    }

    /// The word of an opcode.
    fn word(&self, op: Opcode) -> (r: u16)
        ensures
            r == opcode_word(op),
    {
        proof {
            use_type_invariant(self);
            lemma_index_roundtrip(op);
        }
        self.0[op.to_u16() as usize]
    }
}

proof fn lemma_b1_number(i: u16)
    requires
        i < 7,
    ensures
        OpcodeB1::from_number(i).number() == i,
{
}

proof fn lemma_b2_number(i: u16)
    requires
        i < 15,
    ensures
        OpcodeB2::from_number(i).number() == i,
{
}

proof fn lemma_b3_number(i: u16)
    requires
        i < 9,
    ensures
        OpcodeB3::from_number(i).number() == i,
{
}

proof fn lemma_b4_number(i: u16)
    requires
        i < 19,
    ensures
        OpcodeB4::from_number(i).number() == i,
{
}

/// Opcode positions and opcodes correspond one to one.
pub proof fn lemma_index_roundtrip(op: Opcode)
    ensures
        op.index() < OPCODE_COUNT,
        Opcode::from_index(op.index()) == op,
{
    match op {
        Opcode::B1(o) => {},
        Opcode::B2(o) => {},
        Opcode::B3(o) => {},
        Opcode::B4(o) => {},
    }
}

impl OpcodeTable {
    /// The table of every opcode's word.
    pub fn generate() -> (r: Self)
        ensures
            r.words() == opcode_words(),
    {
        let mut bit_table: Vec<u16> = Vec::new();
        #[allow(non_snake_case)]
        let B4_opcodes = Opcode::get_B4_opcodes();

        let mut i: u16 = 0;
        while i < 7
            invariant
                i <= 7,
                bit_table@.len() == i,
                forall|j: int| 0 <= j < i ==> #[trigger] bit_table@[j] == opcode_words()[j],
            decreases 7 - i,
        {
            proof {
                lemma_b1_number(i);
            }
            bit_table.push(i << 12u16);
            i = i + 1;
        }
        let mut i: u16 = 0;
        while i < 15
            invariant
                i <= 15,
                bit_table@.len() == 7 + i,
                forall|j: int| 0 <= j < 7 + i ==> #[trigger] bit_table@[j] == opcode_words()[j],
            decreases 15 - i,
        {
            proof {
                lemma_b2_number(i);
            }
            bit_table.push((i << 8u16) | 0x8000u16);
            i = i + 1;
        }
        let mut i: u16 = 0;
        while i < 9
            invariant
                i <= 9,
                bit_table@.len() == 22 + i,
                forall|j: int| 0 <= j < 22 + i ==> #[trigger] bit_table@[j] == opcode_words()[j],
            decreases 9 - i,
        {
            proof {
                lemma_b3_number(i);
            }
            bit_table.push((i << 8u16) | 0xC000u16);
            i = i + 1;
        }
        let mut i: u16 = 0;
        while i < 19
            invariant
                i <= 19,
                B4_opcodes@ == b4_words(),
                bit_table@.len() == 31 + i,
                forall|j: int| 0 <= j < 31 + i ==> #[trigger] bit_table@[j] == opcode_words()[j],
            decreases 19 - i,
        {
            proof {
                lemma_b4_number(i);
            }
            bit_table.push(B4_opcodes[i as usize]);
            i = i + 1;
        }
        assert(bit_table@ =~= opcode_words());
        OpcodeTable(bit_table)
    }
}

/// Addressing-mode field: immediate 0, direct 1, indirect 2, indexed 3.
pub open spec fn addressing_mode(o: Operand) -> u16 {
    match o {
        Operand::Immediate(_) => 0,
        Operand::Direct(_) => 1,
        Operand::Indirect(_) => 2,
        Operand::Indexed(_, _) => 3,
    }
}

/// Register field: the register's number, 0 for an immediate.
pub open spec fn register_of(o: Operand) -> u16 {
    match o {
        Operand::Immediate(_) => 0,
        Operand::Direct(Register(r)) => r as u16,
        Operand::Indirect(Register(r)) => r as u16,
        Operand::Indexed(Register(r), _) => r as u16,
    }
}

/// The word an operand adds after the instruction word: the immediate value or the offset.
pub open spec fn extra_words(o: Operand) -> Seq<u16> {
    match o {
        Operand::Immediate(v) => seq![v],
        Operand::Indexed(_, offset) => seq![offset],
        _ => seq![],
    }
}

/// Branch offset: target minus the address after the branch, modulo 256.
pub open spec fn branch_offset(target: u16, address: u16, size: InstructionSize) -> u16 {
    ((target - (address + size.bytes())) % 256) as u16
}

/// The words of a placed instruction; a branch label is looked up in `symbols`.
pub open spec fn instruction_words(i: LocatedInstruction, symbols: Map<Seq<char>, u16>) -> Seq<u16> {
    match i.instruction {
        InstructionModel::TwoOperands { opcode, src, dst } => seq![
            opcode_word(opcode) | ((addressing_mode(src) << 10u16) | (register_of(src) << 6u16) | (
            addressing_mode(dst) << 4u16) | register_of(dst)),
        ] + extra_words(src) + extra_words(dst),
        InstructionModel::OneOperand { opcode, dst } => seq![
            opcode_word(opcode) | ((addressing_mode(dst) << 4u16) | register_of(dst)),
        ] + extra_words(dst),
        InstructionModel::Jump { opcode, label } => seq![
            opcode_word(opcode) | branch_offset(symbols[label], i.address, i.size),
        ],
        InstructionModel::Diverse { opcode } => seq![opcode_word(opcode)],
    }
}

/// Words as bytes, each low byte first.
pub open spec fn le_bytes(ws: Seq<u16>) -> Seq<u8>
    decreases ws.len(),
{
    if ws.len() == 0 {
        seq![]
    } else {
        le_bytes(ws.drop_last()) + seq![(ws.last() % 256) as u8, (ws.last() / 256) as u8]
    }
}

/// Whether every branch names a defined label.
pub open spec fn labels_resolved(pc: ParseState) -> bool {
    forall|k: int|
        0 <= k < pc.instructions.len() ==> (#[trigger] pc.instructions[k]).instruction is Jump
            ==> pc.symbols.contains_key(pc.instructions[k].instruction->label)
}

/// The object code of the first `k` instructions.
pub open spec fn program_bytes(instructions: Seq<LocatedInstruction>, symbols: Map<Seq<char>, u16>, k: int) -> Seq<u8>
    decreases k,
{
    if k <= 0 {
        seq![]
    } else {
        program_bytes(instructions, symbols, k - 1) + le_bytes(instruction_words(instructions[k - 1], symbols))
    }
}

/// The object code of a parsed program.
pub open spec fn object_code(pc: ParseState) -> Seq<u8> {
    program_bytes(pc.instructions, pc.symbols, pc.instructions.len() as int)
}

fn operand_fields(o: &Operand) -> (r: (u16, u16))
    ensures
        r.0 == addressing_mode(*o),
        r.1 == register_of(*o),
{
    match o {
        Operand::Immediate(_) => (0b00, 0b0000),
        Operand::Direct(Register(reg)) => (0b01, *reg as u16),
        Operand::Indirect(Register(reg)) => (0b10, *reg as u16),
        Operand::Indexed(Register(reg), _) => (0b11, *reg as u16),
    }
}

fn push_extra_word(words: &mut Vec<u16>, o: &Operand)
    ensures
        final(words)@ == old(words)@ + extra_words(*o),
{
    match o {
        Operand::Immediate(imm) => words.push(*imm),
        Operand::Indexed(_, offset) => words.push(*offset),
        _ => {},
    }
    assert(final(words)@ =~= old(words)@ + extra_words(*o));
}

fn relative_offset(target: u16, address: u16, size: &InstructionSize) -> (r: u16)
    ensures
        r == branch_offset(target, address, *size),
{
    let next = address.wrapping_add(size.byte_count());
    let diff = target.wrapping_sub(next);
    assert(diff & 0x00FF == diff % 256) by (bit_vector);
    let ghost x: int = target - (address + size.bytes());
    assert(diff % 256 == x % 256) by {
        if address + size.bytes() > 0xFFFF {
            if target - (address + size.bytes() - 0x10000) < 0 {
                assert(diff == x + 0x20000);
            } else {
                assert(diff == x + 0x10000);
            }
        } else {
            if x < 0 {
                assert(diff == x + 0x10000);
            } else {
                assert(diff == x);
            }
        }
    }
    diff & 0x00FF
}

fn push_le_bytes(bytes: &mut Vec<u8>, words: &Vec<u16>)
    ensures
        final(bytes)@ == old(bytes)@ + le_bytes(words@),
{
    let ghost start = bytes@;
    let mut i: usize = 0;
    assert(words@.take(0) =~= Seq::<u16>::empty());
    assert(start + le_bytes(Seq::<u16>::empty()) =~= start);
    while i < words.len()
        invariant
            i <= words@.len(),
            bytes@ == start + le_bytes(words@.take(i as int)),
        decreases words@.len() - i,
    {
        let word = words[i];
        assert(word & 0xFF == word % 256) by (bit_vector);
        assert(word >> 8 == word / 256) by (bit_vector);
        bytes.push((word & 0xFF) as u8);
        bytes.push((word >> 8) as u8);
        i = i + 1;
        assert(words@.take(i as int).drop_last() =~= words@.take(i - 1));
        assert(bytes@ =~= start + le_bytes(words@.take(i as int)));
    }
    assert(words@.take(words@.len() as int) =~= words@);
}

// returns little-endian byte representation of the instruction
fn encode_instruction(instr: &AddressableInstruction, symbol_table: &SymbolTable, bit_table: &OpcodeTable) -> (r: Vec<u8>)
    requires
        instr@.instruction is Jump ==> symbol_table@.contains_key(instr@.instruction->label),
    ensures
        r@ == le_bytes(instruction_words(instr@, symbol_table@)),
{
    let mut words = Vec::<u16>::new();
    match &instr.instruction {
        Instruction::TwoOperands { opcode, src, dst } => {
            let mut word = bit_table.word(*opcode);
            let (mas, rs) = operand_fields(src);
            let (mad, rd) = operand_fields(dst);
            word = word | ((mas << 10u16) | (rs << 6u16) | (mad << 4u16) | rd);
            words.push(word);

            // handle extra words for AM and AX addressing modes
            push_extra_word(&mut words, src);
            push_extra_word(&mut words, dst);
            assert(words@ =~= instruction_words(instr@, symbol_table@));
        },
        Instruction::OneOperand { opcode, dst } => {
            let mut word = bit_table.word(*opcode);
            let (mad, rd) = operand_fields(dst);
            word = word | ((mad << 4u16) | rd);
            words.push(word);
            push_extra_word(&mut words, dst);
            assert(words@ =~= instruction_words(instr@, symbol_table@));
        },
        Instruction::Jump { opcode, label } => {
            let mut word = bit_table.word(*opcode);
            let target_address = symbol_table.get(label).unwrap();
            // relative to PC
            let offset = relative_offset(target_address, instr.address, &instr.size);
            word = word | offset;
            words.push(word);
            assert(words@ =~= instruction_words(instr@, symbol_table@));
        },
        Instruction::Diverse { opcode } => {
            words.push(bit_table.word(*opcode));
            assert(words@ =~= instruction_words(instr@, symbol_table@));
        },
    }

    let mut bytes = Vec::<u8>::new();
    push_le_bytes(&mut bytes, &words);
    assert(Seq::<u8>::empty() + le_bytes(words@) =~= le_bytes(words@));
    bytes
}

/// The object code of a parsed program: each instruction's words, low byte first.
pub fn encode_parsed_code(parsed_code: ParsedCode, bit_table: &OpcodeTable) -> (r: Vec<u8>)
    requires
        labels_resolved(parsed_code@),
    ensures
        r@ == object_code(parsed_code@),
{
    let mut encoded: Vec<u8> = Vec::new();
    let ghost pc = parsed_code@;
    let mut i: usize = 0;
    while i < parsed_code.instructions.len()
        invariant
            i <= parsed_code.instructions@.len(),
            pc == parsed_code@,
            labels_resolved(pc),
            encoded@ == program_bytes(pc.instructions, pc.symbols, i as int),
        decreases parsed_code.instructions@.len() - i,
    {
        let instr = &parsed_code.instructions[i];
        assert(pc.instructions[i as int] == instr@);
        let bytes = encode_instruction(instr, &parsed_code.symbol_table, bit_table);
        let mut k: usize = 0;
        let ghost before = encoded@;
        while k < bytes.len()
            invariant
                k <= bytes@.len(),
                encoded@ == before + bytes@.take(k as int),
            decreases bytes@.len() - k,
        {
            encoded.push(bytes[k]);
            k = k + 1;
            assert(before + bytes@.take(k as int) =~= (before + bytes@.take(k - 1)).push(bytes@[k - 1]));
        }
        assert(bytes@.take(bytes@.len() as int) =~= bytes@);
        i = i + 1;
    }
    encoded
}

impl ParsedCode {
    /// Whether every branch names a label that the program defines.
    pub fn labels_resolved(&self) -> (r: bool)
        ensures
            r == labels_resolved(self@),
    {
        let ghost pc = self@;
        let mut i: usize = 0;
        while i < self.instructions.len()
            invariant
                i <= self.instructions@.len(),
                pc == self@,
                forall|k: int|
                    0 <= k < i ==> (#[trigger] pc.instructions[k]).instruction is Jump ==> pc.symbols.contains_key(
                        pc.instructions[k].instruction->label,
                    ),
            decreases self.instructions@.len() - i,
        {
            if let Instruction::Jump { label, .. } = &self.instructions[i].instruction {
                assert(pc.instructions[i as int] == self.instructions@[i as int]@);
                if self.symbol_table.get(label).is_none() {
                    return false;
                }
            }
            i = i + 1;
        }
        true
    }
}

/// Total size in bytes of the first `k` instructions.
pub open spec fn total_size(instructions: Seq<LocatedInstruction>, k: int) -> nat
    decreases k,
{
    if k <= 0 {
        0
    } else {
        total_size(instructions, k - 1) + instructions[k - 1].size.bytes() as nat
    }
}

proof fn lemma_le_bytes_len(ws: Seq<u16>)
    ensures
        le_bytes(ws).len() == 2 * ws.len(),
    decreases ws.len(),
{
    if ws.len() > 0 {
        lemma_le_bytes_len(ws.drop_last());
    }
}

proof fn lemma_le_bytes_at(ws: Seq<u16>, i: int)
    requires
        0 <= i < ws.len(),
    ensures
        le_bytes(ws).len() == 2 * ws.len(),
        le_bytes(ws)[2 * i] == (ws[i] % 256) as u8,
        le_bytes(ws)[2 * i + 1] == (ws[i] / 256) as u8,
    decreases ws.len(),
{
    lemma_le_bytes_len(ws);
    lemma_le_bytes_len(ws.drop_last());
    if i < ws.len() - 1 {
        lemma_le_bytes_at(ws.drop_last(), i);
    }
}

/// Loading little-endian words puts each word at its own address and zeros
/// after them.
pub proof fn lemma_load_le_words(ws: Seq<u16>)
    requires
        ws.len() <= MEMORY_WORDS,
    ensures
        forall|i: int| 0 <= i < ws.len() ==> #[trigger] loaded_memory(le_bytes(ws))[i] == ws[i],
        forall|i: int| ws.len() <= i < MEMORY_WORDS ==> #[trigger] loaded_memory(le_bytes(ws))[i] == 0,
{
    lemma_le_bytes_len(ws);
    assert forall|i: int| 0 <= i < ws.len() implies #[trigger] loaded_memory(le_bytes(ws))[i] == ws[i] by {
        lemma_le_bytes_at(ws, i);
        let w = ws[i];
        assert(((w % 256) as u8) as int + ((w / 256) as u8) as int * 256 == w) by (nonlinear_arith);
    }
}

/// The words of the first `k` instructions, one after the other.
pub open spec fn program_words(instructions: Seq<LocatedInstruction>, symbols: Map<Seq<char>, u16>, k: int) -> Seq<u16>
    decreases k,
{
    if k <= 0 {
        seq![]
    } else {
        program_words(instructions, symbols, k - 1) + instruction_words(instructions[k - 1], symbols)
    }
}

/// The words of a parsed program, in order.
pub open spec fn object_words(pc: ParseState) -> Seq<u16> {
    program_words(pc.instructions, pc.symbols, pc.instructions.len() as int)
}

proof fn lemma_le_bytes_concat(a: Seq<u16>, b: Seq<u16>)
    ensures
        le_bytes(a + b) == le_bytes(a) + le_bytes(b),
    decreases b.len(),
{
    if b.len() == 0 {
        assert(a + b =~= a);
        assert(le_bytes(b) =~= Seq::<u8>::empty());
        assert(le_bytes(a) + le_bytes(b) =~= le_bytes(a));
    } else {
        lemma_le_bytes_concat(a, b.drop_last());
        assert((a + b).drop_last() =~= a + b.drop_last());
        assert((a + b).last() == b.last());
        assert(le_bytes(a) + le_bytes(b) =~= le_bytes(a) + le_bytes(b.drop_last()) + seq![
            (b.last() % 256) as u8,
            (b.last() / 256) as u8,
        ]);
    }
}

proof fn lemma_program_bytes_words(instructions: Seq<LocatedInstruction>, symbols: Map<Seq<char>, u16>, k: int)
    ensures
        program_bytes(instructions, symbols, k) == le_bytes(program_words(instructions, symbols, k)),
    decreases k,
{
    if k > 0 {
        lemma_program_bytes_words(instructions, symbols, k - 1);
        lemma_le_bytes_concat(program_words(instructions, symbols, k - 1), instruction_words(instructions[k - 1], symbols));
    } else {
        assert(le_bytes(Seq::<u16>::empty()) =~= Seq::<u8>::empty());
    }
}

/// Loading the object code of a parsed program that fits in memory puts the
/// program's own words in memory, from address 0 on, and zeros after them.
pub proof fn lemma_load_object_code(input: Seq<char>)
    ensures
        parsed(input) matches Ok(st) ==> (object_code(st).len() <= 2 * MEMORY_WORDS ==> {
            &&& object_code(st) == le_bytes(object_words(st))
            &&& object_code(st).len() == 2 * object_words(st).len()
            &&& forall|i: int| 0 <= i < object_words(st).len() ==> #[trigger] loaded_memory(object_code(st))[i] == object_words(st)[i]
            &&& forall|i: int| object_words(st).len() <= i < MEMORY_WORDS ==> #[trigger] loaded_memory(object_code(st))[i] == 0
        }),
{
    if let Ok(st) = parsed(input) {
        lemma_program_bytes_words(st.instructions, st.symbols, st.instructions.len() as int);
        lemma_le_bytes_len(object_words(st));
        if object_code(st).len() <= 2 * MEMORY_WORDS {
            lemma_load_le_words(object_words(st));
        }
    }
}

/// An instruction whose size matches its operands encodes to exactly that many bytes.
pub proof fn lemma_instruction_bytes(i: LocatedInstruction, symbols: Map<Seq<char>, u16>)
    requires
        i.size == instruction_size(i.instruction),
    ensures
        le_bytes(instruction_words(i, symbols)).len() == i.size.bytes(),
{
    lemma_le_bytes_len(instruction_words(i, symbols));
}

proof fn lemma_program_length(instructions: Seq<LocatedInstruction>, symbols: Map<Seq<char>, u16>, k: int)
    requires
        layout_consistent(instructions),
        0 <= k <= instructions.len(),
    ensures
        program_bytes(instructions, symbols, k).len() == total_size(instructions, k),
    decreases k,
{
    if k > 0 {
        lemma_program_length(instructions, symbols, k - 1);
        let prev = instructions[k - 1];
        assert(prev.size == instruction_size(prev.instruction));
        lemma_instruction_bytes(prev, symbols);
        assert(program_bytes(instructions, symbols, k) == program_bytes(instructions, symbols, k - 1) + le_bytes(
            instruction_words(prev, symbols),
        ));
    }
}

proof fn lemma_wrap_step(t: nat, b: u16)
    ensures
        ((t % 0x10000) as u16).wrapping_add(b) == (t + b) % 0x10000,
{
    vstd::arithmetic::div_mod::lemma_add_mod_noop(t as int, b as int, 0x10000);
    vstd::arithmetic::div_mod::lemma_small_mod(b as nat, 0x10000);
    vstd::arithmetic::div_mod::lemma_mod_bound(t as int, 0x10000);
}

proof fn lemma_addresses(instructions: Seq<LocatedInstruction>, k: int)
    requires
        layout_consistent(instructions),
        0 <= k < instructions.len(),
    ensures
        instructions[k].address == total_size(instructions, k) % 0x10000,
    decreases k,
{
    assert(instructions[k].address == next_address(instructions.take(k)));
    if k > 0 {
        lemma_addresses(instructions, k - 1);
        let prev = instructions[k - 1];
        assert(instructions.take(k).last() == prev);
        let t = total_size(instructions, k - 1);
        assert(total_size(instructions, k) == t + prev.size.bytes());
        assert(prev.address == t % 0x10000);
        lemma_wrap_step(t, prev.size.bytes());
    }
}

proof fn lemma_program_layout(instructions: Seq<LocatedInstruction>, symbols: Map<Seq<char>, u16>, k: int)
    requires
        layout_consistent(instructions),
        0 <= k <= instructions.len(),
    ensures
        program_bytes(instructions, symbols, k).len() == total_size(instructions, k),
        k < instructions.len() ==> instructions[k].address == total_size(instructions, k) % 0x10000,
{
    lemma_program_length(instructions, symbols, k);
    if k < instructions.len() {
        lemma_addresses(instructions, k);
    }
}

/// The object code of a parsed program is the concatenation of its instructions:
/// instruction `k` starts at byte offset `total_size(k)`, which is its address
/// modulo 2^16, and the whole code is `total_size` of all instructions long.
pub proof fn lemma_object_code_layout(input: Seq<char>)
    ensures
        parsed(input) matches Ok(st) ==> {
            &&& object_code(st).len() == total_size(st.instructions, st.instructions.len() as int)
            &&& forall|k: int|
                0 <= k < st.instructions.len() ==> {
                    &&& program_bytes(st.instructions, st.symbols, k).len() == total_size(st.instructions, k)
                    &&& #[trigger] st.instructions[k].address == total_size(st.instructions, k) % 0x10000
                    &&& program_bytes(st.instructions, st.symbols, k + 1) == program_bytes(
                        st.instructions,
                        st.symbols,
                        k,
                    ) + le_bytes(instruction_words(st.instructions[k], st.symbols))
                    &&& le_bytes(instruction_words(st.instructions[k], st.symbols)).len()
                        == st.instructions[k].size.bytes()
                }
        },
{
    lemma_parsed_layout(input);
    if let Ok(st) = parsed(input) {
        lemma_program_layout(st.instructions, st.symbols, st.instructions.len() as int);
        assert forall|k: int| 0 <= k < st.instructions.len() implies {
            &&& program_bytes(st.instructions, st.symbols, k).len() == total_size(st.instructions, k)
            &&& #[trigger] st.instructions[k].address == total_size(st.instructions, k) % 0x10000
            &&& program_bytes(st.instructions, st.symbols, k + 1) == program_bytes(st.instructions, st.symbols, k)
                + le_bytes(instruction_words(st.instructions[k], st.symbols))
            &&& le_bytes(instruction_words(st.instructions[k], st.symbols)).len() == st.instructions[k].size.bytes()
        } by {
            lemma_program_layout(st.instructions, st.symbols, k);
            assert(st.instructions[k].size == instruction_size(st.instructions[k].instruction));
            lemma_instruction_bytes(st.instructions[k], st.symbols);
        }
    }
}

/// Whether an operand names one of the sixteen registers (or none).
pub open spec fn register_in_range(o: Operand) -> bool {
    register_of(o) < 16
}

proof fn lemma_three_bits(n: u16)
    requires
        n < 8,
    ensures
        4 * bit_value(n & 4 != 0) + 2 * bit_value(n & 2 != 0) + bit_value(n & 1 != 0) == n,
{
    assert(n < 8 ==> n == (n & 4) + (n & 2) + (n & 1)) by (bit_vector);
    assert((n & 4 != 0) == (n & 4 == 4)) by (bit_vector);
    assert((n & 2 != 0) == (n & 2 == 2)) by (bit_vector);
    assert((n & 1 != 0) == (n & 1 == 1)) by (bit_vector);
}

proof fn lemma_four_bits(n: u16)
    requires
        n < 16,
    ensures
        8 * bit_value(n & 8 != 0) + 4 * bit_value(n & 4 != 0) + 2 * bit_value(n & 2 != 0) + bit_value(n & 1 != 0) == n,
{
    assert(n < 16 ==> n == (n & 8) + (n & 4) + (n & 2) + (n & 1)) by (bit_vector);
    assert((n & 8 != 0) == (n & 8 == 8)) by (bit_vector);
    assert((n & 4 != 0) == (n & 4 == 4)) by (bit_vector);
    assert((n & 2 != 0) == (n & 2 == 2)) by (bit_vector);
    assert((n & 1 != 0) == (n & 1 == 1)) by (bit_vector);
}

proof fn lemma_two_bits(n: u16)
    requires
        n < 4,
    ensures
        2 * bit_value(n & 2 != 0) + bit_value(n & 1 != 0) == n,
{
    assert(n < 4 ==> n == (n & 2) + (n & 1)) by (bit_vector);
    assert((n & 2 != 0) == (n & 2 == 2)) by (bit_vector);
    assert((n & 1 != 0) == (n & 1 == 1)) by (bit_vector);
}

proof fn lemma_b1_word(n: u16, ms: u16, rs: u16, md: u16, rd: u16)
    requires
        n < 7,
        ms < 4,
        rs < 16,
        md < 4,
        rd < 16,
    ensures
        ({
            let w = (n << 12u16) | ((ms << 10u16) | (rs << 6u16) | (md << 4u16) | rd);
            &&& dispatch_index(1, w, false) == 0
            &&& dispatch_index(4, w, false) == n
            &&& dispatch_index(2, w, false) == ms
            &&& dispatch_index(3, w, false) == md
            &&& register_index(w) == rd
        }),
{
    let w = (n << 12u16) | ((ms << 10u16) | (rs << 6u16) | (md << 4u16) | rd);
    assert(n < 7 && ms < 4 && rs < 16 && md < 4 && rd < 16 && w == (n << 12u16) | ((ms << 10u16) | (rs << 6u16) | (md
        << 4u16) | rd) ==> {
        &&& w & (1u16 << 15u16) == 0
        &&& (w & (1u16 << 14u16) != 0) == (n & 4 != 0)
        &&& (w & (1u16 << 13u16) != 0) == (n & 2 != 0)
        &&& (w & (1u16 << 12u16) != 0) == (n & 1 != 0)
        &&& (w & (1u16 << 11u16) != 0) == (ms & 2 != 0)
        &&& (w & (1u16 << 10u16) != 0) == (ms & 1 != 0)
        &&& (w & (1u16 << 5u16) != 0) == (md & 2 != 0)
        &&& (w & (1u16 << 4u16) != 0) == (md & 1 != 0)
        &&& w & 0x000F == rd
    }) by (bit_vector);
    lemma_three_bits(n);
    lemma_two_bits(ms);
    lemma_two_bits(md);
}

proof fn lemma_b2_word(n: u16, md: u16, rd: u16)
    requires
        n < 15,
        md < 4,
        rd < 16,
    ensures
        ({
            let w = ((n << 8u16) | 0x8000u16) | ((md << 4u16) | rd);
            &&& dispatch_index(1, w, false) == 1
            &&& dispatch_index(5, w, false) == n
            &&& dispatch_index(3, w, false) == md
            &&& register_index(w) == rd
        }),
{
    let w = ((n << 8u16) | 0x8000u16) | ((md << 4u16) | rd);
    assert(n < 15 && md < 4 && rd < 16 && w == ((n << 8u16) | 0x8000u16) | ((md << 4u16) | rd) ==> {
        &&& w & (1u16 << 15u16) != 0
        &&& w & (1u16 << 14u16) == 0
        &&& w & (1u16 << 13u16) == 0
        &&& (w & (1u16 << 11u16) != 0) == (n & 8 != 0)
        &&& (w & (1u16 << 10u16) != 0) == (n & 4 != 0)
        &&& (w & (1u16 << 9u16) != 0) == (n & 2 != 0)
        &&& (w & (1u16 << 8u16) != 0) == (n & 1 != 0)
        &&& (w & (1u16 << 5u16) != 0) == (md & 2 != 0)
        &&& (w & (1u16 << 4u16) != 0) == (md & 1 != 0)
        &&& w & 0x000F == rd
    }) by (bit_vector);
    lemma_four_bits(n);
    lemma_two_bits(md);
}

proof fn lemma_b3_word(n: u16, offset: u16)
    requires
        n < 9,
        offset < 256,
    ensures
        ({
            let w = ((n << 8u16) | 0xC000u16) | offset;
            &&& dispatch_index(1, w, false) == 2
            &&& dispatch_index(5, w, false) == n
        }),
{
    let w = ((n << 8u16) | 0xC000u16) | offset;
    assert(n < 9 && offset < 256 && w == ((n << 8u16) | 0xC000u16) | offset ==> {
        &&& w & (1u16 << 15u16) != 0
        &&& w & (1u16 << 14u16) != 0
        &&& w & (1u16 << 13u16) == 0
        &&& (w & (1u16 << 11u16) != 0) == (n & 8 != 0)
        &&& (w & (1u16 << 10u16) != 0) == (n & 4 != 0)
        &&& (w & (1u16 << 9u16) != 0) == (n & 2 != 0)
        &&& (w & (1u16 << 8u16) != 0) == (n & 1 != 0)
    }) by (bit_vector);
    lemma_four_bits(n);
}

proof fn lemma_b4_word(w: u16)
    requires
        w >= 0xE000,
    ensures
        dispatch_index(1, w, false) == 3,
{
    assert(w >= 0xE000 ==> w & (1u16 << 15u16) != 0 && w & (1u16 << 14u16) != 0 && w & (1u16 << 13u16) != 0)
        by (bit_vector);
}

/// The control unit's dispatch decoding reads back what the encoder wrote into
/// an instruction's first word: the instruction group (selector 1), the opcode
/// within B1 (selector 4) or within B2 and B3 (selector 5), the source and
/// destination addressing modes (selectors 2 and 3) and the destination register
/// (the low four bits), as long as the registers are among the sixteen.
pub proof fn lemma_dispatch_reads_encoding(i: LocatedInstruction, symbols: Map<Seq<char>, u16>)
    requires
        i.instruction matches InstructionModel::TwoOperands { src, dst, .. } ==> register_in_range(src)
            && register_in_range(dst),
        i.instruction matches InstructionModel::OneOperand { dst, .. } ==> register_in_range(dst),
        form_matches_group(i.instruction),
    ensures
        ({
            let w = instruction_words(i, symbols)[0];
            &&& dispatch_index(1, w, false) == i.instruction.opcode().group()
            &&& i.instruction matches InstructionModel::TwoOperands { opcode: Opcode::B1(op), src, dst } ==> {
                &&& dispatch_index(4, w, false) == op.number()
                &&& dispatch_index(2, w, false) == addressing_mode(src)
                &&& dispatch_index(3, w, false) == addressing_mode(dst)
                &&& register_index(w) == register_of(dst)
            }
            &&& i.instruction matches InstructionModel::OneOperand { opcode: Opcode::B2(op), dst } ==> {
                &&& dispatch_index(5, w, false) == op.number()
                &&& dispatch_index(3, w, false) == addressing_mode(dst)
                &&& register_index(w) == register_of(dst)
            }
            &&& i.instruction matches InstructionModel::Jump { opcode: Opcode::B3(op), .. } ==> dispatch_index(
                5,
                w,
                false,
            ) == op.number()
        }),
{
    let w = instruction_words(i, symbols)[0];
    match i.instruction {
        InstructionModel::TwoOperands { opcode, src, dst } => {
            if let Opcode::B1(op) = opcode {
                lemma_b1_word(op.number(), addressing_mode(src), register_of(src), addressing_mode(dst), register_of(dst));
            }
        },
        InstructionModel::OneOperand { opcode, dst } => {
            if let Opcode::B2(op) = opcode {
                lemma_b2_word(op.number(), addressing_mode(dst), register_of(dst));
            }
        },
        InstructionModel::Jump { opcode, label } => {
            if let Opcode::B3(op) = opcode {
                lemma_b3_word(op.number(), branch_offset(symbols[label], i.address, i.size));
            }
        },
        InstructionModel::Diverse { opcode } => {
            if let Opcode::B4(op) = opcode {
                assert(b4_words()[op.number() as int] >= 0xE000);
                lemma_b4_word(b4_words()[op.number() as int]);
            }
        },
    }
}

/// The condition flags that a B4 flag instruction clears or sets, as FLAG
/// bits: C for `CLC`/`SEC`, V for `CLV`/`SEV`, Z for `CLZ`/`SEZ`, S for
/// `CLS`/`SES`, all four for `CCC`/`SCC`; none for the other B4 instructions.
pub open spec fn flags_named(op: OpcodeB4) -> u16 {
    match op {
        OpcodeB4::CLC | OpcodeB4::SEC => FLAG_C,
        OpcodeB4::CLV | OpcodeB4::SEV => FLAG_V,
        OpcodeB4::CLZ | OpcodeB4::SEZ => FLAG_Z,
        OpcodeB4::CLS | OpcodeB4::SES => FLAG_S,
        OpcodeB4::CCC | OpcodeB4::SCC => (FLAG_C | FLAG_Z | FLAG_S | FLAG_V),
        _ => 0,
    }
}

/// Whether `op` clears condition flags (`CL*`, `CCC`).
pub open spec fn clears_flags(op: OpcodeB4) -> bool {
    op == OpcodeB4::CLC || op == OpcodeB4::CLV || op == OpcodeB4::CLZ || op == OpcodeB4::CLS || op == OpcodeB4::CCC
}

/// Whether `op` sets condition flags (`SE*`, `SCC`).
pub open spec fn sets_flags(op: OpcodeB4) -> bool {
    op == OpcodeB4::SEC || op == OpcodeB4::SEV || op == OpcodeB4::SEZ || op == OpcodeB4::SES || op == OpcodeB4::SCC
}

/// The word of a flag instruction carries the flags it acts on in its low
/// four bits, laid out as in the FLAG register (C bit 3, Z bit 2, S bit 1,
/// V bit 0): a set instruction is `0xE100` with exactly those bits, a clear
/// instruction is `0xE0F0` with exactly those bits cleared from the low four.
pub proof fn lemma_flag_instruction_words(op: OpcodeB4)
    ensures
        sets_flags(op) ==> opcode_word(Opcode::B4(op)) == 0xE100 | flags_named(op),
        clears_flags(op) ==> opcode_word(Opcode::B4(op)) == 0xE0F0 | (0x000F & !flags_named(op)),
        flags_named(op) == 0b1000 <==> (op == OpcodeB4::CLC || op == OpcodeB4::SEC),
        flags_named(op) == 0b0100 <==> (op == OpcodeB4::CLZ || op == OpcodeB4::SEZ),
        flags_named(op) == 0b0010 <==> (op == OpcodeB4::CLS || op == OpcodeB4::SES),
        flags_named(op) == 0b0001 <==> (op == OpcodeB4::CLV || op == OpcodeB4::SEV),
{
    assert(8u16 | 4u16 | 2u16 | 1u16 == 15u16) by (bit_vector);
    assert(0xE100u16 | 8u16 == 0xE108u16 && 0xE100u16 | 1u16 == 0xE101u16 && 0xE100u16 | 4u16 == 0xE104u16
        && 0xE100u16 | 2u16 == 0xE102u16 && 0xE100u16 | 15u16 == 0xE10Fu16) by (bit_vector);
    assert(0xE0F0u16 | (0xFu16 & !8u16) == 0xE0F7u16 && 0xE0F0u16 | (0xFu16 & !1u16) == 0xE0FEu16 && 0xE0F0u16 | (
    0xFu16 & !4u16) == 0xE0FBu16 && 0xE0F0u16 | (0xFu16 & !2u16) == 0xE0FDu16 && 0xE0F0u16 | (0xFu16 & !15u16)
        == 0xE0F0u16) by (bit_vector);
}

} // verus!
