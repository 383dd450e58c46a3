//! The microprogrammed control unit: microinstruction register (MIR),
//! microaddress register (MAR), microprogram memory (MPM), branch condition
//! and dispatch index.

use vstd::prelude::*;
use crate::processor::architecture::{
    ISA, IsaState, AluOutcome, FLAG_C, FLAG_Z, FLAG_S, FLAG_V, has_bits, step, arithmetic_flags, lemma_arithmetic_flag_bits,
};
use crate::processor::signals::{self, SBUS, DBUS, ALU, RBUS, Other};
use super::sequencer::Sequencer;

verus! {

pub const SBUS_MASK:        u64 = 0b1111_0000_0000_0000_0000_0000_0000_0000_0000;
pub const DBUS_MASK:        u64 = 0b0000_1111_0000_0000_0000_0000_0000_0000_0000;
pub const ALU_MASK:         u64 = 0b0000_0000_1111_0000_0000_0000_0000_0000_0000;
pub const RBUS_MASK:        u64 = 0b0000_0000_0000_1111_0000_0000_0000_0000_0000;
pub const MEMORY_MASK:      u64 = 0b0000_0000_0000_0000_1100_0000_0000_0000_0000;
pub const OTHER_MASK:       u64 = 0b0000_0000_0000_0000_0011_1100_0000_0000_0000;
pub const SUCCESSOR_MASK:   u64 = 0b0000_0000_0000_0000_0000_0011_1000_0000_0000;
pub const INDEX_MASK:       u64 = 0b0000_0000_0000_0000_0000_0000_0111_0000_0000;
pub const TRUE_FALSE_MASK:  u64 = 0b0000_0000_0000_0000_0000_0000_0000_1000_0000;
pub const JUMP_ADDR_MASK:   u64 = 0b0000_0000_0000_0000_0000_0000_0000_0111_1111;

/// Position of the lowest bit of each field (the number of trailing zeros of its mask).
pub const SBUS_SHIFT: u64 = 32;
pub const DBUS_SHIFT: u64 = 28;
pub const ALU_SHIFT: u64 = 24;
pub const RBUS_SHIFT: u64 = 20;
pub const MEMORY_SHIFT: u64 = 18;
pub const OTHER_SHIFT: u64 = 14;
pub const SUCCESSOR_SHIFT: u64 = 11;
pub const INDEX_SHIFT: u64 = 8;
pub const TRUE_FALSE_SHIFT: u64 = 7;

#[allow(non_snake_case)]
pub struct MicroCode {
    pub MIR: u64,
    pub MAR: u64,
    pub MPM: Vec<u64>,
}

#[allow(non_camel_case_types)]
pub enum MicroSignal {
    /// Load MAR with the jump address plus the dispatch index (IR, INTR).
    LdMAR(u16, bool),
    /// Step MAR to the next microinstruction.
    plus1MAR,
    /// Load MIR from the microprogram memory at MAR.
    LdMIR,
}

pub struct ControlUnit {
    pub micro_code: MicroCode,
    pub sequencer: Sequencer,
}

/// The field of `mir` under `mask`, moved down by `shift`.
pub open spec fn field(mir: u64, mask: u64, shift: u64) -> u64 {
    (mir & mask) >> shift
}

/// Bit `n` of `word`.
pub open spec fn bit_of(word: u16, n: u16) -> bool {
    word & (1u16 << n) != 0
}

pub open spec fn bit_value(b: bool) -> int {
    if b { 1 } else { 0 }
}

/// The branch condition that a microinstruction tests: a selected condition
/// (0: the true/false bit itself, 1: its negation, 2: BE0, 3: BE1, 4..7: C, Z, S, V)
/// compared against the true/false bit. The branch is taken when they differ.
pub open spec fn branch_taken(mir: u64, s: IsaState) -> bool {
    let selector = field(mir, SUCCESSOR_MASK, SUCCESSOR_SHIFT);
    let t_f = field(mir, TRUE_FALSE_MASK, TRUE_FALSE_SHIFT) != 0;
    let f = if selector == 0 {
        t_f
    } else if selector == 1 {
        !t_f
    } else if selector == 2 {
        s.be0_aclow
    } else if selector == 3 {
        s.be1_cil
    } else if selector == 4 {
        has_bits(s.flag, FLAG_C)
    } else if selector == 5 {
        has_bits(s.flag, FLAG_Z)
    } else if selector == 6 {
        has_bits(s.flag, FLAG_S)
    } else {
        has_bits(s.flag, FLAG_V)
    };
    f != t_f
}

/// The dispatch index selected by `selector`, read from the instruction word `ir`
/// and the interrupt request:
/// 0: none; 1: instruction class (IR15..13, Gray code to binary);
/// 2: IR11..10 (source mode); 3: IR5..4 (destination mode);
/// 4: IR14..12; 5: IR11..8; 6: IR11..8 times two; 7: four when an interrupt is requested.
pub open spec fn dispatch_index(selector: u64, ir: u16, intr: bool) -> int {
    if selector == 0 {
        0
    } else if selector == 1 {
        let cl1 = bit_of(ir, 15) && bit_of(ir, 14);
        let cl0 = bit_of(ir, 15) && !bit_of(ir, 13);
        2 * bit_value(cl1) + bit_value(cl1 != cl0)
    } else if selector == 2 {
        2 * bit_value(bit_of(ir, 11)) + bit_value(bit_of(ir, 10))
    } else if selector == 3 {
        2 * bit_value(bit_of(ir, 5)) + bit_value(bit_of(ir, 4))
    } else if selector == 4 {
        4 * bit_value(bit_of(ir, 14)) + 2 * bit_value(bit_of(ir, 13)) + bit_value(bit_of(ir, 12))
    } else if selector == 5 {
        8 * bit_value(bit_of(ir, 11)) + 4 * bit_value(bit_of(ir, 10)) + 2 * bit_value(bit_of(ir, 9))
            + bit_value(bit_of(ir, 8))
    } else if selector == 6 {
        16 * bit_value(bit_of(ir, 11)) + 8 * bit_value(bit_of(ir, 10)) + 4 * bit_value(bit_of(ir, 9))
            + 2 * bit_value(bit_of(ir, 8))
    } else {
        4 * bit_value(intr)
    }
}

/// The six signals that `mir` selects, or `None` when one of its fields names no signal.
pub open spec fn decoded_signals(mir: u64) -> Option<(SBUS, DBUS, ALU, RBUS, signals::Memory, Other)> {
    match (
        SBUS::from_ordinal(field(mir, SBUS_MASK, SBUS_SHIFT)),
        DBUS::from_ordinal(field(mir, DBUS_MASK, DBUS_SHIFT)),
        ALU::from_ordinal(field(mir, ALU_MASK, ALU_SHIFT)),
        RBUS::from_ordinal(field(mir, RBUS_MASK, RBUS_SHIFT)),
        signals::Memory::from_ordinal(field(mir, MEMORY_MASK, MEMORY_SHIFT)),
        Other::from_ordinal(field(mir, OTHER_MASK, OTHER_SHIFT)),
    ) {
        (Some(s), Some(d), Some(a), Some(r), Some(m), Some(o)) => Some((s, d, a, r, m, o)),
        _ => None,
    }
}

/// The machine after the microinstruction `mir` drives it: its register transfers
/// when every field names a signal, else only the illegal-code exception raised.
pub open spec fn microinstruction_effect(mir: u64, s: IsaState) -> IsaState {
    match decoded_signals(mir) {
        Some((sb, db, a, r, m, o)) => step(s, sb, db, r, a, m, o),
        None => IsaState { be1_cil: true, ..s },
    }
}

/// MAR after a microsignal; `mpm` is consulted by `LdMIR` only, which does not change MAR.
pub open spec fn next_mar(mir: u64, mar: u64, signal: MicroSignal) -> u64 {
    match signal {
        MicroSignal::LdMAR(ir, intr) => ((mir & JUMP_ADDR_MASK) + dispatch_index(
            field(mir, INDEX_MASK, INDEX_SHIFT),
            ir,
            intr,
        )) as u64,
        MicroSignal::plus1MAR => mar.wrapping_add(1),
        MicroSignal::LdMIR => mar,
    }
}

/// MIR after a microsignal.
pub open spec fn next_mir(mir: u64, mar: u64, mpm: Seq<u64>, signal: MicroSignal) -> u64 {
    match signal {
        MicroSignal::LdMIR => mpm[mar as int],
        _ => mir,
    }
}

fn get_nth_bit(value: u16, n: u16) -> (r: bool)
    requires
        n < 16,
    ensures
        r == bit_of(value, n),
{
    (value & (1u16 << n)) != 0
}

fn bit_number(b: bool) -> (r: u8)
    ensures
        r == bit_value(b),
{
    if b { 1 } else { 0 }
}

impl MicroCode {
    /// A control unit state at microaddress 0 running the microprogram `microprogram`.
    pub fn new(microprogram: Vec<u64>) -> (r: Self)
        ensures
            r.MIR == 0,
            r.MAR == 0,
            r.MPM@ == microprogram@,
    {
        Self { MIR: 0, MAR: 0, MPM: microprogram }
    }

    /// Whether the current microinstruction branches on the machine state `isa`.
    pub fn get_g(&self, isa: &ISA) -> (r: bool)
        ensures
            r == branch_taken(self.MIR, isa@),
    {
        let mir = self.MIR;
        let succesor_idx = (mir & SUCCESSOR_MASK) >> SUCCESSOR_SHIFT;
        let t_f_idx = (mir & TRUE_FALSE_MASK) >> TRUE_FALSE_SHIFT;
        assert((mir & SUCCESSOR_MASK) >> SUCCESSOR_SHIFT <= 7) by (bit_vector);

        let t_f: bool = t_f_idx != 0;
        let f: bool = match succesor_idx {
            0 => t_f,
            1 => !t_f,
            2 => isa.BE0_ACLOW,
            3 => isa.BE1_CIL,
            4 => isa.get_C(),
            5 => isa.get_Z(),
            6 => isa.get_S(),
            _ => isa.get_V(),
        };

        f != t_f
    }

    /// The dispatch index that the current microinstruction selects.
    #[allow(non_snake_case)]
    pub fn get_index(&self, IR: u16, INTR: bool) -> (r: u8)
        ensures
            r == dispatch_index(field(self.MIR, INDEX_MASK, INDEX_SHIFT), IR, INTR),
    {
        let mir = self.MIR;
        let index_idx = (mir & INDEX_MASK) >> INDEX_SHIFT;
        assert((mir & INDEX_MASK) >> INDEX_SHIFT <= 7) by (bit_vector);

        match index_idx {
            0 => 0,
            1 => {
                let CL1: bool = get_nth_bit(IR, 15) && get_nth_bit(IR, 14);
                let CL0: bool = get_nth_bit(IR, 15) && !get_nth_bit(IR, 13);
                2 * bit_number(CL1) + bit_number(CL1 != CL0)
            },
            2 => 2 * bit_number(get_nth_bit(IR, 11)) + bit_number(get_nth_bit(IR, 10)),
            3 => 2 * bit_number(get_nth_bit(IR, 5)) + bit_number(get_nth_bit(IR, 4)),
            4 => {
                4 * bit_number(get_nth_bit(IR, 14)) + 2 * bit_number(get_nth_bit(IR, 13))
                    + bit_number(get_nth_bit(IR, 12))
            },
            5 => {
                8 * bit_number(get_nth_bit(IR, 11)) + 4 * bit_number(get_nth_bit(IR, 10))
                    + 2 * bit_number(get_nth_bit(IR, 9)) + bit_number(get_nth_bit(IR, 8))
            },
            6 => {
                16 * bit_number(get_nth_bit(IR, 11)) + 8 * bit_number(get_nth_bit(IR, 10))
                    + 4 * bit_number(get_nth_bit(IR, 9)) + 2 * bit_number(get_nth_bit(IR, 8))
            },
            _ => 4 * bit_number(INTR),
        }
    }

    /// Carries out one microsignal on MAR or MIR.
    pub fn process_microsignal(&mut self, signal: &MicroSignal)
        requires
            *signal is LdMIR ==> old(self).MAR < old(self).MPM.len(),
        ensures
            final(self).MPM@ == old(self).MPM@,
            final(self).MAR == next_mar(old(self).MIR, old(self).MAR, *signal),
            final(self).MIR == next_mir(old(self).MIR, old(self).MAR, old(self).MPM@, *signal),
    {
        match signal {
            MicroSignal::LdMAR(IR, INTR) => {
                let index = self.get_index(*IR, *INTR);
                let mir = self.MIR;
                assert(mir & JUMP_ADDR_MASK <= 127) by (bit_vector);
                self.MAR = (mir & JUMP_ADDR_MASK) + index as u64;
            },
            MicroSignal::plus1MAR => {
                self.MAR = self.MAR.wrapping_add(1);
            },
            MicroSignal::LdMIR => {
                self.MIR = self.MPM[self.MAR as usize];
            },
        }
    }

    /// Decodes the current microinstruction and drives the machine with it; a
    /// field that names no signal raises the illegal-code exception instead.
    pub fn generate_signals(&self, isa: &mut ISA)
        ensures
            final(isa)@ == microinstruction_effect(self.MIR, old(isa)@),
    {
        let sbus_idx = (self.MIR & SBUS_MASK) >> SBUS_SHIFT;
        let dbus_idx = (self.MIR & DBUS_MASK) >> DBUS_SHIFT;
        let alu_idx = (self.MIR & ALU_MASK) >> ALU_SHIFT;
        let rbus_idx = (self.MIR & RBUS_MASK) >> RBUS_SHIFT;
        let memory_idx = (self.MIR & MEMORY_MASK) >> MEMORY_SHIFT;
        let other_idx = (self.MIR & OTHER_MASK) >> OTHER_SHIFT;

        let sbus_signal = match SBUS::from_u64(sbus_idx) {
            Some(signal) => signal,
            None => {
                isa.BE1_CIL = true;
                return;
            },
        };
        let dbus_signal = match DBUS::from_u64(dbus_idx) {
            Some(signal) => signal,
            None => {
                isa.BE1_CIL = true;
                return;
            },
        };
        let alu_signal = match ALU::from_u64(alu_idx) {
            Some(signal) => signal,
            None => {
                isa.BE1_CIL = true;
                return;
            },
        };
        let rbus_signal = match RBUS::from_u64(rbus_idx) {
            Some(signal) => signal,
            None => {
                isa.BE1_CIL = true;
                return;
            },
        };
        let memory_signal = match signals::Memory::from_u64(memory_idx) {
            Some(signal) => signal,
            None => {
                isa.BE1_CIL = true;
                return;
            },
        };
        let other_signal = match Other::from_u64(other_idx) {
            Some(signal) => signal,
            None => {
                isa.BE1_CIL = true;
                return;
            },
        };

        isa.execute(&sbus_signal, &dbus_signal, &rbus_signal, &alu_signal, &memory_signal, &other_signal);
    }
}

impl ControlUnit {
    /// A control unit at microaddress 0, sequencer in its first phase.
    pub fn new(microprogram: Vec<u64>) -> (r: Self)
        ensures
            r.micro_code.MIR == 0,
            r.micro_code.MAR == 0,
            r.micro_code.MPM@ == microprogram@,
            r.sequencer.state == 0,
    {
        Self { micro_code: MicroCode::new(microprogram), sequencer: Sequencer { state: 0 } }
    }
}

/// Successor selector 0 never branches and selector 1 always branches,
/// whatever the true/false bit and the machine state.
pub proof fn lemma_unconditional_successors(mir: u64, s: IsaState)
    ensures
        field(mir, SUCCESSOR_MASK, SUCCESSOR_SHIFT) == 0 ==> !branch_taken(mir, s),
        field(mir, SUCCESSOR_MASK, SUCCESSOR_SHIFT) == 1 ==> branch_taken(mir, s),
{
}

/// A branch lands at most 30 microinstructions past the jump address, which
/// itself is below 128.
pub proof fn lemma_branch_target_bound(mir: u64, ir: u16, intr: bool)
    ensures
        next_mar(mir, 0, MicroSignal::LdMAR(ir, intr)) <= 127 + 30,
{
    assert(mir & JUMP_ADDR_MASK <= 127) by (bit_vector);
    assert((mir & INDEX_MASK) >> INDEX_SHIFT <= 7) by (bit_vector);
}

/// How a microinstruction's successor field (bits 13..11) and true/false bit
/// (bit 7) decide a branch: the branch is taken exactly when the true/false bit
/// differs from the selected condition, which is, by field value, the
/// true/false bit itself (0), its negation (1), the low-power exception (2), the
/// illegal-code exception (3), or the flag bit C (bit 3 of FLAG, 4), Z (bit 2,
/// 5), S (bit 1, 6) or V (bit 0, 7).
pub proof fn lemma_branch_condition(mir: u64, s: IsaState)
    ensures
        ({
            let selector = (mir >> 11u64) & 7;
            let t_f = (mir >> 7u64) & 1 == 1;
            &&& selector == 0 ==> !branch_taken(mir, s)
            &&& selector == 1 ==> branch_taken(mir, s)
            &&& selector == 2 ==> branch_taken(mir, s) == (s.be0_aclow != t_f)
            &&& selector == 3 ==> branch_taken(mir, s) == (s.be1_cil != t_f)
            &&& selector == 4 ==> branch_taken(mir, s) == ((s.flag & 0b1000 != 0) != t_f)
            &&& selector == 5 ==> branch_taken(mir, s) == ((s.flag & 0b0100 != 0) != t_f)
            &&& selector == 6 ==> branch_taken(mir, s) == ((s.flag & 0b0010 != 0) != t_f)
            &&& selector == 7 ==> branch_taken(mir, s) == ((s.flag & 0b0001 != 0) != t_f)
        }),
{
    assert(field(mir, SUCCESSOR_MASK, SUCCESSOR_SHIFT) == (mir >> 11u64) & 7) by (bit_vector);
    assert((field(mir, TRUE_FALSE_MASK, TRUE_FALSE_SHIFT) != 0) == ((mir >> 7u64) & 1 == 1)) by (bit_vector);
    assert((mir >> 11u64) & 7 < 8) by (bit_vector);
}

/// Branching on a condition flag right after a microinstruction that set the
/// flags from an ALU outcome (true/false bit clear): on C the branch is taken
/// exactly when the operation carried, on Z when its result is zero, on S when
/// its result is negative, on V when it overflowed.
pub proof fn lemma_branch_on_fresh_flags(mir: u64, s: IsaState, out: AluOutcome)
    requires
        (mir >> 7u64) & 1 == 0,
    ensures
        ({
            let t = IsaState { flag: arithmetic_flags(s.flag, out), ..s };
            let selector = (mir >> 11u64) & 7;
            &&& selector == 4 ==> branch_taken(mir, t) == out.carry
            &&& selector == 5 ==> branch_taken(mir, t) == (out.result == 0)
            &&& selector == 6 ==> branch_taken(mir, t) == (out.result >= 0x8000)
            &&& selector == 7 ==> branch_taken(mir, t) == out.overflow
        }),
{
    let t = IsaState { flag: arithmetic_flags(s.flag, out), ..s };
    lemma_branch_condition(mir, t);
    lemma_arithmetic_flag_bits(s.flag, out);
}

} // verus!
