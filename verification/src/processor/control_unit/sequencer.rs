//! The sequencer: a three-phase cycle that loads a microinstruction, picks the
//! next microaddress, and drives the machine.

use vstd::prelude::*;
use crate::processor::architecture::{ISA, IsaState};
use super::microarchitecture::{MicroCode, MicroSignal, branch_taken, decoded_signals, microinstruction_effect, next_mar};

verus! {

pub struct Sequencer {
    pub state: u8,
}

/// The phase that follows `state`: 0 -> 1 -> 2 -> 0.
pub open spec fn next_phase(state: u8) -> u8 {
    if state == 0 {
        1
    } else if state == 1 {
        2
    } else {
        0
    }
}

/// The microaddress chosen in the second phase: the branch target when the
/// branch condition holds on the machine, otherwise the next microaddress.
pub open spec fn chosen_mar(mir: u64, mar: u64, s: IsaState) -> u64 {
    if branch_taken(mir, s) {
        next_mar(mir, mar, MicroSignal::LdMAR(s.ir, s.intr))
    } else {
        next_mar(mir, mar, MicroSignal::plus1MAR)
    }
}

/// The machine after the third phase: the microinstruction's effect, and the
/// machine switched off when that raised the illegal-code exception.
pub open spec fn after_execution(mir: u64, s: IsaState) -> IsaState {
    let e = microinstruction_effect(mir, s);
    if e.be1_cil {
        IsaState { bpo: false, ..e }
    } else {
        e
    }
}

/// Phase, MIR, MAR and machine state after one tick from phase `state`.
pub open spec fn tick_result(state: u8, mir: u64, mar: u64, mpm: Seq<u64>, s: IsaState) -> (u8, u64, u64, IsaState) {
    if state == 0 {
        (1, mpm[mar as int], mar, s)
    } else if state == 1 {
        (2, mir, chosen_mar(mir, mar, s), s)
    } else {
        (0, mir, mar, after_execution(mir, s))
    }
}

impl Sequencer {
    /// One phase of the microinstruction cycle: load MIR, choose the next
    /// microaddress, or drive the machine (switching it off on an illegal code).
    pub fn tick(&mut self, micro_arch: &mut MicroCode, isa: &mut ISA)
        requires
            old(self).state < 3,
            old(self).state == 0 ==> old(micro_arch).MAR < old(micro_arch).MPM.len(),
        ensures
            final(micro_arch).MPM@ == old(micro_arch).MPM@,
            (final(self).state, final(micro_arch).MIR, final(micro_arch).MAR, final(isa)@) == tick_result(
                old(self).state,
                old(micro_arch).MIR,
                old(micro_arch).MAR,
                old(micro_arch).MPM@,
                old(isa)@,
            ),
    {
        match self.state {
            0 => {
                micro_arch.process_microsignal(&MicroSignal::LdMIR);
                self.state = 1;
            },
            1 => {
                if micro_arch.get_g(isa) {
                    micro_arch.process_microsignal(&MicroSignal::LdMAR(isa.IR, isa.INTR));
                } else {
                    micro_arch.process_microsignal(&MicroSignal::plus1MAR);
                }
                self.state = 2;
            },
            _ => {
                micro_arch.generate_signals(isa);

                if isa.BE1_CIL {
                    isa.BPO = false;
                }

                self.state = 0;
            },
        }
    }
}

/// A microinstruction with a field that names no signal raises the illegal-code
/// exception and switches the machine off, changing nothing else.
pub proof fn lemma_illegal_microinstruction_halts(mir: u64, s: IsaState)
    requires
        decoded_signals(mir) is None,
    ensures
        after_execution(mir, s) == (IsaState { be1_cil: true, bpo: false, ..s }),
{
}

/// Three ticks take the sequencer through its three phases and back.
pub proof fn lemma_phase_cycle(state: u8)
    requires
        state < 3,
    ensures
        next_phase(state) < 3,
        next_phase(next_phase(next_phase(state))) == state,
{
}

} // verus!
