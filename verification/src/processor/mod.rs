//! The CPU: the machine and its microprogrammed control unit.

pub mod signals;
pub mod architecture;
pub mod control_unit;

use vstd::prelude::*;
use crate::memory::MemoryInterface;
use architecture::{ISA, IsaState, initial_state};
use control_unit::microarchitecture::ControlUnit;
use control_unit::sequencer::tick_result;
use control_unit::microarchitecture::{
    field, SBUS_MASK, SBUS_SHIFT, DBUS_MASK, DBUS_SHIFT, ALU_MASK, ALU_SHIFT, RBUS_MASK, RBUS_SHIFT, MEMORY_MASK,
    MEMORY_SHIFT, OTHER_MASK, OTHER_SHIFT,
};
use signals::{SBUS, DBUS, ALU, RBUS, Other};
use crate::text::{decimal, push_decimal};

verus! {

#[derive(Debug, Clone)]
pub struct CpuSnapshot {
    pub mir: u64,
    pub mar: u64,
    pub sequencer_state: u8,
    pub sbus: u16,
    pub dbus: u16,
    pub rbus: u16,
    pub flag: u16,
    pub sp: u16,
    pub t: u16,
    pub pc: u16,
    pub ivr: u16,
    pub adr: u16,
    pub mdr: u16,
    pub ir: u16,
    pub registers: [u16; 16],
    pub bpo: bool,
    pub be0_aclow: bool,
    pub be1_cil: bool,
    pub intr: bool,
    pub inta: bool,
}

/// The signals of the current microinstruction, by name.
#[derive(Debug, Clone)]
pub struct MirSignalsSnapshot {
    pub sbus: String,
    pub dbus: String,
    pub alu: String,
    pub rbus: String,
    pub memory: String,
    pub other: String,
}

/// The name of a decoded signal, or `INVALID(n)` for a field value `n` that names none.
pub open spec fn signal_text(name: Option<Seq<char>>, n: u64) -> Seq<char> {
    match name {
        Some(l) => l,
        None => "INVALID("@ + decimal(n as nat) + ")"@,
    }
}

pub open spec fn sbus_text(mir: u64) -> Seq<char> {
    let n = field(mir, SBUS_MASK, SBUS_SHIFT);
    signal_text(
        match SBUS::from_ordinal(n) {
            Some(s) => Some(s.label()),
            None => None,
        },
        n,
    )
}

pub open spec fn dbus_text(mir: u64) -> Seq<char> {
    let n = field(mir, DBUS_MASK, DBUS_SHIFT);
    signal_text(
        match DBUS::from_ordinal(n) {
            Some(s) => Some(s.label()),
            None => None,
        },
        n,
    )
}

pub open spec fn alu_text(mir: u64) -> Seq<char> {
    let n = field(mir, ALU_MASK, ALU_SHIFT);
    signal_text(
        match ALU::from_ordinal(n) {
            Some(s) => Some(s.label()),
            None => None,
        },
        n,
    )
}

pub open spec fn rbus_text(mir: u64) -> Seq<char> {
    let n = field(mir, RBUS_MASK, RBUS_SHIFT);
    signal_text(
        match RBUS::from_ordinal(n) {
            Some(s) => Some(s.label()),
            None => None,
        },
        n,
    )
}

pub open spec fn memory_text(mir: u64) -> Seq<char> {
    let n = field(mir, MEMORY_MASK, MEMORY_SHIFT);
    signal_text(
        match signals::Memory::from_ordinal(n) {
            Some(s) => Some(s.label()),
            None => None,
        },
        n,
    )
}

pub open spec fn other_text(mir: u64) -> Seq<char> {
    let n = field(mir, OTHER_MASK, OTHER_SHIFT);
    signal_text(
        match Other::from_ordinal(n) {
            Some(s) => Some(s.label()),
            None => None,
        },
        n,
    )
}

fn signal_string(name: Option<&'static str>, n: u64) -> (r: String)
    ensures
        r@ == signal_text(
            match name {
                Some(s) => Some(s@),
                None => None,
            },
            n,
        ),
{
    let mut text = String::new();
    match name {
        Some(s) => {
            text.append(s);
            assert(text@ =~= s@);
        },
        None => {
            text.append("INVALID(");
            push_decimal(&mut text, n);
            text.append(")");
            assert(text@ =~= "INVALID("@ + decimal(n as nat) + ")"@);
        },
    }
    text
}

/// Why a bounded run stopped.
#[derive(Debug, Clone, Copy, PartialEq, Eq, Structural)]
pub enum RunEnd {
    /// The machine switched itself off.
    Halted,
    /// The given number of ticks ran out first.
    OutOfTicks,
    /// The next tick is impossible: the sequencer is outside its three phases,
    /// or MAR lies outside the microprogram when a microinstruction is to be loaded.
    Stuck,
}

/// Phase, MIR, MAR and machine state after ticking from `st` while the machine
/// is on, at most `n` times, and why that stopped.
pub open spec fn run_result(st: (u8, u64, u64, IsaState), mpm: Seq<u64>, n: nat) -> ((u8, u64, u64, IsaState), RunEnd)
    decreases n,
{
    if !st.3.bpo {
        (st, RunEnd::Halted)
    } else if n == 0 {
        (st, RunEnd::OutOfTicks)
    } else if !(st.0 < 3 && (st.0 == 0 ==> st.2 < mpm.len())) {
        (st, RunEnd::Stuck)
    } else {
        run_result(tick_result(st.0, st.1, st.2, mpm, st.3), mpm, (n - 1) as nat)
    }
}

#[allow(non_camel_case_types, clippy::upper_case_acronyms)]
pub struct CPU {
    pub control_unit: ControlUnit,
    pub isa: ISA,
}

impl CPU {
    /// A powered-on CPU with `memory` as its main memory, running `microprogram`
    /// from microaddress 0.
    pub fn new(memory: MemoryInterface, microprogram: Vec<u64>) -> (r: Self)
        ensures
            r.isa@ == initial_state(memory@),
            r.control_unit.micro_code.MIR == 0,
            r.control_unit.micro_code.MAR == 0,
            r.control_unit.micro_code.MPM@ == microprogram@,
            r.control_unit.sequencer.state == 0,
    {
        Self { control_unit: ControlUnit::new(microprogram), isa: ISA::new(memory) }
    }

    /// Whether the CPU may tick: the sequencer is in one of its three phases
    /// and, before a microinstruction is loaded, MAR lies inside the microprogram.
    pub open spec fn can_tick(&self) -> bool {
        &&& self.control_unit.sequencer.state < 3
        &&& self.control_unit.sequencer.state == 0 ==> self.control_unit.micro_code.MAR
            < self.control_unit.micro_code.MPM.len()
    }

    /// One phase of the microinstruction cycle.
    pub fn tick(&mut self)
        requires
            old(self).can_tick(),
        ensures
            final(self).control_unit.micro_code.MPM@ == old(self).control_unit.micro_code.MPM@,
            (
                final(self).control_unit.sequencer.state,
                final(self).control_unit.micro_code.MIR,
                final(self).control_unit.micro_code.MAR,
                final(self).isa@,
            ) == tick_result(
                old(self).control_unit.sequencer.state,
                old(self).control_unit.micro_code.MIR,
                old(self).control_unit.micro_code.MAR,
                old(self).control_unit.micro_code.MPM@,
                old(self).isa@,
            ),
    {
        self.control_unit.sequencer.tick(&mut self.control_unit.micro_code, &mut self.isa);
    }

    /// Phase, MIR, MAR and machine state.
    pub open spec fn cycle_state(&self) -> (u8, u64, u64, IsaState) {
        (
            self.control_unit.sequencer.state,
            self.control_unit.micro_code.MIR,
            self.control_unit.micro_code.MAR,
            self.isa@,
        )
    }

    /// Ticks while the machine is on, at most `max_ticks` times, stopping
    /// early where a tick is impossible; says why it stopped.
    pub fn run_for(&mut self, max_ticks: u64) -> (r: RunEnd)
        ensures
            final(self).control_unit.micro_code.MPM@ == old(self).control_unit.micro_code.MPM@,
            (final(self).cycle_state(), r) == run_result(
                old(self).cycle_state(),
                old(self).control_unit.micro_code.MPM@,
                max_ticks as nat,
            ),
    {
        let ghost mpm = self.control_unit.micro_code.MPM@;
        let ghost start = self.cycle_state();
        let mut left = max_ticks;
        loop
            invariant
                self.control_unit.micro_code.MPM@ == mpm,
                mpm == old(self).control_unit.micro_code.MPM@,
                start == old(self).cycle_state(),
                run_result(self.cycle_state(), mpm, left as nat) == run_result(start, mpm, max_ticks as nat),
            decreases left,
        {
            if !self.isa.BPO {
                return RunEnd::Halted;
            }
            if left == 0 {
                return RunEnd::OutOfTicks;
            }
            let state = self.control_unit.sequencer.state;
            if !(state < 3 && (state != 0
                || (self.control_unit.micro_code.MAR as u128) < (self.control_unit.micro_code.MPM.len() as u128))) {
                return RunEnd::Stuck;
            }
            self.tick();
            left = left - 1;
        }
    }

    /// Whether the machine is switched off.
    pub fn is_halted(&self) -> (r: bool)
        ensures
            r == !self.isa.BPO,
    {
        !self.isa.BPO
    }

    /// The microprogram memory.
    pub fn microprogram(&self) -> (r: &[u64])
        ensures
            r@ == self.control_unit.micro_code.MPM@,
    {
        self.control_unit.micro_code.MPM.as_slice()
    }

    /// The values of every register, bus and status line.
    pub fn snapshot(&self) -> (r: CpuSnapshot)
        ensures
            r == (CpuSnapshot {
                mir: self.control_unit.micro_code.MIR,
                mar: self.control_unit.micro_code.MAR,
                sequencer_state: self.control_unit.sequencer.state,
                sbus: self.isa.SBUS,
                dbus: self.isa.DBUS,
                rbus: self.isa.RBUS,
                flag: self.isa.FLAG,
                sp: self.isa.SP,
                t: self.isa.T,
                pc: self.isa.PC,
                ivr: self.isa.IVR,
                adr: self.isa.ADR,
                mdr: self.isa.MDR,
                ir: self.isa.IR,
                registers: self.isa.RG,
                bpo: self.isa.BPO,
                be0_aclow: self.isa.BE0_ACLOW,
                be1_cil: self.isa.BE1_CIL,
                intr: self.isa.INTR,
                inta: self.isa.INTA,
            }),
    {
        CpuSnapshot {
            mir: self.control_unit.micro_code.MIR,
            mar: self.control_unit.micro_code.MAR,
            sequencer_state: self.control_unit.sequencer.state,
            sbus: self.isa.SBUS,
            dbus: self.isa.DBUS,
            rbus: self.isa.RBUS,
            flag: self.isa.FLAG,
            sp: self.isa.SP,
            t: self.isa.T,
            pc: self.isa.PC,
            ivr: self.isa.IVR,
            adr: self.isa.ADR,
            mdr: self.isa.MDR,
            ir: self.isa.IR,
            registers: self.isa.RG,
            bpo: self.isa.BPO,
            be0_aclow: self.isa.BE0_ACLOW,
            be1_cil: self.isa.BE1_CIL,
            intr: self.isa.INTR,
            inta: self.isa.INTA,
        }
    }

    /// The signals that the current microinstruction selects, by name.
    pub fn mir_signals_snapshot(&self) -> (r: MirSignalsSnapshot)
        ensures
            r.sbus@ == sbus_text(self.control_unit.micro_code.MIR),
            r.dbus@ == dbus_text(self.control_unit.micro_code.MIR),
            r.alu@ == alu_text(self.control_unit.micro_code.MIR),
            r.rbus@ == rbus_text(self.control_unit.micro_code.MIR),
            r.memory@ == memory_text(self.control_unit.micro_code.MIR),
            r.other@ == other_text(self.control_unit.micro_code.MIR),
    {
        let mir = self.control_unit.micro_code.MIR;

        let sbus_idx = (mir & SBUS_MASK) >> SBUS_SHIFT;
        let dbus_idx = (mir & DBUS_MASK) >> DBUS_SHIFT;
        let alu_idx = (mir & ALU_MASK) >> ALU_SHIFT;
        let rbus_idx = (mir & RBUS_MASK) >> RBUS_SHIFT;
        let memory_idx = (mir & MEMORY_MASK) >> MEMORY_SHIFT;
        let other_idx = (mir & OTHER_MASK) >> OTHER_SHIFT;

        let sbus = signal_string(
            match SBUS::from_u64(sbus_idx) {
                Some(signal) => Some(signal.name()),
                None => None,
            },
            sbus_idx,
        );
        let dbus = signal_string(
            match DBUS::from_u64(dbus_idx) {
                Some(signal) => Some(signal.name()),
                None => None,
            },
            dbus_idx,
        );
        let alu = signal_string(
            match ALU::from_u64(alu_idx) {
                Some(signal) => Some(signal.name()),
                None => None,
            },
            alu_idx,
        );
        let rbus = signal_string(
            match RBUS::from_u64(rbus_idx) {
                Some(signal) => Some(signal.name()),
                None => None,
            },
            rbus_idx,
        );
        let memory = signal_string(
            match signals::Memory::from_u64(memory_idx) {
                Some(signal) => Some(signal.name()),
                None => None,
            },
            memory_idx,
        );
        let other = signal_string(
            match Other::from_u64(other_idx) {
                Some(signal) => Some(signal.name()),
                None => None,
            },
            other_idx,
        );

        MirSignalsSnapshot { sbus, dbus, alu, rbus, memory, other }
    }
}

} // verus!
