//! The programmer-visible machine: registers, buses, flags and memory, and
//! the register-transfer semantics of one microinstruction.

use vstd::prelude::*;
use super::signals;
use super::signals::{SBUS, DBUS, ALU, RBUS, Other};
use crate::memory::MemoryInterface;

verus! {

broadcast use crate::memory::lemma_memory_size;

/// Flag register bits: BVI(7), C(3), Z(2), S(1), V(0).
pub const FLAG_BVI: u16 = 0b1000_0000;
pub const FLAG_C: u16 = 0b0000_1000;
pub const FLAG_Z: u16 = 0b0000_0100;
pub const FLAG_S: u16 = 0b0000_0010;
pub const FLAG_V: u16 = 0b0000_0001;

pub const RS_MASK: u16 = 0b0000_0011_1100_0000;
pub const RD_MASK: u16 = 0b0000_0000_0000_1111;

/// Sign bit of a 16-bit word.
pub const SIGN_BIT: u16 = 0x8000;

#[allow(non_snake_case)]
pub struct ISA {
    pub MEM: MemoryInterface,
    pub SBUS: u16,
    pub DBUS: u16,
    pub RBUS: u16,
    pub FLAG: u16,
    pub SP: u16,
    pub T: u16,
    pub PC: u16,
    pub IVR: u16,
    pub ADR: u16,
    pub MDR: u16,
    pub IR: u16,
    pub RG: [u16; 16],
    /// On/off.
    pub BPO: bool,
    /// Exception 0: low power.
    pub BE0_ACLOW: bool,
    /// Exception 1: illegal code.
    pub BE1_CIL: bool,
    /// Interrupt request.
    pub INTR: bool,
    /// Interrupt acknowledge.
    pub INTA: bool,
}

/// The state of the machine as values.
pub struct IsaState {
    pub mem: Seq<u16>,
    pub sbus: u16,
    pub dbus: u16,
    pub rbus: u16,
    pub flag: u16,
    pub sp: u16,
    pub t: u16,
    pub pc: u16,
    pub ivr: u16,
    pub adr: u16,
    pub mdr: u16,
    pub ir: u16,
    pub rg: Seq<u16>,
    pub bpo: bool,
    pub be0_aclow: bool,
    pub be1_cil: bool,
    pub intr: bool,
    pub inta: bool,
}

impl View for ISA {
    type V = IsaState;

    open spec fn view(&self) -> IsaState {
        IsaState {
            mem: self.MEM@,
            sbus: self.SBUS,
            dbus: self.DBUS,
            rbus: self.RBUS,
            flag: self.FLAG,
            sp: self.SP,
            t: self.T,
            pc: self.PC,
            ivr: self.IVR,
            adr: self.ADR,
            mdr: self.MDR,
            ir: self.IR,
            rg: self.RG@,
            bpo: self.BPO,
            be0_aclow: self.BE0_ACLOW,
            be1_cil: self.BE1_CIL,
            intr: self.INTR,
            inta: self.INTA,
        }
    }
}

/// `flag` with the bits of `mask` set when `value` holds and cleared otherwise.
pub open spec fn with_bits(flag: u16, mask: u16, value: bool) -> u16 {
    if value {
        flag | mask
    } else {
        flag & !mask
    }
}

/// Whether any bit of `mask` is set in `flag`.
pub open spec fn has_bits(flag: u16, mask: u16) -> bool {
    flag & mask != 0
}

/// The general register that a register field of `ir` selects: the low four bits.
pub open spec fn register_index(ir: u16) -> int {
    (ir & 0x000F) as int
}

/// Value the source bus carries for a signal.
pub open spec fn source_bus(s: IsaState, signal: SBUS) -> u16 {
    match signal {
        SBUS::NoOp => s.sbus,
        SBUS::PdFLAG => s.flag,
        SBUS::PdRG => s.rg[register_index(s.ir)],
        SBUS::PdSP => s.sp,
        SBUS::PdT => s.t,
        SBUS::PdTNeg => !s.t,
        SBUS::PdPC => s.pc,
        SBUS::PdIVR => s.ivr,
        SBUS::PdADR => s.adr,
        SBUS::PdMDR => s.mdr,
        SBUS::PdIR_0_7 => s.ir & 0x00FF,
        SBUS::Pd0 => 0,
        SBUS::PdNeg1 => 0xFFFF,
    }
}

/// Value the destination bus carries for a signal.
pub open spec fn destination_bus(s: IsaState, signal: DBUS) -> u16 {
    match signal {
        DBUS::NoOp => s.dbus,
        DBUS::PdFLAG => s.flag,
        DBUS::PdRG => s.rg[register_index(s.ir)],
        DBUS::PdSP => s.sp,
        DBUS::PdT => s.t,
        DBUS::PdPC => s.pc,
        DBUS::PdIVR => s.ivr,
        DBUS::PdADR => s.adr,
        DBUS::PdMDR => s.mdr,
        DBUS::PdMDRNeg => !s.mdr,
        DBUS::PdIR_0_7 => s.ir & 0x00FF,
        DBUS::Pd0 => 0,
        DBUS::PdNeg1 => 0xFFFF,
    }
}

/// What the ALU produces: the result, the bit shifted into C (shifts and
/// rotations only), the carry out and the signed overflow (sum and difference only).
pub struct AluOutcome {
    pub result: u16,
    pub shifted_out: Option<bool>,
    pub carry: bool,
    pub overflow: bool,
}

pub open spec fn bit15(x: u16) -> bool {
    x & SIGN_BIT != 0
}

pub open spec fn bit0(x: u16) -> bool {
    x & 1 != 0
}

pub open spec fn plain(result: u16) -> AluOutcome {
    AluOutcome { result, shifted_out: None, carry: false, overflow: false }
}

pub open spec fn shifted(result: u16, out: bool) -> AluOutcome {
    AluOutcome { result, shifted_out: Some(out), carry: false, overflow: false }
}

/// The ALU on bus values `s` and `d`, the previous result `r` and carry flag `c`.
/// Sums and differences wrap at 16 bits; overflow is set when the operands
/// have equal signs and the result's sign differs from the carry.
pub open spec fn alu_outcome(op: ALU, s: u16, d: u16, r: u16, c: bool) -> AluOutcome {
    match op {
        ALU::NoOp => plain(r),
        ALU::SBUS => plain(s),
        ALU::DBUS => plain(d),
        ALU::SUM => {
            let sum = s.wrapping_add(d);
            let carry = s + d > 0xFFFF;
            AluOutcome {
                result: sum,
                shifted_out: None,
                carry,
                overflow: bit15(s) == bit15(d) && bit15(sum) != carry,
            }
        },
        ALU::SUB => {
            let diff = s.wrapping_sub(d);
            let carry = s < d;
            AluOutcome {
                result: diff,
                shifted_out: None,
                carry,
                overflow: bit15(s) == bit15(d) && bit15(diff) != carry,
            }
        },
        ALU::AND => plain(s & d),
        ALU::OR => plain(s | d),
        ALU::XOR => plain(s ^ d),
        ALU::ASL => shifted(d << 1u16, bit15(d)),
        ALU::ASR => shifted((d >> 1u16) | (d & SIGN_BIT), bit0(d)),
        ALU::LSR => shifted(d >> 1u16, bit0(d)),
        ALU::ROL => shifted((d << 1u16) | (d >> 15u16), bit15(d)),
        ALU::ROR => shifted((d >> 1u16) | (d << 15u16), bit0(d)),
        ALU::RLC => shifted((d << 1u16) | (if c { 1u16 } else { 0u16 }), bit15(d)),
        ALU::RRC => shifted((d >> 1u16) | (if c { SIGN_BIT } else { 0u16 }), bit0(d)),
    }
}

/// State after the buses are driven and the ALU has run.
pub open spec fn after_alu(s: IsaState, sbus: SBUS, dbus: DBUS, alu: ALU) -> IsaState {
    let sv = source_bus(s, sbus);
    let dv = destination_bus(s, dbus);
    let out = alu_outcome(alu, sv, dv, s.rbus, has_bits(s.flag, FLAG_C));
    IsaState {
        sbus: sv,
        dbus: dv,
        rbus: out.result,
        flag: match out.shifted_out {
            Some(b) => with_bits(s.flag, FLAG_C, b),
            None => s.flag,
        },
        ..s
    }
}

/// Condition flags C, Z, S, V from an ALU outcome, on top of `flag`.
pub open spec fn arithmetic_flags(flag: u16, out: AluOutcome) -> u16 {
    with_bits(
        with_bits(
            with_bits(with_bits(flag, FLAG_C, out.carry), FLAG_Z, out.result == 0),
            FLAG_S,
            bit15(out.result),
        ),
        FLAG_V,
        out.overflow,
    )
}

/// Condition flags Z and S from an ALU outcome, on top of `flag`.
pub open spec fn logic_flags(flag: u16, out: AluOutcome) -> u16 {
    with_bits(with_bits(flag, FLAG_Z, out.result == 0), FLAG_S, bit15(out.result))
}

/// State after the "other" operation, given the ALU outcome of the same microinstruction.
pub open spec fn after_other(s: IsaState, op: Other, out: AluOutcome) -> IsaState {
    match op {
        Other::NoOp => s,
        Other::plus2SP => IsaState { sp: s.sp.wrapping_add(2), ..s },
        Other::minus2SP => IsaState { sp: s.sp.wrapping_sub(2), ..s },
        Other::plus2PC => IsaState { pc: s.pc.wrapping_add(2), ..s },
        Other::A1BE0 => IsaState { be0_aclow: true, ..s },
        Other::A1BE1 => IsaState { be1_cil: true, ..s },
        Other::PdCONDaritm => IsaState { flag: arithmetic_flags(s.flag, out), ..s },
        Other::Cin_PdCONDaritm => IsaState {
            rbus: s.rbus.wrapping_add(1),
            flag: arithmetic_flags(s.flag, out),
            ..s
        },
        Other::PdCONDlog => IsaState { flag: logic_flags(s.flag, out), ..s },
        Other::A1BVI => IsaState { flag: with_bits(s.flag, FLAG_BVI, true), ..s },
        Other::A0BVI => IsaState { flag: with_bits(s.flag, FLAG_BVI, false), ..s },
        Other::A0BPO => IsaState { bpo: false, ..s },
        Other::INTA_minus2SP => IsaState { inta: true, sp: s.sp.wrapping_sub(2), ..s },
        Other::A0BE_A0BI => IsaState {
            be0_aclow: false,
            be1_cil: false,
            flag: with_bits(s.flag, FLAG_BVI, false),
            ..s
        },
    }
}

/// State after the memory operation. The machine reaches memory only through
/// its memory interface, which is handed IR, ADR and MDR and nothing else: a
/// fetch loads IR and a read loads MDR from the word at ADR, and a write stores
/// MDR there. A value on RBUS reaches memory by way of MDR (`PmMDR`, then a
/// write in a later microinstruction), never directly.
pub open spec fn after_memory(s: IsaState, op: signals::Memory) -> IsaState {
    match op {
        signals::Memory::NoOp => s,
        signals::Memory::IFCH => IsaState { ir: s.mem[s.adr as int], ..s },
        signals::Memory::READ => IsaState { mdr: s.mem[s.adr as int], ..s },
        signals::Memory::WRITE => IsaState { mem: s.mem.update(s.adr as int, s.mdr), ..s },
    }
}

/// State after the result bus is stored.
pub open spec fn after_result(s: IsaState, op: RBUS) -> IsaState {
    match op {
        RBUS::NoOp => s,
        RBUS::PmFLAG => IsaState { flag: s.rbus, ..s },
        RBUS::PmFLAG_3_0 => IsaState { flag: (s.flag & 0b1111_0000) | (s.rbus & 0b0000_1111), ..s },
        RBUS::PmRG => IsaState { rg: s.rg.update(register_index(s.ir), s.rbus), ..s },
        RBUS::PmSP => IsaState { sp: s.rbus, ..s },
        RBUS::PmT => IsaState { t: s.rbus, ..s },
        RBUS::PmPC => IsaState { pc: s.rbus, ..s },
        RBUS::PmIVR => IsaState { ivr: s.rbus, ..s },
        RBUS::PmADR => IsaState { adr: s.rbus, ..s },
        RBUS::PmMDR => IsaState { mdr: s.rbus, ..s },
    }
}

/// One microinstruction: buses and ALU, then the other operation, then memory,
/// then the result store.
pub open spec fn step(
    s: IsaState,
    sbus: SBUS,
    dbus: DBUS,
    rbus: RBUS,
    alu: ALU,
    memory: signals::Memory,
    other: Other,
) -> IsaState {
    let s1 = after_alu(s, sbus, dbus, alu);
    let out = alu_outcome(alu, s1.sbus, s1.dbus, s.rbus, has_bits(s.flag, FLAG_C));
    after_result(after_memory(after_other(s1, other, out), memory), rbus)
}


/// The state of a machine just built around `mem`: registers and buses zero,
/// powered on, no exception or interrupt pending.
pub open spec fn initial_state(mem: Seq<u16>) -> IsaState {
    IsaState {
        mem,
        sbus: 0,
        dbus: 0,
        rbus: 0,
        flag: 0,
        sp: 0,
        t: 0,
        pc: 0,
        ivr: 0,
        adr: 0,
        mdr: 0,
        ir: 0,
        rg: Seq::new(16, |i: int| 0u16),
        bpo: true,
        be0_aclow: false,
        be1_cil: false,
        intr: false,
        inta: false,
    }
}

/// Index of the general register selected by the low four bits of `ir`.
fn register_field(ir: u16) -> (r: usize)
    ensures
        r == register_index(ir),
        r < 16,
{
    assert(ir & 0x000F < 16) by (bit_vector);
    (ir & 0x000F) as usize
}

/// Runs the ALU.
fn alu(op: &ALU, s: u16, d: u16, r: u16, c: bool) -> (o: (u16, Option<bool>, bool, bool))
    ensures
        o.0 == alu_outcome(*op, s, d, r, c).result,
        o.1 == alu_outcome(*op, s, d, r, c).shifted_out,
        o.2 == alu_outcome(*op, s, d, r, c).carry,
        o.3 == alu_outcome(*op, s, d, r, c).overflow,
{
    match op {
        ALU::NoOp => (r, None, false, false),
        ALU::SBUS => (s, None, false, false),
        ALU::DBUS => (d, None, false, false),
        ALU::SUM => {
            let carry = (s as u32 + d as u32) > 0xFFFF;
            let sum = s.wrapping_add(d);
            let overflow = !(((s & SIGN_BIT) != 0) ^ ((d & SIGN_BIT) != 0))
                && (((sum & SIGN_BIT) != 0) ^ carry);
            (sum, None, carry, overflow)
        },
        ALU::SUB => {
            let carry = (s as u32) < (d as u32);
            let diff = s.wrapping_sub(d);
            let overflow = !(((s & SIGN_BIT) != 0) ^ ((d & SIGN_BIT) != 0))
                && (((diff & SIGN_BIT) != 0) ^ carry);
            (diff, None, carry, overflow)
        },
        ALU::AND => (s & d, None, false, false),
        ALU::OR => (s | d, None, false, false),
        ALU::XOR => (s ^ d, None, false, false),
        ALU::ASL => (d << 1u16, Some((d & SIGN_BIT) != 0), false, false),
        ALU::ASR => ((d >> 1u16) | (d & SIGN_BIT), Some((d & 1) != 0), false, false),
        ALU::LSR => (d >> 1u16, Some((d & 1) != 0), false, false),
        ALU::ROL => ((d << 1u16) | (d >> 15u16), Some((d & SIGN_BIT) != 0), false, false),
        ALU::ROR => ((d >> 1u16) | (d << 15u16), Some((d & 1) != 0), false, false),
        ALU::RLC => ((d << 1u16) | (if c { 1u16 } else { 0u16 }), Some((d & SIGN_BIT) != 0), false, false),
        ALU::RRC => ((d >> 1u16) | (if c { SIGN_BIT } else { 0u16 }), Some((d & 1) != 0), false, false),
    }
}

impl ISA {
    /// A machine around `memory`, powered on, with every register zero.
    pub fn new(memory: MemoryInterface) -> (r: Self)
        ensures
            r@ == initial_state(memory@),
    {
        let r = Self {
            MEM: memory,
            SBUS: 0,
            DBUS: 0,
            RBUS: 0,
            FLAG: 0,
            SP: 0,
            T: 0,
            PC: 0,
            IVR: 0,
            ADR: 0,
            MDR: 0,
            IR: 0,
            RG: [0u16; 16],
            BPO: true,
            BE0_ACLOW: false,
            BE1_CIL: false,
            INTR: false,
            INTA: false,
        };
        assert(r@.rg =~= Seq::new(16, |i: int| 0u16));
        r
    }

    /// Carries out the register transfers of one microinstruction: buses and
    /// ALU, then the other operation, then the memory operation through the
    /// memory interface (a write stores MDR, see `after_memory`), then the result store.
    pub fn execute(
        &mut self,
        sbus_signal: &SBUS,
        dbus_signal: &DBUS,
        rbus_signal: &RBUS,
        alu_signal: &ALU,
        memory_signal: &signals::Memory,
        other_signal: &Other,
    )
        ensures
            final(self)@ == step(
                old(self)@,
                *sbus_signal,
                *dbus_signal,
                *rbus_signal,
                *alu_signal,
                *memory_signal,
                *other_signal,
            ),
    {
        let ghost s0 = self@;
        let ghost out = alu_outcome(
            *alu_signal,
            source_bus(s0, *sbus_signal),
            destination_bus(s0, *dbus_signal),
            s0.rbus,
            has_bits(s0.flag, FLAG_C),
        );
        let (carry_out, overflow) = self.drive_buses_and_alu(sbus_signal, dbus_signal, alu_signal);
        self.apply_other(other_signal, carry_out, overflow, Ghost(out));
        self.MEM.process_signal(memory_signal, &mut self.IR, &mut self.ADR, &mut self.MDR);
        self.store_result(rbus_signal);
    }

    /// Drives both buses and runs the ALU; returns its carry out and overflow.
    fn drive_buses_and_alu(&mut self, sbus_signal: &SBUS, dbus_signal: &DBUS, alu_signal: &ALU) -> (r: (bool, bool))
        ensures
            final(self)@ == after_alu(old(self)@, *sbus_signal, *dbus_signal, *alu_signal),
            r.0 == alu_outcome(
                *alu_signal,
                source_bus(old(self)@, *sbus_signal),
                destination_bus(old(self)@, *dbus_signal),
                old(self)@.rbus,
                has_bits(old(self)@.flag, FLAG_C),
            ).carry,
            r.1 == alu_outcome(
                *alu_signal,
                source_bus(old(self)@, *sbus_signal),
                destination_bus(old(self)@, *dbus_signal),
                old(self)@.rbus,
                has_bits(old(self)@.flag, FLAG_C),
            ).overflow,
    {
        self.SBUS = match sbus_signal {
            SBUS::NoOp => self.SBUS,
            SBUS::PdFLAG => self.FLAG,
            SBUS::PdRG => self.RG[register_field(self.IR)],
            SBUS::PdSP => self.SP,
            SBUS::PdT => self.T,
            SBUS::PdTNeg => !self.T,
            SBUS::PdPC => self.PC,
            SBUS::PdIVR => self.IVR,
            SBUS::PdADR => self.ADR,
            SBUS::PdMDR => self.MDR,
            SBUS::PdIR_0_7 => self.IR & 0x00FF,
            SBUS::Pd0 => 0,
            SBUS::PdNeg1 => u16::MAX,
        };
        self.DBUS = match dbus_signal {
            DBUS::NoOp => self.DBUS,
            DBUS::PdFLAG => self.FLAG,
            DBUS::PdRG => self.RG[register_field(self.IR)],
            DBUS::PdSP => self.SP,
            DBUS::PdT => self.T,
            DBUS::PdPC => self.PC,
            DBUS::PdIVR => self.IVR,
            DBUS::PdADR => self.ADR,
            DBUS::PdMDR => self.MDR,
            DBUS::PdMDRNeg => !self.MDR,
            DBUS::PdIR_0_7 => self.IR & 0x00FF,
            DBUS::Pd0 => 0,
            DBUS::PdNeg1 => u16::MAX,
        };
        let carry_in = self.get_C();
        let (result, shifted_out, carry_out, overflow) = alu(alu_signal, self.SBUS, self.DBUS, self.RBUS, carry_in);
        self.RBUS = result;
        if let Some(bit) = shifted_out {
            self.set_C(bit);
        }
        (carry_out, overflow)
    }

    /// The "other" operation; `out` is what the ALU produced in this microinstruction.
    fn apply_other(&mut self, other_signal: &Other, carry_out: bool, overflow: bool, Ghost(out): Ghost<AluOutcome>)
        requires
            old(self).RBUS == out.result,
            carry_out == out.carry,
            overflow == out.overflow,
        ensures
            final(self)@ == after_other(old(self)@, *other_signal, out),
    {
        let zero = self.RBUS == 0;
        let sign = (self.RBUS & SIGN_BIT) != 0;
        match other_signal {
            Other::NoOp => {},
            Other::plus2SP => self.SP = self.SP.wrapping_add(2),
            Other::minus2SP => self.SP = self.SP.wrapping_sub(2),
            Other::plus2PC => self.PC = self.PC.wrapping_add(2),
            Other::A1BE0 => self.BE0_ACLOW = true,
            Other::A1BE1 => self.BE1_CIL = true,
            Other::PdCONDaritm => {
                self.set_C(carry_out);
                self.set_Z(zero);
                self.set_S(sign);
                self.set_V(overflow);
            },
            Other::Cin_PdCONDaritm => {
                self.RBUS = self.RBUS.wrapping_add(1);
                self.set_C(carry_out);
                self.set_Z(zero);
                self.set_S(sign);
                self.set_V(overflow);
            },
            Other::PdCONDlog => {
                self.set_Z(zero);
                self.set_S(sign);
            },
            Other::A1BVI => self.set_BVI(true),
            Other::A0BVI => self.set_BVI(false),
            Other::A0BPO => self.BPO = false,
            Other::INTA_minus2SP => {
                self.INTA = true;
                self.SP = self.SP.wrapping_sub(2);
            },
            Other::A0BE_A0BI => {
                self.BE0_ACLOW = false;
                self.BE1_CIL = false;
                self.set_BVI(false);
            },
        }
    }

    /// Stores the result bus where the signal says.
    fn store_result(&mut self, rbus_signal: &RBUS)
        ensures
            final(self)@ == after_result(old(self)@, *rbus_signal),
    {
        match rbus_signal {
            RBUS::NoOp => {},
            RBUS::PmFLAG => self.FLAG = self.RBUS,
            RBUS::PmFLAG_3_0 => self.FLAG = (self.FLAG & 0b1111_0000) | (self.RBUS & 0b0000_1111),
            RBUS::PmRG => {
                let rd = register_field(self.IR);
                self.RG[rd] = self.RBUS;
            },
            RBUS::PmSP => self.SP = self.RBUS,
            RBUS::PmT => self.T = self.RBUS,
            RBUS::PmPC => self.PC = self.RBUS,
            RBUS::PmIVR => self.IVR = self.RBUS,
            RBUS::PmADR => self.ADR = self.RBUS,
            RBUS::PmMDR => self.MDR = self.RBUS,
        }
    }

    // -- getters and setters for FLAG bits --

    /// The interrupt-enable bit.
    #[allow(non_snake_case, dead_code)]
    fn get_BVI(&self) -> (r: bool)
        ensures
            r == has_bits(self.FLAG, FLAG_BVI),
    {
        (self.FLAG & FLAG_BVI) != 0
    }

    #[allow(non_snake_case)]
    fn set_BVI(&mut self, value: bool)
        ensures
            final(self)@ == (IsaState { flag: with_bits(old(self)@.flag, FLAG_BVI, value), ..old(self)@ }),
    {
        if value {
            self.FLAG = self.FLAG | FLAG_BVI;
        } else {
            self.FLAG = self.FLAG & !FLAG_BVI;
        }
    }

    /// The carry flag.
    #[allow(non_snake_case)]
    pub fn get_C(&self) -> (r: bool)
        ensures
            r == has_bits(self.FLAG, FLAG_C),
    {
        (self.FLAG & FLAG_C) != 0
    }

    #[allow(non_snake_case)]
    fn set_C(&mut self, value: bool)
        ensures
            final(self)@ == (IsaState { flag: with_bits(old(self)@.flag, FLAG_C, value), ..old(self)@ }),
    {
        if value {
            self.FLAG = self.FLAG | FLAG_C;
        } else {
            self.FLAG = self.FLAG & !FLAG_C;
        }
    }

    /// The zero flag.
    #[allow(non_snake_case)]
    pub fn get_Z(&self) -> (r: bool)
        ensures
            r == has_bits(self.FLAG, FLAG_Z),
    {
        (self.FLAG & FLAG_Z) != 0
    }

    #[allow(non_snake_case)]
    fn set_Z(&mut self, value: bool)
        ensures
            final(self)@ == (IsaState { flag: with_bits(old(self)@.flag, FLAG_Z, value), ..old(self)@ }),
    {
        if value {
            self.FLAG = self.FLAG | FLAG_Z;
        } else {
            self.FLAG = self.FLAG & !FLAG_Z;
        }
    }

    /// The sign flag.
    #[allow(non_snake_case)]
    pub fn get_S(&self) -> (r: bool)
        ensures
            r == has_bits(self.FLAG, FLAG_S),
    {
        (self.FLAG & FLAG_S) != 0
    }

    #[allow(non_snake_case)]
    fn set_S(&mut self, value: bool)
        ensures
            final(self)@ == (IsaState { flag: with_bits(old(self)@.flag, FLAG_S, value), ..old(self)@ }),
    {
        if value {
            self.FLAG = self.FLAG | FLAG_S;
        } else {
            self.FLAG = self.FLAG & !FLAG_S;
        }
    }

    /// The overflow flag.
    #[allow(non_snake_case)]
    pub fn get_V(&self) -> (r: bool)
        ensures
            r == has_bits(self.FLAG, FLAG_V),
    {
        (self.FLAG & FLAG_V) != 0
    }

    #[allow(non_snake_case)]
    fn set_V(&mut self, value: bool)
        ensures
            final(self)@ == (IsaState { flag: with_bits(old(self)@.flag, FLAG_V, value), ..old(self)@ }),
    {
        if value {
            self.FLAG = self.FLAG | FLAG_V;
        } else {
            self.FLAG = self.FLAG & !FLAG_V;
        }
    }
}

/// Setting a flag bit makes it read back as the value set, and leaves every
/// other flag bit as it was.
pub proof fn lemma_flag_bits(flag: u16, value: bool)
    ensures
        has_bits(with_bits(flag, FLAG_C, value), FLAG_C) == value,
        has_bits(with_bits(flag, FLAG_Z, value), FLAG_Z) == value,
        has_bits(with_bits(flag, FLAG_S, value), FLAG_S) == value,
        has_bits(with_bits(flag, FLAG_V, value), FLAG_V) == value,
        has_bits(with_bits(flag, FLAG_BVI, value), FLAG_BVI) == value,
        forall|m: u16, n: u16|
            #![trigger has_bits(with_bits(flag, m, value), n)]
            (m == FLAG_C || m == FLAG_Z || m == FLAG_S || m == FLAG_V || m == FLAG_BVI) && (n == FLAG_C
                || n == FLAG_Z || n == FLAG_S || n == FLAG_V || n == FLAG_BVI) && m != n ==> has_bits(
                with_bits(flag, m, value),
                n,
            ) == has_bits(flag, n),
{
    assert(((flag | 8u16) & 8u16 != 0) && ((flag & !8u16) & 8u16 == 0) && ((flag | 4u16) & 4u16 != 0) && ((flag
        & !4u16) & 4u16 == 0) && ((flag | 2u16) & 2u16 != 0) && ((flag & !2u16) & 2u16 == 0) && ((flag | 1u16) & 1u16
        != 0) && ((flag & !1u16) & 1u16 == 0) && ((flag | 128u16) & 128u16 != 0) && ((flag & !128u16) & 128u16 == 0))
        by (bit_vector);
    assert forall|m: u16, n: u16|
        (m == FLAG_C || m == FLAG_Z || m == FLAG_S || m == FLAG_V || m == FLAG_BVI) && (n == FLAG_C || n
            == FLAG_Z || n == FLAG_S || n == FLAG_V || n == FLAG_BVI) && m != n implies #[trigger] has_bits(
        with_bits(flag, m, value),
        n,
    ) == has_bits(flag, n) by {
        assert((m == 8u16 || m == 4u16 || m == 2u16 || m == 1u16 || m == 128u16) && (n == 8u16 || n == 4u16 || n
            == 2u16 || n == 1u16 || n == 128u16) && m != n ==> ((flag | m) & n != 0) == (flag & n != 0) && ((flag
            & !m) & n != 0) == (flag & n != 0)) by (bit_vector);
    }
}

/// The wrapped sum and the carry together give the exact sum; the wrapped
/// difference and the borrow together give the exact difference.
pub proof fn lemma_sum_and_difference(s: u16, d: u16, r: u16, c: bool)
    ensures
        alu_outcome(ALU::SUM, s, d, r, c).result + (if alu_outcome(ALU::SUM, s, d, r, c).carry { 0x10000int } else { 0 }) == s + d,
        alu_outcome(ALU::SUB, s, d, r, c).result - (if alu_outcome(ALU::SUB, s, d, r, c).carry { 0x10000int } else { 0 }) == s - d,
{
}

/// A write to memory followed by a read at the same address gives back the word written.
pub proof fn lemma_write_then_read(s: IsaState)
    requires
        s.mem.len() == crate::memory::MEMORY_WORDS,
    ensures
        after_memory(after_memory(s, signals::Memory::WRITE), signals::Memory::READ).mdr == s.mdr,
        after_memory(s, signals::Memory::WRITE).mem[s.adr as int] == s.mdr,
        forall|a: int|
            0 <= a < s.mem.len() && a != s.adr ==> #[trigger] after_memory(s, signals::Memory::WRITE).mem[a]
                == s.mem[a],
{
}

/// The value of a 16-bit word read as a two's-complement signed number.
pub open spec fn signed(x: u16) -> int {
    if x < 0x8000 {
        x as int
    } else {
        x - 0x10000
    }
}

proof fn lemma_condition_bits(f: u16, c: bool, z: bool, n: bool, v: bool)
    ensures
        ({
            let g = with_bits(with_bits(with_bits(with_bits(f, FLAG_C, c), FLAG_Z, z), FLAG_S, n), FLAG_V, v);
            &&& (g & 0b1000 != 0) == c
            &&& (g & 0b0100 != 0) == z
            &&& (g & 0b0010 != 0) == n
            &&& (g & 0b0001 != 0) == v
            &&& g & 0xFFF0 == f & 0xFFF0
        }),
{
    assert({
        let g = with_bits(with_bits(with_bits(with_bits(f, 8u16, c), 4u16, z), 2u16, n), 1u16, v);
        &&& (g & 0b1000 != 0) == c
        &&& (g & 0b0100 != 0) == z
        &&& (g & 0b0010 != 0) == n
        &&& (g & 0b0001 != 0) == v
        &&& g & 0xFFF0 == f & 0xFFF0
    }) by (bit_vector);
}

proof fn lemma_sign_bit(x: u16)
    ensures
        bit15(x) == (x >= 0x8000),
        bit0(x) == (x % 2 == 1),
{
    assert((x & 0x8000u16 != 0) == (x >= 0x8000) && (x & 1u16 != 0) == (x % 2 == 1)) by (bit_vector);
}

/// A sum that sets the condition flags leaves the sum of the two bus values
/// modulo 2^16 on RBUS, sets C (bit 3) exactly when the sum exceeds 16 bits,
/// Z (bit 2) when the result is zero, S (bit 1) when it is negative, and V
/// (bit 0) exactly when the sum of the operands read as signed numbers lies
/// outside -32768..=32767; the other flag bits stay as they were.
pub proof fn lemma_sum_condition_flags(s: IsaState, sb: SBUS, db: DBUS)
    ensures
        ({
            let x = source_bus(s, sb);
            let y = destination_bus(s, db);
            let t = step(s, sb, db, RBUS::NoOp, ALU::SUM, signals::Memory::NoOp, Other::PdCONDaritm);
            &&& t.rbus as int == (x + y) % 0x10000
            &&& (t.flag & 0b1000 != 0) == (x + y > 0xFFFF)
            &&& (t.flag & 0b0100 != 0) == ((x + y) % 0x10000 == 0)
            &&& (t.flag & 0b0010 != 0) == ((x + y) % 0x10000 >= 0x8000)
            &&& (t.flag & 0b0001 != 0) == (signed(x) + signed(y) < -0x8000 || signed(x) + signed(y) > 0x7FFF)
            &&& t.flag & 0xFFF0 == s.flag & 0xFFF0
            &&& t == (IsaState { sbus: x, dbus: y, rbus: t.rbus, flag: t.flag, ..s })
        }),
{
    let x = source_bus(s, sb);
    let y = destination_bus(s, db);
    let out = alu_outcome(ALU::SUM, x, y, s.rbus, has_bits(s.flag, FLAG_C));
    let sum = x.wrapping_add(y);
    assert(sum as int == (x + y) % 0x10000);
    lemma_sign_bit(x);
    lemma_sign_bit(y);
    lemma_sign_bit(sum);
    lemma_condition_bits(s.flag, out.carry, out.result == 0, bit15(out.result), out.overflow);
}

/// A difference that sets the condition flags leaves `x - y` modulo 2^16 on
/// RBUS, sets C (bit 3) exactly when it borrows (`x < y`), Z (bit 2) when the
/// result is zero and S (bit 1) when it is negative; the sign rule of the sum
/// applied to a difference never fires, so V (bit 0) ends cleared. The other
/// flag bits stay as they were.
pub proof fn lemma_difference_condition_flags(s: IsaState, sb: SBUS, db: DBUS)
    ensures
        ({
            let x = source_bus(s, sb);
            let y = destination_bus(s, db);
            let t = step(s, sb, db, RBUS::NoOp, ALU::SUB, signals::Memory::NoOp, Other::PdCONDaritm);
            &&& t.rbus as int == (x - y + 0x10000) % 0x10000
            &&& (t.flag & 0b1000 != 0) == (x < y)
            &&& (t.flag & 0b0100 != 0) == (x == y)
            &&& (t.flag & 0b0010 != 0) == ((x - y + 0x10000) % 0x10000 >= 0x8000)
            &&& (t.flag & 0b0001 == 0)
            &&& t.flag & 0xFFF0 == s.flag & 0xFFF0
            &&& t == (IsaState { sbus: x, dbus: y, rbus: t.rbus, flag: t.flag, ..s })
        }),
{
    let x = source_bus(s, sb);
    let y = destination_bus(s, db);
    let out = alu_outcome(ALU::SUB, x, y, s.rbus, has_bits(s.flag, FLAG_C));
    let diff = x.wrapping_sub(y);
    assert(diff as int == (x - y + 0x10000) % 0x10000);
    lemma_sign_bit(x);
    lemma_sign_bit(y);
    lemma_sign_bit(diff);
    lemma_condition_bits(s.flag, out.carry, out.result == 0, bit15(out.result), out.overflow);
}

/// What the ALU field value `n` of a microinstruction computes from the source
/// bus `s`, the destination bus `d`, the previous result `r` and the carry flag
/// `c`, in plain arithmetic: 0 keeps `r`, 1 passes `s`, 2 passes `d`, 3 adds,
/// 4 subtracts (both modulo 2^16), 5..7 are the bitwise and, or and exclusive
/// or, 8 doubles `d`, 9 halves it keeping its sign bit, 10 halves it, 11 and 12
/// rotate it left and right by one, 13 and 14 do so through the carry.
pub open spec fn alu_field_result(n: u64, s: u16, d: u16, r: u16, c: bool) -> int {
    let cin: int = if c { 1 } else { 0 };
    if n == 0 {
        r as int
    } else if n == 1 {
        s as int
    } else if n == 2 {
        d as int
    } else if n == 3 {
        (s + d) % 0x10000
    } else if n == 4 {
        (s - d + 0x10000) % 0x10000
    } else if n == 5 {
        (s & d) as int
    } else if n == 6 {
        (s | d) as int
    } else if n == 7 {
        (s ^ d) as int
    } else if n == 8 {
        (2 * d) % 0x10000
    } else if n == 9 {
        d / 2 + (if d >= 0x8000 { 0x8000int } else { 0 })
    } else if n == 10 {
        (d / 2) as int
    } else if n == 11 {
        (2 * d) % 0x10000 + d / 0x8000
    } else if n == 12 {
        d / 2 + (d % 2) * 0x8000
    } else if n == 13 {
        (2 * d) % 0x10000 + cin
    } else {
        d / 2 + cin * 0x8000
    }
}

/// The bit that the ALU field value `n` moves into C: the top bit of `d` for
/// the left shifts and rotations (8, 11, 13), its bottom bit for the right ones
/// (9, 10, 12, 14); none for the other operations.
pub open spec fn alu_field_shifted_out(n: u64, d: u16) -> Option<bool> {
    if n == 8 || n == 11 || n == 13 {
        Some(d >= 0x8000)
    } else if n == 9 || n == 10 || n == 12 || n == 14 {
        Some(d % 2 == 1)
    } else {
        None
    }
}

proof fn lemma_shift_values(d: u16, c: bool)
    ensures
        (d << 1u16) as int == (2 * d) % 0x10000,
        (d >> 1u16) as int == d / 2,
        ((d >> 1u16) | (d & SIGN_BIT)) as int == d / 2 + (if d >= 0x8000 { 0x8000int } else { 0 }),
        ((d << 1u16) | (d >> 15u16)) as int == (2 * d) % 0x10000 + d / 0x8000,
        ((d >> 1u16) | (d << 15u16)) as int == d / 2 + (d % 2) * 0x8000,
        ((d << 1u16) | (if c { 1u16 } else { 0u16 })) as int == (2 * d) % 0x10000 + (if c { 1int } else { 0 }),
        ((d >> 1u16) | (if c { SIGN_BIT } else { 0u16 })) as int == d / 2 + (if c { 1int } else { 0 }) * 0x8000,
{
    assert((d << 1u16) == ((2 * d) % 0x10000) as u16 && (d >> 1u16) == d / 2 && ((d >> 1u16) | (d & 0x8000u16)) == (
    if d >= 0x8000 { d / 2 + 0x8000 } else { d / 2 + 0 }) as u16 && ((d << 1u16) | (d >> 15u16)) == ((2 * d) % 0x10000
        + d / 0x8000) as u16 && ((d >> 1u16) | (d << 15u16)) == (d / 2 + (d % 2) * 0x8000) as u16) by (bit_vector);
    assert(((d << 1u16) | 1u16) == ((2 * d) % 0x10000 + 1) as u16 && ((d << 1u16) | 0u16) == ((2 * d) % 0x10000) as u16
        && ((d >> 1u16) | 0x8000u16) == (d / 2 + 0x8000) as u16 && ((d >> 1u16) | 0u16) == (d / 2) as u16) by (bit_vector);
}

/// The ALU field of a microinstruction names an operation exactly for the
/// values 0..=14, and each value selects the operation that the field numbering
/// gives it: its result and the bit it moves into C are those of
/// `alu_field_result` and `alu_field_shifted_out`.
pub proof fn lemma_alu_field_meaning(n: u64, s: u16, d: u16, r: u16, c: bool)
    ensures
        ALU::from_ordinal(n) is Some <==> n < 15,
        n < 15 ==> alu_outcome(ALU::from_ordinal(n).unwrap(), s, d, r, c).result as int == alu_field_result(n, s, d, r, c),
        n < 15 ==> alu_outcome(ALU::from_ordinal(n).unwrap(), s, d, r, c).shifted_out == alu_field_shifted_out(n, d),
{
    lemma_shift_values(d, c);
    lemma_sign_bit(d);
    if n == 3 {
        assert(s.wrapping_add(d) as int == (s + d) % 0x10000);
    }
    if n == 4 {
        assert(s.wrapping_sub(d) as int == (s - d + 0x10000) % 0x10000);
    }
}

/// Setting the arithmetic condition flags from an ALU outcome records its carry
/// in bit 3, a zero result in bit 2, a negative result in bit 1 and its overflow
/// in bit 0, and keeps the other bits.
pub proof fn lemma_arithmetic_flag_bits(flag: u16, out: AluOutcome)
    ensures
        (arithmetic_flags(flag, out) & 0b1000 != 0) == out.carry,
        (arithmetic_flags(flag, out) & 0b0100 != 0) == (out.result == 0),
        (arithmetic_flags(flag, out) & 0b0010 != 0) == (out.result >= 0x8000),
        (arithmetic_flags(flag, out) & 0b0001 != 0) == out.overflow,
        arithmetic_flags(flag, out) & 0xFFF0 == flag & 0xFFF0,
{
    lemma_sign_bit(out.result);
    lemma_condition_bits(flag, out.carry, out.result == 0, bit15(out.result), out.overflow);
}

proof fn lemma_bus_bits(x: u16)
    ensures
        (!x) as int == 0xFFFF - x,
        (x & 0x00FF) as int == x % 256,
        (x & 0x000F) as int == x % 16,
{
    assert(!x == (0xFFFF - x) as u16 && x & 0x00FF == x % 256 && x & 0x000F == x % 16) by (bit_vector);
}

/// The SBUS field of a microinstruction names a source exactly for the values
/// 0..=12, which put on the source bus, in order: its previous value, FLAG, the
/// general register numbered by the low four bits of IR, SP, T, the complement
/// of T, PC, IVR, ADR, MDR, the low byte of IR, zero and all ones.
pub proof fn lemma_sbus_field_meaning(n: u64, s: IsaState)
    ensures
        SBUS::from_ordinal(n) is Some <==> n < 13,
        n < 13 ==> source_bus(s, SBUS::from_ordinal(n).unwrap()) as int == (if n == 0 {
            s.sbus as int
        } else if n == 1 {
            s.flag as int
        } else if n == 2 {
            s.rg[(s.ir % 16) as int] as int
        } else if n == 3 {
            s.sp as int
        } else if n == 4 {
            s.t as int
        } else if n == 5 {
            0xFFFF - s.t
        } else if n == 6 {
            s.pc as int
        } else if n == 7 {
            s.ivr as int
        } else if n == 8 {
            s.adr as int
        } else if n == 9 {
            s.mdr as int
        } else if n == 10 {
            (s.ir % 256) as int
        } else if n == 11 {
            0
        } else {
            0xFFFF
        }),
{
    lemma_bus_bits(s.t);
    lemma_bus_bits(s.ir);
}

/// The DBUS field of a microinstruction names a source exactly for the values
/// 0..=12, which put on the destination bus, in order: its previous value,
/// FLAG, the general register numbered by the low four bits of IR, SP, T, PC,
/// IVR, ADR, MDR, the complement of MDR, the low byte of IR, zero and all ones.
pub proof fn lemma_dbus_field_meaning(n: u64, s: IsaState)
    ensures
        DBUS::from_ordinal(n) is Some <==> n < 13,
        n < 13 ==> destination_bus(s, DBUS::from_ordinal(n).unwrap()) as int == (if n == 0 {
            s.dbus as int
        } else if n == 1 {
            s.flag as int
        } else if n == 2 {
            s.rg[(s.ir % 16) as int] as int
        } else if n == 3 {
            s.sp as int
        } else if n == 4 {
            s.t as int
        } else if n == 5 {
            s.pc as int
        } else if n == 6 {
            s.ivr as int
        } else if n == 7 {
            s.adr as int
        } else if n == 8 {
            s.mdr as int
        } else if n == 9 {
            0xFFFF - s.mdr
        } else if n == 10 {
            (s.ir % 256) as int
        } else if n == 11 {
            0
        } else {
            0xFFFF
        }),
{
    lemma_bus_bits(s.mdr);
    lemma_bus_bits(s.ir);
}

/// The RBUS field of a microinstruction names a destination exactly for the
/// values 0..=9, which store the result bus, in order: nowhere, in FLAG, in the
/// low four bits of FLAG (keeping bits 7..4 and clearing the high byte), in the
/// general register numbered by the low four bits of IR, in SP, T, PC, IVR, ADR
/// and MDR; nothing else changes.
pub proof fn lemma_rbus_field_meaning(n: u64, s: IsaState)
    ensures
        RBUS::from_ordinal(n) is Some <==> n < 10,
        n < 10 ==> after_result(s, RBUS::from_ordinal(n).unwrap()) == (if n == 0 {
            s
        } else if n == 1 {
            IsaState { flag: s.rbus, ..s }
        } else if n == 2 {
            IsaState { flag: ((s.flag / 16) % 16 * 16 + s.rbus % 16) as u16, ..s }
        } else if n == 3 {
            IsaState { rg: s.rg.update((s.ir % 16) as int, s.rbus), ..s }
        } else if n == 4 {
            IsaState { sp: s.rbus, ..s }
        } else if n == 5 {
            IsaState { t: s.rbus, ..s }
        } else if n == 6 {
            IsaState { pc: s.rbus, ..s }
        } else if n == 7 {
            IsaState { ivr: s.rbus, ..s }
        } else if n == 8 {
            IsaState { adr: s.rbus, ..s }
        } else {
            IsaState { mdr: s.rbus, ..s }
        }),
{
    lemma_bus_bits(s.ir);
    let f = s.flag;
    let r = s.rbus;
    assert((f & 0b1111_0000) | (r & 0b0000_1111) == ((f / 16) % 16 * 16 + r % 16) as u16) by (bit_vector);
}

/// The memory field of a microinstruction names an operation exactly for the
/// values 0..=3: none, fetch the word at ADR into IR, read it into MDR, write
/// MDR there.
pub proof fn lemma_memory_field_meaning(n: u64, s: IsaState)
    ensures
        signals::Memory::from_ordinal(n) is Some <==> n < 4,
        n < 4 ==> after_memory(s, signals::Memory::from_ordinal(n).unwrap()) == (if n == 0 {
            s
        } else if n == 1 {
            IsaState { ir: s.mem[s.adr as int], ..s }
        } else if n == 2 {
            IsaState { mdr: s.mem[s.adr as int], ..s }
        } else {
            IsaState { mem: s.mem.update(s.adr as int, s.mdr), ..s }
        }),
{
}

/// The "other" field of a microinstruction names an operation exactly for the
/// values 0..=13: none; SP up by two; SP down by two; PC up by two (all modulo
/// 2^16); raise the low-power exception; raise the illegal-code exception; set
/// the arithmetic condition flags (C bit 3, Z bit 2, S bit 1, V bit 0) from the
/// ALU outcome; the same and one more on RBUS; set only Z and S; set BVI
/// (bit 7); clear it; switch the machine off; acknowledge an interrupt and move
/// SP down by two; clear both exceptions and BVI.
pub proof fn lemma_other_field_meaning(n: u64, s: IsaState, out: AluOutcome)
    ensures
        Other::from_ordinal(n) is Some <==> n < 14,
        ({
            let t = after_other(s, Other::from_ordinal(n).unwrap(), out);
            &&& n == 0 ==> t == s
            &&& n == 1 ==> t == IsaState { sp: ((s.sp + 2) % 0x10000) as u16, ..s }
            &&& n == 2 ==> t == IsaState { sp: ((s.sp - 2 + 0x10000) % 0x10000) as u16, ..s }
            &&& n == 3 ==> t == IsaState { pc: ((s.pc + 2) % 0x10000) as u16, ..s }
            &&& n == 4 ==> t == IsaState { be0_aclow: true, ..s }
            &&& n == 5 ==> t == IsaState { be1_cil: true, ..s }
            &&& (n == 6 || n == 7 || n == 8) ==> t == IsaState {
                flag: t.flag,
                rbus: (if n == 7 { ((s.rbus + 1) % 0x10000) as u16 } else { s.rbus }),
                ..s
            }
            &&& (n == 6 || n == 7) ==> {
                &&& (t.flag & 0b1000 != 0) == out.carry
                &&& (t.flag & 0b0100 != 0) == (out.result == 0)
                &&& (t.flag & 0b0010 != 0) == (out.result >= 0x8000)
                &&& (t.flag & 0b0001 != 0) == out.overflow
                &&& t.flag & 0xFFF0 == s.flag & 0xFFF0
            }
            &&& n == 8 ==> {
                &&& (t.flag & 0b0100 != 0) == (out.result == 0)
                &&& (t.flag & 0b0010 != 0) == (out.result >= 0x8000)
                &&& t.flag & 0xFFF9 == s.flag & 0xFFF9
            }
            &&& n == 9 ==> t == IsaState { flag: s.flag | 0x80, ..s }
            &&& n == 10 ==> t == IsaState { flag: s.flag & 0xFF7F, ..s }
            &&& n == 11 ==> t == IsaState { bpo: false, ..s }
            &&& n == 12 ==> t == IsaState { inta: true, sp: ((s.sp - 2 + 0x10000) % 0x10000) as u16, ..s }
            &&& n == 13 ==> t == IsaState { be0_aclow: false, be1_cil: false, flag: s.flag & 0xFF7F, ..s }
        }),
{
    lemma_arithmetic_flag_bits(s.flag, out);
    lemma_sign_bit(out.result);
    let f = s.flag;
    let z = out.result == 0;
    let ng = bit15(out.result);
    assert({
        let g = with_bits(with_bits(f, 4u16, z), 2u16, ng);
        &&& (g & 0b0100 != 0) == z
        &&& (g & 0b0010 != 0) == ng
        &&& g & 0xFFF9 == f & 0xFFF9
    }) by (bit_vector);
    assert(f & !0x80u16 == f & 0xFF7Fu16) by (bit_vector);
}

} // verus!
