//! Control signals carried by one microinstruction, one enum per field.
//! A field of the microinstruction selects a signal by its position in the
//! enum's declaration; `from_u64` decodes that position.

use vstd::prelude::*;

verus! {

/// Source bus driver.
#[allow(non_camel_case_types)]
#[derive(Debug, Clone, Copy, PartialEq, Eq, Structural)]
pub enum SBUS {
    NoOp,
    PdFLAG,
    PdRG,
    PdSP,
    PdT,
    PdTNeg,
    PdPC,
    PdIVR,
    PdADR,
    PdMDR,
    PdIR_0_7,
    Pd0,
    PdNeg1,
}

/// Destination bus driver.
#[allow(non_camel_case_types)]
#[derive(Debug, Clone, Copy, PartialEq, Eq, Structural)]
pub enum DBUS {
    NoOp,
    PdFLAG,
    PdRG,
    PdSP,
    PdT,
    PdPC,
    PdIVR,
    PdADR,
    PdMDR,
    PdMDRNeg,
    PdIR_0_7,
    Pd0,
    PdNeg1,
}

/// Operation of the arithmetic and logic unit.
#[derive(Debug, Clone, Copy, PartialEq, Eq, Structural)]
pub enum ALU {
    NoOp,
    SBUS,
    DBUS,
    SUM,
    SUB,
    AND,
    OR,
    XOR,
    ASL,
    ASR,
    LSR,
    ROL,
    ROR,
    RLC,
    RRC,
}

/// Destination of the result bus.
#[allow(non_camel_case_types)]
#[derive(Debug, Clone, Copy, PartialEq, Eq, Structural)]
pub enum RBUS {
    NoOp,
    PmFLAG,
    PmFLAG_3_0,
    PmRG,
    PmSP,
    PmT,
    PmPC,
    PmIVR,
    PmADR,
    PmMDR,
}

/// Memory operation.
#[derive(Debug, Clone, Copy, PartialEq, Eq, Structural)]
pub enum Memory {
    NoOp,
    IFCH,
    READ,
    WRITE,
}

/// Other operations (stack, flags, interrupts, power).
#[allow(non_camel_case_types)]
#[derive(Debug, Clone, Copy, PartialEq, Eq, Structural)]
pub enum Other {
    NoOp,
    plus2SP,
    minus2SP,
    plus2PC,
    A1BE0,
    A1BE1,
    PdCONDaritm,
    Cin_PdCONDaritm,
    PdCONDlog,
    A1BVI,
    A0BVI,
    A0BPO,
    INTA_minus2SP,
    A0BE_A0BI,
}

impl SBUS {
    /// The variant at position `n` of the declaration, if there is one.
    pub open spec fn from_ordinal(n: u64) -> Option<SBUS> {
        match n {
            0 => Some(SBUS::NoOp),
            1 => Some(SBUS::PdFLAG),
            2 => Some(SBUS::PdRG),
            3 => Some(SBUS::PdSP),
            4 => Some(SBUS::PdT),
            5 => Some(SBUS::PdTNeg),
            6 => Some(SBUS::PdPC),
            7 => Some(SBUS::PdIVR),
            8 => Some(SBUS::PdADR),
            9 => Some(SBUS::PdMDR),
            10 => Some(SBUS::PdIR_0_7),
            11 => Some(SBUS::Pd0),
            12 => Some(SBUS::PdNeg1),
            _ => None,
        }
    }

    pub fn from_u64(n: u64) -> (r: Option<SBUS>)
        ensures
            r == Self::from_ordinal(n),
    {
        match n {
            0 => Some(SBUS::NoOp),
            1 => Some(SBUS::PdFLAG),
            2 => Some(SBUS::PdRG),
            3 => Some(SBUS::PdSP),
            4 => Some(SBUS::PdT),
            5 => Some(SBUS::PdTNeg),
            6 => Some(SBUS::PdPC),
            7 => Some(SBUS::PdIVR),
            8 => Some(SBUS::PdADR),
            9 => Some(SBUS::PdMDR),
            10 => Some(SBUS::PdIR_0_7),
            11 => Some(SBUS::Pd0),
            12 => Some(SBUS::PdNeg1),
            _ => None,
        }
    }
}

impl DBUS {
    /// The variant at position `n` of the declaration, if there is one.
    pub open spec fn from_ordinal(n: u64) -> Option<DBUS> {
        match n {
            0 => Some(DBUS::NoOp),
            1 => Some(DBUS::PdFLAG),
            2 => Some(DBUS::PdRG),
            3 => Some(DBUS::PdSP),
            4 => Some(DBUS::PdT),
            5 => Some(DBUS::PdPC),
            6 => Some(DBUS::PdIVR),
            7 => Some(DBUS::PdADR),
            8 => Some(DBUS::PdMDR),
            9 => Some(DBUS::PdMDRNeg),
            10 => Some(DBUS::PdIR_0_7),
            11 => Some(DBUS::Pd0),
            12 => Some(DBUS::PdNeg1),
            _ => None,
        }
    }

    pub fn from_u64(n: u64) -> (r: Option<DBUS>)
        ensures
            r == Self::from_ordinal(n),
    {
        match n {
            0 => Some(DBUS::NoOp),
            1 => Some(DBUS::PdFLAG),
            2 => Some(DBUS::PdRG),
            3 => Some(DBUS::PdSP),
            4 => Some(DBUS::PdT),
            5 => Some(DBUS::PdPC),
            6 => Some(DBUS::PdIVR),
            7 => Some(DBUS::PdADR),
            8 => Some(DBUS::PdMDR),
            9 => Some(DBUS::PdMDRNeg),
            10 => Some(DBUS::PdIR_0_7),
            11 => Some(DBUS::Pd0),
            12 => Some(DBUS::PdNeg1),
            _ => None,
        }
    }
}

impl ALU {
    /// The variant at position `n` of the declaration, if there is one.
    pub open spec fn from_ordinal(n: u64) -> Option<ALU> {
        match n {
            0 => Some(ALU::NoOp),
            1 => Some(ALU::SBUS),
            2 => Some(ALU::DBUS),
            3 => Some(ALU::SUM),
            4 => Some(ALU::SUB),
            5 => Some(ALU::AND),
            6 => Some(ALU::OR),
            7 => Some(ALU::XOR),
            8 => Some(ALU::ASL),
            9 => Some(ALU::ASR),
            10 => Some(ALU::LSR),
            11 => Some(ALU::ROL),
            12 => Some(ALU::ROR),
            13 => Some(ALU::RLC),
            14 => Some(ALU::RRC),
            _ => None,
        }
    }

    pub fn from_u64(n: u64) -> (r: Option<ALU>)
        ensures
            r == Self::from_ordinal(n),
    {
        match n {
            0 => Some(ALU::NoOp),
            1 => Some(ALU::SBUS),
            2 => Some(ALU::DBUS),
            3 => Some(ALU::SUM),
            4 => Some(ALU::SUB),
            5 => Some(ALU::AND),
            6 => Some(ALU::OR),
            7 => Some(ALU::XOR),
            8 => Some(ALU::ASL),
            9 => Some(ALU::ASR),
            10 => Some(ALU::LSR),
            11 => Some(ALU::ROL),
            12 => Some(ALU::ROR),
            13 => Some(ALU::RLC),
            14 => Some(ALU::RRC),
            _ => None,
        }
    }
}

impl RBUS {
    /// The variant at position `n` of the declaration, if there is one.
    pub open spec fn from_ordinal(n: u64) -> Option<RBUS> {
        match n {
            0 => Some(RBUS::NoOp),
            1 => Some(RBUS::PmFLAG),
            2 => Some(RBUS::PmFLAG_3_0),
            3 => Some(RBUS::PmRG),
            4 => Some(RBUS::PmSP),
            5 => Some(RBUS::PmT),
            6 => Some(RBUS::PmPC),
            7 => Some(RBUS::PmIVR),
            8 => Some(RBUS::PmADR),
            9 => Some(RBUS::PmMDR),
            _ => None,
        }
    }

    pub fn from_u64(n: u64) -> (r: Option<RBUS>)
        ensures
            r == Self::from_ordinal(n),
    {
        match n {
            0 => Some(RBUS::NoOp),
            1 => Some(RBUS::PmFLAG),
            2 => Some(RBUS::PmFLAG_3_0),
            3 => Some(RBUS::PmRG),
            4 => Some(RBUS::PmSP),
            5 => Some(RBUS::PmT),
            6 => Some(RBUS::PmPC),
            7 => Some(RBUS::PmIVR),
            8 => Some(RBUS::PmADR),
            9 => Some(RBUS::PmMDR),
            _ => None,
        }
    }
}

impl Memory {
    /// The variant at position `n` of the declaration, if there is one.
    pub open spec fn from_ordinal(n: u64) -> Option<Memory> {
        match n {
            0 => Some(Memory::NoOp),
            1 => Some(Memory::IFCH),
            2 => Some(Memory::READ),
            3 => Some(Memory::WRITE),
            _ => None,
        }
    }

    pub fn from_u64(n: u64) -> (r: Option<Memory>)
        ensures
            r == Self::from_ordinal(n),
    {
        match n {
            0 => Some(Memory::NoOp),
            1 => Some(Memory::IFCH),
            2 => Some(Memory::READ),
            3 => Some(Memory::WRITE),
            _ => None,
        }
    }
}

impl Other {
    /// The variant at position `n` of the declaration, if there is one.
    pub open spec fn from_ordinal(n: u64) -> Option<Other> {
        match n {
            0 => Some(Other::NoOp),
            1 => Some(Other::plus2SP),
            2 => Some(Other::minus2SP),
            3 => Some(Other::plus2PC),
            4 => Some(Other::A1BE0),
            5 => Some(Other::A1BE1),
            6 => Some(Other::PdCONDaritm),
            7 => Some(Other::Cin_PdCONDaritm),
            8 => Some(Other::PdCONDlog),
            9 => Some(Other::A1BVI),
            10 => Some(Other::A0BVI),
            11 => Some(Other::A0BPO),
            12 => Some(Other::INTA_minus2SP),
            13 => Some(Other::A0BE_A0BI),
            _ => None,
        }
    }

    pub fn from_u64(n: u64) -> (r: Option<Other>)
        ensures
            r == Self::from_ordinal(n),
    {
        match n {
            0 => Some(Other::NoOp),
            1 => Some(Other::plus2SP),
            2 => Some(Other::minus2SP),
            3 => Some(Other::plus2PC),
            4 => Some(Other::A1BE0),
            5 => Some(Other::A1BE1),
            6 => Some(Other::PdCONDaritm),
            7 => Some(Other::Cin_PdCONDaritm),
            8 => Some(Other::PdCONDlog),
            9 => Some(Other::A1BVI),
            10 => Some(Other::A0BVI),
            11 => Some(Other::A0BPO),
            12 => Some(Other::INTA_minus2SP),
            13 => Some(Other::A0BE_A0BI),
            _ => None,
        }
    }
}

impl SBUS {
    /// The signal's name as the control unit shows it (`None` for no operation).
    pub open spec fn label(self) -> Seq<char> {
        match self {
            SBUS::NoOp => "None"@,
            SBUS::PdFLAG => "PdFLAG"@,
            SBUS::PdRG => "PdRG"@,
            SBUS::PdSP => "PdSP"@,
            SBUS::PdT => "PdT"@,
            SBUS::PdTNeg => "PdTNeg"@,
            SBUS::PdPC => "PdPC"@,
            SBUS::PdIVR => "PdIVR"@,
            SBUS::PdADR => "PdADR"@,
            SBUS::PdMDR => "PdMDR"@,
            SBUS::PdIR_0_7 => "PdIR_0_7"@,
            SBUS::Pd0 => "Pd0"@,
            SBUS::PdNeg1 => "PdNeg1"@,
        }
    }

    /// The signal's name.
    pub fn name(&self) -> (r: &'static str)
        ensures
            r@ == self.label(),
    {
        match self {
            SBUS::NoOp => "None",
            SBUS::PdFLAG => "PdFLAG",
            SBUS::PdRG => "PdRG",
            SBUS::PdSP => "PdSP",
            SBUS::PdT => "PdT",
            SBUS::PdTNeg => "PdTNeg",
            SBUS::PdPC => "PdPC",
            SBUS::PdIVR => "PdIVR",
            SBUS::PdADR => "PdADR",
            SBUS::PdMDR => "PdMDR",
            SBUS::PdIR_0_7 => "PdIR_0_7",
            SBUS::Pd0 => "Pd0",
            SBUS::PdNeg1 => "PdNeg1",
        }
    }
}

impl DBUS {
    /// The signal's name as the control unit shows it (`None` for no operation).
    pub open spec fn label(self) -> Seq<char> {
        match self {
            DBUS::NoOp => "None"@,
            DBUS::PdFLAG => "PdFLAG"@,
            DBUS::PdRG => "PdRG"@,
            DBUS::PdSP => "PdSP"@,
            DBUS::PdT => "PdT"@,
            DBUS::PdPC => "PdPC"@,
            DBUS::PdIVR => "PdIVR"@,
            DBUS::PdADR => "PdADR"@,
            DBUS::PdMDR => "PdMDR"@,
            DBUS::PdMDRNeg => "PdMDRNeg"@,
            DBUS::PdIR_0_7 => "PdIR_0_7"@,
            DBUS::Pd0 => "Pd0"@,
            DBUS::PdNeg1 => "PdNeg1"@,
        }
    }

    /// The signal's name.
    pub fn name(&self) -> (r: &'static str)
        ensures
            r@ == self.label(),
    {
        match self {
            DBUS::NoOp => "None",
            DBUS::PdFLAG => "PdFLAG",
            DBUS::PdRG => "PdRG",
            DBUS::PdSP => "PdSP",
            DBUS::PdT => "PdT",
            DBUS::PdPC => "PdPC",
            DBUS::PdIVR => "PdIVR",
            DBUS::PdADR => "PdADR",
            DBUS::PdMDR => "PdMDR",
            DBUS::PdMDRNeg => "PdMDRNeg",
            DBUS::PdIR_0_7 => "PdIR_0_7",
            DBUS::Pd0 => "Pd0",
            DBUS::PdNeg1 => "PdNeg1",
        }
    }
}

impl ALU {
    /// The signal's name as the control unit shows it (`None` for no operation).
    pub open spec fn label(self) -> Seq<char> {
        match self {
            ALU::NoOp => "None"@,
            ALU::SBUS => "SBUS"@,
            ALU::DBUS => "DBUS"@,
            ALU::SUM => "SUM"@,
            ALU::SUB => "SUB"@,
            ALU::AND => "AND"@,
            ALU::OR => "OR"@,
            ALU::XOR => "XOR"@,
            ALU::ASL => "ASL"@,
            ALU::ASR => "ASR"@,
            ALU::LSR => "LSR"@,
            ALU::ROL => "ROL"@,
            ALU::ROR => "ROR"@,
            ALU::RLC => "RLC"@,
            ALU::RRC => "RRC"@,
        }
    }

    /// The signal's name.
    pub fn name(&self) -> (r: &'static str)
        ensures
            r@ == self.label(),
    {
        match self {
            ALU::NoOp => "None",
            ALU::SBUS => "SBUS",
            ALU::DBUS => "DBUS",
            ALU::SUM => "SUM",
            ALU::SUB => "SUB",
            ALU::AND => "AND",
            ALU::OR => "OR",
            ALU::XOR => "XOR",
            ALU::ASL => "ASL",
            ALU::ASR => "ASR",
            ALU::LSR => "LSR",
            ALU::ROL => "ROL",
            ALU::ROR => "ROR",
            ALU::RLC => "RLC",
            ALU::RRC => "RRC",
        }
    }
}

impl RBUS {
    /// The signal's name as the control unit shows it (`None` for no operation).
    pub open spec fn label(self) -> Seq<char> {
        match self {
            RBUS::NoOp => "None"@,
            RBUS::PmFLAG => "PmFLAG"@,
            RBUS::PmFLAG_3_0 => "PmFLAG_3_0"@,
            RBUS::PmRG => "PmRG"@,
            RBUS::PmSP => "PmSP"@,
            RBUS::PmT => "PmT"@,
            RBUS::PmPC => "PmPC"@,
            RBUS::PmIVR => "PmIVR"@,
            RBUS::PmADR => "PmADR"@,
            RBUS::PmMDR => "PmMDR"@,
        }
    }

    /// The signal's name.
    pub fn name(&self) -> (r: &'static str)
        ensures
            r@ == self.label(),
    {
        match self {
            RBUS::NoOp => "None",
            RBUS::PmFLAG => "PmFLAG",
            RBUS::PmFLAG_3_0 => "PmFLAG_3_0",
            RBUS::PmRG => "PmRG",
            RBUS::PmSP => "PmSP",
            RBUS::PmT => "PmT",
            RBUS::PmPC => "PmPC",
            RBUS::PmIVR => "PmIVR",
            RBUS::PmADR => "PmADR",
            RBUS::PmMDR => "PmMDR",
        }
    }
}

impl Memory {
    /// The signal's name as the control unit shows it (`None` for no operation).
    pub open spec fn label(self) -> Seq<char> {
        match self {
            Memory::NoOp => "None"@,
            Memory::IFCH => "IFCH"@,
            Memory::READ => "READ"@,
            Memory::WRITE => "WRITE"@,
        }
    }

    /// The signal's name.
    pub fn name(&self) -> (r: &'static str)
        ensures
            r@ == self.label(),
    {
        match self {
            Memory::NoOp => "None",
            Memory::IFCH => "IFCH",
            Memory::READ => "READ",
            Memory::WRITE => "WRITE",
        }
    }
}

impl Other {
    /// The signal's name as the control unit shows it (`None` for no operation).
    pub open spec fn label(self) -> Seq<char> {
        match self {
            Other::NoOp => "None"@,
            Other::plus2SP => "plus2SP"@,
            Other::minus2SP => "minus2SP"@,
            Other::plus2PC => "plus2PC"@,
            Other::A1BE0 => "A1BE0"@,
            Other::A1BE1 => "A1BE1"@,
            Other::PdCONDaritm => "PdCONDaritm"@,
            Other::Cin_PdCONDaritm => "Cin_PdCONDaritm"@,
            Other::PdCONDlog => "PdCONDlog"@,
            Other::A1BVI => "A1BVI"@,
            Other::A0BVI => "A0BVI"@,
            Other::A0BPO => "A0BPO"@,
            Other::INTA_minus2SP => "INTA_minus2SP"@,
            Other::A0BE_A0BI => "A0BE_A0BI"@,
        }
    }

    /// The signal's name.
    pub fn name(&self) -> (r: &'static str)
        ensures
            r@ == self.label(),
    {
        match self {
            Other::NoOp => "None",
            Other::plus2SP => "plus2SP",
            Other::minus2SP => "minus2SP",
            Other::plus2PC => "plus2PC",
            Other::A1BE0 => "A1BE0",
            Other::A1BE1 => "A1BE1",
            Other::PdCONDaritm => "PdCONDaritm",
            Other::Cin_PdCONDaritm => "Cin_PdCONDaritm",
            Other::PdCONDlog => "PdCONDlog",
            Other::A1BVI => "A1BVI",
            Other::A0BVI => "A0BVI",
            Other::A0BPO => "A0BPO",
            Other::INTA_minus2SP => "INTA_minus2SP",
            Other::A0BE_A0BI => "A0BE_A0BI",
        }
    }
}

} // verus!
