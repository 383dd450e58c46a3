//! Word-addressed main memory and its command device.

use vstd::prelude::*;
use crate::processor::signals;

verus! {

/// Address at which an assembled program starts.
pub const START_ADDRESS: u16 = 0;

/// Number of 16-bit words in main memory.
pub const MEMORY_WORDS: usize = 65536;

struct Memory {
    data: Vec<u16>,
}

/// Main memory seen through its local command device.
pub struct MemoryInterface {
    memory: Memory,
}

impl View for MemoryInterface {
    type V = Seq<u16>;

    /// The 65536 words of memory, by address.
    closed spec fn view(&self) -> Seq<u16> {
        Seq::new(MEMORY_WORDS as nat, |i: int| self.memory.data@[i])
    }
}

/// The memory always holds exactly `MEMORY_WORDS` words.
pub broadcast proof fn lemma_memory_size(m: MemoryInterface)
    ensures
        #[trigger] m@.len() == MEMORY_WORDS,
{
}

/// Word `i` of a loaded program: bytes `2i` and `2i + 1` taken little-endian,
/// the order in which object code is written; a lone last byte is the low
/// half of its word; words past the program are zero.
pub open spec fn loaded_word(bytes: Seq<u8>, i: int) -> u16 {
    if 2 * i + 1 < bytes.len() {
        (bytes[2 * i] as int + bytes[2 * i + 1] as int * 256) as u16
    } else if 2 * i < bytes.len() {
        bytes[2 * i] as u16
    } else {
        0
    }
}

/// Memory contents after loading `bytes` at address 0.
pub open spec fn loaded_memory(bytes: Seq<u8>) -> Seq<u16> {
    Seq::new(MEMORY_WORDS as nat, |i: int| loaded_word(bytes, i))
}

/// Memory words as bytes, each word low byte first.
pub open spec fn dumped_bytes(words: Seq<u16>) -> Seq<u8> {
    Seq::new(
        2 * words.len(),
        |i: int|
            if i % 2 == 0 {
                (words[i / 2] % 256) as u8
            } else {
                (words[i / 2] / 256) as u8
            },
    )
}

/// Loads a program image into a fresh memory from address 0, two bytes per
/// word, low byte first.
pub fn load_program(program_data: &[u8]) -> (r: MemoryInterface)
    requires
        program_data@.len() <= 2 * MEMORY_WORDS,
    ensures
        r@ == loaded_memory(program_data@),
{
    let mut data: Vec<u16> = vec![0u16; MEMORY_WORDS];
    let n = program_data.len();
    let mut i: usize = 0;
    while 2 * i < n
        invariant
            n == program_data@.len(),
            n <= 2 * MEMORY_WORDS,
            data@.len() == MEMORY_WORDS,
            i <= MEMORY_WORDS,
            2 * i <= n + 1,
            forall|j: int| 0 <= j < i ==> data@[j] == loaded_word(program_data@, j),
            forall|j: int| i <= j < MEMORY_WORDS ==> data@[j] == 0,
        decreases n + 1 - 2 * i,
    {
        let value: u16 = if 2 * i + 1 < n {
            program_data[2 * i] as u16 + (program_data[2 * i + 1] as u16) * 256
        } else {
            program_data[2 * i] as u16
        };
        data.set(i, value);
        i = i + 1;
    }
    let mem_interf = MemoryInterface { memory: Memory { data } };
    assert(mem_interf@ =~= loaded_memory(program_data@));
    mem_interf
}

impl MemoryInterface {
    /// A memory whose words are all zero.
    pub fn new() -> (r: Self)
        ensures
            r@ == Seq::new(MEMORY_WORDS as nat, |i: int| 0u16),
    {
        let data: Vec<u16> = vec![0u16; MEMORY_WORDS];
        let r = Self { memory: Memory { data } };
        assert(r@ =~= Seq::new(MEMORY_WORDS as nat, |i: int| 0u16));
        r
    }

    #[verifier::type_invariant]
    spec fn inv(&self) -> bool {
        self.memory.data@.len() == MEMORY_WORDS
    }

    /// The whole memory as bytes, each word low byte first (the order in which
    /// `load_program` reads them).
    pub fn dump_bytes(&self) -> (r: Vec<u8>)
        ensures
            r@ == dumped_bytes(self@),
    {
        proof {
            use_type_invariant(self);
        }
        let mut bytes: Vec<u8> = Vec::new();
        let mut i: usize = 0;
        while i < MEMORY_WORDS
            invariant
                i <= MEMORY_WORDS,
                self.memory.data@.len() == MEMORY_WORDS,
                bytes@.len() == 2 * i,
                forall|j: int| 0 <= j < 2 * i ==> #[trigger] bytes@[j] == dumped_bytes(self@)[j],
            decreases MEMORY_WORDS - i,
        {
            let word = self.memory.data[i];
            assert(word >> 8 == word / 256) by (bit_vector);
            assert(word & 0xFF == word % 256) by (bit_vector);
            bytes.push((word & 0xFF) as u8);
            bytes.push((word >> 8) as u8);
            i = i + 1;
        }
        assert(bytes@ =~= dumped_bytes(self@));
        bytes
    }

    /// Carries out one memory operation: `IFCH` and `READ` copy the word at
    /// `ADR` into `IR` and `MDR`, `WRITE` stores `MDR` at `ADR`.
    pub fn process_signal(&mut self, signal: &signals::Memory, IR: &mut u16, ADR: &mut u16, MDR: &mut u16)
        ensures
            *final(ADR) == *old(ADR),
            *final(MDR) == (if *signal == signals::Memory::READ { old(self)@[*old(ADR) as int] } else { *old(MDR) }),
            *final(IR) == (if *signal == signals::Memory::IFCH { old(self)@[*old(ADR) as int] } else { *old(IR) }),
            final(self)@ == (if *signal == signals::Memory::WRITE {
                old(self)@.update(*old(ADR) as int, *old(MDR))
            } else {
                old(self)@
            }),
    {
        proof {
            use_type_invariant(&*self);
        }
        match signal {
            signals::Memory::NoOp => {},
            signals::Memory::IFCH => *IR = Controller::read(&self.memory, *ADR),
            signals::Memory::READ => *MDR = Controller::read(&self.memory, *ADR),
            signals::Memory::WRITE => Controller::write(&mut self.memory, *ADR, *MDR),
        }
        proof {
            if *signal == signals::Memory::WRITE {
                assert(self@ =~= old(self)@.update(*old(ADR) as int, *old(MDR)));
            }
        }
    }
}

/// Local memory command device.
struct Controller;

impl Controller {
    fn read(memory: &Memory, address: u16) -> (r: u16)
        requires
            memory.data@.len() == MEMORY_WORDS,
        ensures
            r == memory.data@[address as int],
    {
        memory.data[address as usize]
    }

    fn write(memory: &mut Memory, address: u16, value: u16)
        requires
            old(memory).data@.len() == MEMORY_WORDS,
        ensures
            final(memory).data@ == old(memory).data@.update(address as int, value),
        no_unwind
    {
        memory.data[address as usize] = value;
    }
}

/// Dumping a freshly loaded memory gives back the program image, followed by zeros.
pub proof fn lemma_dump_after_load(bytes: Seq<u8>)
    requires
        bytes.len() <= 2 * MEMORY_WORDS,
    ensures
        forall|i: int| 0 <= i < bytes.len() ==> #[trigger] dumped_bytes(loaded_memory(bytes))[i] == bytes[i],
        forall|i: int|
            bytes.len() <= i < 2 * MEMORY_WORDS ==> #[trigger] dumped_bytes(loaded_memory(bytes))[i] == 0,
{
    assert forall|i: int| 0 <= i < bytes.len() implies #[trigger] dumped_bytes(loaded_memory(bytes))[i] == bytes[i] by {
        let w = i / 2;
        if i % 2 == 0 {
            assert(2 * w == i);
        } else {
            assert(2 * w + 1 == i);
        }
    }
    assert forall|i: int| bytes.len() <= i < 2 * MEMORY_WORDS implies #[trigger] dumped_bytes(loaded_memory(bytes))[i] == 0 by {
        let w = i / 2;
        if i % 2 == 0 {
            assert(2 * w == i);
        } else {
            assert(2 * w + 1 == i);
        }
    }
}

} // verus!
