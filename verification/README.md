# micro_sequentia

An assembler and a microprogrammed CPU simulator for a word-oriented machine
with sixteen 16-bit general registers, written in Verus: every function of the
library carries a contract and is proved against it.

## Layout

- `src/assembler/` — the assembly language (`architecture`), the parser from
  source text to placed instructions and a symbol table (`parser`), and the
  encoder to little-endian object code (`encoder`).
- `src/memory.rs` — the word-addressed main memory, the program loader and the
  memory operations of a microinstruction.
- `src/processor/` — the control signals (`signals`), the register-transfer
  semantics of one microinstruction (`architecture`), the microprogrammed
  control unit and its three-phase sequencer (`control_unit`), and the CPU
  with its snapshots (`mod.rs`).
- `src/microprogram.rs` — the text format of a microprogram (one hexadecimal
  microinstruction per line).
- `src/text.rs` — the character-level helpers the parsers are built from.
- `app/` — the command line, file access, the run loop paced in time (one
  verified `CPU::run_for` step per tick) and the
  GUI (eframe and rfd); it calls the library and checks its preconditions
  before each call.
- `tests/` — tests of the library on concrete programs and values.

## Laws

Besides the contract of each function, the library states and proves laws as
public proof functions, among them: the layout of parsed programs
(`parser::lemma_parsed_layout`, `parser::lemma_parsed_source_lines`), the
byte layout of object code (`encoder::lemma_object_code_layout`), the
agreement of encoder and dispatch (`encoder::lemma_dispatch_reads_encoding`),
loading object code puts the program's own words in memory
(`encoder::lemma_load_object_code`), labels name the next instruction's
address (`parser::lemma_parsed_labels`),
the opcode names reading back (`architecture::lemma_name_parses`), the flag
bits (`processor::architecture::lemma_flag_bits`), read-after-write on memory
(`processor::architecture::lemma_write_then_read`) and the sequencer cycle
(`sequencer::lemma_phase_cycle`).
