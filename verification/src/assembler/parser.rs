//! The assembler's front end: from source text to placed instructions and a
//! symbol table.

use vstd::prelude::*;
use crate::assembler::architecture::{
    OpcodeB4, AddressableInstruction, Instruction, InstructionModel, InstructionSize, LocatedInstruction, Opcode,
    OpcodeB1, Operand, Register, SymbolTable, parse_opcode, parse_opcode_chars, unknown_opcode_message,
};
use crate::memory;
use crate::text::{
    decimal, index_where, is_char, join_lines, lemma_index_where_bounds, lines, parse_unsigned,
    parse_unsigned_chars, push_chars, push_decimal, replace_all, replace_chars, split_lines, split_tokens,
    string_from_chars, tokens, trim, trim_range, find_char, chars_of,
};

verus! {

/// Placed instructions and the labels they define.
pub struct ParsedCode {
    pub instructions: Vec<AddressableInstruction>,
    pub symbol_table: SymbolTable,
}

/// Number of the last general register: registers are R0 through R15.
pub const LAST_REGISTER: u64 = 15;

/// The operand written as `tok`: a decimal immediate, `(Rn)`, `offset(Rn)` or `Rn`,
/// where `n` names one of the registers R0 through R15.
pub open spec fn operand_of(tok: Seq<char>) -> Result<Operand, Seq<char>> {
    if parse_unsigned(tok, 10, 0xFFFF) is Some {
        Ok(Operand::Immediate(parse_unsigned(tok, 10, 0xFFFF).unwrap() as u16))
    } else if tok.len() > 0 && tok[0] == '(' && tok.last() == ')' {
        let inner = tok.subrange(1, tok.len() - 1);
        if !(inner.len() > 0 && inner[0] == 'R') {
            Err("Invalid register syntax: "@ + tok)
        } else {
            match parse_unsigned(inner.drop_first(), 10, LAST_REGISTER as nat) {
                None => Err("Invalid register: "@ + tok),
                Some(r) => Ok(Operand::Indirect(Register(r as u8))),
            }
        }
    } else if index_where(tok, 0, is_char('(')) < tok.len() {
        let idx = index_where(tok, 0, is_char('('));
        if !(tok.last() == ')') {
            Err("Invalid indexed operand: "@ + tok)
        } else {
            let reg_part = tok.subrange(idx + 1, tok.len() - 1);
            if !(reg_part.len() > 0 && reg_part[0] == 'R') {
                Err("Invalid register syntax: "@ + tok)
            } else {
                match parse_unsigned(reg_part.drop_first(), 10, LAST_REGISTER as nat) {
                    None => Err("Invalid register: "@ + tok),
                    Some(r) => match parse_unsigned(tok.take(idx), 10, 0xFFFF) {
                        None => Err("Invalid offset: "@ + tok),
                        Some(o) => Ok(Operand::Indexed(Register(r as u8), o as u16)),
                    },
                }
            }
        }
    } else if tok.len() > 0 && tok[0] == 'R' {
        match parse_unsigned(tok.drop_first(), 10, LAST_REGISTER as nat) {
            None => Err("Invalid register: "@ + tok),
            Some(r) => Ok(Operand::Direct(Register(r as u8))),
        }
    } else {
        Err("Invalid operand: "@ + tok)
    }
}

fn message_with_token(prefix: &str, token: &[char]) -> (r: String)
    ensures
        r@ == prefix@ + token@,
{
    let mut e = String::new();
    e.append(prefix);
    push_chars(&mut e, token);
    e
}

fn parse_operand(token: &[char]) -> (r: Result<Operand, String>)
    ensures
        r matches Ok(o) ==> operand_of(token@) == Ok::<Operand, Seq<char>>(o),
        r matches Err(e) ==> operand_of(token@) == Err::<Operand, Seq<char>>(e@),
{
    let n = token.len();
    if let Some(immediate) = parse_unsigned_chars(token, 10, 0xFFFF) {
        return Ok(Operand::Immediate(immediate as u16));
    }
    if n > 0 && token[0] == '(' && token[n - 1] == ')' {
        let inner = &token[1..n - 1];
        if !(inner.len() > 0 && inner[0] == 'R') {
            return Err(message_with_token("Invalid register syntax: ", token));
        }
        let reg_str = &inner[1..inner.len()];
        assert(reg_str@ =~= inner@.drop_first());
        match parse_unsigned_chars(reg_str, 10, LAST_REGISTER) {
            None => Err(message_with_token("Invalid register: ", token)),
            Some(reg_num) => Ok(Operand::Indirect(Register(reg_num as u8))),
        }
    } else if find_char(token, 0, '(') < n {
        let idx = find_char(token, 0, '(');
        proof {
            lemma_index_where_bounds(token@, 0, is_char('('));
        }
        if !(token[n - 1] == ')') {
            return Err(message_with_token("Invalid indexed operand: ", token));
        }
        let reg_part = &token[idx + 1..n - 1];
        if !(reg_part.len() > 0 && reg_part[0] == 'R') {
            return Err(message_with_token("Invalid register syntax: ", token));
        }
        let reg_str = &reg_part[1..reg_part.len()];
        assert(reg_str@ =~= reg_part@.drop_first());
        let reg_num = match parse_unsigned_chars(reg_str, 10, LAST_REGISTER) {
            None => return Err(message_with_token("Invalid register: ", token)),
            Some(r) => r,
        };
        let offset_str = &token[0..idx];
        assert(offset_str@ =~= token@.take(idx as int));
        match parse_unsigned_chars(offset_str, 10, 0xFFFF) {
            None => Err(message_with_token("Invalid offset: ", token)),
            Some(offset) => Ok(Operand::Indexed(Register(reg_num as u8), offset as u16)),
        }
    } else if n > 0 && token[0] == 'R' {
        let stripped = &token[1..n];
        assert(stripped@ =~= token@.drop_first());
        match parse_unsigned_chars(stripped, 10, LAST_REGISTER) {
            None => Err(message_with_token("Invalid register: ", token)),
            Some(reg_num) => Ok(Operand::Direct(Register(reg_num as u8))),
        }
    } else {
        Err(message_with_token("Invalid operand: ", token))
    }
}

/// The instruction written on `line` (after labels and comments are removed):
/// an opcode and as many operands as its group takes, separated by spaces or
/// commas; tokens beyond those are ignored.
pub open spec fn instruction_of(line: Seq<char>) -> Result<InstructionModel, Seq<char>> {
    let ts = tokens(line);
    if ts.len() == 0 {
        Err("Empty instruction line"@)
    } else {
        match parse_opcode(ts[0]) {
            None => Err(unknown_opcode_message(ts[0])),
            Some(op) => match op {
                Opcode::B1(b1) => {
                    if ts.len() < 3 {
                        Err(ts[0] + " expects 2 operands"@)
                    } else {
                        match operand_of(ts[1]) {
                            Err(e) => Err(e),
                            Ok(dst) => match operand_of(ts[2]) {
                                Err(e) => Err(e),
                                Ok(src) => if dst is Immediate && b1 != OpcodeB1::CMP {
                                    Err("Destination operand cannot be immediate: "@ + ts[1])
                                } else {
                                    Ok(InstructionModel::TwoOperands { opcode: op, src, dst })
                                },
                            },
                        }
                    }
                },
                Opcode::B2(_) => {
                    if ts.len() < 2 {
                        Err(ts[0] + " expects 1 operand"@)
                    } else {
                        match operand_of(ts[1]) {
                            Err(e) => Err(e),
                            Ok(dst) => if dst is Immediate {
                                Err("Destination operand cannot be immediate: "@ + ts[1])
                            } else {
                                Ok(InstructionModel::OneOperand { opcode: op, dst })
                            },
                        }
                    }
                },
                Opcode::B3(_) => {
                    if ts.len() < 2 {
                        Err(ts[0] + " expects a branch offset"@)
                    } else {
                        Ok(InstructionModel::Jump { opcode: op, label: ts[1] })
                    }
                },
                Opcode::B4(_) => Ok(InstructionModel::Diverse { opcode: op }),
            },
        }
    }
}

fn token_then(token: &[char], suffix: &str) -> (r: String)
    ensures
        r@ == token@ + suffix@,
{
    let mut e = String::new();
    push_chars(&mut e, token);
    e.append(suffix);
    assert(Seq::<char>::empty() + token@ =~= token@);
    e
}

fn parse_instruction(line: &[char]) -> (r: Result<Instruction, String>)
    ensures
        r matches Ok(i) ==> instruction_of(line@) == Ok::<InstructionModel, Seq<char>>(i@),
        r matches Err(e) ==> instruction_of(line@) == Err::<InstructionModel, Seq<char>>(e@),
{
    let toks = split_tokens(line);
    let ghost ts = tokens(line@);
    assert(toks@.len() == ts.len());

    if toks.len() == 0 {
        let mut e = String::new();
        e.append("Empty instruction line");
        assert(Seq::<char>::empty() + "Empty instruction line"@ =~= "Empty instruction line"@);
        return Err(e);
    }

    let t0 = toks[0].as_slice();
    assert(t0@ == ts[0]);
    let opcode = match parse_opcode_chars(t0) {
        Ok(op) => op,
        Err(e) => return Err(e),
    };

    match opcode {
        Opcode::B1(op) => {
            if toks.len() < 3 {
                return Err(token_then(t0, " expects 2 operands"));
            }
            let t1 = toks[1].as_slice();
            let t2 = toks[2].as_slice();
            assert(t1@ == ts[1] && t2@ == ts[2]);
            let dst = match parse_operand(t1) {
                Ok(o) => o,
                Err(e) => return Err(e),
            };
            let src = match parse_operand(t2) {
                Ok(o) => o,
                Err(e) => return Err(e),
            };
            if let Operand::Immediate(_) = dst {
                if op != OpcodeB1::CMP {
                    return Err(message_with_token("Destination operand cannot be immediate: ", t1));
                }
            }
            Ok(Instruction::TwoOperands { opcode: Opcode::B1(op), src, dst })
        },
        Opcode::B2(op) => {
            if toks.len() < 2 {
                return Err(token_then(t0, " expects 1 operand"));
            }
            let t1 = toks[1].as_slice();
            assert(t1@ == ts[1]);
            let dst = match parse_operand(t1) {
                Ok(o) => o,
                Err(e) => return Err(e),
            };
            if let Operand::Immediate(_) = dst {
                return Err(message_with_token("Destination operand cannot be immediate: ", t1));
            }
            Ok(Instruction::OneOperand { opcode: Opcode::B2(op), dst })
        },
        Opcode::B3(op) => {
            if toks.len() < 2 {
                return Err(token_then(t0, " expects a branch offset"));
            }
            let t1 = toks[1].as_slice();
            assert(t1@ == ts[1]);
            let label = string_from_chars(t1);
            Ok(Instruction::Jump { opcode: Opcode::B3(op), label })
        },
        Opcode::B4(op) => Ok(Instruction::Diverse { opcode: Opcode::B4(op) }),
    }
}

/// Whether an operand takes an extra word (immediate and indexed).
pub open spec fn needs_extra_word(o: Operand) -> bool {
    o is Immediate || o is Indexed
}

/// Encoded size of an instruction: one word plus one per immediate or indexed operand.
pub open spec fn instruction_size(i: InstructionModel) -> InstructionSize {
    match i {
        InstructionModel::TwoOperands { src, dst, .. } => {
            if needs_extra_word(src) && needs_extra_word(dst) {
                InstructionSize::TripleWord
            } else if needs_extra_word(src) || needs_extra_word(dst) {
                InstructionSize::DoubleWord
            } else {
                InstructionSize::Word
            }
        },
        InstructionModel::OneOperand { dst, .. } => {
            if needs_extra_word(dst) {
                InstructionSize::DoubleWord
            } else {
                InstructionSize::Word
            }
        },
        _ => InstructionSize::Word,
    }
}

fn extra_word(o: &Operand) -> (r: u8)
    ensures
        r == (if needs_extra_word(*o) { 1u8 } else { 0u8 }),
{
    match o {
        Operand::Immediate(_) | Operand::Indexed(_, _) => 1,
        Operand::Direct(_) | Operand::Indirect(_) => 0,
    }
}

fn get_instruction_size(instruction: &Instruction) -> (r: Result<InstructionSize, String>)
    ensures
        r == Ok::<InstructionSize, String>(instruction_size(instruction@)),
{
    match instruction {
        Instruction::TwoOperands { src, dst, .. } => {
            let src_extra_size = extra_word(src);
            let dst_extra_size = extra_word(dst);
            InstructionSize::from_u8(2 + 2 * src_extra_size + 2 * dst_extra_size)
        },
        Instruction::OneOperand { dst, .. } => match dst {
            Operand::Immediate(_) | Operand::Indexed(_, _) => Ok(InstructionSize::DoubleWord),
            Operand::Direct(_) | Operand::Indirect(_) => Ok(InstructionSize::Word),
        },
        Instruction::Jump { .. } | Instruction::Diverse { .. } => Ok(InstructionSize::Word),
    }
}

/// Characters that start a comment.
pub open spec fn comment_start() -> spec_fn(char) -> bool {
    |c: char| c == '#' || c == ';'
}

/// `line` up to its first `#` or `;`.
pub open spec fn strip_comment(line: Seq<char>) -> Seq<char> {
    line.take(index_where(line, 0, comment_start()))
}

/// Source text with the two-word opcodes joined (`PUSH PC`, `POP PC`,
/// `PUSH FLAG`, `POP FLAG`, written exactly so) and comments removed.
pub open spec fn normalized(input: Seq<char>) -> Seq<char> {
    let joined = replace_all(
        replace_all(
            replace_all(
                replace_all(input, seq!['P', 'U', 'S', 'H', ' ', 'P', 'C'], seq!['P', 'U', 'S', 'H', '_', 'P', 'C']),
                seq!['P', 'O', 'P', ' ', 'P', 'C'],
                seq!['P', 'O', 'P', '_', 'P', 'C'],
            ),
            seq!['P', 'U', 'S', 'H', ' ', 'F', 'L', 'A', 'G'],
            seq!['P', 'U', 'S', 'H', '_', 'F', 'L', 'A', 'G'],
        ),
        seq!['P', 'O', 'P', ' ', 'F', 'L', 'A', 'G'],
        seq!['P', 'O', 'P', '_', 'F', 'L', 'A', 'G'],
    );
    join_lines(lines(joined).map_values(|l: Seq<char>| strip_comment(l)))
}

// comments, multiple-word opcodes and labels
fn normalize_edgecases(input: &[char]) -> (r: Vec<char>)
    ensures
        r@ == normalized(input@),
{
    let s1 = replace_chars(input, vec!['P', 'U', 'S', 'H', ' ', 'P', 'C'].as_slice(), vec!['P', 'U', 'S', 'H', '_', 'P', 'C'].as_slice());
    let s2 = replace_chars(s1.as_slice(), vec!['P', 'O', 'P', ' ', 'P', 'C'].as_slice(), vec!['P', 'O', 'P', '_', 'P', 'C'].as_slice());
    let s3 = replace_chars(
        s2.as_slice(),
        vec!['P', 'U', 'S', 'H', ' ', 'F', 'L', 'A', 'G'].as_slice(),
        vec!['P', 'U', 'S', 'H', '_', 'F', 'L', 'A', 'G'].as_slice(),
    );
    let s4 = replace_chars(
        s3.as_slice(),
        vec!['P', 'O', 'P', ' ', 'F', 'L', 'A', 'G'].as_slice(),
        vec!['P', 'O', 'P', '_', 'F', 'L', 'A', 'G'].as_slice(),
    );
    let ls = split_lines(s4.as_slice());
    let ghost stripped = lines(s4@).map_values(|l: Seq<char>| strip_comment(l));
    let mut out: Vec<char> = Vec::new();
    let mut i: usize = 0;
    while i < ls.len()
        invariant
            i <= ls@.len() == stripped.len(),
            forall|j: int| 0 <= j < ls@.len() ==> #[trigger] ls@[j]@ == lines(s4@)[j],
            stripped == lines(s4@).map_values(|l: Seq<char>| strip_comment(l)),
            out@ == join_lines(stripped.take(i as int)),
        decreases ls@.len() - i,
    {
        let line = ls[i].as_slice();
        let end = find_comment(line);
        let ghost before = out@;
        if i > 0 {
            out.push('\n');
        }
        let mut k: usize = 0;
        while k < end
            invariant
                k <= end <= line@.len(),
                out@ == (if i > 0 { before.push('\n') } else { before }) + line@.take(k as int),
            decreases end - k,
        {
            out.push(line[k]);
            k = k + 1;
            assert(line@.take(k as int) =~= line@.take(k - 1).push(line@[k - 1]));
        }
        assert(stripped[i as int] == line@.take(end as int));
        let ghost next = stripped.take(i + 1);
        assert(next.drop_last() =~= stripped.take(i as int));
        if i > 0 {
            assert(out@ =~= join_lines(next.drop_last()) + seq!['\n'] + next.last());
        } else {
            assert(out@ =~= next[0]);
        }
        i = i + 1;
    }
    assert(stripped.take(ls@.len() as int) =~= stripped);
    out
}

fn find_comment(line: &[char]) -> (r: usize)
    ensures
        r == index_where(line@, 0, comment_start()),
        r <= line@.len(),
{
    let n = line.len();
    let mut i: usize = 0;
    while i < n && line[i] != '#' && line[i] != ';'
        invariant
            i <= n == line@.len(),
            index_where(line@, 0, comment_start()) == index_where(line@, i as int, comment_start()),
        decreases n - i,
    {
        i = i + 1;
    }
    i
}

/// Placed instructions and labels as values.
pub struct ParseState {
    pub instructions: Seq<LocatedInstruction>,
    pub symbols: Map<Seq<char>, u16>,
}

impl View for ParsedCode {
    type V = ParseState;

    open spec fn view(&self) -> ParseState {
        ParseState {
            instructions: self.instructions@.map_values(|a: AddressableInstruction| a@),
            symbols: self.symbol_table@,
        }
    }
}

/// Address of the next instruction: just after the last one (wrapping at 16
/// bits), or the start address when there is none.
pub open spec fn next_address(instructions: Seq<LocatedInstruction>) -> u16 {
    if instructions.len() == 0 {
        memory::START_ADDRESS
    } else {
        instructions.last().address.wrapping_add(instructions.last().size.bytes())
    }
}

pub open spec fn line_error(line_number: nat, e: Seq<char>) -> Seq<char> {
    "Line "@ + decimal(line_number) + ": "@ + e
}

/// Parses one source line numbered `line_number` (from 1): a line blank after
/// trimming is skipped; text before the first `:` is a label defined at the
/// next address (when not blank); what remains, if not blank, is an instruction.
pub open spec fn parse_line(st: ParseState, line: Seq<char>, line_number: nat) -> Result<ParseState, Seq<char>> {
    let t = trim(line);
    if t.len() == 0 {
        Ok(st)
    } else {
        let address = next_address(st.instructions);
        let colon = index_where(t, 0, is_char(':'));
        let labelled = if colon < t.len() && trim(t.take(colon)).len() > 0 {
            ParseState { symbols: st.symbols.insert(trim(t.take(colon)), address), ..st }
        } else {
            st
        };
        let rest = if colon < t.len() {
            trim(t.skip(colon + 1))
        } else {
            t
        };
        if rest.len() == 0 {
            Ok(labelled)
        } else {
            match instruction_of(rest) {
                Err(e) => Err(line_error(line_number, e)),
                Ok(instruction) => Ok(
                    ParseState {
                        instructions: labelled.instructions.push(
                            LocatedInstruction {
                                instruction,
                                address,
                                size: instruction_size(instruction),
                                source_line: line_number as usize,
                            },
                        ),
                        ..labelled
                    },
                ),
            }
        }
    }
}

/// The result of parsing the first `k` lines of `ls`.
pub open spec fn parse_lines(ls: Seq<Seq<char>>, k: nat) -> Result<ParseState, Seq<char>>
    decreases k,
{
    if k == 0 {
        Ok(ParseState { instructions: seq![], symbols: Map::empty() })
    } else {
        match parse_lines(ls, (k - 1) as nat) {
            Err(e) => Err(e),
            Ok(st) => parse_line(st, ls[k - 1], k),
        }
    }
}

/// An error in the first `k` lines is the error of the whole text.
proof fn lemma_error_persists(ls: Seq<Seq<char>>, k: nat, n: nat)
    requires
        k <= n,
        parse_lines(ls, k) is Err,
    ensures
        parse_lines(ls, n) == parse_lines(ls, k),
    decreases n,
{
    if n > k {
        lemma_error_persists(ls, k, (n - 1) as nat);
    }
}

/// The program that the source `input` denotes, or the first error in it.
pub open spec fn parsed(input: Seq<char>) -> Result<ParseState, Seq<char>> {
    let ls = lines(normalized(input));
    parse_lines(ls, ls.len())
}

fn trimmed(s: &[char]) -> (r: &[char])
    ensures
        r@ == trim(s@),
{
    let (a, b) = trim_range(s);
    &s[a..b]
}

/// Parses assembly source into placed instructions and a symbol table.
pub fn parse_text(input: &str) -> (r: Result<ParsedCode, String>)
    ensures
        r is Ok <==> parsed(input@) is Ok,
        r matches Ok(pc) ==> parsed(input@) == Ok::<ParseState, Seq<char>>(pc@),
        r matches Err(e) ==> parsed(input@) == Err::<ParseState, Seq<char>>(e@),
{
    let chars = chars_of(input);
    let normalized_input = normalize_edgecases(chars.as_slice());
    let ls = split_lines(normalized_input.as_slice());
    let ghost spec_lines = lines(normalized(input@));
    let mut instructions = Vec::<AddressableInstruction>::new();
    let mut symbol_table = SymbolTable::new();
    let mut k: usize = 0;
    assert(instructions@.map_values(|a: AddressableInstruction| a@) =~= Seq::<LocatedInstruction>::empty());
    while k < ls.len()
        invariant
            k <= ls@.len() == spec_lines.len(),
            spec_lines == lines(normalized(input@)),
            forall|j: int| 0 <= j < ls@.len() ==> #[trigger] ls@[j]@ == spec_lines[j],
            parse_lines(spec_lines, k as nat) == Ok::<ParseState, Seq<char>>(
                ParseState {
                    instructions: instructions@.map_values(|a: AddressableInstruction| a@),
                    symbols: symbol_table@,
                },
            ),
        decreases ls@.len() - k,
    {
        let ghost st = ParseState {
            instructions: instructions@.map_values(|a: AddressableInstruction| a@),
            symbols: symbol_table@,
        };
        let ghost old_instructions = instructions@;
        let line = ls[k].as_slice();
        let mut trimmed_line = trimmed(line);
        k = k + 1;
        if trimmed_line.len() == 0 {
            continue;
        }

        let address = if instructions.len() == 0 {
            memory::START_ADDRESS
        } else {
            let last = &instructions[instructions.len() - 1];
            last.address.wrapping_add(last.size.byte_count())
        };
        assert(address == next_address(st.instructions));

        let t = trimmed_line;
        let colon = find_char(t, 0, ':');
        if colon < t.len() {
            let label = trimmed(&t[0..colon]);
            assert(t@.take(colon as int) =~= t@.subrange(0, colon as int));
            if label.len() != 0 {
                symbol_table.insert(string_from_chars(label), address);
            }
            let after = &t[colon + 1..t.len()];
            assert(after@ =~= t@.skip(colon + 1));
            trimmed_line = trimmed(after);
            if trimmed_line.len() == 0 {
                continue;
            }
        }

        let instruction = match parse_instruction(trimmed_line) {
            Ok(i) => i,
            Err(err) => {
                let mut e = String::new();
                e.append("Line ");
                push_decimal(&mut e, k as u64);
                e.append(": ");
                e.append(err.as_str());
                proof {
                    assert(e@ =~= line_error(k as nat, err@));
                    assert(parse_lines(spec_lines, k as nat) == Err::<ParseState, Seq<char>>(e@));
                    lemma_error_persists(spec_lines, k as nat, spec_lines.len());
                }
                return Err(e);
            },
        };

        let size = match get_instruction_size(&instruction) {
            Ok(s) => s,
            Err(e) => return Err(e),
        };

        instructions.push(AddressableInstruction { instruction, address, size, source_line: k });
        assert(instructions@.map_values(|a: AddressableInstruction| a@) =~= old_instructions.map_values(
            |a: AddressableInstruction| a@,
        ).push(instructions@.last()@));
    }
    Ok(ParsedCode { instructions, symbol_table })
}

/// Whether the instruction's form is that of its opcode's group: two operands
/// for B1, one for B2, a label for B3, none for B4.
pub open spec fn form_matches_group(i: InstructionModel) -> bool {
    match i {
        InstructionModel::TwoOperands { opcode, .. } => opcode is B1,
        InstructionModel::OneOperand { opcode, .. } => opcode is B2,
        InstructionModel::Jump { opcode, .. } => opcode is B3,
        InstructionModel::Diverse { opcode } => opcode is B4,
    }
}

/// Every instruction has the form of its opcode's group and the size its operands call for, the first stands at
/// the start address, and each next one right after the previous one (wrapping
/// at 16 bits).
pub open spec fn layout_consistent(instructions: Seq<LocatedInstruction>) -> bool {
    forall|k: int|
        0 <= k < instructions.len() ==> {
            &&& (#[trigger] instructions[k]).size == instruction_size(instructions[k].instruction)
            &&& instructions[k].address == next_address(instructions.take(k))
            &&& form_matches_group(instructions[k].instruction)
        }
}

proof fn lemma_parse_lines_layout(ls: Seq<Seq<char>>, k: nat)
    ensures
        parse_lines(ls, k) matches Ok(st) ==> layout_consistent(st.instructions),
    decreases k,
{
    if k > 0 {
        lemma_parse_lines_layout(ls, (k - 1) as nat);
        if let Ok(st) = parse_lines(ls, (k - 1) as nat) {
            if let Ok(st2) = parse_line(st, ls[k - 1], k) {
                let n = st.instructions.len();
                if st2.instructions.len() == n + 1 {
                    assert(st2.instructions.take(n as int) =~= st.instructions);
                    assert forall|j: int| 0 <= j < st2.instructions.len() implies {
                        &&& (#[trigger] st2.instructions[j]).size == instruction_size(st2.instructions[j].instruction)
                        &&& st2.instructions[j].address == next_address(st2.instructions.take(j))
                        &&& form_matches_group(st2.instructions[j].instruction)
                    } by {
                        if j < n {
                            assert(st2.instructions[j] == st.instructions[j]);
                            assert(st2.instructions.take(j) =~= st.instructions.take(j));
                        }
                    }
                } else {
                    assert(st2.instructions == st.instructions);
                }
            }
        }
    }
}

/// The instructions of every successfully parsed program are laid out one
/// after the other from the start address, each with the size its operands call for.
pub proof fn lemma_parsed_layout(input: Seq<char>)
    ensures
        parsed(input) matches Ok(st) ==> layout_consistent(st.instructions),
{
    let ls = lines(normalized(input));
    lemma_parse_lines_layout(ls, ls.len());
}

/// Every instruction records a line of the first `n` lines (counted from 1),
/// and later instructions come from later lines.
pub open spec fn source_lines_ordered(instructions: Seq<LocatedInstruction>, n: nat) -> bool {
    &&& forall|k: int| 0 <= k < instructions.len() ==> 1 <= (#[trigger] instructions[k]).source_line <= n
    &&& forall|i: int, k: int|
        0 <= i < k < instructions.len() ==> (#[trigger] instructions[i]).source_line < (#[trigger] instructions[k]).source_line
}

proof fn lemma_parse_lines_sources(ls: Seq<Seq<char>>, k: nat)
    requires
        k <= usize::MAX,
    ensures
        parse_lines(ls, k) matches Ok(st) ==> source_lines_ordered(st.instructions, k),
    decreases k,
{
    if k > 0 {
        lemma_parse_lines_sources(ls, (k - 1) as nat);
        if let Ok(st) = parse_lines(ls, (k - 1) as nat) {
            if let Ok(st2) = parse_line(st, ls[k - 1], k) {
                let n = st.instructions.len();
                if st2.instructions.len() == n + 1 {
                    assert forall|j: int| 0 <= j < n implies st2.instructions[j] == st.instructions[j] by {}
                    assert(st2.instructions[n as int].source_line == k);
                } else {
                    assert(st2.instructions == st.instructions);
                }
            }
        }
    }
}

/// The instructions of a parsed program keep the order of the source: each
/// names the line (from 1) it was read from, and later instructions come from
/// later lines.
pub proof fn lemma_parsed_source_lines(input: Seq<char>)
    requires
        lines(normalized(input)).len() <= usize::MAX,
    ensures
        parsed(input) matches Ok(st) ==> source_lines_ordered(st.instructions, lines(normalized(input)).len()),
{
    let ls = lines(normalized(input));
    lemma_parse_lines_sources(ls, ls.len());
}

/// The label that `line` defines: the trimmed text before its first `:`, when
/// that is not blank.
pub open spec fn label_of_line(line: Seq<char>) -> Option<Seq<char>> {
    let t = trim(line);
    let colon = index_where(t, 0, is_char(':'));
    if t.len() > 0 && colon < t.len() && trim(t.take(colon)).len() > 0 {
        Some(trim(t.take(colon)))
    } else {
        None
    }
}

/// The last of the first `m` lines (counted from 1) that defines `l`, or 0 when none does.
pub open spec fn last_definition(ls: Seq<Seq<char>>, m: nat, l: Seq<char>) -> nat
    decreases m,
{
    if m == 0 {
        0
    } else if label_of_line(ls[m - 1]) == Some(l) {
        m
    } else {
        last_definition(ls, (m - 1) as nat, l)
    }
}

/// The first `j` instructions come from lines before line `k`, the others from
/// line `k` or later.
pub open spec fn split_at_line(instructions: Seq<LocatedInstruction>, k: nat, j: int) -> bool {
    &&& 0 <= j <= instructions.len()
    &&& forall|i: int| 0 <= i < j ==> (#[trigger] instructions[i]).source_line < k
    &&& forall|i: int| j <= i < instructions.len() ==> (#[trigger] instructions[i]).source_line >= k
}

/// `address` is where a label defined on line `k` points: the address of the
/// first instruction read from line `k` or later, or the address just after the
/// last instruction when there is none.
pub open spec fn label_placed(instructions: Seq<LocatedInstruction>, k: nat, address: u16) -> bool {
    exists|j: int|
        #[trigger] split_at_line(instructions, k, j) && address == (if j < instructions.len() {
            instructions[j].address
        } else {
            next_address(instructions)
        })
}

spec fn placed_after_prefix(instructions: Seq<LocatedInstruction>, k: nat, address: u16) -> bool {
    exists|j: int| #[trigger] split_at_line(instructions, k, j) && address == next_address(instructions.take(j))
}

proof fn lemma_last_definition_bound(ls: Seq<Seq<char>>, m: nat, l: Seq<char>)
    ensures
        last_definition(ls, m, l) <= m,
    decreases m,
{
    if m > 0 {
        lemma_last_definition_bound(ls, (m - 1) as nat, l);
    }
}

spec fn labels_invariant(ls: Seq<Seq<char>>, m: nat, st: ParseState) -> bool {
    forall|l: Seq<char>|
        #![trigger st.symbols.contains_key(l)]
        #![trigger last_definition(ls, m, l)]
        (st.symbols.contains_key(l) <==> last_definition(ls, m, l) > 0) && (st.symbols.contains_key(l)
            ==> placed_after_prefix(st.instructions, last_definition(ls, m, l), st.symbols[l]))
}

proof fn lemma_parse_lines_labels(ls: Seq<Seq<char>>, m: nat)
    requires
        m <= usize::MAX,
    ensures
        parse_lines(ls, m) matches Ok(st) ==> labels_invariant(ls, m, st),
    decreases m,
{
    if m > 0 {
        let pm = (m - 1) as nat;
        lemma_parse_lines_labels(ls, pm);
        lemma_parse_lines_sources(ls, pm);
        if let Ok(st) = parse_lines(ls, pm) {
            if let Ok(st2) = parse_line(st, ls[pm as int], m) {
                let n = st.instructions.len();
                let line = ls[pm as int];
                let a = next_address(st.instructions);
                assert(st2.instructions.len() == n || st2.instructions.len() == n + 1);
                assert forall|i: int| 0 <= i < n implies st2.instructions[i] == st.instructions[i] by {}
                if st2.instructions.len() == n + 1 {
                    assert(st2.instructions[n as int].source_line == m);
                }
                if trim(line).len() > 0 {
                    match label_of_line(line) {
                        Some(l0) => assert(st2.symbols == st.symbols.insert(l0, a)),
                        None => assert(st2.symbols == st.symbols),
                    }
                }
                assert forall|l: Seq<char>|
                    #![trigger st2.symbols.contains_key(l)]
                    #![trigger last_definition(ls, m, l)]
                    (st2.symbols.contains_key(l) <==> last_definition(ls, m, l) > 0) && (st2.symbols.contains_key(l)
                        ==> placed_after_prefix(st2.instructions, last_definition(ls, m, l), st2.symbols[l])) by {
                    if label_of_line(line) == Some(l) {
                        assert(last_definition(ls, m, l) == m);
                        let j = n as int;
                        assert(st2.instructions.take(j) =~= st.instructions);
                        assert forall|i: int| 0 <= i < j implies (#[trigger] st2.instructions[i]).source_line < m by {
                            assert(st.instructions[i].source_line <= pm);
                        }
                        assert(split_at_line(st2.instructions, m, j));
                        assert(placed_after_prefix(st2.instructions, m, st2.symbols[l]));
                    } else {
                        assert(last_definition(ls, m, l) == last_definition(ls, pm, l));
                        lemma_last_definition_bound(ls, pm, l);
                        assert(st2.symbols.contains_key(l) == st.symbols.contains_key(l));
                        if st.symbols.contains_key(l) {
                            let k = last_definition(ls, pm, l);
                            assert(st2.symbols[l] == st.symbols[l]);
                            let j = choose|j: int|
                                #[trigger] split_at_line(st.instructions, k, j) && st.symbols[l] == next_address(
                                    st.instructions.take(j),
                                );
                            assert(st2.instructions.take(j) =~= st.instructions.take(j));
                            assert forall|i: int| 0 <= i < j implies (#[trigger] st2.instructions[i]).source_line < k by {
                                assert(st.instructions[i].source_line < k);
                            }
                            assert forall|i: int| j <= i < st2.instructions.len() implies (
                            #[trigger] st2.instructions[i]).source_line >= k by {
                                if i < n {
                                    assert(st.instructions[i].source_line >= k);
                                }
                            }
                            assert(split_at_line(st2.instructions, k, j));
                            assert(placed_after_prefix(st2.instructions, k, st2.symbols[l]));
                        }
                    }
                }
            }
        }
    }
}

proof fn lemma_placed_from_prefix(instructions: Seq<LocatedInstruction>, k: nat, address: u16)
    requires
        layout_consistent(instructions),
        placed_after_prefix(instructions, k, address),
    ensures
        label_placed(instructions, k, address),
{
    let j = choose|j: int| #[trigger] split_at_line(instructions, k, j) && address == next_address(instructions.take(j));
    if j < instructions.len() {
        assert(instructions[j].address == next_address(instructions.take(j)));
    } else {
        assert(instructions.take(j) =~= instructions);
    }
    assert(split_at_line(instructions, k, j));
}

proof fn lemma_labels_placed(ls: Seq<Seq<char>>, st: ParseState)
    requires
        layout_consistent(st.instructions),
        labels_invariant(ls, ls.len(), st),
    ensures
        forall|l: Seq<char>|
            #![trigger st.symbols.contains_key(l)]
            (st.symbols.contains_key(l) <==> last_definition(ls, ls.len(), l) > 0) && (st.symbols.contains_key(l)
                ==> label_placed(st.instructions, last_definition(ls, ls.len(), l), st.symbols[l])),
{
    assert forall|l: Seq<char>| #![trigger st.symbols.contains_key(l)] st.symbols.contains_key(l) implies label_placed(
        st.instructions,
        last_definition(ls, ls.len(), l),
        st.symbols[l],
    ) by {
        lemma_placed_from_prefix(st.instructions, last_definition(ls, ls.len(), l), st.symbols[l]);
    }
}

/// Each label of a parsed program is one that some line defines, the last such
/// line wins, and the label names the address of the first instruction read
/// from that line or a later one, or the address just after the last
/// instruction when no instruction follows.
pub proof fn lemma_parsed_labels(input: Seq<char>)
    requires
        lines(normalized(input)).len() <= usize::MAX,
    ensures
        parsed(input) matches Ok(st) ==> forall|l: Seq<char>|
            #![trigger st.symbols.contains_key(l)]
            (st.symbols.contains_key(l) <==> last_definition(lines(normalized(input)), lines(normalized(input)).len(), l)
                > 0) && (st.symbols.contains_key(l) ==> label_placed(
                st.instructions,
                last_definition(lines(normalized(input)), lines(normalized(input)).len(), l),
                st.symbols[l],
            )),
{
    let ls = lines(normalized(input));
    lemma_parse_lines_labels(ls, ls.len());
    lemma_parsed_layout(input);
    if let Ok(st) = parsed(input) {
        lemma_labels_placed(ls, st);
    }
}

/// `s` with each underscore written as a space.
pub open spec fn spaced(s: Seq<char>) -> Seq<char> {
    s.map_values(|c: char| if c == '_' { ' ' } else { c })
}

proof fn lemma_not_prefix_at(s: Seq<char>, pat: Seq<char>, i: int, k: int)
    requires
        0 <= i,
        0 <= k < pat.len(),
        i + k < s.len(),
        s[i + k] != pat[k],
    ensures
        !pat.is_prefix_of(s.skip(i)),
{
    if pat.is_prefix_of(s.skip(i)) {
        assert(s.skip(i).subrange(0, pat.len() as int)[k] == pat[k]);
    }
}

proof fn lemma_replace_absent(s: Seq<char>, pat: Seq<char>, rep: Seq<char>)
    requires
        pat.len() > 0,
        forall|i: int| 0 <= i < s.len() && i + pat.len() <= s.len() ==> !pat.is_prefix_of(#[trigger] s.skip(i)),
    ensures
        replace_all(s, pat, rep) == s,
    decreases s.len(),
{
    if s.len() > 0 {
        assert(s.skip(0) =~= s);
        assert forall|i: int| 0 <= i < s.skip(1).len() && i + pat.len() <= s.skip(1).len() implies !pat.is_prefix_of(
            #[trigger] s.skip(1).skip(i),
        ) by {
            assert(s.skip(1).skip(i) =~= s.skip(i + 1));
        }
        lemma_replace_absent(s.skip(1), pat, rep);
        assert(seq![s[0]] + s.skip(1) =~= s);
    }
}

proof fn lemma_replace_whole(pat: Seq<char>, rep: Seq<char>)
    requires
        pat.len() > 0,
    ensures
        replace_all(pat, pat, rep) == rep,
{
    assert(pat.is_prefix_of(pat)) by {
        assert(pat.subrange(0, pat.len() as int) =~= pat);
    }
    assert(pat.skip(pat.len() as int) =~= Seq::<char>::empty());
    assert(replace_all(pat.skip(pat.len() as int), pat, rep) == Seq::<char>::empty());
    assert(rep + Seq::<char>::empty() =~= rep);
}

proof fn lemma_two_word_opcodes_joined(op: OpcodeB4)
    requires
        op == OpcodeB4::PUSH_PC || op == OpcodeB4::POP_PC || op == OpcodeB4::PUSH_FLAG || op == OpcodeB4::POP_FLAG,
    ensures
        ({
            let w = spaced(Opcode::B4(op).name());
            replace_all(
                replace_all(
                    replace_all(
                        replace_all(w, seq!['P', 'U', 'S', 'H', ' ', 'P', 'C'], seq!['P', 'U', 'S', 'H', '_', 'P', 'C']),
                        seq!['P', 'O', 'P', ' ', 'P', 'C'],
                        seq!['P', 'O', 'P', '_', 'P', 'C'],
                    ),
                    seq!['P', 'U', 'S', 'H', ' ', 'F', 'L', 'A', 'G'],
                    seq!['P', 'U', 'S', 'H', '_', 'F', 'L', 'A', 'G'],
                ),
                seq!['P', 'O', 'P', ' ', 'F', 'L', 'A', 'G'],
                seq!['P', 'O', 'P', '_', 'F', 'L', 'A', 'G'],
            ) == Opcode::B4(op).name()
        }),
{
    let w = spaced(Opcode::B4(op).name());
    match op {
        OpcodeB4::PUSH_PC => {
            assert(w =~= seq!['P', 'U', 'S', 'H', ' ', 'P', 'C']);
            lemma_replace_whole(seq!['P', 'U', 'S', 'H', ' ', 'P', 'C'], seq!['P', 'U', 'S', 'H', '_', 'P', 'C']);
            lemma_not_prefix_at(seq!['P', 'U', 'S', 'H', '_', 'P', 'C'], seq!['P', 'O', 'P', ' ', 'P', 'C'], 0, 1);
            lemma_not_prefix_at(seq!['P', 'U', 'S', 'H', '_', 'P', 'C'], seq!['P', 'O', 'P', ' ', 'P', 'C'], 1, 0);
            lemma_replace_absent(seq!['P', 'U', 'S', 'H', '_', 'P', 'C'], seq!['P', 'O', 'P', ' ', 'P', 'C'], seq!['P', 'O', 'P', '_', 'P', 'C']);
            lemma_replace_absent(seq!['P', 'U', 'S', 'H', '_', 'P', 'C'], seq!['P', 'U', 'S', 'H', ' ', 'F', 'L', 'A', 'G'], seq!['P', 'U', 'S', 'H', '_', 'F', 'L', 'A', 'G']);
            lemma_replace_absent(seq!['P', 'U', 'S', 'H', '_', 'P', 'C'], seq!['P', 'O', 'P', ' ', 'F', 'L', 'A', 'G'], seq!['P', 'O', 'P', '_', 'F', 'L', 'A', 'G']);
        },
        OpcodeB4::POP_PC => {
            assert(w =~= seq!['P', 'O', 'P', ' ', 'P', 'C']);
            lemma_replace_absent(seq!['P', 'O', 'P', ' ', 'P', 'C'], seq!['P', 'U', 'S', 'H', ' ', 'P', 'C'], seq!['P', 'U', 'S', 'H', '_', 'P', 'C']);
            lemma_replace_whole(seq!['P', 'O', 'P', ' ', 'P', 'C'], seq!['P', 'O', 'P', '_', 'P', 'C']);
            lemma_replace_absent(seq!['P', 'O', 'P', '_', 'P', 'C'], seq!['P', 'U', 'S', 'H', ' ', 'F', 'L', 'A', 'G'], seq!['P', 'U', 'S', 'H', '_', 'F', 'L', 'A', 'G']);
            lemma_replace_absent(seq!['P', 'O', 'P', '_', 'P', 'C'], seq!['P', 'O', 'P', ' ', 'F', 'L', 'A', 'G'], seq!['P', 'O', 'P', '_', 'F', 'L', 'A', 'G']);
        },
        OpcodeB4::PUSH_FLAG => {
            assert(w =~= seq!['P', 'U', 'S', 'H', ' ', 'F', 'L', 'A', 'G']);
            lemma_not_prefix_at(seq!['P', 'U', 'S', 'H', ' ', 'F', 'L', 'A', 'G'], seq!['P', 'U', 'S', 'H', ' ', 'P', 'C'], 0, 5);
            lemma_not_prefix_at(seq!['P', 'U', 'S', 'H', ' ', 'F', 'L', 'A', 'G'], seq!['P', 'U', 'S', 'H', ' ', 'P', 'C'], 1, 0);
            lemma_not_prefix_at(seq!['P', 'U', 'S', 'H', ' ', 'F', 'L', 'A', 'G'], seq!['P', 'U', 'S', 'H', ' ', 'P', 'C'], 2, 0);
            lemma_replace_absent(seq!['P', 'U', 'S', 'H', ' ', 'F', 'L', 'A', 'G'], seq!['P', 'U', 'S', 'H', ' ', 'P', 'C'], seq!['P', 'U', 'S', 'H', '_', 'P', 'C']);
            lemma_not_prefix_at(seq!['P', 'U', 'S', 'H', ' ', 'F', 'L', 'A', 'G'], seq!['P', 'O', 'P', ' ', 'P', 'C'], 0, 1);
            lemma_not_prefix_at(seq!['P', 'U', 'S', 'H', ' ', 'F', 'L', 'A', 'G'], seq!['P', 'O', 'P', ' ', 'P', 'C'], 1, 0);
            lemma_not_prefix_at(seq!['P', 'U', 'S', 'H', ' ', 'F', 'L', 'A', 'G'], seq!['P', 'O', 'P', ' ', 'P', 'C'], 2, 0);
            lemma_not_prefix_at(seq!['P', 'U', 'S', 'H', ' ', 'F', 'L', 'A', 'G'], seq!['P', 'O', 'P', ' ', 'P', 'C'], 3, 0);
            lemma_replace_absent(seq!['P', 'U', 'S', 'H', ' ', 'F', 'L', 'A', 'G'], seq!['P', 'O', 'P', ' ', 'P', 'C'], seq!['P', 'O', 'P', '_', 'P', 'C']);
            lemma_replace_whole(seq!['P', 'U', 'S', 'H', ' ', 'F', 'L', 'A', 'G'], seq!['P', 'U', 'S', 'H', '_', 'F', 'L', 'A', 'G']);
            lemma_not_prefix_at(seq!['P', 'U', 'S', 'H', '_', 'F', 'L', 'A', 'G'], seq!['P', 'O', 'P', ' ', 'F', 'L', 'A', 'G'], 0, 1);
            lemma_not_prefix_at(seq!['P', 'U', 'S', 'H', '_', 'F', 'L', 'A', 'G'], seq!['P', 'O', 'P', ' ', 'F', 'L', 'A', 'G'], 1, 0);
            lemma_replace_absent(seq!['P', 'U', 'S', 'H', '_', 'F', 'L', 'A', 'G'], seq!['P', 'O', 'P', ' ', 'F', 'L', 'A', 'G'], seq!['P', 'O', 'P', '_', 'F', 'L', 'A', 'G']);
        },
        OpcodeB4::POP_FLAG => {
            assert(w =~= seq!['P', 'O', 'P', ' ', 'F', 'L', 'A', 'G']);
            lemma_not_prefix_at(seq!['P', 'O', 'P', ' ', 'F', 'L', 'A', 'G'], seq!['P', 'U', 'S', 'H', ' ', 'P', 'C'], 0, 1);
            lemma_not_prefix_at(seq!['P', 'O', 'P', ' ', 'F', 'L', 'A', 'G'], seq!['P', 'U', 'S', 'H', ' ', 'P', 'C'], 1, 0);
            lemma_replace_absent(seq!['P', 'O', 'P', ' ', 'F', 'L', 'A', 'G'], seq!['P', 'U', 'S', 'H', ' ', 'P', 'C'], seq!['P', 'U', 'S', 'H', '_', 'P', 'C']);
            lemma_not_prefix_at(seq!['P', 'O', 'P', ' ', 'F', 'L', 'A', 'G'], seq!['P', 'O', 'P', ' ', 'P', 'C'], 0, 4);
            lemma_not_prefix_at(seq!['P', 'O', 'P', ' ', 'F', 'L', 'A', 'G'], seq!['P', 'O', 'P', ' ', 'P', 'C'], 1, 0);
            lemma_not_prefix_at(seq!['P', 'O', 'P', ' ', 'F', 'L', 'A', 'G'], seq!['P', 'O', 'P', ' ', 'P', 'C'], 2, 1);
            lemma_replace_absent(seq!['P', 'O', 'P', ' ', 'F', 'L', 'A', 'G'], seq!['P', 'O', 'P', ' ', 'P', 'C'], seq!['P', 'O', 'P', '_', 'P', 'C']);
            lemma_replace_absent(seq!['P', 'O', 'P', ' ', 'F', 'L', 'A', 'G'], seq!['P', 'U', 'S', 'H', ' ', 'F', 'L', 'A', 'G'], seq!['P', 'U', 'S', 'H', '_', 'F', 'L', 'A', 'G']);
            lemma_replace_whole(seq!['P', 'O', 'P', ' ', 'F', 'L', 'A', 'G'], seq!['P', 'O', 'P', '_', 'F', 'L', 'A', 'G']);
        },
        _ => {},
    }
}

proof fn lemma_index_where_absent(s: Seq<char>, from: int, p: spec_fn(char) -> bool)
    requires
        0 <= from <= s.len(),
        forall|k: int| from <= k < s.len() ==> !p(#[trigger] s[k]),
    ensures
        index_where(s, from, p) == s.len(),
{
    lemma_index_where_bounds(s, from, p);
}

/// A line made of letters and underscores only is one line, one token, has no
/// comment, label or surrounding blanks.
proof fn lemma_plain_word(n: Seq<char>)
    requires
        n.len() > 0,
        forall|k: int| 0 <= k < n.len() ==> ('A' <= #[trigger] n[k] <= 'Z' || n[k] == '_'),
    ensures
        lines(n) == seq![n],
        strip_comment(n) == n,
        trim(n) == n,
        tokens(n) == seq![n],
        index_where(n, 0, is_char(':')) == n.len(),
{
    lemma_index_where_absent(n, 0, is_char('\n'));
    lemma_index_where_absent(n, 0, comment_start());
    lemma_index_where_absent(n, 0, is_char(':'));
    lemma_index_where_absent(n, 0, crate::text::separator());
    assert(n.subrange(0, n.len() as int) =~= n);
    assert(n.take(n.len() as int) =~= n);
    assert(!crate::text::is_whitespace(n[0]));
    assert(!crate::text::is_whitespace(n.last()));
    assert(!crate::text::is_separator(n[0]));
    assert(seq![n] + crate::text::tokens_from(n, n.len() as int) =~= seq![n]);
}

/// A line holding one of the two-word opcodes, written with a space (`PUSH PC`,
/// `POP PC`, `PUSH FLAG`, `POP FLAG`), is normalised into that opcode's name and
/// parses into the one instruction of that opcode, at the start address, one
/// word long.
pub proof fn lemma_two_word_opcodes(op: OpcodeB4)
    requires
        op == OpcodeB4::PUSH_PC || op == OpcodeB4::POP_PC || op == OpcodeB4::PUSH_FLAG || op == OpcodeB4::POP_FLAG,
    ensures
        normalized(spaced(Opcode::B4(op).name())) == Opcode::B4(op).name(),
        parsed(spaced(Opcode::B4(op).name())) == Ok::<ParseState, Seq<char>>(
            ParseState {
                instructions: seq![
                    LocatedInstruction {
                        instruction: InstructionModel::Diverse { opcode: Opcode::B4(op) },
                        address: 0,
                        size: InstructionSize::Word,
                        source_line: 1,
                    },
                ],
                symbols: Map::empty(),
            },
        ),
{
    let n = Opcode::B4(op).name();
    lemma_two_word_opcodes_joined(op);
    lemma_plain_word(n);
    assert(seq![n].map_values(|l: Seq<char>| strip_comment(l)) =~= seq![n]);
    assert(normalized(spaced(n)) == n);
    crate::assembler::architecture::lemma_name_parses(Opcode::B4(op));
    assert(instruction_of(n) == Ok::<InstructionModel, Seq<char>>(InstructionModel::Diverse { opcode: Opcode::B4(op) }));
    let st0 = ParseState { instructions: seq![], symbols: Map::empty() };
    assert(parse_lines(seq![n], 0) == Ok::<ParseState, Seq<char>>(st0));
    assert(seq![n][0] == n);
    assert(parse_lines(seq![n], 1) == parse_line(st0, n, 1));
}

} // verus!
