//! The microprogram's text form: one microinstruction per line, in
//! hexadecimal, optionally prefixed by `0x`.

use vstd::prelude::*;
use crate::text::{chars_of, lines, parse_unsigned, parse_unsigned_chars, split_lines, trim, trim_range};

verus! {

/// `s` with every leading `0x` removed (`str::trim_start_matches("0x")`).
pub open spec fn strip_hex_prefixes(s: Seq<char>) -> Seq<char>
    decreases s.len(),
{
    if s.len() >= 2 && s[0] == '0' && s[1] == 'x' {
        strip_hex_prefixes(s.skip(2))
    } else {
        s
    }
}

/// The microinstruction written on one line: its `0x` prefixes removed, then
/// trimmed, then read as a hexadecimal number that fits in 64 bits.
pub open spec fn microinstruction_of(line: Seq<char>) -> Option<u64> {
    match parse_unsigned(trim(strip_hex_prefixes(line)), 16, 0xFFFF_FFFF_FFFF_FFFF) {
        Some(v) => Some(v as u64),
        None => None,
    }
}

/// The microprogram that `text` holds, or `None` when a line is not a microinstruction.
pub open spec fn microprogram_of(text: Seq<char>) -> Option<Seq<u64>> {
    let ls = lines(text);
    if forall|i: int| 0 <= i < ls.len() ==> (#[trigger] microinstruction_of(ls[i])) is Some {
        Some(Seq::new(ls.len(), |i: int| microinstruction_of(ls[i]).unwrap()))
    } else {
        None
    }
}

fn hex_prefix_end(line: &[char]) -> (r: usize)
    ensures
        r <= line@.len(),
        line@.skip(r as int) == strip_hex_prefixes(line@),
{
    let n = line.len();
    let mut i: usize = 0;
    assert(line@.skip(0) =~= line@);
    while n - i >= 2 && line[i] == '0' && line[i + 1] == 'x'
        invariant
            i <= n == line@.len(),
            strip_hex_prefixes(line@.skip(i as int)) == strip_hex_prefixes(line@),
        decreases n - i,
    {
        assert(line@.skip(i as int).skip(2) =~= line@.skip(i + 2));
        i = i + 2;
    }
    i
}

/// Reads the microprogram from its text.
pub fn parse_microprogram(text: &str) -> (r: Option<Vec<u64>>)
    ensures
        r is Some <==> microprogram_of(text@) is Some,
        r matches Some(v) ==> microprogram_of(text@) == Some(v@),
{
    let chars = chars_of(text);
    let ls = split_lines(chars.as_slice());
    let ghost spec_lines = lines(text@);
    let mut words: Vec<u64> = Vec::new();
    let mut i: usize = 0;
    while i < ls.len()
        invariant
            i <= ls@.len() == spec_lines.len(),
            spec_lines == lines(text@),
            forall|j: int| 0 <= j < ls@.len() ==> #[trigger] ls@[j]@ == spec_lines[j],
            words@.len() == i,
            forall|j: int| 0 <= j < i ==> microinstruction_of(spec_lines[j]) == Some(#[trigger] words@[j]),
        decreases ls@.len() - i,
    {
        let line = ls[i].as_slice();
        let start = hex_prefix_end(line);
        let rest = &line[start..line.len()];
        assert(rest@ =~= line@.skip(start as int));
        let (a, b) = trim_range(rest);
        let digits = &rest[a..b];
        match parse_unsigned_chars(digits, 16, 0xFFFF_FFFF_FFFF_FFFF) {
            Some(v) => words.push(v),
            None => {
                assert(microinstruction_of(spec_lines[i as int]) is None);
                return None;
            },
        }
        i = i + 1;
    }
    assert(forall|j: int| 0 <= j < spec_lines.len() ==> (#[trigger] microinstruction_of(spec_lines[j])) is Some) by {
        assert forall|j: int| 0 <= j < spec_lines.len() implies (#[trigger] microinstruction_of(spec_lines[j])) is Some by {
            assert(microinstruction_of(spec_lines[j]) == Some(words@[j]));
        }
    }
    assert(words@ =~= Seq::new(spec_lines.len(), |j: int| microinstruction_of(spec_lines[j]).unwrap()));
    Some(words)
}

} // verus!
