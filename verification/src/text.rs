//! Text primitives on sequences of characters: whitespace trimming, line
//! splitting, pattern replacement, joining, and unsigned number parsing and
//! rendering, each stated as a spec function and implemented over `char` slices.

use vstd::prelude::*;

verus! {

/// Unicode White_Space, the set that `char::is_whitespace` tests.
pub open spec fn is_whitespace(c: char) -> bool {
    let u = c as u32;
    (0x09 <= u && u <= 0x0D) || u == 0x20 || u == 0x85 || u == 0xA0 || u == 0x1680 || (0x2000 <= u
        && u <= 0x200A) || u == 0x2028 || u == 0x2029 || u == 0x202F || u == 0x205F || u == 0x3000
}

pub fn char_is_whitespace(c: char) -> (r: bool)
    ensures
        r == is_whitespace(c),
{
    let u = c as u32;
    (0x09 <= u && u <= 0x0D) || u == 0x20 || u == 0x85 || u == 0xA0 || u == 0x1680 || (0x2000 <= u
        && u <= 0x200A) || u == 0x2028 || u == 0x2029 || u == 0x202F || u == 0x205F || u == 0x3000
}

/// `s` without its leading whitespace.
pub open spec fn trim_start(s: Seq<char>) -> Seq<char>
    decreases s.len(),
{
    if s.len() > 0 && is_whitespace(s[0]) {
        trim_start(s.drop_first())
    } else {
        s
    }
}

/// `s` without its trailing whitespace.
pub open spec fn trim_end(s: Seq<char>) -> Seq<char>
    decreases s.len(),
{
    if s.len() > 0 && is_whitespace(s.last()) {
        trim_end(s.drop_last())
    } else {
        s
    }
}

/// `s` without leading and trailing whitespace (`str::trim`).
pub open spec fn trim(s: Seq<char>) -> Seq<char> {
    trim_end(trim_start(s))
}

/// Positions `a <= b` such that `s[a..b]` is the trimmed text.
pub fn trim_range(s: &[char]) -> (r: (usize, usize))
    ensures
        r.0 <= r.1 <= s@.len(),
        s@.subrange(r.0 as int, r.1 as int) == trim(s@),
{
    let n = s.len();
    let mut a: usize = 0;
    assert(s@.subrange(0, n as int) =~= s@);
    while a < n && char_is_whitespace(s[a])
        invariant
            a <= n == s@.len(),
            trim_start(s@) == trim_start(s@.subrange(a as int, n as int)),
        decreases n - a,
    {
        assert(s@.subrange(a as int, n as int).drop_first() =~= s@.subrange(a + 1, n as int));
        a = a + 1;
    }
    assert(trim_start(s@) == s@.subrange(a as int, n as int));
    let mut b: usize = n;
    while b > a && char_is_whitespace(s[b - 1])
        invariant
            a <= b <= n == s@.len(),
            trim_start(s@) == s@.subrange(a as int, n as int),
            trim(s@) == trim_end(s@.subrange(a as int, b as int)),
        decreases b,
    {
        assert(s@.subrange(a as int, b as int).drop_last() =~= s@.subrange(a as int, b - 1));
        b = b - 1;
    }
    (a, b)
}

/// The first position at or after `from` whose character satisfies `p`, or `s.len()`.
pub open spec fn index_where(s: Seq<char>, from: int, p: spec_fn(char) -> bool) -> int
    decreases s.len() - from,
{
    if from >= s.len() {
        s.len() as int
    } else if p(s[from]) {
        from
    } else {
        index_where(s, from + 1, p)
    }
}

pub proof fn lemma_index_where_bounds(s: Seq<char>, from: int, p: spec_fn(char) -> bool)
    requires
        0 <= from,
    ensures
        from <= s.len() ==> from <= index_where(s, from, p) <= s.len(),
        from > s.len() ==> index_where(s, from, p) == s.len(),
        forall|k: int| from <= k < index_where(s, from, p) ==> !p(#[trigger] s[k]),
        index_where(s, from, p) < s.len() ==> p(s[index_where(s, from, p)]),
    decreases s.len() - from,
{
    if from < s.len() && !p(s[from]) {
        lemma_index_where_bounds(s, from + 1, p);
    }
}

pub open spec fn is_char(c: char) -> spec_fn(char) -> bool {
    |x: char| x == c
}

/// Position of the first `c` at or after `from`, or `s.len()`.
pub fn find_char(s: &[char], from: usize, c: char) -> (r: usize)
    requires
        from <= s@.len(),
    ensures
        r == index_where(s@, from as int, is_char(c)),
        from <= r <= s@.len(),
{
    let n = s.len();
    let mut i = from;
    while i < n && s[i] != c
        invariant
            from <= i <= n == s@.len(),
            index_where(s@, from as int, is_char(c)) == index_where(s@, i as int, is_char(c)),
        decreases n - i,
    {
        i = i + 1;
    }
    i
}

/// `l` without one trailing carriage return.
pub open spec fn strip_cr(l: Seq<char>) -> Seq<char> {
    if l.len() > 0 && l.last() == '\r' {
        l.drop_last()
    } else {
        l
    }
}

/// The lines of `s[from..]`, split at `\n`; a `\r` just before the `\n` is
/// dropped, and a final line ending adds no empty line (`str::lines`).
pub open spec fn lines_from(s: Seq<char>, from: int) -> Seq<Seq<char>>
    decreases s.len() - from,
{
    if from < 0 || from >= s.len() {
        seq![]
    } else {
        let i = index_where(s, from, is_char('\n'));
        if i < s.len() {
            proof {
                lemma_index_where_bounds(s, from, is_char('\n'));
            }
            seq![strip_cr(s.subrange(from, i))] + lines_from(s, i + 1)
        } else {
            seq![s.subrange(from, s.len() as int)]
        }
    }
}

/// The lines of `s` (`str::lines`).
pub open spec fn lines(s: Seq<char>) -> Seq<Seq<char>> {
    lines_from(s, 0)
}

/// Splits `s` into its lines.
pub fn split_lines(s: &[char]) -> (r: Vec<Vec<char>>)
    ensures
        r@.len() == lines(s@).len(),
        forall|i: int| 0 <= i < r@.len() ==> #[trigger] r@[i]@ == lines(s@)[i],
{
    let n = s.len();
    let mut out: Vec<Vec<char>> = Vec::new();
    let mut p: usize = 0;
    while p < n
        invariant
            p <= n == s@.len(),
            out@.len() + lines_from(s@, p as int).len() == lines(s@).len(),
            forall|i: int| 0 <= i < out@.len() ==> #[trigger] out@[i]@ == lines(s@)[i],
            forall|i: int|
                0 <= i < lines_from(s@, p as int).len() ==> lines(s@)[out@.len() + i]
                    == #[trigger] lines_from(s@, p as int)[i],
        decreases n - p,
    {
        let i = find_char(s, p, '\n');
        proof {
            lemma_index_where_bounds(s@, p as int, is_char('\n'));
        }
        let mut line: Vec<char> = Vec::new();
        let mut k = p;
        while k < i
            invariant
                p <= k <= i <= n == s@.len(),
                line@ == s@.subrange(p as int, k as int),
            decreases i - k,
        {
            line.push(s[k]);
            k = k + 1;
        }
        let ghost old_out = out@;
        let ghost lf = lines_from(s@, p as int);
        if i < n {
            assert(lf == seq![strip_cr(s@.subrange(p as int, i as int))] + lines_from(s@, i + 1));
            if line.len() > 0 && line[line.len() - 1] == '\r' {
                line.pop();
            }
            assert(line@ == strip_cr(s@.subrange(p as int, i as int)));
            out.push(line);
            p = i + 1;
            assert forall|j: int| 0 <= j < lines_from(s@, p as int).len() implies lines(s@)[out@.len() + j]
                == #[trigger] lines_from(s@, p as int)[j] by {
                assert(lines_from(s@, p as int)[j] == lf[j + 1]);
            }
            assert(out@[old_out.len() as int]@ == lf[0]);
        } else {
            assert(lf == seq![s@.subrange(p as int, n as int)]);
            out.push(line);
            p = n;
            assert(out@[old_out.len() as int]@ == lf[0]);
        }
    }
    out
}


/// `s` with every occurrence of the non-empty `pat` replaced by `rep`, scanning
/// left to right without overlaps (`str::replace`).
pub open spec fn replace_all(s: Seq<char>, pat: Seq<char>, rep: Seq<char>) -> Seq<char>
    decreases s.len(),
{
    if s.len() == 0 || pat.len() == 0 {
        s
    } else if pat.is_prefix_of(s) {
        rep + replace_all(s.skip(pat.len() as int), pat, rep)
    } else {
        seq![s[0]] + replace_all(s.skip(1), pat, rep)
    }
}

/// Whether `pat` occurs in `s` at position `i`.
fn matches_at(s: &[char], i: usize, pat: &[char]) -> (r: bool)
    requires
        i <= s@.len(),
    ensures
        r == pat@.is_prefix_of(s@.skip(i as int)),
{
    let n = s.len();
    if pat.len() > n - i {
        return false;
    }
    let mut k: usize = 0;
    while k < pat.len()
        invariant
            n == s@.len(),
            i + pat@.len() <= n,
            k <= pat@.len(),
            forall|j: int| 0 <= j < k ==> pat@[j] == s@[i + j],
        decreases pat@.len() - k,
    {
        if pat[k] != s[i + k] {
            assert(s@.skip(i as int)[k as int] == s@[i + k]);
            return false;
        }
        k = k + 1;
    }
    true
}

/// Replaces every occurrence of the non-empty `pat` in `s` by `rep`.
pub fn replace_chars(s: &[char], pat: &[char], rep: &[char]) -> (r: Vec<char>)
    requires
        pat@.len() > 0,
    ensures
        r@ == replace_all(s@, pat@, rep@),
{
    let n = s.len();
    let mut out: Vec<char> = Vec::new();
    let mut i: usize = 0;
    assert(s@.skip(0) =~= s@);
    while i < n
        invariant
            i <= n == s@.len(),
            pat@.len() > 0,
            out@ + replace_all(s@.skip(i as int), pat@, rep@) == replace_all(s@, pat@, rep@),
        decreases n - i,
    {
        let ghost rest = s@.skip(i as int);
        if matches_at(s, i, pat) {
            let mut k: usize = 0;
            let ghost before = out@;
            while k < rep.len()
                invariant
                    k <= rep@.len(),
                    out@ == before + rep@.take(k as int),
                decreases rep@.len() - k,
            {
                out.push(rep[k]);
                k = k + 1;
                assert(before + rep@.take(k as int) =~= (before + rep@.take(k - 1)).push(rep@[k - 1]));
            }
            assert(rep@.take(rep@.len() as int) =~= rep@);
            assert(rest.skip(pat@.len() as int) =~= s@.skip(i + pat@.len()));
            assert(out@ + replace_all(s@.skip(i + pat@.len()), pat@, rep@) =~= before + (rep@ + replace_all(rest.skip(pat@.len() as int), pat@, rep@)));
            i = i + pat.len();
        } else {
            let ghost before = out@;
            out.push(s[i]);
            assert(rest.skip(1) =~= s@.skip(i + 1));
            assert(out@ + replace_all(s@.skip(i + 1), pat@, rep@) =~= before + (seq![rest[0]] + replace_all(rest.skip(1), pat@, rep@)));
            i = i + 1;
        }
    }
    assert(out@ + replace_all(s@.skip(n as int), pat@, rep@) =~= out@);
    out
}

/// `ls` joined with `\n` between consecutive elements.
pub open spec fn join_lines(ls: Seq<Seq<char>>) -> Seq<char>
    decreases ls.len(),
{
    if ls.len() == 0 {
        seq![]
    } else if ls.len() == 1 {
        ls[0]
    } else {
        join_lines(ls.drop_last()) + seq!['\n'] + ls.last()
    }
}


/// Token separators of an instruction line.
pub open spec fn is_separator(c: char) -> bool {
    c == ' ' || c == ','
}

pub open spec fn separator() -> spec_fn(char) -> bool {
    |c: char| is_separator(c)
}

/// The non-empty pieces of `s[from..]` between spaces and commas.
pub open spec fn tokens_from(s: Seq<char>, from: int) -> Seq<Seq<char>>
    decreases s.len() - from,
{
    if from < 0 || from >= s.len() {
        seq![]
    } else if is_separator(s[from]) {
        tokens_from(s, from + 1)
    } else {
        let e = index_where(s, from, separator());
        proof {
            lemma_index_where_bounds(s, from, separator());
        }
        seq![s.subrange(from, e)] + tokens_from(s, e)
    }
}

/// The tokens of `s`: `s.split([' ', ','])` without the empty pieces.
pub open spec fn tokens(s: Seq<char>) -> Seq<Seq<char>> {
    tokens_from(s, 0)
}

/// Splits `s` into its tokens.
pub fn split_tokens(s: &[char]) -> (r: Vec<Vec<char>>)
    ensures
        r@.len() == tokens(s@).len(),
        forall|i: int| 0 <= i < r@.len() ==> #[trigger] r@[i]@ == tokens(s@)[i],
{
    let n = s.len();
    let mut out: Vec<Vec<char>> = Vec::new();
    let mut p: usize = 0;
    while p < n
        invariant
            p <= n == s@.len(),
            out@.len() + tokens_from(s@, p as int).len() == tokens(s@).len(),
            forall|i: int| 0 <= i < out@.len() ==> #[trigger] out@[i]@ == tokens(s@)[i],
            forall|i: int|
                0 <= i < tokens_from(s@, p as int).len() ==> tokens(s@)[out@.len() + i]
                    == #[trigger] tokens_from(s@, p as int)[i],
        decreases n - p,
    {
        if s[p] == ' ' || s[p] == ',' {
            p = p + 1;
        } else {
            let ghost old_out = out@;
            let ghost tf = tokens_from(s@, p as int);
            let mut e = p;
            while e < n && s[e] != ' ' && s[e] != ','
                invariant
                    p <= e <= n == s@.len(),
                    index_where(s@, p as int, separator()) == index_where(s@, e as int, separator()),
                decreases n - e,
            {
                e = e + 1;
            }
            proof {
                lemma_index_where_bounds(s@, p as int, separator());
            }
            let mut token: Vec<char> = Vec::new();
            let mut k = p;
            while k < e
                invariant
                    p <= k <= e <= n == s@.len(),
                    token@ == s@.subrange(p as int, k as int),
                decreases e - k,
            {
                token.push(s[k]);
                k = k + 1;
            }
            assert(tf == seq![s@.subrange(p as int, e as int)] + tokens_from(s@, e as int));
            out.push(token);
            p = e;
            assert forall|j: int| 0 <= j < tokens_from(s@, p as int).len() implies tokens(s@)[out@.len() + j]
                == #[trigger] tokens_from(s@, p as int)[j] by {
                assert(tokens_from(s@, p as int)[j] == tf[j + 1]);
            }
            assert(out@[old_out.len() as int]@ == tf[0]);
        }
    }
    out
}

/// Value of `c` as a digit in base 10 or 16 (either letter case).
pub open spec fn digit_value(c: char, radix: nat) -> Option<nat> {
    let u = c as u32;
    if 0x30 <= u && u <= 0x39 {
        Some((u - 0x30) as nat)
    } else if radix == 16 && 0x61 <= u && u <= 0x66 {
        Some((u - 0x61 + 10) as nat)
    } else if radix == 16 && 0x41 <= u && u <= 0x46 {
        Some((u - 0x41 + 10) as nat)
    } else {
        None
    }
}

/// Whether every character of `d` is a digit.
pub open spec fn all_digits(d: Seq<char>, radix: nat) -> bool {
    forall|i: int| 0 <= i < d.len() ==> (#[trigger] digit_value(d[i], radix)) is Some
}

/// The number that the digits `d` denote.
pub open spec fn digits_value(d: Seq<char>, radix: nat) -> nat
    decreases d.len(),
{
    if d.len() == 0 {
        0
    } else {
        digits_value(d.drop_last(), radix) * radix + digit_value(d.last(), radix).unwrap_or(0)
    }
}

/// An unsigned number in base `radix` no larger than `max`: an optional `+`, then
/// at least one digit (`from_str_radix` on an unsigned type whose maximum is `max`).
pub open spec fn parse_unsigned(s: Seq<char>, radix: nat, max: nat) -> Option<nat> {
    let d = if s.len() > 0 && s[0] == '+' {
        s.drop_first()
    } else {
        s
    };
    if d.len() == 0 || !all_digits(d, radix) || digits_value(d, radix) > max {
        None
    } else {
        Some(digits_value(d, radix))
    }
}

proof fn lemma_digits_value_prefix(d: Seq<char>, radix: nat, k: int)
    requires
        radix >= 1,
        0 <= k <= d.len(),
    ensures
        digits_value(d.take(k), radix) <= digits_value(d, radix),
    decreases d.len(),
{
    if k < d.len() {
        assert(d.drop_last().take(k) =~= d.take(k));
        lemma_digits_value_prefix(d.drop_last(), radix, k);
        assert(digits_value(d.drop_last(), radix) <= digits_value(d.drop_last(), radix) * radix) by (nonlinear_arith)
            requires radix >= 1;
    } else {
        assert(d.take(k) =~= d);
    }
}

fn char_digit(c: char, radix: u64) -> (r: Option<u64>)
    requires
        radix == 10 || radix == 16,
    ensures
        r matches Some(v) ==> digit_value(c, radix as nat) == Some(v as nat) && v < radix,
        r is None ==> digit_value(c, radix as nat) is None,
{
    let u = c as u32;
    if 0x30 <= u && u <= 0x39 {
        Some((u - 0x30) as u64)
    } else if radix == 16 && 0x61 <= u && u <= 0x66 {
        Some((u - 0x61 + 10) as u64)
    } else if radix == 16 && 0x41 <= u && u <= 0x46 {
        Some((u - 0x41 + 10) as u64)
    } else {
        None
    }
}

/// Parses an unsigned number in base 10 or 16 that must not exceed `max`.
pub fn parse_unsigned_chars(s: &[char], radix: u64, max: u64) -> (r: Option<u64>)
    requires
        radix == 10 || radix == 16,
    ensures
        r matches Some(v) ==> parse_unsigned(s@, radix as nat, max as nat) == Some(v as nat),
        r is None ==> parse_unsigned(s@, radix as nat, max as nat) is None,
{
    let n = s.len();
    let start: usize = if n > 0 && s[0] == '+' { 1 } else { 0 };
    let ghost d = if s@.len() > 0 && s@[0] == '+' { s@.drop_first() } else { s@ };
    assert(d =~= s@.skip(start as int));
    if start >= n {
        return None;
    }
    let mut acc: u64 = 0;
    let mut i = start;
    while i < n
        invariant
            start <= i <= n == s@.len(),
            d =~= s@.skip(start as int),
            d == (if s@.len() > 0 && s@[0] == '+' { s@.drop_first() } else { s@ }),
            radix == 10 || radix == 16,
            acc <= max,
            all_digits(d.take(i - start), radix as nat),
            acc == digits_value(d.take(i - start), radix as nat),
        decreases n - i,
    {
        let dv = match char_digit(s[i], radix) {
            Some(v) => v,
            None => {
                assert(d[i - start] == s@[i as int]);
                assert(digit_value(d[i - start], radix as nat) is None);
                assert(!all_digits(d, radix as nat));
                assert(parse_unsigned(s@, radix as nat, max as nat) is None);
                return None;
            },
        };
        let next: u128 = acc as u128 * radix as u128 + dv as u128;
        assert(acc as u128 * radix as u128 <= 0xFFFF_FFFF_FFFF_FFFFu128 * 16) by (nonlinear_arith)
            requires acc <= 0xFFFF_FFFF_FFFF_FFFFu64, radix <= 16;
        let ghost pre = d.take(i - start);
        let ghost post = d.take(i + 1 - start);
        assert(post.drop_last() =~= pre);
        assert(post.last() == s@[i as int]);
        assert(all_digits(post, radix as nat)) by {
            assert forall|j: int| 0 <= j < post.len() implies (#[trigger] digit_value(post[j], radix as nat)) is Some by {
                if j < pre.len() {
                    assert(post[j] == pre[j]);
                }
            }
        }
        assert(digits_value(post, radix as nat) == acc * radix + dv);
        if next > max as u128 {
            proof {
                if all_digits(d, radix as nat) {
                    lemma_digits_value_prefix(d, radix as nat, i + 1 - start);
                }
            }
            return None;
        }
        acc = next as u64;
        i = i + 1;
    }
    assert(d.take(n - start) =~= d);
    Some(acc)
}

/// The character of a decimal digit.
pub open spec fn digit_char(d: nat) -> char {
    ((d + 0x30) as u32) as char
}

/// Decimal representation of `n`, without leading zeros.
pub open spec fn decimal(n: nat) -> Seq<char>
    decreases n,
{
    if n < 10 {
        seq![digit_char(n)]
    } else {
        decimal(n / 10).push(digit_char(n % 10))
    }
}

fn digit_to_char(d: u64) -> (c: char)
    requires
        d < 10,
    ensures
        c == digit_char(d as nat),
{
    if d == 0 { '0' }
    else if d == 1 { '1' }
    else if d == 2 { '2' }
    else if d == 3 { '3' }
    else if d == 4 { '4' }
    else if d == 5 { '5' }
    else if d == 6 { '6' }
    else if d == 7 { '7' }
    else if d == 8 { '8' }
    else { '9' }
}

/// Appends one character to a string by `String::push`, which std documents as
/// appending the given char to the end of the string; the contract says that and nothing more.
#[verifier::external_body]
pub(crate) fn push_char(s: &mut String, c: char)
    ensures
        final(s)@ == old(s)@.push(c),
{
    s.push(c);
}

/// Appends the decimal representation of `n`.
pub fn push_decimal(s: &mut String, n: u64)
    ensures
        final(s)@ == old(s)@ + decimal(n as nat),
    decreases n,
{
    if n >= 10 {
        push_decimal(s, n / 10);
    }
    push_char(s, digit_to_char(n % 10));
    proof {
        if n >= 10 {
            assert(old(s)@ + decimal(n as nat) =~= (old(s)@ + decimal((n / 10) as nat)).push(digit_char((n % 10) as nat)));
        } else {
            assert(old(s)@ + decimal(n as nat) =~= old(s)@.push(digit_char((n % 10) as nat)));
        }
    }
}

/// Appends every character of `cs`.
pub fn push_chars(s: &mut String, cs: &[char])
    ensures
        final(s)@ == old(s)@ + cs@,
{
    let ghost start = s@;
    let mut i: usize = 0;
    while i < cs.len()
        invariant
            i <= cs@.len(),
            s@ == start + cs@.take(i as int),
        decreases cs@.len() - i,
    {
        push_char(s, cs[i]);
        i = i + 1;
        assert(start + cs@.take(i as int) =~= (start + cs@.take(i - 1)).push(cs@[i - 1]));
    }
    assert(cs@.take(cs@.len() as int) =~= cs@);
}

/// A string holding the characters of `cs`.
pub fn string_from_chars(cs: &[char]) -> (r: String)
    ensures
        r@ == cs@,
{
    let mut s = String::new();
    push_chars(&mut s, cs);
    assert(Seq::<char>::empty() + cs@ =~= cs@);
    s
}

/// The characters of `s`.
pub fn chars_of(s: &str) -> (r: Vec<char>)
    ensures
        r@ == s@,
{
    let mut v: Vec<char> = Vec::new();
    for c in it: s.chars()
        invariant
            v@ == it.seq().take(it.index() as int),
    {
        v.push(c);
    }
    v
}

} // verus!
