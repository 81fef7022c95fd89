//! Character-level text utilities: splitting, line iteration, decimal
//! numbers. Text is handled as sequences of `char`, which is how `str`
//! is viewed in specifications.
use vstd::prelude::*;
use vstd::std_specs::iter::IteratorSpec;

verus! {

broadcast use vstd::seq_lib::group_seq_properties;

// ---------------------------------------------------------------------------
// Conversions between `str`/`String` and `Vec<char>`
// ---------------------------------------------------------------------------

/// The characters of `s`, in order.
pub fn chars_of(s: &str) -> (chars: Vec<char>)
    ensures
        chars@ == s@,
{
    let mut chars: Vec<char> = Vec::new();
    for c in it: s.chars()
        invariant
            it.seq() == s@,
            chars@ == it.seq().take(it.index() as int),
    {
        chars.push(c);
        assert(chars@ =~= it.seq().take(it.index() + 1));
    }
    assert(chars@ =~= s@);
    chars
}

/// Collects characters into a `String` (`FromIterator<&char>` for `String`).
#[verifier::external_body]
pub(crate) fn string_of(chars: &Vec<char>) -> (s: String)
    ensures
        s@ == chars@,
{
    chars.iter().collect()
}

// ---------------------------------------------------------------------------
// Decimal numbers
// ---------------------------------------------------------------------------

pub open spec fn is_decimal_digit(c: char) -> bool {
    '0' <= c && c <= '9'
}

pub open spec fn digit_value(c: char) -> nat {
    (c as int - '0' as int) as nat
}

pub open spec fn all_decimal_digits(s: Seq<char>) -> bool {
    forall|i: int| 0 <= i < s.len() ==> is_decimal_digit(#[trigger] s[i])
}

/// The number written by the decimal digits `s` (most significant first).
pub open spec fn decimal_value(s: Seq<char>) -> nat
    decreases s.len(),
{
    if s.len() == 0 {
        0
    } else {
        decimal_value(s.drop_last()) * 10 + digit_value(s.last())
    }
}

/// The digits of an unsigned number as `u64::from_str` reads them: one
/// optional leading `+` is skipped.
pub open spec fn unsigned_digits(s: Seq<char>) -> Seq<char> {
    if s.len() > 0 && s[0] == '+' {
        s.drop_first()
    } else {
        s
    }
}

/// What `from_str` of an unsigned integer type whose largest value is `max`
/// gives: an optional `+`, then at least one decimal digit and nothing else,
/// and the value must not exceed `max`.
pub open spec fn spec_parse_unsigned(s: Seq<char>, max: nat) -> Option<nat> {
    let d = unsigned_digits(s);
    if d.len() > 0 && all_decimal_digits(d) && decimal_value(d) <= max {
        Some(decimal_value(d))
    } else {
        None
    }
}

/// The character of the decimal digit `d`.
pub open spec fn spec_digit_char(d: nat) -> char {
    if d == 0 {
        '0'
    } else if d == 1 {
        '1'
    } else if d == 2 {
        '2'
    } else if d == 3 {
        '3'
    } else if d == 4 {
        '4'
    } else if d == 5 {
        '5'
    } else if d == 6 {
        '6'
    } else if d == 7 {
        '7'
    } else if d == 8 {
        '8'
    } else {
        '9'
    }
}

/// The shortest decimal representation of `n`, as `Display` writes it.
pub open spec fn spec_decimal(n: nat) -> Seq<char>
    decreases n,
{
    if n < 10 {
        seq![spec_digit_char(n)]
    } else {
        spec_decimal(n / 10).push(spec_digit_char(n % 10))
    }
}

proof fn lemma_digit_char(d: nat)
    requires
        d < 10,
    ensures
        is_decimal_digit(spec_digit_char(d)),
        digit_value(spec_digit_char(d)) == d,
{
}

/// Writing a number in decimal gives only digits, never starts with `+`,
/// and reads back as the number.
pub proof fn lemma_decimal_digits(n: nat)
    ensures
        spec_decimal(n).len() > 0,
        all_decimal_digits(spec_decimal(n)),
        decimal_value(spec_decimal(n)) == n,
        spec_decimal(n)[0] != '+',
    decreases n,
{
    if n < 10 {
        lemma_digit_char(n);
        assert(spec_decimal(n).drop_last() =~= Seq::<char>::empty());
        assert(decimal_value(Seq::<char>::empty()) == 0);
    } else {
        lemma_decimal_digits(n / 10);
        lemma_digit_char(n % 10);
        let d = spec_decimal(n);
        assert(d.drop_last() =~= spec_decimal(n / 10));
        assert(d.last() == spec_digit_char(n % 10));
        assert(n == (n / 10) * 10 + n % 10);
        assert forall|i: int| 0 <= i < d.len() implies is_decimal_digit(#[trigger] d[i]) by {
            if i < d.len() - 1 {
                assert(d[i] == spec_decimal(n / 10)[i]);
            }
        }
        assert(d[0] == spec_decimal(n / 10)[0]);
    }
}

/// Law: a number written in decimal parses back to itself.
pub proof fn lemma_parse_decimal_roundtrip(n: nat, max: nat)
    requires
        n <= max,
    ensures
        spec_parse_unsigned(spec_decimal(n), max) == Some(n),
{
    lemma_decimal_digits(n);
}

proof fn lemma_decimal_value_prefix_monotone(s: Seq<char>, j: int, k: int)
    requires
        0 <= j <= k <= s.len(),
    ensures
        decimal_value(s.take(j)) <= decimal_value(s.take(k)),
    decreases k - j,
{
    if j < k {
        lemma_decimal_value_prefix_monotone(s, j, k - 1);
        assert(s.take(k).drop_last() =~= s.take(k - 1));
    }
}

/// Parses an unsigned decimal number that must not exceed `max`, as
/// `from_str` of the unsigned integer types does.
pub fn parse_unsigned(s: &Vec<char>, max: u64) -> (r: Option<u64>)
    ensures
        match spec_parse_unsigned(s@, max as nat) {
            Some(v) => r == Some(v as u64),
            None => r is None,
        },
{
    let len = s.len();
    let start: usize = if len > 0 && s[0] == '+' {
        1
    } else {
        0
    };
    let ghost d = unsigned_digits(s@);
    assert(d =~= s@.subrange(start as int, len as int));
    if start == len {
        return None;
    }
    let mut acc: u64 = 0;
    let mut i: usize = start;
    while i < len
        invariant
            start <= i <= len,
            len == s@.len(),
            d == s@.subrange(start as int, len as int),
            d == unsigned_digits(s@),
            d.len() > 0,
            all_decimal_digits(d.take(i - start)),
            acc as nat == decimal_value(d.take(i - start)),
            acc <= max,
        decreases len - i,
    {
        let c = s[i];
        if !(c >= '0' && c <= '9') {
            assert(d[i - start] == c);
            assert(!is_decimal_digit(d[i - start]));
            assert(!all_decimal_digits(d));
            assert(spec_parse_unsigned(s@, max as nat) is None);
            return None;
        }
        let dv: u64 = (c as u32 - '0' as u32) as u64;
        assert(dv == digit_value(c));
        assert(d.take(i - start + 1).drop_last() =~= d.take(i - start));
        if dv > max || acc > (max - dv) / 10 {
            proof {
                if dv <= max {
                    assert(acc * 10 + dv > max) by (nonlinear_arith)
                        requires
                            acc > (max - dv) / 10,
                            dv <= max,
                    ;
                }
                if all_decimal_digits(d) {
                    lemma_decimal_value_prefix_monotone(d, i - start + 1, d.len() as int);
                    assert(d.take(d.len() as int) =~= d);
                }
            }
            return None;
        }
        proof {
            assert(acc * 10 + dv <= max) by (nonlinear_arith)
                requires
                    acc <= (max - dv) / 10,
                    dv <= max,
            ;
        }
        acc = acc * 10 + dv;
        i = i + 1;
        assert forall|k: int| 0 <= k < d.take(i - start).len() implies is_decimal_digit(
            #[trigger] d.take(i - start)[k],
        ) by {
            if k < i - start - 1 {
                assert(d.take(i - start)[k] == d.take(i - start - 1)[k]);
            }
        }
    }
    assert(d.take(len - start) =~= d);
    Some(acc)
}

/// Parses a `u64` as `u64::from_str` does.
pub fn parse_u64(s: &str) -> (r: Option<u64>)
    ensures
        match spec_parse_unsigned(s@, u64::MAX as nat) {
            Some(v) => r == Some(v as u64),
            None => r is None,
        },
{
    let chars = chars_of(s);
    parse_unsigned(&chars, u64::MAX)
}

/// The character of the decimal digit `d`.
pub fn digit_char(d: u64) -> (c: char)
    requires
        d < 10,
    ensures
        c == spec_digit_char(d as nat),
{
    if d == 0 {
        '0'
    } else if d == 1 {
        '1'
    } else if d == 2 {
        '2'
    } else if d == 3 {
        '3'
    } else if d == 4 {
        '4'
    } else if d == 5 {
        '5'
    } else if d == 6 {
        '6'
    } else if d == 7 {
        '7'
    } else if d == 8 {
        '8'
    } else {
        '9'
    }
}

/// Appends the decimal representation of `n` to `out`.
pub fn push_decimal(n: u64, out: &mut Vec<char>)
    ensures
        final(out)@ == old(out)@ + spec_decimal(n as nat),
    decreases n,
{
    if n >= 10 {
        push_decimal(n / 10, out);
    }
    out.push(digit_char(n % 10));
    assert(out@ =~= old(out)@ + spec_decimal(n as nat));
}

/// Appends the characters of `s` to `out`.
pub fn push_str(out: &mut Vec<char>, s: &str)
    ensures
        final(out)@ == old(out)@ + s@,
{
    let chars = chars_of(s);
    let mut i: usize = 0;
    while i < chars.len()
        invariant
            i <= chars@.len(),
            chars@ == s@,
            out@ == old(out)@ + chars@.take(i as int),
        decreases chars@.len() - i,
    {
        out.push(chars[i]);
        i = i + 1;
        assert(out@ =~= old(out)@ + chars@.take(i as int));
    }
    assert(chars@.take(i as int) =~= chars@);
}


// ---------------------------------------------------------------------------
// Splitting
// ---------------------------------------------------------------------------

/// The pieces of `s` between occurrences of `sep`, as `str::split` with a
/// `char` pattern yields them: one more piece than there are separators,
/// empty pieces included.
pub open spec fn spec_split(s: Seq<char>, sep: char) -> Seq<Seq<char>>
    decreases s.len(),
{
    if s.len() == 0 {
        seq![Seq::<char>::empty()]
    } else {
        let init = spec_split(s.drop_last(), sep);
        if s.last() == sep {
            init.push(Seq::<char>::empty())
        } else {
            init.update(init.len() - 1, init.last().push(s.last()))
        }
    }
}

/// The views of a sequence of character vectors.
pub open spec fn views(v: Seq<Vec<char>>) -> Seq<Seq<char>> {
    v.map_values(|x: Vec<char>| x@)
}

pub proof fn lemma_split_nonempty(s: Seq<char>, sep: char)
    ensures
        spec_split(s, sep).len() >= 1,
    decreases s.len(),
{
    if s.len() > 0 {
        lemma_split_nonempty(s.drop_last(), sep);
    }
}

/// Splits `s` at every occurrence of `sep`.
pub fn split_chars(s: &Vec<char>, sep: char) -> (parts: Vec<Vec<char>>)
    ensures
        views(parts@) == spec_split(s@, sep),
{
    let mut parts: Vec<Vec<char>> = Vec::new();
    let mut current: Vec<char> = Vec::new();
    let mut i: usize = 0;
    assert(s@.take(0) =~= Seq::<char>::empty());
    assert(views(parts@).push(current@) =~= spec_split(s@.take(0), sep));
    while i < s.len()
        invariant
            i <= s@.len(),
            views(parts@).push(current@) == spec_split(s@.take(i as int), sep),
        decreases s@.len() - i,
    {
        let c = s[i];
        proof {
            lemma_split_nonempty(s@.take(i as int), sep);
            assert(s@.take(i + 1).drop_last() =~= s@.take(i as int));
            assert(s@.take(i + 1).last() == c);
        }
        if c == sep {
            let finished = current;
            parts.push(finished);
            current = Vec::new();
            assert(views(parts@).push(current@) =~= spec_split(s@.take(i + 1), sep));
        } else {
            current.push(c);
            assert(views(parts@).push(current@) =~= spec_split(s@.take(i + 1), sep));
        }
        i = i + 1;
    }
    assert(s@.take(i as int) =~= s@);
    parts.push(current);
    assert(views(parts@) =~= spec_split(s@, sep));
    parts
}

/// `l` without one trailing carriage return.
pub open spec fn strip_cr(l: Seq<char>) -> Seq<char> {
    if l.len() > 0 && l.last() == '\r' {
        l.drop_last()
    } else {
        l
    }
}

/// The lines of `s` as `str::lines` yields them: split at `\n`, a `\r`
/// right before a `\n` is dropped, and a final line ending adds no empty line.
pub open spec fn spec_lines(s: Seq<char>) -> Seq<Seq<char>> {
    if s.len() == 0 {
        Seq::empty()
    } else {
        let parts = spec_split(s, '\n');
        let terminated = parts.drop_last().map_values(|l: Seq<char>| strip_cr(l));
        if parts.last().len() == 0 {
            terminated
        } else {
            terminated.push(parts.last())
        }
    }
}

/// The lines of `s`.
pub fn lines_of(s: &Vec<char>) -> (lines: Vec<Vec<char>>)
    ensures
        views(lines@) == spec_lines(s@),
{
    let mut lines: Vec<Vec<char>> = Vec::new();
    let mut current: Vec<char> = Vec::new();
    let mut i: usize = 0;
    assert(s@.take(0) =~= Seq::<char>::empty());
    proof {
        assert(spec_split(s@.take(0), '\n').drop_last() =~= Seq::<Seq<char>>::empty());
        assert(views(lines@) =~= spec_split(s@.take(0), '\n').drop_last().map_values(
            |l: Seq<char>| strip_cr(l),
        ));
    }
    while i < s.len()
        invariant
            i <= s@.len(),
            views(lines@) == spec_split(s@.take(i as int), '\n').drop_last().map_values(
                |l: Seq<char>| strip_cr(l),
            ),
            current@ == spec_split(s@.take(i as int), '\n').last(),
        decreases s@.len() - i,
    {
        let c = s[i];
        let ghost before = spec_split(s@.take(i as int), '\n');
        proof {
            lemma_split_nonempty(s@.take(i as int), '\n');
            assert(s@.take(i + 1).drop_last() =~= s@.take(i as int));
            assert(s@.take(i + 1).last() == c);
        }
        if c == '\n' {
            let mut finished = current;
            let n = finished.len();
            if n > 0 && finished[n - 1] == '\r' {
                finished.pop();
            }
            assert(finished@ == strip_cr(before.last()));
            let ghost old_lines = lines@;
            lines.push(finished);
            assert(views(lines@) =~= views(old_lines).push(strip_cr(before.last())));
            current = Vec::new();
            let ghost after = spec_split(s@.take(i + 1), '\n');
            assert(after == before.push(Seq::<char>::empty()));
            assert(after.drop_last() =~= before);
            assert(before =~= before.drop_last().push(before.last()));
            assert(before.map_values(|l: Seq<char>| strip_cr(l)) =~= before.drop_last().map_values(
                |l: Seq<char>| strip_cr(l),
            ).push(strip_cr(before.last())));
            assert(views(lines@) =~= after.drop_last().map_values(|l: Seq<char>| strip_cr(l)));
        } else {
            current.push(c);
            let ghost after = spec_split(s@.take(i + 1), '\n');
            assert(after.drop_last() =~= before.drop_last());
            assert(current@ == after.last());
        }
        i = i + 1;
    }
    assert(s@.take(i as int) =~= s@);
    if current.len() > 0 {
        lines.push(current);
        assert(views(lines@) =~= spec_lines(s@));
    } else {
        assert(views(lines@) =~= spec_lines(s@));
    }
    lines
}

} // verus!
