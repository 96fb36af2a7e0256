//! Small parsers: boolean words and dotted version strings.

use vstd::prelude::*;
use crate::text::{chars_of, lowercase_of, str_eq, to_lowercase};

verus! {

/// The truth value that a lowercased word stands for: `true` and `1` are
/// true, `false` and `0` are false, everything else is no truth value.
pub open spec fn boolean_word(lowered: Seq<char>) -> Option<bool> {
    if lowered == "true"@ || lowered == "1"@ {
        Some(true)
    } else if lowered == "false"@ || lowered == "0"@ {
        Some(false)
    } else {
        None
    }
}

/// Reads a word that is already in lower case.
pub fn parse_lowered_boolean(lowered: &str) -> (r: Option<bool>)
    ensures
        r == boolean_word(lowered@),
{
    if str_eq(lowered, "true") || str_eq(lowered, "1") {
        Some(true)
    } else if str_eq(lowered, "false") || str_eq(lowered, "0") {
        Some(false)
    } else {
        None
    }
}

/// Reads a boolean word, ignoring case.
pub fn parse_boolean(s: &str) -> (r: Option<bool>)
    ensures
        r == boolean_word(lowercase_of(s@)),
{
    let lowered = to_lowercase(s);
    parse_lowered_boolean(lowered.as_str())
}

/// Why a version string could not be compared.
#[derive(Clone, Copy, Debug, PartialEq, Eq, Structural)]
pub enum VersionError {
    /// The node's version does not consist of two or three dotted parts.
    Malformed,
    /// A part that had to be compared is not a number that fits 32 bits.
    NotANumber,
}

pub open spec fn is_digit(c: char) -> bool {
    '0' <= c && c <= '9'
}

pub open spec fn digit_value(c: char) -> nat {
    (c as nat - '0' as nat) as nat
}

/// `s` without its leading run of `c`.
pub open spec fn strip_leading(s: Seq<char>, c: char) -> Seq<char>
    decreases s.len(),
{
    if s.len() > 0 && s[0] == c {
        strip_leading(s.drop_first(), c)
    } else {
        s
    }
}

/// The number of leading characters of `s` that are digits or dots.
pub open spec fn version_prefix_len(s: Seq<char>) -> nat
    decreases s.len(),
{
    if s.len() > 0 && (is_digit(s[0]) || s[0] == '.') {
        1 + version_prefix_len(s.drop_first())
    } else {
        0
    }
}

/// The parts of `s` between occurrences of `sep`, read left to right: a
/// separator closes the current part and opens an empty one, any other
/// character extends the current part. There is always at least one part.
pub open spec fn split_on(s: Seq<char>, sep: char) -> Seq<Seq<char>>
    decreases s.len(),
{
    if s.len() == 0 {
        seq![Seq::empty()]
    } else {
        let before = split_on(s.drop_last(), sep);
        if s.last() == sep {
            before.push(Seq::empty())
        } else {
            before.drop_last().push(before.last().push(s.last()))
        }
    }
}

pub open spec fn all_digits(s: Seq<char>) -> bool {
    forall|i: int| 0 <= i < s.len() ==> is_digit(#[trigger] s[i])
}

/// The number that a run of digits denotes.
pub open spec fn digits_value(s: Seq<char>) -> nat
    decreases s.len(),
{
    if s.len() == 0 {
        0
    } else {
        digits_value(s.drop_last()) * 10 + digit_value(s.last())
    }
}

/// An unsigned 32-bit number in decimal: an optional `+`, then at least one
/// digit, and a value that fits.
pub open spec fn parse_u32_text(s: Seq<char>) -> Option<u32> {
    let digits = if s.len() > 0 && s[0] == '+' {
        s.drop_first()
    } else {
        s
    };
    if digits.len() > 0 && all_digits(digits) && digits_value(digits) <= u32::MAX {
        Some(digits_value(digits) as u32)
    } else {
        None
    }
}

/// Compares the parts pairwise from index `from` on. The first pair of
/// different numbers decides; when one side runs out, the longer or equal
/// side wins.
pub open spec fn compare_parts(
    mine: Seq<Seq<char>>,
    least: Seq<Seq<char>>,
    from: int,
) -> Result<bool, VersionError>
    decreases mine.len() - from,
{
    if from < 0 || from >= mine.len() || from >= least.len() {
        Ok(mine.len() >= least.len())
    } else {
        match (parse_u32_text(mine[from]), parse_u32_text(least[from])) {
            (Some(a), Some(b)) => if a != b {
                Ok(a > b)
            } else {
                compare_parts(mine, least, from + 1)
            },
            _ => Err(VersionError::NotANumber),
        }
    }
}

/// The dotted numeric parts of a node version: leading `v`s dropped, cut
/// before the first character that is neither digit nor dot.
pub open spec fn version_parts(my_version: Seq<char>) -> Seq<Seq<char>> {
    let stripped = strip_leading(my_version, 'v');
    split_on(stripped.take(version_prefix_len(stripped) as int), '.')
}

/// Whether `my_version` is at least `min_version`.
pub open spec fn at_or_above(my_version: Seq<char>, min_version: Seq<char>) -> Result<
    bool,
    VersionError,
> {
    let mine = version_parts(my_version);
    if mine.len() <= 1 || mine.len() > 3 {
        Err(VersionError::Malformed)
    } else {
        compare_parts(mine, split_on(min_version, '.'), 0)
    }
}

/// The views of the parts, in order.
pub open spec fn part_views(parts: Seq<Vec<char>>) -> Seq<Seq<char>> {
    parts.map_values(|p: Vec<char>| p@)
}

proof fn lemma_digits_value_grows(s: Seq<char>, k: int)
    requires
        0 <= k <= s.len(),
    ensures
        digits_value(s.take(k)) <= digits_value(s),
    decreases s.len(),
{
    if k == s.len() {
        assert(s.take(k) =~= s);
    } else {
        assert(s.drop_last().take(k) =~= s.take(k));
        lemma_digits_value_grows(s.drop_last(), k);
    }
}

proof fn lemma_strip_leading(s: Seq<char>, c: char, a: int)
    requires
        0 <= a <= s.len(),
        forall|i: int| 0 <= i < a ==> s[i] == c,
        a == s.len() || s[a] != c,
    ensures
        strip_leading(s, c) == s.skip(a),
    decreases a,
{
    if a > 0 {
        lemma_strip_leading(s.drop_first(), c, a - 1);
    }
}

proof fn lemma_version_prefix_len(s: Seq<char>, k: int)
    requires
        0 <= k <= s.len(),
        forall|i: int| 0 <= i < k ==> is_digit(s[i]) || s[i] == '.',
        k == s.len() || !(is_digit(s[k]) || s[k] == '.'),
    ensures
        version_prefix_len(s) == k,
    decreases k,
{
    if k > 0 {
        lemma_version_prefix_len(s.drop_first(), k - 1);
    }
}

/// Reads an unsigned 32-bit decimal number.
pub fn parse_u32(s: &Vec<char>) -> (r: Option<u32>)
    ensures
        r == parse_u32_text(s@),
{
    let n = s.len();
    let start: usize = if n > 0 && s[0] == '+' {
        1
    } else {
        0
    };
    let ghost digits = if s@.len() > 0 && s@[0] == '+' {
        s@.drop_first()
    } else {
        s@
    };
    if start == n {
        return None;
    }
    let mut acc: u64 = 0;
    let mut i: usize = start;
    while i < n
        invariant
            start <= i <= n,
            n == s.len(),
            digits.len() == n - start,
            digits.len() > 0,
            digits == if s@.len() > 0 && s@[0] == '+' {
                s@.drop_first()
            } else {
                s@
            },
            forall|k: int| 0 <= k < digits.len() ==> digits[k] == s@[k + start],
            all_digits(digits.take(i - start)),
            acc == digits_value(digits.take(i - start)),
            acc <= u32::MAX,
        decreases n - i,
    {
        let c = s[i];
        if !(c >= '0' && c <= '9') {
            assert(!is_digit(digits[i - start]));
            return None;
        }
        let d: u64 = (c as u64) - ('0' as u64);
        proof {
            let next = digits.take(i - start + 1);
            assert(next.drop_last() =~= digits.take(i - start));
            assert forall|k: int| 0 <= k < next.len() implies is_digit(#[trigger] next[k]) by {}
        }
        acc = acc * 10 + d;
        if acc > 0xffff_ffff {
            proof {
                lemma_digits_value_grows(digits, i - start + 1);
            }
            return None;
        }
        i += 1;
    }
    proof {
        assert(digits.take(n - start) =~= digits);
    }
    Some(acc as u32)
}

/// Splits `s` at every `sep`.
pub fn split_chars(s: &Vec<char>, sep: char) -> (parts: Vec<Vec<char>>)
    ensures
        part_views(parts@) == split_on(s@, sep),
{
    let mut parts: Vec<Vec<char>> = Vec::new();
    let mut current: Vec<char> = Vec::new();
    let mut i: usize = 0;
    while i < s.len()
        invariant
            i <= s.len(),
            part_views(parts@).push(current@) == split_on(s@.take(i as int), sep),
        decreases s.len() - i,
    {
        proof {
            assert(s@.take(i + 1).drop_last() =~= s@.take(i as int));
        }
        if s[i] == sep {
            parts.push(current);
            current = Vec::new();
        } else {
            current.push(s[i]);
        }
        i += 1;
    }
    proof {
        assert(s@.take(s.len() as int) =~= s@);
    }
    parts.push(current);
    parts
}

/// The numeric parts of a node version, as [`version_parts`] defines them.
fn numeric_parts(my_version: &str) -> (parts: Vec<Vec<char>>)
    ensures
        part_views(parts@) == version_parts(my_version@),
{
    let all = chars_of(my_version);
    let n = all.len();
    let mut a: usize = 0;
    while a < n && all[a] == 'v'
        invariant
            a <= n,
            n == all.len(),
            forall|i: int| 0 <= i < a ==> all@[i] == 'v',
        decreases n - a,
    {
        a += 1;
    }
    let ghost stripped = all@.skip(a as int);
    proof {
        lemma_strip_leading(all@, 'v', a as int);
    }
    let mut numeric: Vec<char> = Vec::new();
    let mut b: usize = a;
    while b < n && ((all[b] >= '0' && all[b] <= '9') || all[b] == '.')
        invariant
            a <= b <= n,
            n == all.len(),
            stripped == all@.skip(a as int),
            numeric@ == stripped.take(b - a),
            forall|i: int| 0 <= i < b - a ==> is_digit(stripped[i]) || stripped[i] == '.',
        decreases n - b,
    {
        numeric.push(all[b]);
        b += 1;
    }
    proof {
        lemma_version_prefix_len(stripped, b - a);
    }
    split_chars(&numeric, '.')
}

/// Whether the node version `my_version` is at least `min_version`.
///
/// Leading `v`s of `my_version` are ignored and it ends before the first
/// character that is neither digit nor dot; what remains must have two or
/// three dotted parts. Parts are compared as numbers, pair by pair, and the
/// first difference decides. When all compared pairs are equal, the version
/// with at least as many parts as the other is the greater or equal one.
pub fn at_or_above_version(my_version: &str, min_version: &str) -> (r: Result<bool, VersionError>)
    ensures
        r == at_or_above(my_version@, min_version@),
{
    let mine = numeric_parts(my_version);
    let least_chars = chars_of(min_version);
    let least = split_chars(&least_chars, '.');
    if mine.len() <= 1 || mine.len() > 3 {
        return Err(VersionError::Malformed);
    }
    let ghost mine_v = part_views(mine@);
    let ghost least_v = part_views(least@);
    let mut i: usize = 0;
    while i < mine.len() && i < least.len()
        invariant
            i <= mine.len(),
            i <= least.len(),
            mine_v == part_views(mine@),
            least_v == part_views(least@),
            mine_v == version_parts(my_version@),
            least_v == split_on(min_version@, '.'),
            1 < mine.len() <= 3,
            compare_parts(mine_v, least_v, 0) == compare_parts(mine_v, least_v, i as int),
        decreases mine.len() - i,
    {
        let a = parse_u32(&mine[i]);
        let b = parse_u32(&least[i]);
        match (a, b) {
            (Some(x), Some(y)) => {
                if x != y {
                    return Ok(x > y);
                }
            },
            _ => {
                return Err(VersionError::NotANumber);
            },
        }
        i += 1;
    }
    Ok(mine.len() >= least.len())
}

/// A signed 64-bit number in decimal: an optional `+` or `-`, then at least
/// one digit, and a value that fits.
pub open spec fn parse_i64_text(s: Seq<char>) -> Option<i64> {
    let signed = s.len() > 0 && (s[0] == '+' || s[0] == '-');
    let digits = if signed {
        s.drop_first()
    } else {
        s
    };
    let value = if s.len() > 0 && s[0] == '-' {
        -(digits_value(digits) as int)
    } else {
        digits_value(digits) as int
    };
    if digits.len() > 0 && all_digits(digits) && i64::MIN <= value <= i64::MAX {
        Some(value as i64)
    } else {
        None
    }
}

/// Reads a signed 64-bit decimal number.
pub fn parse_i64(s: &Vec<char>) -> (r: Option<i64>)
    ensures
        r == parse_i64_text(s@),
{
    let n = s.len();
    let negative = n > 0 && s[0] == '-';
    let start: usize = if n > 0 && (s[0] == '+' || s[0] == '-') {
        1
    } else {
        0
    };
    let ghost digits = if s@.len() > 0 && (s@[0] == '+' || s@[0] == '-') {
        s@.drop_first()
    } else {
        s@
    };
    if start == n {
        return None;
    }
    let mut acc: u128 = 0;
    let mut i: usize = start;
    while i < n
        invariant
            start <= i <= n,
            n == s.len(),
            digits.len() == n - start,
            digits.len() > 0,
            negative == (s@.len() > 0 && s@[0] == '-'),
            digits == if s@.len() > 0 && (s@[0] == '+' || s@[0] == '-') {
                s@.drop_first()
            } else {
                s@
            },
            forall|k: int| 0 <= k < digits.len() ==> digits[k] == s@[k + start],
            all_digits(digits.take(i - start)),
            acc == digits_value(digits.take(i - start)),
            acc <= 0x8000_0000_0000_0000,
        decreases n - i,
    {
        let c = s[i];
        if !(c >= '0' && c <= '9') {
            assert(!is_digit(digits[i - start]));
            return None;
        }
        let d: u128 = (c as u128) - ('0' as u128);
        proof {
            let next = digits.take(i - start + 1);
            assert(next.drop_last() =~= digits.take(i - start));
            assert forall|k: int| 0 <= k < next.len() implies is_digit(#[trigger] next[k]) by {}
        }
        acc = acc * 10 + d;
        if acc > 0x8000_0000_0000_0000 {
            proof {
                lemma_digits_value_grows(digits, i - start + 1);
            }
            return None;
        }
        i += 1;
    }
    proof {
        assert(digits.take(n - start) =~= digits);
    }
    if negative {
        if acc == 0x8000_0000_0000_0000 {
            Some(i64::MIN)
        } else {
            Some(-(acc as i64))
        }
    } else if acc == 0x8000_0000_0000_0000 {
        None
    } else {
        Some(acc as i64)
    }
}

} // verus!
