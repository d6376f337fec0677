use crate::mode::{spec_max, Mode, ParseError};
use vstd::prelude::*;

verus! {

/// `c` is one of `0-9`, `a-f`, `A-F`.
pub open spec fn is_hex_char(c: char) -> bool {
    let u = c as u32;
    (48 <= u <= 57) || (97 <= u <= 102) || (65 <= u <= 70)
}

/// Numeric value of a hexadecimal digit character.
pub open spec fn digit_value(c: char) -> nat {
    let u = c as u32;
    if 48 <= u <= 57 {
        (u - 48) as nat
    } else if 97 <= u <= 102 {
        (u - 87) as nat
    } else if 65 <= u <= 70 {
        (u - 55) as nat
    } else {
        0
    }
}

/// `c` is a digit of base `radix` (10 or 16).
pub open spec fn is_digit(c: char, radix: nat) -> bool {
    is_hex_char(c) && digit_value(c) < radix
}

/// Every character of `s` is a digit of base `radix`.
pub open spec fn all_digits(s: Seq<char>, radix: nat) -> bool {
    forall|i: int| 0 <= i < s.len() ==> #[trigger] is_digit(s[i], radix)
}

/// Value of the numeral `s` read in base `radix`, most significant digit first.
pub open spec fn numeral_value(s: Seq<char>, radix: nat) -> nat
    decreases s.len(),
{
    if s.len() == 0 {
        0
    } else {
        numeral_value(s.drop_last(), radix) * radix + digit_value(s.last())
    }
}

/// Value of the numeral `s` in base `radix` when it is nonempty, made of
/// digits only, and at most `max`.
pub open spec fn spec_numeral(s: Seq<char>, radix: nat, max: nat) -> Option<nat> {
    if s.len() > 0 && all_digits(s, radix) && numeral_value(s, radix) <= max {
        Some(numeral_value(s, radix))
    } else {
        None
    }
}

/// An optional natural number as a 64-bit one.
pub open spec fn as_u64(o: Option<nat>) -> Option<u64> {
    match o {
        Some(v) => Some(v as u64),
        None => None,
    }
}

/// `s` starts with the prefix `0x`.
pub open spec fn spec_has_hex_prefix(s: Seq<char>) -> bool {
    s.len() >= 2 && s[0] == '0' && s[1] == 'x'
}

/// `s` without a single leading `0x`, if it has one.
pub open spec fn strip_hex_prefix(s: Seq<char>) -> Seq<char> {
    if spec_has_hex_prefix(s) {
        s.skip(2)
    } else {
        s
    }
}

/// The address that `s` denotes under mode `m`: after a leading `0x` a
/// hexadecimal numeral, otherwise a decimal one; `None` when the text is not
/// such a numeral or its value does not fit the mode's width.
pub open spec fn spec_address(s: Seq<char>, m: Mode) -> Option<nat> {
    if spec_has_hex_prefix(s) {
        spec_numeral(s.skip(2), 16, spec_max(m))
    } else {
        spec_numeral(s, 10, spec_max(m))
    }
}

/// A longer prefix of a numeral is worth at least as much as a shorter one.
proof fn lemma_numeral_prefix_monotone(s: Seq<char>, radix: nat, k: int, j: int)
    requires
        radix >= 1,
        0 <= k <= j <= s.len(),
    ensures
        numeral_value(s.subrange(0, k), radix) <= numeral_value(s.subrange(0, j), radix),
    decreases j - k,
{
    if k < j {
        lemma_numeral_prefix_monotone(s, radix, k, j - 1);
        let p = s.subrange(0, j);
        assert(p.drop_last() =~= s.subrange(0, j - 1));
        let v = numeral_value(s.subrange(0, j - 1), radix);
        assert(v * radix >= v) by (nonlinear_arith)
            requires
                radix >= 1,
        ;
    }
}

/// Value of the characters `s[start..]` read in base `radix`, when they form
/// a nonempty numeral of that base whose value is at most `max`.
pub fn parse_numeral(s: &str, start: usize, radix: u64, max: u64) -> (r: Option<u64>)
    requires
        radix == 10 || radix == 16,
        start <= s@.len(),
    ensures
        r == as_u64(spec_numeral(s@.skip(start as int), radix as nat, max as nat)),
{
    let n = s.unicode_len();
    let ghost body = s@.skip(start as int);
    if start == n {
        return None;
    }
    let mut acc: u64 = 0;
    let mut i: usize = start;
    while i < n
        invariant
            n == s@.len(),
            start < n,
            start <= i <= n,
            body == s@.skip(start as int),
            radix == 10 || radix == 16,
            all_digits(body.subrange(0, i - start), radix as nat),
            acc as nat == numeral_value(body.subrange(0, i - start), radix as nat),
            acc <= max,
        decreases n - i,
    {
        let c = s.get_char(i);
        let k = i - start;
        let u = c as u32;
        let d: u64 = if 48 <= u && u <= 57 {
            (u - 48) as u64
        } else if 97 <= u && u <= 102 {
            (u - 87) as u64
        } else if 65 <= u && u <= 70 {
            (u - 55) as u64
        } else {
            16
        };
        assert(c == body[k as int]);
        if d >= radix {
            assert(!is_digit(body[k as int], radix as nat));
            return None;
        }
        let ghost next = body.subrange(0, k + 1);
        assert(next.drop_last() =~= body.subrange(0, k as int));
        assert(next.last() == c);
        let next_val: Option<u64> = match acc.checked_mul(radix) {
            Some(p) => p.checked_add(d),
            None => None,
        };
        match next_val {
            Some(v) if v <= max => {
                assert forall|j: int| 0 <= j < next.len() implies #[trigger] is_digit(
                    next[j],
                    radix as nat,
                ) by {
                    if j < k {
                        assert(next[j] == body.subrange(0, k as int)[j]);
                    }
                }
                acc = v;
                i = i + 1;
            },
            _ => {
                proof {
                    assert(numeral_value(next, radix as nat) > max);
                    assert(body.subrange(0, body.len() as int) =~= body);
                    lemma_numeral_prefix_monotone(body, radix as nat, k + 1, body.len() as int);
                }
                return None;
            },
        }
    }
    assert(body.subrange(0, n - start) =~= body);
    Some(acc)
}

/// Whether `s` starts with `0x`.
pub fn has_hex_prefix(s: &str) -> (r: bool)
    ensures
        r == spec_has_hex_prefix(s@),
{
    s.unicode_len() >= 2 && s.get_char(0) == '0' && s.get_char(1) == 'x'
}

/// Reads `input`, without a single leading `0x` if it has one, as a
/// hexadecimal numeral that must fit the width of `mode`.
pub fn from_hex(input: &str, mode: Mode) -> (r: Option<u64>)
    ensures
        r == as_u64(spec_numeral(strip_hex_prefix(input@), 16, spec_max(mode))),
{
    let start: usize = if has_hex_prefix(input) {
        2
    } else {
        0
    };
    assert(input@.skip(0) =~= input@);
    parse_numeral(input, start, 16, mode.max_value())
}

/// Parses an address under `mode`: hexadecimal after a leading `0x`,
/// decimal otherwise. Values wider than the mode are rejected, never
/// truncated; a 32-bit value is returned zero-extended.
pub fn convert_addr(input: &str, mode: Mode) -> (r: Result<u64, ParseError>)
    ensures
        match spec_address(input@, mode) {
            Some(n) => r == Ok::<u64, ParseError>(n as u64),
            None => r == Err::<u64, ParseError>(ParseError::InvalidFormat),
        },
        r is Ok ==> r->Ok_0 as nat <= spec_max(mode),
{
    let parsed = if has_hex_prefix(input) {
        from_hex(input, mode)
    } else {
        assert(input@.skip(0) =~= input@);
        parse_numeral(input, 0, 10, mode.max_value())
    };
    match parsed {
        Some(v) => Ok(v),
        None => Err(ParseError::InvalidFormat),
    }
}

/// A decimal numeral worth less than `2^32` denotes that value in both modes.
pub proof fn lemma_decimal_in_both_modes(s: Seq<char>)
    requires
        s.len() > 0,
        all_digits(s, 10),
        numeral_value(s, 10) <= u32::MAX,
    ensures
        spec_address(s, Mode::RV32) == Some(numeral_value(s, 10)),
        spec_address(s, Mode::RV64) == Some(numeral_value(s, 10)),
{
    if s.len() >= 2 {
        assert(is_digit(s[1], 10));
        assert(!is_digit('x', 10));
    }
}

/// `0x` followed by a hexadecimal numeral worth less than `2^32` denotes that
/// value in the 32-bit mode.
pub proof fn lemma_hex_in_narrow_mode(h: Seq<char>)
    requires
        h.len() > 0,
        all_digits(h, 16),
        numeral_value(h, 16) <= u32::MAX,
    ensures
        spec_address(seq!['0', 'x'] + h, Mode::RV32) == Some(numeral_value(h, 16)),
{
    let s = seq!['0', 'x'] + h;
    assert(s.skip(2) =~= h);
}

} // verus!
