use crate::address::{all_digits, digit_value, is_digit, numeral_value, spec_address};
use crate::mode::{spec_max, Mode};
use vstd::prelude::*;

verus! {

/// The character of a decimal digit `d < 10`.
pub open spec fn digit_char(d: nat) -> char {
    ((d + 48) as u32) as char
}

/// Decimal text of `n`: its shortest base-10 numeral, `"0"` for zero.
pub open spec fn decimal_text(n: nat) -> Seq<char>
    decreases n,
{
    if n < 10 {
        seq![digit_char(n)]
    } else {
        decimal_text(n / 10).push(digit_char(n % 10))
    }
}

/// A one-character string holding the decimal digit `d`.
fn digit_str(d: u64) -> (r: &'static str)
    requires
        d < 10,
    ensures
        r@ == seq![digit_char(d as nat)],
{
    proof {
        reveal_strlit("0");
        reveal_strlit("1");
        reveal_strlit("2");
        reveal_strlit("3");
        reveal_strlit("4");
        reveal_strlit("5");
        reveal_strlit("6");
        reveal_strlit("7");
        reveal_strlit("8");
        reveal_strlit("9");
    }
    let r = match d {
        0 => "0",
        1 => "1",
        2 => "2",
        3 => "3",
        4 => "4",
        5 => "5",
        6 => "6",
        7 => "7",
        8 => "8",
        _ => "9",
    };
    assert(r@ =~= seq![digit_char(d as nat)]);
    r
}

/// Renders an address in decimal, as the read-only display shows it.
pub fn format_decimal(v: u64) -> (r: String)
    ensures
        r@ == decimal_text(v as nat),
    decreases v,
{
    if v < 10 {
        String::from_str(digit_str(v))
    } else {
        let mut s = format_decimal(v / 10);
        s.append(digit_str(v % 10));
        s
    }
}

/// The decimal text of `n` is a nonempty run of decimal digits worth `n`,
/// whose first character is `0` only for zero.
pub proof fn lemma_decimal_text(n: nat)
    ensures
        decimal_text(n).len() > 0,
        all_digits(decimal_text(n), 10),
        numeral_value(decimal_text(n), 10) == n,
        decimal_text(n)[0] == '0' ==> n == 0,
        n < 10 ==> decimal_text(n).len() == 1,
        n >= 10 ==> decimal_text(n).len() >= 2,
    decreases n,
{
    let t = decimal_text(n);
    if n < 10 {
        assert(t.drop_last() =~= Seq::<char>::empty());
        assert(is_digit(t[0], 10));
        assert(numeral_value(t.drop_last(), 10) == 0);
        assert(digit_value(t.last()) == n);
    } else {
        lemma_decimal_text(n / 10);
        let p = decimal_text(n / 10);
        assert(t.drop_last() =~= p);
        assert(is_digit(t.last(), 10));
        assert forall|i: int| 0 <= i < t.len() implies #[trigger] is_digit(t[i], 10) by {
            if i < p.len() {
                assert(t[i] == p[i]);
            }
        }
        assert(digit_value(t.last()) == n % 10);
        assert(numeral_value(t, 10) == numeral_value(p, 10) * 10 + digit_value(t.last()));
        assert(n == (n / 10) * 10 + n % 10);
    }
}

/// Formatting a parsed address in decimal and parsing that text again, under
/// the same mode, gives back the same address.
pub proof fn lemma_decimal_round_trip(n: nat, m: Mode)
    requires
        n <= spec_max(m),
    ensures
        spec_address(decimal_text(n), m) == Some(n),
{
    lemma_decimal_text(n);
    let t = decimal_text(n);
    if n >= 10 {
        assert(!is_digit('x', 10));
        assert(t[1] != 'x');
    }
}

} // verus!
