use vstd::prelude::*;

verus! {

/// Errors reported by the parsers of this crate.
#[derive(Clone, Copy, Debug, PartialEq, Eq, Structural)]
pub enum ParseError {
    /// The mode name is neither "RV32" nor "RV64".
    UnknownMode,
    /// The address text is empty, holds a character outside its base,
    /// or denotes a value too wide for the active mode.
    InvalidFormat,
}

/// The two addressing modes: 32-bit and 64-bit native register width.
#[derive(Clone, Copy, Debug, PartialEq, Eq, Structural)]
pub enum Mode {
    RV32,
    RV64,
}

/// Number of bits of the native register of a mode.
pub open spec fn spec_bits(m: Mode) -> nat {
    match m {
        Mode::RV32 => 32,
        Mode::RV64 => 64,
    }
}

/// Largest address that a mode can hold: `2^bits - 1`.
pub open spec fn spec_max(m: Mode) -> nat {
    match m {
        Mode::RV32 => u32::MAX as nat,
        Mode::RV64 => u64::MAX as nat,
    }
}

/// Display name of a mode.
pub open spec fn spec_name(m: Mode) -> Seq<char> {
    match m {
        Mode::RV32 => seq!['R', 'V', '3', '2'],
        Mode::RV64 => seq!['R', 'V', '6', '4'],
    }
}

/// The mode whose display name is `s`, if any.
pub open spec fn spec_mode_of(s: Seq<char>) -> Option<Mode> {
    if s == spec_name(Mode::RV32) {
        Some(Mode::RV32)
    } else if s == spec_name(Mode::RV64) {
        Some(Mode::RV64)
    } else {
        None
    }
}

/// Display names and modes correspond one to one: the name of a mode names
/// that mode and no other.
pub proof fn lemma_name_round_trip(m: Mode)
    ensures
        spec_mode_of(spec_name(m)) == Some(m),
{
    assert(spec_name(Mode::RV32) != spec_name(Mode::RV64)) by {
        assert(spec_name(Mode::RV32)[2] != spec_name(Mode::RV64)[2]);
    }
}

/// Character-by-character equality of two strings.
pub fn str_equals(a: &str, b: &str) -> (r: bool)
    ensures
        r == (a@ == b@),
{
    let n = a.unicode_len();
    if n != b.unicode_len() {
        return false;
    }
    let mut i: usize = 0;
    while i < n
        invariant
            n == a@.len(),
            n == b@.len(),
            i <= n,
            a@.subrange(0, i as int) == b@.subrange(0, i as int),
        decreases n - i,
    {
        if a.get_char(i) != b.get_char(i) {
            assert(a@[i as int] != b@[i as int]);
            return false;
        }
        assert(a@.subrange(0, i + 1) =~= a@.subrange(0, i as int).push(a@[i as int]));
        assert(b@.subrange(0, i + 1) =~= b@.subrange(0, i as int).push(b@[i as int]));
        i = i + 1;
    }
    assert(a@ =~= a@.subrange(0, n as int));
    assert(b@ =~= b@.subrange(0, n as int));
    true
}

impl Mode {
    /// Number of bits of the mode's native register.
    pub fn bits(&self) -> (r: u32)
        ensures
            r as nat == spec_bits(*self),
    {
        match self {
            Mode::RV32 => 32,
            Mode::RV64 => 64,
        }
    }

    /// Largest address the mode can hold, widened to 64 bits.
    pub fn max_value(&self) -> (r: u64)
        ensures
            r as nat == spec_max(*self),
    {
        match self {
            Mode::RV32 => u32::MAX as u64,
            Mode::RV64 => u64::MAX,
        }
    }

    /// The display name, "RV32" or "RV64".
    pub fn name(&self) -> (r: &'static str)
        ensures
            r@ == spec_name(*self),
    {
        match self {
            Mode::RV32 => {
                proof {
                    reveal_strlit("RV32");
                }
                "RV32"
            },
            Mode::RV64 => {
                proof {
                    reveal_strlit("RV64");
                }
                "RV64"
            },
        }
    }

    /// The display name as an owned string.
    pub fn to_string(&self) -> (r: String)
        ensures
            r@ == spec_name(*self),
    {
        String::from_str(self.name())
    }
}

/// The mode named by `s`: exactly "RV32" or "RV64", case-sensitive.
pub fn parse_mode(s: &str) -> (r: Result<Mode, ParseError>)
    ensures
        match spec_mode_of(s@) {
            Some(m) => r == Ok::<Mode, ParseError>(m),
            None => r == Err::<Mode, ParseError>(ParseError::UnknownMode),
        },
{
    let rv32 = Mode::RV32.name();
    let rv64 = Mode::RV64.name();
    if str_equals(s, rv32) {
        Ok(Mode::RV32)
    } else if str_equals(s, rv64) {
        Ok(Mode::RV64)
    } else {
        Err(ParseError::UnknownMode)
    }
}

impl std::str::FromStr for Mode {
    type Err = ParseError;

    fn from_str(s: &str) -> (r: Result<Mode, ParseError>)
        ensures
            match spec_mode_of(s@) {
                Some(m) => r == Ok::<Mode, ParseError>(m),
                None => r == Err::<Mode, ParseError>(ParseError::UnknownMode),
            },
    {
        parse_mode(s)
    }
}

} // verus!
