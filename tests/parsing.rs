use pmp_addr::address::{convert_addr, from_hex, has_hex_prefix, parse_numeral};
use pmp_addr::display::format_decimal;
use pmp_addr::mode::{parse_mode, Mode, ParseError};

#[test]
fn decimal_below_2_32_in_both_modes() {
    for (s, n) in [("0", 0u64), ("7", 7), ("4096", 4096), ("4294967295", 4294967295)] {
        assert_eq!(convert_addr(s, Mode::RV32), Ok(n));
        assert_eq!(convert_addr(s, Mode::RV64), Ok(n));
    }
}

#[test]
fn hex_below_2_32_in_narrow_mode() {
    assert_eq!(convert_addr("0xff", Mode::RV32), Ok(255));
    assert_eq!(convert_addr("0xDeadBeef", Mode::RV32), Ok(0xDEADBEEF));
    assert_eq!(convert_addr("0x80000000", Mode::RV32), Ok(0x8000_0000));
}

#[test]
fn two_to_the_32_depends_on_mode() {
    assert_eq!(convert_addr("0x100000000", Mode::RV32), Err(ParseError::InvalidFormat));
    assert_eq!(convert_addr("0x100000000", Mode::RV64), Ok(4294967296));
    assert_eq!(convert_addr("4294967296", Mode::RV32), Err(ParseError::InvalidFormat));
    assert_eq!(convert_addr("4294967296", Mode::RV64), Ok(4294967296));
}

#[test]
fn narrow_mode_upper_edge() {
    assert_eq!(convert_addr("0xFFFFFFFF", Mode::RV32), Ok(4294967295));
    assert_eq!(convert_addr("0x100000000", Mode::RV32), Err(ParseError::InvalidFormat));
}

#[test]
fn wide_mode_upper_edge() {
    assert_eq!(convert_addr("0xFFFFFFFFFFFFFFFF", Mode::RV64), Ok(u64::MAX));
    assert_eq!(convert_addr("18446744073709551615", Mode::RV64), Ok(u64::MAX));
    assert_eq!(convert_addr("0x10000000000000000", Mode::RV64), Err(ParseError::InvalidFormat));
    assert_eq!(convert_addr("18446744073709551616", Mode::RV64), Err(ParseError::InvalidFormat));
}

#[test]
fn malformed_text_fails_in_every_mode() {
    for mode in [Mode::RV32, Mode::RV64] {
        for s in ["0x", "", "0xG", "12a", "-1", "+5", "0x+5", " 5", "5 ", "0x0x5", "0X5", "١٢"] {
            assert_eq!(convert_addr(s, mode), Err(ParseError::InvalidFormat), "{s:?}");
        }
    }
}

#[test]
fn zero_in_both_modes() {
    for mode in [Mode::RV32, Mode::RV64] {
        assert_eq!(convert_addr("0x0", mode), Ok(0));
        assert_eq!(convert_addr("0", mode), Ok(0));
    }
}

#[test]
fn leading_zeros_are_accepted() {
    assert_eq!(convert_addr("0x0000000000000000000001", Mode::RV32), Ok(1));
    assert_eq!(convert_addr("000042", Mode::RV32), Ok(42));
}

#[test]
fn mode_names() {
    assert_eq!(parse_mode("RV32"), Ok(Mode::RV32));
    assert_eq!(parse_mode("RV64"), Ok(Mode::RV64));
    assert_eq!(parse_mode("rv32"), Err(ParseError::UnknownMode));
    assert_eq!(parse_mode("RV128"), Err(ParseError::UnknownMode));
    assert_eq!(parse_mode(" RV32"), Err(ParseError::UnknownMode));
    assert_eq!(parse_mode(""), Err(ParseError::UnknownMode));
    assert_eq!("RV64".parse::<Mode>(), Ok(Mode::RV64));
}

#[test]
fn mode_display_names_round_trip() {
    for mode in [Mode::RV32, Mode::RV64] {
        assert_eq!(parse_mode(mode.name()), Ok(mode));
    }
    assert_eq!(Mode::RV32.to_string(), "RV32");
    assert_eq!(Mode::RV64.name(), "RV64");
    assert_eq!(Mode::RV32.bits(), 32);
    assert_eq!(Mode::RV64.bits(), 64);
    assert_eq!(Mode::RV32.max_value(), u32::MAX as u64);
    assert_eq!(Mode::RV64.max_value(), u64::MAX);
}

#[test]
fn decimal_formatting() {
    assert_eq!(format_decimal(0), "0");
    assert_eq!(format_decimal(9), "9");
    assert_eq!(format_decimal(10), "10");
    assert_eq!(format_decimal(255), "255");
    assert_eq!(format_decimal(u64::MAX), "18446744073709551615");
}

#[test]
fn decimal_round_trip() {
    for s in ["0x0", "0xFF", "0xFFFFFFFF", "123456", "0x100000000"] {
        for mode in [Mode::RV32, Mode::RV64] {
            if let Ok(v) = convert_addr(s, mode) {
                assert_eq!(convert_addr(&format_decimal(v), mode), Ok(v));
            }
        }
    }
}

#[test]
fn hex_body_and_prefix() {
    assert!(has_hex_prefix("0x1"));
    assert!(has_hex_prefix("0x"));
    assert!(!has_hex_prefix("0"));
    assert!(!has_hex_prefix("x0"));
    assert_eq!(from_hex("0x1f", Mode::RV32), Some(31));
    assert_eq!(from_hex("1f", Mode::RV32), Some(31));
    assert_eq!(from_hex("0x0x1", Mode::RV64), None);
    assert_eq!(parse_numeral("ab19", 2, 10, 100), Some(19));
    assert_eq!(parse_numeral("ab", 2, 10, 100), None);
    assert_eq!(parse_numeral("101", 0, 10, 100), None);
    assert_eq!(parse_numeral("100", 0, 10, 100), Some(100));
}

#[test]
fn mode_from_str_is_exact() {
    assert_eq!("RV32".parse::<Mode>(), Ok(Mode::RV32));
    assert_eq!("RV64".parse::<Mode>(), Ok(Mode::RV64));
    for s in ["rv32", "RV128", " RV32", "RV64 ", "Rv64", ""] {
        assert_eq!(s.parse::<Mode>(), Err(ParseError::UnknownMode), "{s:?}");
    }
    for mode in [Mode::RV32, Mode::RV64] {
        assert_eq!(mode.to_string().parse::<Mode>(), Ok(mode));
    }
}
