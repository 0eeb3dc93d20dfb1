use zktls::numeric::{parse_i64, parse_u128};
use zktls::text::chars_of;

fn u(s: &str) -> Option<u128> {
    parse_u128(&chars_of(s))
}

fn i(s: &str) -> Option<i64> {
    parse_i64(&chars_of(s))
}

#[test]
fn unsigned_parsing_matches_std() {
    for s in ["0", "42", "+7", "007", "", "+", "-1", "1a", " 1", "340282366920938463463374607431768211455", "340282366920938463463374607431768211456"] {
        assert_eq!(u(s), s.parse::<u128>().ok(), "input {:?}", s);
    }
}

#[test]
fn signed_parsing_matches_std() {
    for s in ["0", "-0", "+12", "-12", "-", "+", "", "9223372036854775807", "9223372036854775808", "-9223372036854775808", "-9223372036854775809", "12x"] {
        assert_eq!(i(s), s.parse::<i64>().ok(), "input {:?}", s);
    }
}

#[test]
fn i16_formatting_matches_display() {
    for n in [0i16, 7, 10, 1001, 1019, -1, -32768, 32767, 99, 100] {
        assert_eq!(zktls::numeric::format_i16(n), n.to_string());
    }
}
