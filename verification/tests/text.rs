use coppercrab::pcb::parser::text::{parse_number, parse_unsigned, Number};

#[test]
fn unsigned_plain_and_signed() {
    assert_eq!(parse_unsigned("12"), Some(12));
    assert_eq!(parse_unsigned("+12"), Some(12));
    assert_eq!(parse_unsigned("007"), Some(7));
    assert_eq!(parse_unsigned("-1"), None);
    assert_eq!(parse_unsigned("+"), None);
    assert_eq!(parse_unsigned("++1"), None);
    assert_eq!(parse_unsigned(""), None);
    assert_eq!(parse_unsigned("1a"), None);
    assert_eq!(parse_unsigned(" 1"), None);
}

#[test]
fn unsigned_limits() {
    assert_eq!(parse_unsigned("4294967295"), Some(u32::MAX));
    assert_eq!(parse_unsigned("4294967296"), None);
    assert_eq!(parse_unsigned("99999999999999999999999"), None);
    assert_eq!(parse_unsigned("0000000000000000000001"), Some(1));
}

#[test]
fn unsigned_agrees_with_std() {
    for s in ["0", "1", "+0", "42", "+4294967295", "4294967296", "-0", "", "x", "1_0", "٣"] {
        assert_eq!(parse_unsigned(s), s.parse::<u32>().ok(), "input {:?}", s);
    }
}

fn finite(negative: bool, digits: &str, exponent: i128) -> Number {
    Number::Finite { negative, digits: digits.chars().collect(), exponent }
}

/// The float a number stands for, as a float reader rounds it.
fn to_f64(n: &Number) -> f64 {
    match n {
        Number::Finite { negative, digits, exponent } => {
            let d: String = if digits.is_empty() { "0".to_string() } else { digits.iter().collect() };
            let v: f64 = format!("{}e{}", d, exponent).parse().unwrap();
            if *negative { -v } else { v }
        }
        Number::Infinite { negative } => {
            if *negative { f64::NEG_INFINITY } else { f64::INFINITY }
        }
        Number::NaN { negative } => {
            if *negative { -f64::NAN } else { f64::NAN }
        }
    }
}

#[test]
fn numbers_are_held_exactly() {
    assert_eq!(parse_number("142.0"), Some(finite(false, "1420", -1)));
    assert_eq!(parse_number("-67.92"), Some(finite(true, "6792", -2)));
    assert_eq!(parse_number("0.800"), Some(finite(false, "0800", -3)));
    assert_eq!(parse_number("+3"), Some(finite(false, "3", 0)));
    assert_eq!(parse_number(".5"), Some(finite(false, "5", -1)));
    assert_eq!(parse_number("5."), Some(finite(false, "5", 0)));
    assert_eq!(parse_number("-.25"), Some(finite(true, "25", -2)));
    assert_eq!(parse_number("-0"), Some(finite(true, "0", 0)));
    assert_eq!(parse_number("0.0000001"), Some(finite(false, "00000001", -7)));
}

#[test]
fn numbers_with_exponents() {
    assert_eq!(parse_number("1e3"), Some(finite(false, "1", 3)));
    assert_eq!(parse_number("1.5E-3"), Some(finite(false, "15", -4)));
    assert_eq!(parse_number("-2e+2"), Some(finite(true, "2", 2)));
    assert_eq!(parse_number("1e13"), Some(finite(false, "1", 13)));
    assert_eq!(parse_number("1e400"), Some(finite(false, "1", 400)));
}

#[test]
fn huge_exponents_fold_to_infinity_or_zero() {
    assert_eq!(parse_number("1e99999999999999999999999999"), Some(Number::Infinite { negative: false }));
    assert_eq!(parse_number("-2.5e99999999999999999999999999"), Some(Number::Infinite { negative: true }));
    assert_eq!(parse_number("0.00e99999999999999999999999999"), Some(finite(false, "000", -2)));
    assert_eq!(parse_number("1e-99999999999999999999999999"), Some(finite(false, "", 0)));
    assert_eq!(parse_number("-7e-99999999999999999999999999"), Some(finite(true, "", 0)));
}

#[test]
fn infinities_and_not_a_number() {
    assert_eq!(parse_number("inf"), Some(Number::Infinite { negative: false }));
    assert_eq!(parse_number("-Inf"), Some(Number::Infinite { negative: true }));
    assert_eq!(parse_number("+INFINITY"), Some(Number::Infinite { negative: false }));
    assert_eq!(parse_number("iNfInItY"), Some(Number::Infinite { negative: false }));
    assert_eq!(parse_number("nan"), Some(Number::NaN { negative: false }));
    assert_eq!(parse_number("-NaN"), Some(Number::NaN { negative: true }));
}

#[test]
fn numbers_reject_other_forms() {
    for s in ["", ".", "-", "+", "1.2.3", "1e", "e5", "1e+", "1e2.5", ".e1", "infinit", "infinityy",
        "nan1", "na", " 1", "1 ", "--1", "+-1", "0x10", "1_0", "in f", "1,5", "٣"] {
        assert_eq!(parse_number(s), None, "input {:?}", s);
    }
}

#[test]
fn numbers_agree_with_the_float_reader() {
    let inputs = [
        "0", "-0", "1.5", "-2.25", "142.0", "-67.92", "0.8", "12.000001", "+7.", "-.5", "1e3",
        "2.5E-2", "-4e1", "0.1", "0.30000000000000004", "1e308", "1.7976931348623157e308",
        "1e309", "-1e400", "5e-324", "1e-400", "-1e-400", "123456789012345678901234567890",
        "0.000000000000000000000000000000000000001", "9007199254740993", "inf", "-infinity",
        "NaN", "-nan", "1e99999999999999999999999999", "1e-99999999999999999999999999",
        "0e99999999999999999999999999", "", "x", "1e", "1.2.3", " 1",
    ];
    for s in inputs {
        let ours = parse_number(s).map(|n| to_f64(&n));
        let theirs = s.parse::<f64>().ok();
        match (ours, theirs) {
            (Some(a), Some(b)) => {
                if b.is_nan() {
                    assert!(a.is_nan() && a.is_sign_negative() == b.is_sign_negative(), "input {:?}", s);
                } else {
                    assert_eq!(a.to_bits(), b.to_bits(), "input {:?}", s);
                }
            }
            (None, None) => {}
            _ => panic!("input {:?}: {:?} against {:?}", s, ours, theirs),
        }
    }
}
