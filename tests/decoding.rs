use rune_depths::decode::{decode_fixed, decode_integer, RawField};
use rune_depths::metrics::{decode_field, FieldKind};
use rune_depths::numeric::{parse_fixed, parse_integer, render_fixed, render_natural};
use rune_depths::store::Datum;

#[test]
fn parses_integers() {
    assert_eq!(parse_integer("42"), Some(42));
    assert_eq!(parse_integer("-42"), Some(-42));
    assert_eq!(parse_integer("+7"), Some(7));
    assert_eq!(parse_integer("9223372036854775807"), Some(i64::MAX));
    assert_eq!(parse_integer("-9223372036854775808"), Some(i64::MIN));
    assert_eq!(parse_integer("9223372036854775808"), None);
    assert_eq!(parse_integer("12a"), None);
    assert_eq!(parse_integer("1.5"), None);
    assert_eq!(parse_integer(""), None);
    assert_eq!(parse_integer("-"), None);
}

#[test]
fn parses_fixed_point() {
    assert_eq!(parse_fixed("123.45000000"), Some(12_345_000_000));
    assert_eq!(parse_fixed("123.45"), Some(12_345_000_000));
    assert_eq!(parse_fixed("7"), Some(700_000_000));
    assert_eq!(parse_fixed("-0.5"), Some(-50_000_000));
    assert_eq!(parse_fixed("0.123456789"), Some(12_345_679));
    assert_eq!(parse_fixed("0.123456784"), Some(12_345_678));
    assert_eq!(parse_fixed("-0.000000005"), Some(-1));
    assert_eq!(parse_fixed("1."), Some(100_000_000));
    assert_eq!(parse_fixed(".5"), Some(50_000_000));
    assert_eq!(parse_fixed("-.25"), Some(-25_000_000));
    assert_eq!(parse_fixed("."), None);
    assert_eq!(parse_fixed("-"), None);
    assert_eq!(parse_fixed("abc"), None);
    assert_eq!(parse_fixed("1.2.3"), None);
}

#[test]
fn parses_exponent_forms() {
    assert_eq!(parse_fixed("1e5"), Some(10_000_000_000_000));
    assert_eq!(parse_fixed("1e-7"), Some(10));
    assert_eq!(parse_fixed("1.5E+2"), Some(15_000_000_000));
    assert_eq!(parse_fixed("5e-9"), Some(1));
    assert_eq!(parse_fixed("4e-10"), Some(0));
    assert_eq!(parse_fixed("-2.5e-1"), Some(-25_000_000));
    assert_eq!(parse_fixed("1e16"), Some(1_000_000_000_000_000_000_000_000));
    assert_eq!(parse_fixed("1e"), None);
    assert_eq!(parse_fixed("1e+"), None);
    assert_eq!(parse_fixed("1e5.5"), None);
    assert_eq!(parse_fixed("e5"), None);
    assert_eq!(parse_fixed("1e99999"), None);
}

#[test]
fn float_literals_in_exponent_form_decode_like_text() {
    let small: serde_json::Value = serde_json::from_str("0.0000001").unwrap();
    let text = RawField::Text("0.00000010".to_string());
    match small {
        serde_json::Value::Number(n) => {
            let literal = RawField::Number(n.to_string());
            assert_eq!(decode_fixed(&literal), 10);
            assert_eq!(decode_fixed(&literal), decode_fixed(&text));
        }
        _ => panic!("not a number"),
    }
}

#[test]
fn renders_eight_fraction_digits() {
    assert_eq!(render_fixed(12_345_000_000), "123.45000000");
    assert_eq!(render_fixed(0), "0.00000000");
    assert_eq!(render_fixed(-50_000_000), "-0.50000000");
    assert_eq!(render_fixed(1), "0.00000001");
    assert_eq!(render_natural(1234567890), "1234567890");
}

#[test]
fn text_and_literal_numbers_decode_alike() {
    let text = RawField::Text("123.45000000".to_string());
    let literal = RawField::Number("123.45".to_string());
    assert_eq!(decode_fixed(&text), decode_fixed(&literal));
    assert_eq!(render_fixed(decode_fixed(&text)), "123.45000000");
    assert_eq!(render_fixed(decode_fixed(&literal)), "123.45000000");
    let text = RawField::Text("981".to_string());
    let literal = RawField::Number("981".to_string());
    assert_eq!(decode_integer(&text), 981);
    assert_eq!(decode_integer(&literal), 981);
}

#[test]
fn absent_or_unreadable_fields_decode_to_zero() {
    assert_eq!(decode_integer(&RawField::Absent), 0);
    assert_eq!(decode_fixed(&RawField::Absent), 0);
    assert_eq!(decode_integer(&RawField::Text("n/a".to_string())), 0);
    assert_eq!(decode_integer(&RawField::Number("2.5".to_string())), 0);
    assert_eq!(decode_fixed(&RawField::Text("".to_string())), 0);
}

#[test]
fn fields_decode_by_kind() {
    let f = RawField::Text("2.5".to_string());
    assert_eq!(decode_field(FieldKind::Decimal, &f), Datum::Decimal(250_000_000));
    assert_eq!(decode_field(FieldKind::Integer, &f), Datum::Integer(0));
}
