use rulodb::ast::{Datum, Dec};
use rulodb::wire::{decode_datum, encode_datum, error_payload};

fn round_trip(d: Datum) -> Datum {
    let bytes = encode_datum(&d).unwrap();
    decode_datum(&bytes).unwrap()
}

#[test]
fn null_round_trips() {
    assert_eq!(round_trip(Datum::Null), Datum::Null);
}

#[test]
fn bools_round_trip() {
    assert_eq!(round_trip(Datum::Bool(true)), Datum::Bool(true));
    assert_eq!(round_trip(Datum::Bool(false)), Datum::Bool(false));
}

#[test]
fn integers_round_trip() {
    for i in [0i64, 1, -1, 42, -90210, i64::MAX, i64::MIN] {
        assert_eq!(round_trip(Datum::Integer(i)), Datum::Integer(i));
    }
}

#[test]
fn strings_round_trip() {
    for s in ["", "abc", "naïve \u{1F600} text"] {
        assert_eq!(
            round_trip(Datum::String(s.to_string())),
            Datum::String(s.to_string())
        );
    }
}

#[test]
fn arrays_round_trip() {
    let d = Datum::Array(vec![
        Datum::Integer(1),
        Datum::Null,
        Datum::Array(vec![Datum::Bool(true)]),
    ]);
    let expected = Datum::Array(vec![
        Datum::Integer(1),
        Datum::Null,
        Datum::Array(vec![Datum::Bool(true)]),
    ]);
    assert_eq!(round_trip(d), expected);
}

#[test]
fn objects_round_trip_in_order() {
    let d = Datum::Object(vec![
        ("b".to_string(), Datum::Integer(2)),
        ("a".to_string(), Datum::String("x".to_string())),
    ]);
    let expected = Datum::Object(vec![
        ("b".to_string(), Datum::Integer(2)),
        ("a".to_string(), Datum::String("x".to_string())),
    ]);
    assert_eq!(round_trip(d), expected);
}

#[test]
fn parameters_collapse_to_strings_on_the_wire() {
    let d = Datum::Parameter("p".to_string());
    assert_eq!(round_trip(d), Datum::String("p".to_string()));
}

#[test]
fn rmpv_reads_our_encodings() {
    let d = Datum::Object(vec![
        ("n".to_string(), Datum::Integer(-7)),
        (
            "items".to_string(),
            Datum::Array(vec![Datum::Bool(true), Datum::String("x".to_string())]),
        ),
        ("nothing".to_string(), Datum::Null),
    ]);
    let bytes = encode_datum(&d).unwrap();
    let value = rmpv::decode::read_value(&mut &bytes[..]).unwrap();
    let expected = rmpv::Value::Map(vec![
        (rmpv::Value::from("n"), rmpv::Value::from(-7i64)),
        (
            rmpv::Value::from("items"),
            rmpv::Value::Array(vec![rmpv::Value::Boolean(true), rmpv::Value::from("x")]),
        ),
        (rmpv::Value::from("nothing"), rmpv::Value::Nil),
    ]);
    assert_eq!(value, expected);
}

#[test]
fn decimals_ride_as_floats_within_tolerance() {
    let d = Datum::Decimal(Dec { mantissa: 314159, scale: 5 });
    let bytes = encode_datum(&d).unwrap();
    let value = rmpv::decode::read_value(&mut &bytes[..]).unwrap();
    match value {
        rmpv::Value::F64(f) => assert!((f - 3.14159).abs() < 1e-12),
        other => panic!("expected a float, got {other:?}"),
    }
}

#[test]
fn truncated_input_is_rejected() {
    let d = Datum::String("hello".to_string());
    let mut bytes = encode_datum(&d).unwrap();
    bytes.pop();
    assert_eq!(decode_datum(&bytes), None);
}

#[test]
fn trailing_garbage_is_rejected() {
    let d = Datum::Integer(5);
    let mut bytes = encode_datum(&d).unwrap();
    bytes.push(0);
    assert_eq!(decode_datum(&bytes), None);
}

#[test]
fn error_payload_is_a_one_entry_mapping() {
    let d = error_payload("boom".to_string());
    assert_eq!(
        d,
        Datum::Object(vec![("error".to_string(), Datum::String("boom".to_string()))])
    );
}
