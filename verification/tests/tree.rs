use corporeum::cbor::{read_cbor, write_cbor};
use corporeum::json::{read_json, write_json};
use corporeum::tree::{same_datum, Datum};
use corporeum::CorporeumError;

fn sample() -> Datum {
    Datum::Record(vec![
        ("n".to_string(), Datum::Integer(-7)),
        ("t".to_string(), Datum::Text("a \"b\"\n\u{1F408}".to_string())),
        ("l".to_string(), Datum::List(vec![Datum::Null, Datum::Bool(true), Datum::Integer(i64::MAX)])),
        ("r".to_string(), Datum::Record(vec![("min".to_string(), Datum::Integer(i64::MIN))])),
        ("e".to_string(), Datum::List(Vec::new())),
        ("".to_string(), Datum::Record(Vec::new())),
    ])
}

#[test]
fn tree_is_written_as_json_in_the_order_of_its_fields() {
    let text = write_json(&sample(), false).unwrap();
    assert_eq!(
        String::from_utf8(text).unwrap(),
        "{\"n\":-7,\"t\":\"a \\\"b\\\"\\n\u{1F408}\",\"l\":[null,true,9223372036854775807],\
         \"r\":{\"min\":-9223372036854775808},\"e\":[],\"\":{}}"
    );
}

#[test]
fn tree_comes_back_from_both_codecs() {
    let tree = sample();
    let back = read_json(&write_json(&tree, false).unwrap()).unwrap();
    assert!(same_datum(&tree, &back));
    let back = read_json(&write_json(&tree, true).unwrap()).unwrap();
    assert!(same_datum(&tree, &back));
    let back = read_cbor(&write_cbor(&tree).unwrap()).unwrap();
    assert!(same_datum(&tree, &back));
}

#[test]
fn field_is_found_by_name() {
    let tree = sample();
    assert!(tree.is_record());
    assert!(matches!(tree.field("n"), Some(Datum::Integer(-7))));
    assert!(matches!(tree.field(""), Some(Datum::Record(_))));
    assert!(tree.field("x").is_none());
    assert!(tree.field("N").is_none());
    assert!(!Datum::Null.is_record());
    assert!(Datum::List(vec![tree]).field("n").is_none());
    // of two fields of one name the first is found
    let twice = Datum::Record(vec![
        ("a".to_string(), Datum::Integer(1)),
        ("a".to_string(), Datum::Integer(2)),
    ]);
    assert!(matches!(twice.field("a"), Some(Datum::Integer(1))));
}

#[test]
fn trees_that_differ_are_told_apart() {
    let tree = sample();
    assert!(same_datum(&tree, &sample()));
    assert!(!same_datum(&tree, &Datum::Null));
    assert!(!same_datum(&Datum::Integer(0), &Datum::Bool(false)));
    assert!(!same_datum(&Datum::Text("0".to_string()), &Datum::Integer(0)));
    assert!(!same_datum(&Datum::List(Vec::new()), &Datum::Record(Vec::new())));
    assert!(!same_datum(
        &Datum::List(vec![Datum::Integer(1), Datum::Integer(2)]),
        &Datum::List(vec![Datum::Integer(2), Datum::Integer(1)])
    ));
    assert!(!same_datum(
        &Datum::List(vec![Datum::Integer(1)]),
        &Datum::List(vec![Datum::Integer(1), Datum::Integer(1)])
    ));
    assert!(!same_datum(
        &Datum::Record(vec![("a".to_string(), Datum::Null)]),
        &Datum::Record(vec![("b".to_string(), Datum::Null)])
    ));
    assert!(!same_datum(
        &Datum::Record(vec![("a".to_string(), Datum::Null)]),
        &Datum::Record(vec![("a".to_string(), Datum::Integer(0))])
    ));
}

#[test]
fn tree_that_cannot_be_read_back_is_not_written() {
    let mut deep = Datum::Null;
    for _ in 0..300 {
        deep = Datum::List(vec![deep]);
    }
    let err = write_json(&deep, false).unwrap_err();
    assert!(matches!(err, CorporeumError::BadValue(_)));
    assert_eq!(err.message(), "Bad Value: what was written does not read back as the same");
    let err = write_cbor(&deep).unwrap_err();
    assert!(matches!(err, CorporeumError::BadValue(_)));
}

#[test]
fn record_that_holds_a_key_twice_is_not_written_as_json() {
    let twice = Datum::Record(vec![
        ("a".to_string(), Datum::Integer(1)),
        ("a".to_string(), Datum::Integer(2)),
    ]);
    let err = write_json(&twice, false).unwrap_err();
    assert_eq!(err.message(), "Bad Value: what was written does not read back as the same");
    // CBOR keeps both entries
    let back = read_cbor(&write_cbor(&twice).unwrap()).unwrap();
    assert!(same_datum(&twice, &back));
}
