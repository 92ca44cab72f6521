use naumachia::scripts::context::{CtxValue, Datum, Input, TxContext, ValidRange};
use naumachia::scripts::raw_validator_script::plutus_data::{
    lower_bound, no_time_bound, BigInt, Constr, PlutusData,
};
use naumachia::scripts::ScriptError;
use naumachia::address::Address;

fn c(tag: u64, fields: Vec<PlutusData>) -> PlutusData {
    PlutusData::Constr(Constr { tag, any_constructor: None, fields })
}

fn small_int(neg: bool, val: u64) -> PlutusData {
    PlutusData::BigInt(BigInt::Int { neg, val })
}

#[test]
fn bigint_from_i64_keeps_sign_and_magnitude() {
    assert_eq!(BigInt::from(5i64), BigInt::Int { neg: false, val: 5 });
    assert_eq!(BigInt::from(0i64), BigInt::Int { neg: false, val: 0 });
    assert_eq!(BigInt::from(-7i64), BigInt::Int { neg: true, val: 7 });
    assert_eq!(BigInt::from(i64::MIN), BigInt::Int { neg: true, val: 1u64 << 63 });
    assert_eq!(BigInt::from(i64::MAX), BigInt::Int { neg: false, val: i64::MAX as u64 });
}

#[test]
fn int_round_trip_on_concrete_values() {
    for n in [0i64, 1, -1, 42, -42, i64::MAX, i64::MIN + 1] {
        assert_eq!(BigInt::from(n).to_i64(), n);
        match PlutusData::from(n).to_i64() {
            Ok(m) => assert_eq!(m, n),
            Err(_) => panic!("an integer datum must convert"),
        }
    }
}

#[test]
fn bigint_to_i64_wraps_large_magnitudes() {
    // a magnitude above i64::MAX is taken as an i64 first
    assert_eq!(BigInt::Int { neg: false, val: u64::MAX }.to_i64(), -1);
    assert_eq!(BigInt::Int { neg: true, val: u64::MAX }.to_i64(), 1);
}

#[test]
fn non_integer_datum_is_a_deserialization_error() {
    let data = PlutusData::BoundedBytes(vec![1, 2]);
    let expected = format!("{:?}", data);
    match data.to_i64() {
        Err(ScriptError::DatumDeserialization(text)) => assert_eq!(text, expected),
        _ => panic!("bytes are not an integer"),
    }
}

#[test]
fn no_time_bound_is_minus_to_plus_infinity() {
    let expected = c(
        121,
        vec![c(121, vec![c(121, vec![]), c(122, vec![])]), c(121, vec![c(123, vec![]), c(122, vec![])])],
    );
    assert_eq!(no_time_bound(), expected);
}

#[test]
fn lower_bound_is_finite_to_plus_infinity() {
    let expected = c(
        121,
        vec![
            c(121, vec![c(122, vec![small_int(false, 11)]), c(122, vec![])]),
            c(121, vec![c(123, vec![]), c(122, vec![])]),
        ],
    );
    assert_eq!(lower_bound(11), expected);
    let negative = lower_bound(-3);
    match negative {
        PlutusData::Constr(outer) => match &outer.fields[0] {
            PlutusData::Constr(lower) => match &lower.fields[0] {
                PlutusData::Constr(finite) => assert_eq!(finite.fields[0], small_int(true, 3)),
                _ => panic!("finite bound expected"),
            },
            _ => panic!("lower end expected"),
        },
        _ => panic!("interval expected"),
    }
}

#[test]
fn valid_range_conversion_follows_its_lower_end() {
    let none = ValidRange { lower: None, upper: None };
    assert_eq!(PlutusData::from_valid_range(none), no_time_bound());
    let from = ValidRange { lower: Some((11, true)), upper: None };
    assert_eq!(PlutusData::from_valid_range(from), lower_bound(11));
    // the inclusive flag is not used
    let exclusive = ValidRange { lower: Some((11, false)), upper: None };
    assert_eq!(PlutusData::from_valid_range(exclusive), lower_bound(11));
}

#[test]
fn datum_conversion_tags() {
    assert_eq!(PlutusData::from(Datum::NoDatum), c(121, vec![]));
    assert_eq!(
        PlutusData::from(Datum::DatumHash(vec![9, 8])),
        c(122, vec![PlutusData::BoundedBytes(vec![9, 8])])
    );
    assert_eq!(PlutusData::from(Datum::InlineDatum(small_int(false, 4))), c(123, vec![small_int(false, 4)]));
}

#[test]
fn optional_bytes_and_unit_conversions() {
    assert_eq!(PlutusData::from(None::<Vec<u8>>), c(121, vec![]));
    assert_eq!(PlutusData::from(Some(vec![7u8])), c(122, vec![PlutusData::BoundedBytes(vec![7])]));
    assert_eq!(PlutusData::from(vec![1u8, 2]), PlutusData::BoundedBytes(vec![1, 2]));
    assert_eq!(PlutusData::from(()), PlutusData::BoundedBytes(vec![]));
    let unit: () = <()>::from(small_int(false, 1));
    assert_eq!(unit, ());
}

fn ctx_value(entries: Vec<(&str, Vec<(&str, u64)>)>) -> CtxValue {
    CtxValue {
        inner: entries
            .into_iter()
            .map(|(p, assets)| {
                (p.to_string(), assets.into_iter().map(|(a, n)| (a.to_string(), n)).collect())
            })
            .collect(),
    }
}

#[test]
fn value_conversion_sorts_keys() {
    let value = ctx_value(vec![("bb", vec![("02", 5), ("01", 6)]), ("aa", vec![("", 7)])]);
    let expected = PlutusData::DataMap(vec![
        (
            PlutusData::BoundedBytes(vec![0xaa]),
            PlutusData::DataMap(vec![(PlutusData::BoundedBytes(vec![]), small_int(false, 7))]),
        ),
        (
            PlutusData::BoundedBytes(vec![0xbb]),
            PlutusData::DataMap(vec![
                (PlutusData::BoundedBytes(vec![0x01]), small_int(false, 6)),
                (PlutusData::BoundedBytes(vec![0x02]), small_int(false, 5)),
            ]),
        ),
    ]);
    assert_eq!(PlutusData::from_ctx_value(value), expected);
}

#[test]
fn value_conversion_does_not_depend_on_policy_order() {
    let a = ctx_value(vec![("bb", vec![("02", 5)]), ("aa", vec![("01", 7)]), ("00", vec![])]);
    let b = ctx_value(vec![("00", vec![]), ("aa", vec![("01", 7)]), ("bb", vec![("02", 5)])]);
    assert_eq!(PlutusData::from_ctx_value(a), PlutusData::from_ctx_value(b));
}

#[test]
fn value_conversion_shorter_key_first_and_later_duplicate_wins() {
    let value = ctx_value(vec![("abcd", vec![]), ("AB", vec![("", 1)]), ("ab", vec![("", 2)])]);
    let expected = PlutusData::DataMap(vec![
        (
            PlutusData::BoundedBytes(vec![0xab]),
            PlutusData::DataMap(vec![(PlutusData::BoundedBytes(vec![]), small_int(false, 2))]),
        ),
        (PlutusData::BoundedBytes(vec![0xab, 0xcd]), PlutusData::DataMap(vec![])),
    ]);
    assert_eq!(PlutusData::from_ctx_value(value), expected);
}

#[test]
fn value_amounts_above_i64_max_wrap() {
    let value = ctx_value(vec![("", vec![("", u64::MAX)])]);
    let expected = PlutusData::DataMap(vec![(
        PlutusData::BoundedBytes(vec![]),
        PlutusData::DataMap(vec![(PlutusData::BoundedBytes(vec![]), small_int(true, 1))]),
    )]);
    assert_eq!(PlutusData::from_ctx_value(value), expected);
}

fn sample_input() -> Input {
    Input {
        transaction_id: "0a0b".to_string(),
        output_index: 3,
        address: "ff".to_string(),
        value: ctx_value(vec![("", vec![("", 10)])]),
        datum: Datum::DatumHash(vec![1]),
        reference_script: None,
    }
}

fn sample_input_data() -> PlutusData {
    let out_ref = c(121, vec![c(121, vec![PlutusData::BoundedBytes(vec![0x0a, 0x0b])]), small_int(false, 3)]);
    let value = PlutusData::DataMap(vec![(
        PlutusData::BoundedBytes(vec![]),
        PlutusData::DataMap(vec![(PlutusData::BoundedBytes(vec![]), small_int(false, 10))]),
    )]);
    let output = c(
        121,
        vec![
            PlutusData::BoundedBytes(vec![0xff]),
            value,
            c(122, vec![PlutusData::BoundedBytes(vec![1])]),
            c(121, vec![]),
        ],
    );
    c(121, vec![out_ref, output])
}

#[test]
fn input_conversion_decodes_hex_parts() {
    assert_eq!(PlutusData::from_input(sample_input()), sample_input_data());
}

fn lovelace(n: u64) -> PlutusData {
    PlutusData::DataMap(vec![(
        PlutusData::BoundedBytes(vec![]),
        PlutusData::DataMap(vec![(PlutusData::BoundedBytes(vec![]), small_int(false, n))]),
    )])
}

#[test]
fn tx_context_conversion_layout() {
    let ctx = TxContext {
        signer: Address::new("alice"),
        range: ValidRange { lower: Some((11, true)), upper: None },
        inputs: vec![sample_input()],
    };
    let tx_info = c(
        121,
        vec![
            PlutusData::Array(vec![sample_input_data()]),
            PlutusData::Array(vec![]),
            PlutusData::Array(vec![]),
            lovelace(999),
            lovelace(0),
            PlutusData::Array(vec![]),
            PlutusData::DataMap(vec![]),
            lower_bound(11),
            PlutusData::Array(vec![]),
            PlutusData::DataMap(vec![]),
            PlutusData::DataMap(vec![]),
            c(121, vec![PlutusData::BoundedBytes(vec![])]),
        ],
    );
    let expected = c(121, vec![tx_info, c(122, vec![])]);
    assert_eq!(PlutusData::from_tx_context(ctx), expected);
}

#[test]
fn clone_copies_nested_data() {
    let d = c(
        121,
        vec![
            PlutusData::DataMap(vec![(small_int(true, 2), PlutusData::Array(vec![small_int(false, 1)]))]),
            PlutusData::BigInt(BigInt::BigUInt(vec![1, 2, 3])),
        ],
    );
    assert_eq!(d.clone(), d);
}

#[test]
fn debug_text_writes_maps_as_maps() {
    let m = PlutusData::DataMap(vec![(PlutusData::BoundedBytes(vec![1]), small_int(true, 2))]);
    assert_eq!(m.debug_text(), "Map({BoundedBytes([1]): BigInt(Int { neg: true, val: 2 })})");
    let empty = PlutusData::DataMap(vec![]);
    assert_eq!(empty.debug_text(), "Map({})");
    let d = PlutusData::Constr(Constr {
        tag: 121,
        any_constructor: Some(3),
        fields: vec![PlutusData::Array(vec![]), PlutusData::BigInt(BigInt::BigUInt(vec![7, 255]))],
    });
    assert_eq!(
        d.debug_text(),
        "Constr(Constr { tag: 121, any_constructor: Some(3), fields: [Array([]), BigInt(BigUInt([7, 255]))] })"
    );
    let a = PlutusData::Array(vec![small_int(false, 0), PlutusData::BigInt(BigInt::BigNInt(vec![])), c(122, vec![])]);
    assert_eq!(
        a.debug_text(),
        "Array([BigInt(Int { neg: false, val: 0 }), BigInt(BigNInt([])), Constr(Constr { tag: 122, any_constructor: None, fields: [] })])"
    );
}

#[test]
fn map_datum_error_carries_its_text() {
    let m = PlutusData::DataMap(vec![(small_int(false, 1), PlutusData::BoundedBytes(vec![]))]);
    match m.to_i64() {
        Err(ScriptError::DatumDeserialization(text)) => {
            assert_eq!(text, "Map({BigInt(Int { neg: false, val: 1 }): BoundedBytes([])})")
        }
        _ => panic!("a map is not an integer"),
    }
}
