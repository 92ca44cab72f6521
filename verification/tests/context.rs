use naumachia::address::Address;
use naumachia::scripts::context::{add_to_nested, ContextBuilder, CtxValue, Datum};
use naumachia::scripts::raw_validator_script::plutus_data::{BigInt, PlutusData};
use naumachia::values::{PolicyId, Values};

#[test]
fn build_with_lower_range_keeps_signer_and_range() {
    let signer = Address::new("addr_test1qrksjmprvgcedgdt6rhg40590vr6exdzdc2hm5wc6pyl9ymkyskmqs55usm57gflrumk9kd63f3ty6r0l2tdfwfm28qs0rurdr");
    let ctx = ContextBuilder::new(signer.clone()).with_range(Some((11, true)), None).build();
    assert_eq!(ctx.signer, signer);
    assert_eq!(ctx.range.lower, Some((11, true)));
    assert_eq!(ctx.range.upper, None);
    assert!(ctx.inputs.is_empty());
}

#[test]
fn build_without_range_is_unbounded() {
    let ctx = ContextBuilder::new(Address::new("me")).build();
    assert_eq!(ctx.range.lower, None);
    assert_eq!(ctx.range.upper, None);
}

#[test]
fn build_does_not_carry_inputs() {
    let ctx = ContextBuilder::new(Address::new("me"))
        .with_input("0a".to_string(), 0, "ff".to_string())
        .with_value("", "", 5)
        .with_value("", "", 6)
        .with_datum_hash(vec![1])
        .with_inline_datum(PlutusData::BoundedBytes(vec![2]))
        .finish_input()
        .build();
    assert!(ctx.inputs.is_empty());
}

fn amount(v: &[(String, Vec<(String, u64)>)], p: &str, a: &str) -> Option<u64> {
    v.iter().find(|(k, _)| k == p).and_then(|(_, assets)| {
        assets.iter().find(|(n, _)| n == a).map(|(_, x)| *x)
    })
}

#[test]
fn add_to_nested_sums_amounts_and_keeps_others() {
    let mut values = Vec::new();
    add_to_nested(&mut values, "aa", "01", 5);
    add_to_nested(&mut values, "aa", "01", 7);
    add_to_nested(&mut values, "aa", "02", 1);
    add_to_nested(&mut values, "bb", "", 3);
    assert_eq!(amount(&values, "aa", "01"), Some(12));
    assert_eq!(amount(&values, "aa", "02"), Some(1));
    assert_eq!(amount(&values, "bb", ""), Some(3));
    assert_eq!(amount(&values, "bb", "01"), None);
    assert_eq!(values.len(), 2);
    assert_eq!(values[0].1.len(), 2);
}

#[test]
fn ctx_value_from_values_places_ada_and_tokens() {
    let mut values = Values::default();
    values.add_one_value(&PolicyId::ADA, 100);
    values.add_one_value(&PolicyId::NativeToken("aa".to_string(), Some("01".to_string())), 2);
    values.add_one_value(&PolicyId::NativeToken("aa".to_string(), None), 3);
    values.add_one_value(&PolicyId::NativeToken("aa".to_string(), Some("".to_string())), 4);
    values.add_one_value(&PolicyId::ADA, 1);
    let ctx_value = CtxValue::from_values(&values);
    assert_eq!(amount(&ctx_value.inner, "", ""), Some(101));
    assert_eq!(amount(&ctx_value.inner, "aa", "01"), Some(2));
    // a token with no asset name and one with the empty name land together
    assert_eq!(amount(&ctx_value.inner, "aa", ""), Some(7));
}

#[test]
fn datum_from_option() {
    assert!(matches!(Datum::from(None::<PlutusData>), Datum::NoDatum));
    let d = Datum::from(Some(PlutusData::BigInt(BigInt::from(3i64))));
    match d {
        Datum::InlineDatum(inner) => assert_eq!(inner, PlutusData::BigInt(BigInt::Int { neg: false, val: 3 })),
        _ => panic!("inline datum expected"),
    }
}

#[test]
fn ctx_value_clone_is_equal() {
    let v = CtxValue { inner: vec![("aa".to_string(), vec![("01".to_string(), 1)])] };
    let w = v.clone();
    assert_eq!(v.inner, w.inner);
}

#[test]
fn add_to_nested_twice_equals_once_with_the_sum() {
    let mut a = vec![("aa".to_string(), vec![("01".to_string(), 1)])];
    let mut b = a.clone();
    add_to_nested(&mut a, "aa", "01", 5);
    add_to_nested(&mut a, "aa", "01", 7);
    add_to_nested(&mut b, "aa", "01", 12);
    assert_eq!(a, b);
    let mut c = Vec::new();
    let mut d = Vec::new();
    add_to_nested(&mut c, "bb", "02", 3);
    add_to_nested(&mut c, "bb", "02", 4);
    add_to_nested(&mut d, "bb", "02", 7);
    assert_eq!(c, d);
}

#[test]
fn add_to_nested_order_does_not_change_amounts() {
    let mut a = Vec::new();
    let mut b = Vec::new();
    add_to_nested(&mut a, "aa", "01", 5);
    add_to_nested(&mut a, "bb", "", 2);
    add_to_nested(&mut b, "bb", "", 2);
    add_to_nested(&mut b, "aa", "01", 5);
    for (p, n) in [("aa", "01"), ("bb", ""), ("aa", ""), ("cc", "01")] {
        assert_eq!(amount(&a, p, n), amount(&b, p, n));
    }
}
