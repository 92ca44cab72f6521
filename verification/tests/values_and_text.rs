use naumachia::decimal::parse_u64;
use naumachia::scripts::context::CtxValue;
use naumachia::scripts::raw_validator_script::plutus_data::PlutusData;
use naumachia::values::{same_policy, PolicyId, Values};

#[test]
fn parse_u64_follows_std() {
    for s in ["0", "5", "+5", "007", "18446744073709551615", "18446744073709551616", "", "+", "-1", "12a", " 1", "1 "] {
        assert_eq!(parse_u64(s), s.parse::<u64>().ok(), "text {:?}", s);
    }
    assert_eq!(parse_u64("+42"), Some(42));
    assert_eq!(parse_u64("99999999999999999999"), None);
}

#[test]
fn hex_keys_are_decoded_in_either_case() {
    let value = CtxValue { inner: vec![("0aFf".to_string(), vec![])] };
    let expected = PlutusData::DataMap(vec![(PlutusData::BoundedBytes(vec![0x0a, 0xff]), PlutusData::DataMap(vec![]))]);
    assert_eq!(PlutusData::from_ctx_value(value), expected);
}

#[test]
fn values_get_reads_amounts() {
    let mut values = Values::default();
    values.add_one_value(&PolicyId::ADA, 4);
    assert_eq!(values.get(&PolicyId::ADA), Some(4));
    assert_eq!(values.get(&PolicyId::native_token("aa")), None);
}

#[test]
fn add_one_value_accumulates() {
    let mut values = Values::default();
    let token = PolicyId::native_token("aa");
    values.add_one_value(&token, 2);
    values.add_one_value(&PolicyId::ADA, 5);
    values.add_one_value(&token, 3);
    let entries = values.as_iter();
    assert_eq!(entries.len(), 2);
    assert_eq!(entries[0], (PolicyId::NativeToken("aa".to_string(), None), 5));
    assert_eq!(entries[1], (PolicyId::ADA, 5));
}

#[test]
fn same_policy_compares_ids_and_names() {
    let a = PolicyId::NativeToken("aa".to_string(), Some("x".to_string()));
    assert!(same_policy(&a, &a.clone()));
    assert!(!same_policy(&a, &PolicyId::NativeToken("aa".to_string(), None)));
    assert!(!same_policy(&a, &PolicyId::ADA));
    assert!(same_policy(&PolicyId::ADA, &PolicyId::ADA));
}
