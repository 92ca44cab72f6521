use naumachia::address::Address;
use naumachia::ledger_client::cml_client::error::CMLLCError;
use naumachia::ledger_client::cml_client::{
    address_to_bech32, as_failed_to_retrieve_by_address, as_nau_value, bech32_payload_is_readable, bf_utxo_is_readable, bf_utxo_to_utxo, bf_value_is_readable, invalid_base_addr, output_cml_err, output_http_err,
    outputs_from_utxos, BfUtxo, BfValue, KeyManager,
};
use naumachia::ledger_client::LedgerClientError;
use naumachia::trireme_ledger_client::blockfrost_ledger::{
    asks_for_datum, is_transaction_hash, read_reported_output, spend_from_bf_spend, BfSpend,
    BlockfrostApiKey, DatumReply,
};
use naumachia::values::PolicyId;
use std::str::FromStr;
use cardano_multiplatform_lib::address::Address as CMLAddress;
use cardano_multiplatform_lib::plutus::{encode_json_str_to_plutus_datum, PlutusDatumSchema};

const POLICY: &str = "0123456789abcdef0123456789abcdef0123456789abcdef01234567";

#[test]
fn key_manager_reads_bech32_addresses() {
    let keys = KeyManager::new("config.toml".to_string());
    let ok = keys.addr_from_bech_32("addr_test1qrksjmprvgcedgdt6rhg40590vr6exdzdc2hm5wc6pyl9ymkyskmqs55usm57gflrumk9kd63f3ty6r0l2tdfwfm28qs0rurdr");
    assert!(ok.is_ok());
    let bad = keys.addr_from_bech_32("not an address");
    assert!(matches!(bad, Err(CMLLCError::JsError(_))));
}

#[test]
fn ledger_client_errors_name_the_address() {
    let a = Address::new("alice");
    match invalid_base_addr(&a) {
        LedgerClientError::FailedToRetrieveOutputsAt(addr, CMLLCError::InvalidBaseAddr) => assert_eq!(addr, a),
        _ => panic!("invalid base address expected"),
    }
    match output_cml_err(&a, "boom".to_string()) {
        LedgerClientError::FailedToRetrieveOutputsAt(addr, CMLLCError::JsError(m)) => {
            assert_eq!(addr, a);
            assert_eq!(m, "boom");
        }
        _ => panic!("library error expected"),
    }
    match output_http_err(&a, "down".to_string()) {
        LedgerClientError::FailedToRetrieveOutputsAt(addr, CMLLCError::LedgerError(m)) => {
            assert_eq!(addr, a);
            assert_eq!(m, "down");
        }
        _ => panic!("ledger error expected"),
    }
}

fn bf(unit: &str, quantity: &str) -> BfValue {
    BfValue { unit: unit.to_string(), quantity: quantity.to_string() }
}

#[test]
fn as_nau_value_reads_lovelace_and_tokens() {
    assert_eq!(as_nau_value(&bf("lovelace", "1000")), (PolicyId::ADA, 1000));
    let unit = format!("{}{}", POLICY, "74657374");
    assert_eq!(as_nau_value(&bf(&unit, "+7")), (PolicyId::NativeToken(POLICY.to_string(), None), 7));
}

#[test]
fn bf_utxo_amounts_are_summed_by_policy() {
    let owner = Address::new("owner");
    let utxo = BfUtxo {
        tx_hash: "abcd".to_string(),
        output_index: 2,
        amount: vec![
            bf("lovelace", "10"),
            bf(&format!("{}{}", POLICY, "01"), "3"),
            bf(&format!("{}{}", POLICY, "02"), "4"),
            bf("lovelace", "5"),
        ],
        data_hash: None,
    };
    let output = bf_utxo_to_utxo(&utxo, &owner);
    assert_eq!(output.tx_hash(), "abcd");
    assert_eq!(output.index(), 2);
    assert_eq!(output.owner(), &owner);
    let entries = output.values().as_iter();
    assert_eq!(entries.len(), 2);
    assert_eq!(entries[0], (PolicyId::ADA, 15));
    assert_eq!(entries[1], (PolicyId::NativeToken(POLICY.to_string(), None), 7));
    let all = outputs_from_utxos(&vec![utxo], &owner);
    assert_eq!(all.len(), 1);
    assert_eq!(all[0].index(), 2);
}

#[test]
fn api_key_round_trips_through_string() {
    let key = BlockfrostApiKey::from_str("SECRET-REDACTED").ok().unwrap();
    assert_eq!(String::from(&key), "SECRET-REDACTED");
    assert_eq!(String::from(key), "SECRET-REDACTED");
}

#[test]
fn spend_keeps_memory_and_steps() {
    let spend = spend_from_bf_spend(&BfSpend { memory: 1700, steps: 476468 });
    assert_eq!(spend.memory(), 1700);
    assert_eq!(spend.steps(), 476468);
}

fn bech32_text(values: &[u8]) -> String {
    let data: Vec<bech32::u5> = values.iter().map(|v| bech32::u5::try_from_u8(*v).unwrap()).collect();
    bech32::encode("addr", data).unwrap()
}

#[test]
fn bech32_payload_check() {
    assert!(bech32_payload_is_readable("addr_test1qrksjmprvgcedgdt6rhg40590vr6exdzdc2hm5wc6pyl9ymkyskmqs55usm57gflrumk9kd63f3ty6r0l2tdfwfm28qs0rurdr"));
    // not bech32 at all, or a failing checksum: the library gives an error, nothing fails halfway
    assert!(bech32_payload_is_readable("not an address"));
    assert!(bech32_payload_is_readable("abc1qqqqqqq"));
    // an empty payload with a valid checksum
    assert!(!bech32_payload_is_readable(&bech32_text(&[])));
    // one five-bit value: no whole byte
    assert!(!bech32_payload_is_readable(&bech32_text(&[0])));
    // two values, ten bits: one byte and two zero bits left
    assert!(bech32_payload_is_readable(&bech32_text(&[0, 0])));
    // two values whose last leaves non-zero bits
    assert!(!bech32_payload_is_readable(&bech32_text(&[0, 1])));
    // upper case reads the same
    assert!(!bech32_payload_is_readable(&bech32_text(&[0, 1]).to_uppercase()));
}

#[test]
fn checked_address_reading() {
    let keys = KeyManager::new("config.toml".to_string());
    assert!(keys.checked_addr_from_bech_32(&bech32_text(&[])).is_none());
    assert!(matches!(keys.checked_addr_from_bech_32("abc1qqqqqqq"), Some(Err(CMLLCError::JsError(_)))));
    let ok = keys.checked_addr_from_bech_32("addr_test1qrksjmprvgcedgdt6rhg40590vr6exdzdc2hm5wc6pyl9ymkyskmqs55usm57gflrumk9kd63f3ty6r0l2tdfwfm28qs0rurdr");
    match ok {
        Some(Ok(addr)) => {
            let parsed = CMLAddress::from_bech32("addr_test1qrksjmprvgcedgdt6rhg40590vr6exdzdc2hm5wc6pyl9ymkyskmqs55usm57gflrumk9kd63f3ty6r0l2tdfwfm28qs0rurdr").ok().unwrap();
            assert_eq!(addr.to_bytes(), parsed.to_bytes());
            let text = address_to_bech32(&addr).ok().unwrap();
            assert_eq!(text, "addr_test1qrksjmprvgcedgdt6rhg40590vr6exdzdc2hm5wc6pyl9ymkyskmqs55usm57gflrumk9kd63f3ty6r0l2tdfwfm28qs0rurdr");
        }
        _ => panic!("a valid address expected"),
    }
}

#[test]
fn failed_retrieval_keeps_address_and_cause() {
    let a = Address::new("alice");
    match as_failed_to_retrieve_by_address(&a, CMLLCError::LedgerError("x".to_string())) {
        LedgerClientError::FailedToRetrieveOutputsAt(addr, CMLLCError::LedgerError(m)) => {
            assert_eq!(addr, a);
            assert_eq!(m, "x");
        }
        _ => panic!("ledger error expected"),
    }
}

const HASH: &str = "0a0b0c0d0e0f101112131415161718191a1b1c1d1e1f202122232425262728ff";

fn hash_bytes() -> Vec<u8> {
    let mut v: Vec<u8> = (0x0a..=0x28).collect();
    v.push(0xff);
    v
}

#[test]
fn read_reported_output_cases() {
    let amount = || vec![bf("lovelace", "3"), bf("lovelace", "4")];
    // no datum hash
    let u = read_reported_output(HASH, 1, amount(), DatumReply::NoHash).ok().unwrap();
    assert_eq!(u.tx_hash(), &hash_bytes());
    assert_eq!(u.output_index(), 1);
    assert_eq!(u.amount().as_iter(), &vec![(PolicyId::ADA, 7)]);
    assert!(u.datum().is_none());
    // an answer that is not an object, or holds an error: no datum
    assert!(read_reported_output(HASH, 1, amount(), DatumReply::NotAnObject).ok().unwrap().datum().is_none());
    assert!(read_reported_output(HASH, 1, amount(), DatumReply::HasError).ok().unwrap().datum().is_none());
    // a datum in the detailed schema
    let json = "{\"int\": 42}".to_string();
    let u = read_reported_output(HASH, 1, amount(), DatumReply::JsonValue(json.clone())).ok().unwrap();
    let expected = encode_json_str_to_plutus_datum(&json, PlutusDatumSchema::DetailedSchema).ok().unwrap();
    assert_eq!(u.datum().as_ref().map(|d| d.to_bytes()), Some(expected.to_bytes()));
    // a failed request for the datum
    match read_reported_output(HASH, 1, amount(), DatumReply::RequestFailed("down".to_string())) {
        Err(CMLLCError::LedgerError(m)) => assert_eq!(m, "down"),
        _ => panic!("ledger error expected"),
    }
    // a datum the library refuses
    let bad = read_reported_output(HASH, 1, amount(), DatumReply::JsonValue("null".to_string()));
    assert!(matches!(bad, Err(CMLLCError::JsError(_))));
    // a hash of the wrong length, or not hexadecimal
    assert!(matches!(read_reported_output("0a0b", 1, amount(), DatumReply::NoHash), Err(CMLLCError::JsError(_))));
    assert!(matches!(read_reported_output("zz", 1, amount(), DatumReply::NoHash), Err(CMLLCError::JsError(_))));
    // a bad hash comes first: before a failed request, and whatever the amounts
    assert!(matches!(
        read_reported_output("zz", 1, amount(), DatumReply::RequestFailed("down".to_string())),
        Err(CMLLCError::JsError(_))
    ));
    assert!(matches!(
        read_reported_output("zz", 1, vec![bf("lovelace", "-1")], DatumReply::NoHash),
        Err(CMLLCError::JsError(_))
    ));
}

#[test]
fn datum_requests_wait_for_a_valid_hash() {
    assert!(is_transaction_hash(HASH));
    assert!(!is_transaction_hash("0a0b"));
    assert!(!is_transaction_hash("zz"));
    assert!(asks_for_datum(HASH, true));
    assert!(!asks_for_datum(HASH, false));
    assert!(!asks_for_datum("zz", true));
}

#[test]
fn bf_readability_checks() {
    assert!(bf_value_is_readable(&bf("lovelace", "1")));
    assert!(!bf_value_is_readable(&bf("lovelace", "-1")));
    assert!(!bf_value_is_readable(&bf("short", "1")));
    assert!(bf_value_is_readable(&bf(POLICY, "1")));
    assert!(bf_utxo_is_readable(&vec![bf("lovelace", "1"), bf("lovelace", "2")]));
    let max = u64::MAX.to_string();
    assert!(bf_utxo_is_readable(&vec![bf("lovelace", &max)]));
    assert!(!bf_utxo_is_readable(&vec![bf("lovelace", &max), bf("lovelace", "1")]));
    assert!(!bf_utxo_is_readable(&vec![bf("lovelace", "1"), bf("x", "1")]));
}
