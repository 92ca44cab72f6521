use crate::hex_codec::hex_decoded;
use crate::ledger_client::cml_client::error::CMLLCError;
use crate::ledger_client::cml_client::{
    bf_utxo_readable, bf_values_view, values_from_bf, values_from_bf_values, BfValue, BfValueModel,
    Spend,
};
use crate::values::{PolicyModel, Values};
use cardano_multiplatform_lib::crypto::TransactionHash;
use cardano_multiplatform_lib::plutus::{
    encode_json_str_to_plutus_datum, PlutusData as CMLPlutusData, PlutusDatumSchema,
};
use vstd::prelude::*;

verus! {

#[verifier::external_type_specification]
#[verifier::external_body]
pub struct ExCMLPlutusData(CMLPlutusData);

/// Names the message of the error that `TransactionHash::from_hex` gives for
/// a text it refuses.
pub uninterp spec fn cml_hash_error(s: Seq<char>) -> Seq<char>;

/// Calls `cardano_multiplatform_lib::crypto::TransactionHash::from_hex` and
/// hands back the hash's bytes. The contract claims what the function does:
/// it decodes the text with `hex::decode` and accepts exactly 32 bytes, which
/// the hash then holds; the message of its error depends on the text alone.
#[verifier::external_body]
fn transaction_hash_from_hex(s: &str) -> (r: Result<Vec<u8>, String>)
    ensures
        r is Ok <==> (hex_decoded(s@) matches Some(b) && b.len() == 32),
        r matches Ok(b) ==> hex_decoded(s@) == Some(b@),
        r matches Err(m) ==> m@ == cml_hash_error(s@),
{
    TransactionHash::from_hex(s).map(|h| h.to_bytes()).map_err(|e| e.to_string())
}

/// Names what `encode_json_str_to_plutus_datum`, in the detailed schema,
/// gives for a JSON text: the datum it reads, or the message of the error it
/// refuses the text with.
pub uninterp spec fn cml_json_datum(text: Seq<char>) -> Result<CMLPlutusData, Seq<char>>;

/// Calls `cardano_multiplatform_lib::plutus::encode_json_str_to_plutus_datum`
/// with the detailed schema. The contract claims that its outcome, the datum
/// or the message of its error, depends on the text alone. What is in the
/// datum it gives is not described.
#[verifier::external_body]
fn plutus_datum_from_json(text: &str) -> (r: Result<CMLPlutusData, String>)
    ensures
        r matches Ok(d) ==> (cml_json_datum(text@) matches Ok(e) && e == d),
        r matches Err(m) ==> (cml_json_datum(text@) matches Err(e) && e == m@),
{
    encode_json_str_to_plutus_datum(text, PlutusDatumSchema::DetailedSchema).map_err(|e| e.to_string())
}

/// Whether a text is a transaction hash: 32 bytes in hexadecimal.
pub open spec fn tx_hash_valid(s: Seq<char>) -> bool {
    hex_decoded(s) matches Some(b) && b.len() == 32
}

/// Whether `tx_hash_valid` holds of `tx_hash`.
pub fn is_transaction_hash(tx_hash: &str) -> (r: bool)
    ensures
        r == tx_hash_valid(tx_hash@),
{
    transaction_hash_from_hex(tx_hash).is_ok()
}

/// Whether the ledger service is to be asked for the datum of a reported
/// output: only where its transaction hash is valid and it has a datum hash.
/// An output with a bad transaction hash is refused before anything is asked.
pub fn asks_for_datum(tx_hash: &str, has_data_hash: bool) -> (r: bool)
    ensures
        r == (tx_hash_valid(tx_hash@) && has_data_hash),
{
    has_data_hash && is_transaction_hash(tx_hash)
}

/// What the ledger service answered when asked for the datum of an output.
pub enum DatumReply {
    /// Nothing was asked: the output has no datum hash (or its transaction
    /// hash is not valid, see `asks_for_datum`).
    NoHash,
    /// The request failed; this describes the failure.
    RequestFailed(String),
    /// The answer was not a JSON object.
    NotAnObject,
    /// The answer was an object with an `error` key.
    HasError,
    /// The answer was an object without one; this is the JSON text of its
    /// `json_value` entry.
    JsonValue(String),
}

/// An unspent output read from the ledger: its transaction hash, index,
/// amounts and datum.
pub struct UTxO {
    tx_hash: Vec<u8>,
    output_index: u64,
    amount: Values,
    datum: Option<CMLPlutusData>,
}

/// Model of a `UTxO`.
pub struct UTxOModel {
    pub tx_hash: Seq<u8>,
    pub output_index: u64,
    pub amount: Seq<(PolicyModel, u64)>,
    pub datum: Option<CMLPlutusData>,
}

impl View for UTxO {
    type V = UTxOModel;

    closed spec fn view(&self) -> UTxOModel {
        UTxOModel {
            tx_hash: self.tx_hash@,
            output_index: self.output_index,
            amount: self.amount@,
            datum: self.datum,
        }
    }
}

impl UTxO {
    /// The transaction hash, as 32 bytes.
    pub fn tx_hash(&self) -> (r: &Vec<u8>)
        ensures
            r@ == self@.tx_hash,
    {
        &self.tx_hash
    }

    /// The index of the output in its transaction.
    pub fn output_index(&self) -> (r: u64)
        ensures
            r == self@.output_index,
    {
        self.output_index
    }

    /// The amounts.
    pub fn amount(&self) -> (r: &Values)
        ensures
            r@ == self@.amount,
    {
        &self.amount
    }

    /// The datum.
    pub fn datum(&self) -> (r: &Option<CMLPlutusData>)
        ensures
            *r == self@.datum,
    {
        &self.datum
    }
}

/// The output that `read_reported_output` gives for a valid transaction hash
/// and a datum.
pub open spec fn reported_output(
    tx_hash: Seq<char>,
    output_index: u64,
    amount: Seq<BfValueModel>,
    datum: Option<CMLPlutusData>,
) -> UTxOModel {
    UTxOModel {
        tx_hash: hex_decoded(tx_hash).unwrap(),
        output_index,
        amount: values_from_bf(amount),
        datum,
    }
}

/// Reads an output that the ledger service reported, with the answer it gave
/// for its datum. The transaction hash must be 32 bytes in hexadecimal, else
/// the library's error comes first. Then a failed request for the datum gives
/// a ledger error, and a datum given as JSON must be one the library reads;
/// any other answer gives no datum. Amounts are added up by policy id in the
/// order reported.
pub fn read_reported_output(
    tx_hash: &str,
    output_index: u64,
    amount: Vec<BfValue>,
    datum: DatumReply,
) -> (r: Result<UTxO, CMLLCError>)
    requires
        tx_hash_valid(tx_hash@) ==> bf_utxo_readable(bf_values_view(amount@)),
    ensures
        !tx_hash_valid(tx_hash@) ==> (r matches Err(CMLLCError::JsError(m)) && m@ == cml_hash_error(
            tx_hash@,
        )),
        tx_hash_valid(tx_hash@) ==> match datum {
            DatumReply::RequestFailed(message) => r matches Err(e) && e == CMLLCError::LedgerError(
                message,
            ),
            DatumReply::JsonValue(text) => match cml_json_datum(text@) {
                Ok(d) => r matches Ok(u) && u@ == reported_output(
                    tx_hash@,
                    output_index,
                    bf_values_view(amount@),
                    Some(d),
                ),
                Err(m) => r matches Err(CMLLCError::JsError(e)) && e@ == m,
            },
            _ => r matches Ok(u) && u@ == reported_output(
                tx_hash@,
                output_index,
                bf_values_view(amount@),
                None,
            ),
        },
{
    let hash = match transaction_hash_from_hex(tx_hash) {
        Ok(bytes) => bytes,
        Err(message) => return Err(CMLLCError::JsError(message)),
    };
    let values = values_from_bf_values(&amount);
    let datum = match datum {
        DatumReply::RequestFailed(message) => return Err(CMLLCError::LedgerError(message)),
        DatumReply::JsonValue(text) => match plutus_datum_from_json(text.as_str()) {
            Ok(plutus_data) => Some(plutus_data),
            Err(message) => return Err(CMLLCError::JsError(message)),
        },
        _ => None,
    };
    Ok(UTxO { tx_hash: hash, output_index, amount: values, datum })
}

/// The execution cost of one script that the ledger service reports.
pub struct BfSpend {
    pub memory: u64,
    pub steps: u64,
}

/// The cost of a script run, from what the ledger service reports.
pub fn spend_from_bf_spend(bf_spend: &BfSpend) -> (r: Spend)
    ensures
        r@ == (bf_spend.memory, bf_spend.steps),
{
    let memory = bf_spend.memory;
    let steps = bf_spend.steps;
    Spend::new(memory, steps)
}

/// A Blockfrost project key.
pub struct BlockfrostApiKey {
    inner: String,
}

impl View for BlockfrostApiKey {
    type V = Seq<char>;

    closed spec fn view(&self) -> Seq<char> {
        self.inner@
    }
}

impl From<BlockfrostApiKey> for String {
    fn from(secret_phrase: BlockfrostApiKey) -> (r: Self)
        ensures
            r@ == secret_phrase@,
    {
        secret_phrase.inner
    }
}

impl vstd::std_specs::convert::FromSpecImpl<BlockfrostApiKey> for String {
    open spec fn obeys_from_spec() -> bool {
        false
    }

    open spec fn from_spec(v: BlockfrostApiKey) -> String {
        arbitrary()
    }
}

impl From<&BlockfrostApiKey> for String {
    fn from(secret_phrase: &BlockfrostApiKey) -> (r: Self)
        ensures
            r@ == secret_phrase@,
    {
        secret_phrase.inner.clone()
    }
}

impl vstd::std_specs::convert::FromSpecImpl<&BlockfrostApiKey> for String {
    open spec fn obeys_from_spec() -> bool {
        false
    }

    open spec fn from_spec(v: &BlockfrostApiKey) -> String {
        arbitrary()
    }
}

impl std::str::FromStr for BlockfrostApiKey {
    type Err = BlockfrostLedgerError;

    fn from_str(s: &str) -> (r: Result<Self, Self::Err>)
        ensures
            r matches Ok(key) && key@ == s@,
    {
        let inner = s.to_string();
        Ok(BlockfrostApiKey { inner })
    }
}

/// An error of the Blockfrost ledger client.
pub enum BlockfrostLedgerError {
    NoConfigDirectory(String),
}

} // verus!
