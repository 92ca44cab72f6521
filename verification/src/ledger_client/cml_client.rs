pub mod error;

use crate::address::{Address, AddressModel};
use crate::decimal::{all_digits, digits_value, parse_u64, u64_text_value};
use crate::ledger_client::cml_client::error::CMLLCError;
use crate::ledger_client::LedgerClientError;
use crate::output::{Output, OutputModel};
use crate::scripts::context::keys_distinct;
use crate::values::{
    lemma_policy_added_amounts, policy_added, policy_amount, PolicyId, PolicyModel, Values,
};
use cardano_multiplatform_lib::address::Address as CMLAddress;
use vstd::arithmetic::power2::pow2;
use vstd::prelude::*;
use vstd::utf8::{encode_utf8, is_char_boundary};

verus! {

#[verifier::external_type_specification]
#[verifier::external_body]
pub struct ExCMLAddress(CMLAddress);

/// Whether `n` five-bit values, the last of which is `last`, make at least one
/// whole byte with fewer than five bits left over, and those bits zero.
pub open spec fn payload_bits_whole(n: int, last: int) -> bool {
    let rest = (5 * n) % 8;
    &&& 5 * n >= 8
    &&& rest < 5
    &&& last % (pow2(rest as nat) as int) == 0
}

/// Names the payload that `bech32::decode` reads from a text: its five-bit
/// values without the checksum, or `None` where the text is not valid bech32.
pub uninterp spec fn bech32_payload(s: Seq<char>) -> Option<Seq<u8>>;

/// Whether the address library can read a text's bech32 payload into bytes
/// without failing halfway: where the text decodes, its payload makes whole
/// bytes, at least one.
pub open spec fn cml_payload_readable(s: Seq<char>) -> bool {
    match bech32_payload(s) {
        Some(d) => payload_bits_whole(
            d.len() as int,
            if d.len() > 0 {
                d.last() as int
            } else {
                0
            },
        ),
        None => true,
    }
}

/// Calls `bech32::decode` and keeps the payload, each five-bit value as a
/// byte. The contract claims that the result depends on the text alone and
/// that each value is below 32.
#[verifier::external_body]
fn bech32_decode_payload(s: &str) -> (r: Option<Vec<u8>>)
    ensures
        match r {
            Some(v) => bech32_payload(s@) == Some(v@) && (forall|i: int|
                0 <= i < v@.len() ==> v@[i] < 32),
            None => bech32_payload(s@) is None,
        },
{
    bech32::decode(s).ok().map(|(_, data)| data.iter().map(|u| u.to_u8()).collect())
}

/// Whether `cml_payload_readable` holds of `s`.
pub fn bech32_payload_is_readable(s: &str) -> (r: bool)
    ensures
        r == cml_payload_readable(s@),
{
    match bech32_decode_payload(s) {
        None => true,
        Some(data) => {
            let n = data.len();
            let last: u8 = if n > 0 {
                data[n - 1]
            } else {
                0
            };
            let bits: u128 = 5 * (n as u128);
            let rest: u128 = bits % 8;
            let divisor: u8 = if rest == 0 {
                1
            } else if rest == 1 {
                2
            } else if rest == 2 {
                4
            } else if rest == 3 {
                8
            } else {
                16
            };
            proof {
                vstd::arithmetic::power2::lemma2_to64();
            }
            bits >= 8 && rest < 5 && last % divisor == 0
        },
    }
}

/// Names what `CMLAddress::from_bech32` gives for a text: the address it
/// reads, or the message of the error it refuses the text with.
pub uninterp spec fn cml_from_bech32(s: Seq<char>) -> Result<CMLAddress, Seq<char>>;

/// Calls `cardano_multiplatform_lib::address::Address::from_bech32`. The
/// contract claims that its outcome, the address or the message of its error,
/// depends on the text alone. The function decodes the text with
/// `bech32::decode`, unwraps the conversion of the payload into bytes and
/// then reads the first byte, so it panics on a text that decodes but whose
/// payload does not make whole bytes: the `requires` leaves those texts out.
/// Which texts it accepts, and what is in the address it gives, are not
/// stated.
#[verifier::external_body]
fn cml_address_from_bech32(addr: &str) -> (r: Result<CMLAddress, String>)
    requires
        cml_payload_readable(addr@),
    ensures
        r matches Ok(a) ==> (cml_from_bech32(addr@) matches Ok(b) && b == a),
        r matches Err(m) ==> (cml_from_bech32(addr@) matches Err(e) && e == m@),
{
    CMLAddress::from_bech32(addr).map_err(|e| e.to_string())
}

/// Names what `CMLAddress::to_bech32`, with no prefix, does with an address:
/// `Some(Ok(text))` where it writes the text, `Some(Err(message))` where it
/// fails with an error, and `None` where it panics. It panics on a Byron
/// address whose content does not read as an address content, since it
/// unwraps that reading to find the network.
pub uninterp spec fn cml_to_bech32(a: CMLAddress) -> Option<Result<Seq<char>, Seq<char>>>;

/// Calls `cardano_multiplatform_lib::address::Address::to_bech32` with no
/// prefix. The contract claims that its outcome depends on the address alone;
/// the `requires` leaves out the addresses on which it panics. The text it
/// writes is not described.
#[verifier::external_body]
fn cml_address_to_bech32(addr: &CMLAddress) -> (r: Result<String, String>)
    requires
        cml_to_bech32(*addr) is Some,
    ensures
        r matches Ok(t) ==> (cml_to_bech32(*addr) matches Some(Ok(u)) && u == t@),
        r matches Err(m) ==> (cml_to_bech32(*addr) matches Some(Err(e)) && e == m@),
{
    addr.to_bech32(None).map_err(|e| e.to_string())
}

/// The bech32 text of an address; where the library fails, its message as a
/// `JsError`.
pub fn address_to_bech32(addr: &CMLAddress) -> (r: Result<String, CMLLCError>)
    requires
        cml_to_bech32(*addr) is Some,
    ensures
        r matches Ok(t) ==> (cml_to_bech32(*addr) matches Some(Ok(u)) && u == t@),
        r matches Err(e) ==> (e matches CMLLCError::JsError(m) && cml_to_bech32(*addr) matches Some(
            Err(n),
        ) && n == m@),
{
    match cml_address_to_bech32(addr) {
        Ok(text) => Ok(text),
        Err(message) => Err(CMLLCError::JsError(message)),
    }
}

/// Keeps the signing keys of a wallet, read from a configuration file.
pub struct KeyManager {
    config_path: String,
}

impl KeyManager {
    /// The path of the configuration file.
    pub closed spec fn config_path(&self) -> Seq<char> {
        self.config_path@
    }

    /// A key manager reading its keys from `config_path`.
    pub fn new(config_path: String) -> (r: Self)
        ensures
            r.config_path() == config_path@,
    {
        KeyManager { config_path }
    }

    /// The address that a bech32 text writes; where the library refuses the
    /// text, its message as a `JsError`.
    pub fn addr_from_bech_32(&self, addr: &str) -> (r: Result<CMLAddress, CMLLCError>)
        requires
            cml_payload_readable(addr@),
        ensures
            r matches Ok(a) ==> (cml_from_bech32(addr@) matches Ok(b) && b == a),
            r matches Err(e) ==> (e matches CMLLCError::JsError(m) && cml_from_bech32(addr@) matches Err(
                n,
            ) && n == m@),
    {
        match cml_address_from_bech32(addr) {
            Ok(cml_address) => Ok(cml_address),
            Err(message) => Err(CMLLCError::JsError(message)),
        }
    }

    /// `addr_from_bech_32` where the library can read the text, and `None`
    /// where it would fail halfway through reading the payload.
    pub fn checked_addr_from_bech_32(&self, addr: &str) -> (r: Option<Result<CMLAddress, CMLLCError>>)
        ensures
            r is None <==> !cml_payload_readable(addr@),
            r matches Some(Ok(a)) ==> (cml_from_bech32(addr@) matches Ok(b) && b == a),
            r matches Some(Err(e)) ==> (e matches CMLLCError::JsError(m) && cml_from_bech32(addr@)
                matches Err(n) && n == m@),
    {
        if bech32_payload_is_readable(addr) {
            Some(self.addr_from_bech_32(addr))
        } else {
            None
        }
    }
}

/// The error for an address whose outputs could not be read, with its cause.
pub fn as_failed_to_retrieve_by_address(address: &Address, error: CMLLCError) -> (r: LedgerClientError)
    ensures
        r == LedgerClientError::FailedToRetrieveOutputsAt(*address, error),
{
    LedgerClientError::FailedToRetrieveOutputsAt(address.clone(), error)
}

/// The error for an address whose outputs could not be read because it is
/// not a base address.
pub fn invalid_base_addr(address: &Address) -> (r: LedgerClientError)
    ensures
        r == LedgerClientError::FailedToRetrieveOutputsAt(*address, CMLLCError::InvalidBaseAddr),
{
    LedgerClientError::FailedToRetrieveOutputsAt(address.clone(), CMLLCError::InvalidBaseAddr)
}

/// The error for an address whose outputs could not be read because the
/// library refused something; `message` is the library's error, debug-printed.
pub fn output_cml_err(address: &Address, message: String) -> (r: LedgerClientError)
    ensures
        r == LedgerClientError::FailedToRetrieveOutputsAt(*address, CMLLCError::JsError(message)),
{
    LedgerClientError::FailedToRetrieveOutputsAt(address.clone(), CMLLCError::JsError(message))
}

/// The error for an address whose outputs could not be read because the
/// ledger service failed; `message` describes the failure.
pub fn output_http_err(address: &Address, message: String) -> (r: LedgerClientError)
    ensures
        r == LedgerClientError::FailedToRetrieveOutputsAt(*address, CMLLCError::LedgerError(message)),
{
    LedgerClientError::FailedToRetrieveOutputsAt(address.clone(), CMLLCError::LedgerError(message))
}

/// An amount that the ledger service reports: a unit (`lovelace`, or a
/// policy id followed by an asset name) and a decimal quantity.
pub struct BfValue {
    pub unit: String,
    pub quantity: String,
}

/// An unspent output that the ledger service reports.
pub struct BfUtxo {
    pub tx_hash: String,
    pub output_index: u64,
    pub amount: Vec<BfValue>,
    pub data_hash: Option<String>,
}

/// Model of a `BfValue`: its unit and its quantity.
pub type BfValueModel = (Seq<char>, Seq<char>);

/// The models of reported amounts.
pub open spec fn bf_values_view(v: Seq<BfValue>) -> Seq<BfValueModel> {
    v.map_values(|x: BfValue| (x.unit@, x.quantity@))
}

/// Whether an amount can be read: its unit is `lovelace` or has a character
/// boundary after its first 56 bytes (the policy id), and its quantity is a
/// `u64` in decimal.
pub open spec fn bf_value_readable(v: BfValueModel) -> bool {
    &&& v.0 == "lovelace"@ || is_char_boundary(encode_utf8(v.0), 56)
    &&& u64_text_value(v.1) is Some
}

/// What an amount is counted in: ada for `lovelace`, else the native token
/// whose policy id is the first 56 bytes of the unit (the asset name is not
/// kept).
pub open spec fn bf_policy(unit: Seq<char>) -> PolicyModel {
    if unit == "lovelace"@ {
        PolicyModel::Ada
    } else {
        PolicyModel::NativeToken(
            vstd::utf8::decode_utf8(encode_utf8(unit).subrange(0, 56)),
            None,
        )
    }
}

/// The policy id and amount that a reported amount stands for.
pub open spec fn nau_value(v: BfValueModel) -> (PolicyModel, u64) {
    (bf_policy(v.0), u64_text_value(v.1).unwrap())
}

/// The amounts that adding each reported amount in turn gives.
pub open spec fn values_from_bf(vs: Seq<BfValueModel>) -> Seq<(PolicyModel, u64)>
    decreases vs.len(),
{
    if vs.len() == 0 {
        seq![]
    } else {
        let (p, a) = nau_value(vs.last());
        policy_added(values_from_bf(vs.drop_last()), p, a)
    }
}

/// The sum of the reported amounts that are counted in `policy`.
pub open spec fn bf_total(vs: Seq<BfValueModel>, policy: PolicyModel) -> nat
    decreases vs.len(),
{
    if vs.len() == 0 {
        0
    } else {
        bf_total(vs.drop_last(), policy) + (if nau_value(vs.last()).0 == policy {
            nau_value(vs.last()).1 as nat
        } else {
            0nat
        })
    }
}

/// Whether a reported output can be read: each amount can, and the amounts
/// counted in one policy sum to a `u64`.
pub open spec fn bf_utxo_readable(amount: Seq<BfValueModel>) -> bool {
    &&& forall|i: int| 0 <= i < amount.len() ==> bf_value_readable(#[trigger] amount[i])
    &&& forall|p: PolicyModel| #[trigger] bf_total(amount, p) <= u64::MAX
}

/// The policy id and amount of a reported amount.
pub fn as_nau_value(value: &BfValue) -> (r: (PolicyId, u64))
    requires
        bf_value_readable((value.unit@, value.quantity@)),
    ensures
        (r.0@, r.1) == nau_value((value.unit@, value.quantity@)),
{
    let lovelace = "lovelace".to_string();
    let policy_id = if value.unit == lovelace {
        PolicyId::ADA
    } else {
        let native_token = value.unit.as_str();
        let (policy, _) = native_token.split_at(56);
        proof {
            vstd::utf8::encode_utf8_decode_utf8(policy@);
        }
        PolicyId::native_token(policy)
    };
    let amount = parse_u64(value.quantity.as_str()).unwrap();
    (policy_id, amount)
}

/// Whether `bf_value_readable` holds of an amount.
pub fn bf_value_is_readable(value: &BfValue) -> (r: bool)
    ensures
        r == bf_value_readable((value.unit@, value.quantity@)),
{
    let lovelace = "lovelace".to_string();
    let unit_ok = value.unit == lovelace || value.unit.as_str().is_char_boundary(56);
    unit_ok && parse_u64(value.quantity.as_str()).is_some()
}

/// Whether `bf_utxo_readable` holds of the amounts of a reported output.
pub fn bf_utxo_is_readable(amount: &Vec<BfValue>) -> (r: bool)
    ensures
        r == bf_utxo_readable(bf_values_view(amount@)),
{
    let ghost all = bf_values_view(amount@);
    let mut values = Values::default();
    let mut i: usize = 0;
    assert(all.take(0) =~= seq![]);
    while i < amount.len()
        invariant
            i <= amount@.len(),
            all == bf_values_view(amount@),
            forall|j: int| 0 <= j < i ==> bf_value_readable(#[trigger] all[j]),
            values.wf(),
            forall|p: PolicyModel| #[trigger] policy_amount(values@, p) == bf_total(
                all.take(i as int),
                p,
            ),
        decreases amount.len() - i,
    {
        let value = &amount[i];
        assert(all[i as int] == (value.unit@, value.quantity@));
        if !bf_value_is_readable(value) {
            return false;
        }
        let (policy_id, amt) = as_nau_value(value);
        let current = match values.get(&policy_id) {
            Some(x) => x,
            None => 0,
        };
        assert(current == policy_amount(values@, policy_id@));
        assert(all.take(i + 1).drop_last() =~= all.take(i as int));
        if current > u64::MAX - amt {
            proof {
                lemma_bf_total_prefix(all, i + 1, policy_id@);
            }
            return false;
        }
        let ghost v0 = values@;
        values.add_one_value(&policy_id, amt);
        assert forall|p: PolicyModel| #[trigger] policy_amount(values@, p) == bf_total(
            all.take(i + 1),
            p,
        ) by {
            lemma_policy_added_amounts(v0, policy_id@, amt, p);
        }
        i = i + 1;
    }
    assert(all.take(i as int) =~= all);
    assert forall|p: PolicyModel| #[trigger] bf_total(all, p) <= u64::MAX by {
        assert(policy_amount(values@, p) <= u64::MAX);
    }
    true
}

proof fn lemma_bf_total_prefix(vs: Seq<BfValueModel>, i: int, p: PolicyModel)
    requires
        0 <= i <= vs.len(),
    ensures
        bf_total(vs.take(i), p) <= bf_total(vs, p),
    decreases vs.len() - i,
{
    if i < vs.len() {
        lemma_bf_total_prefix(vs, i + 1, p);
        assert(vs.take(i + 1).drop_last() =~= vs.take(i));
    } else {
        assert(vs.take(i) =~= vs);
    }
}

/// A readable reported amount counts in ada exactly when its unit is
/// `lovelace`, and, where its quantity is plain decimal digits, its amount is
/// the number those digits write.
pub proof fn lemma_reported_amount(v: BfValueModel)
    requires
        bf_value_readable(v),
    ensures
        (nau_value(v).0 == PolicyModel::Ada) <==> v.0 == "lovelace"@,
        all_digits(v.1) ==> nau_value(v).1 as nat == digits_value(v.1),
{
}

/// Reading a reported output's amounts loses and invents nothing: where every
/// amount reads and every policy's total fits in a `u64`, the amount of each
/// policy in what is read is the sum of the reported quantities counted in
/// that policy, and no policy has two entries.
pub proof fn lemma_values_from_bf_totals(vs: Seq<BfValueModel>)
    requires
        bf_utxo_readable(vs),
    ensures
        keys_distinct(values_from_bf(vs)),
        forall|p: PolicyModel| #[trigger] policy_amount(values_from_bf(vs), p) == bf_total(vs, p),
    decreases vs.len(),
{
    if vs.len() > 0 {
        let w = vs.drop_last();
        assert forall|p: PolicyModel| #[trigger] bf_total(w, p) <= u64::MAX by {
            assert(bf_total(vs, p) <= u64::MAX);
        }
        assert forall|i: int| 0 <= i < w.len() implies bf_value_readable(#[trigger] w[i]) by {
            assert(w[i] == vs[i]);
        }
        lemma_values_from_bf_totals(w);
        let (pp, a) = nau_value(vs.last());
        assert(bf_total(vs, pp) <= u64::MAX);
        assert forall|p: PolicyModel| #[trigger] policy_amount(values_from_bf(vs), p) == bf_total(
            vs,
            p,
        ) by {
            lemma_policy_added_amounts(values_from_bf(w), pp, a, p);
        }
        lemma_policy_added_amounts(values_from_bf(w), pp, a, pp);
    } else {
        assert(values_from_bf(vs) =~= seq![]);
    }
}

/// The amounts of a reported output, added up by policy id in the order
/// reported.
pub fn values_from_bf_values(amount: &Vec<BfValue>) -> (r: Values)
    requires
        bf_utxo_readable(bf_values_view(amount@)),
    ensures
        r.wf(),
        r@ == values_from_bf(bf_values_view(amount@)),
{
    let ghost all = bf_values_view(amount@);
    let mut values = Values::default();
    let mut i: usize = 0;
    assert(all.take(0) =~= seq![]);
    while i < amount.len()
        invariant
            i <= amount@.len(),
            all == bf_values_view(amount@),
            bf_utxo_readable(all),
            values.wf(),
            values@ == values_from_bf(all.take(i as int)),
            forall|p: PolicyModel| #[trigger] policy_amount(values@, p) == bf_total(
                all.take(i as int),
                p,
            ),
        decreases amount.len() - i,
    {
        let value = &amount[i];
        assert(all[i as int] == (value.unit@, value.quantity@));
        assert(bf_value_readable(all[i as int]));
        let (policy_id, amt) = as_nau_value(value);
        let ghost v0 = values@;
        assert(all.take(i + 1).drop_last() =~= all.take(i as int));
        proof {
            lemma_bf_total_prefix(all, i + 1, policy_id@);
        }
        values.add_one_value(&policy_id, amt);
        assert forall|p: PolicyModel| #[trigger] policy_amount(values@, p) == bf_total(
            all.take(i + 1),
            p,
        ) by {
            lemma_policy_added_amounts(v0, policy_id@, amt, p);
        }
        i = i + 1;
    }
    assert(all.take(i as int) =~= all);
    values
}

/// The wallet output, owned by `owner`, that a reported output stands for:
/// its amounts added up by policy id, in the order reported.
pub fn bf_utxo_to_utxo(utxo: &BfUtxo, owner: &Address) -> (r: Output)
    requires
        bf_utxo_readable(bf_values_view(utxo.amount@)),
    ensures
        r@ == (OutputModel {
            tx_hash: utxo.tx_hash@,
            index: utxo.output_index,
            owner: owner@,
            values: values_from_bf(bf_values_view(utxo.amount@)),
        }),
{
    let tx_hash = utxo.tx_hash.clone();
    let index = utxo.output_index;
    let values = values_from_bf_values(&utxo.amount);
    Output::new_wallet(tx_hash, index, owner.clone(), values)
}

/// The wallet outputs, owned by `owner`, that reported outputs stand for.
pub fn outputs_from_utxos(utxos: &Vec<BfUtxo>, owner: &Address) -> (r: Vec<Output>)
    requires
        forall|i: int| 0 <= i < utxos@.len() ==> bf_utxo_readable(bf_values_view(#[trigger] utxos@[i].amount@)),
    ensures
        r@.len() == utxos@.len(),
        forall|i: int| 0 <= i < utxos@.len() ==> #[trigger] r@[i]@ == (OutputModel {
            tx_hash: utxos@[i].tx_hash@,
            index: utxos@[i].output_index,
            owner: owner@,
            values: values_from_bf(bf_values_view(utxos@[i].amount@)),
        }),
{
    let mut r: Vec<Output> = Vec::new();
    let mut i: usize = 0;
    while i < utxos.len()
        invariant
            i <= utxos@.len(),
            r@.len() == i,
            forall|j: int| 0 <= j < utxos@.len() ==> bf_utxo_readable(bf_values_view(#[trigger] utxos@[j].amount@)),
            forall|j: int| 0 <= j < i ==> #[trigger] r@[j]@ == (OutputModel {
                tx_hash: utxos@[j].tx_hash@,
                index: utxos@[j].output_index,
                owner: owner@,
                values: values_from_bf(bf_values_view(utxos@[j].amount@)),
            }),
        decreases utxos.len() - i,
    {
        let utxo = &utxos[i];
        assert(bf_utxo_readable(bf_values_view(utxos@[i as int].amount@)));
        r.push(bf_utxo_to_utxo(utxo, owner));
        i = i + 1;
    }
    r
}

/// The cost of running one script: memory and steps.
pub struct Spend {
    memory: u64,
    steps: u64,
}

impl View for Spend {
    type V = (u64, u64);

    closed spec fn view(&self) -> (u64, u64) {
        (self.memory, self.steps)
    }
}

impl Spend {
    /// A cost of `memory` units of memory and `steps` steps.
    pub fn new(memory: u64, steps: u64) -> (r: Spend)
        ensures
            r@ == (memory, steps),
    {
        Spend { memory, steps }
    }

    /// The memory units.
    pub fn memory(&self) -> (r: u64)
        ensures
            r == self@.0,
    {
        self.memory
    }

    /// The steps.
    pub fn steps(&self) -> (r: u64)
        ensures
            r == self@.1,
    {
        self.steps
    }
}

} // verus!
