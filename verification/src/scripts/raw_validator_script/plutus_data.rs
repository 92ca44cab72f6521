use crate::hex_codec::{decode_hex, hex_bytes, is_hex};
use crate::scripts::context::{
    assets_view, AssetsModel, CtxValue, Datum, DatumModel, Input, InputModel, TxContext,
    TxContextModel, ValidRange, ValueModel,
};
use crate::scripts::ScriptError;
use crate::scripts::raw_validator_script::plutus_text::data_text;
use crate::scripts::raw_validator_script::sorted_map::{
    entry_views, insert_sorted, last_wins, lemma_sorted_from_order_free, sorted_from,
};
use vstd::prelude::*;

verus! {

broadcast use vstd::std_specs::vec::axiom_vec_index_decreases;

/// Plutus data, the value language shared by on-chain scripts.
#[derive(Debug, PartialEq, Eq, PartialOrd, Ord)]
pub enum PlutusData {
    Constr(Constr<PlutusData>),
    /// A map, as a list of entries; the maps this library builds keep their
    /// keys in rising order with no key twice, as an ordered map does.
    DataMap(Vec<(PlutusData, PlutusData)>),
    BigInt(BigInt),
    BoundedBytes(Vec<u8>),
    Array(Vec<PlutusData>),
}

/// A constructor application: a tag and its fields.
#[derive(Debug, PartialEq, Eq, PartialOrd, Ord, Clone)]
pub struct Constr<T> {
    pub tag: u64,
    pub any_constructor: Option<u64>,
    pub fields: Vec<T>,
}

/// An integer as Plutus data holds it.
#[derive(Debug, PartialEq, Eq, PartialOrd, Ord)]
pub enum BigInt {
    Int { neg: bool, val: u64 },
    BigUInt(Vec<u8>),
    BigNInt(Vec<u8>),
}

/// The mathematical model of a `BigInt`.
#[verifier::ext_equal]
pub enum IntModel {
    Int { neg: bool, val: u64 },
    BigUInt(Seq<u8>),
    BigNInt(Seq<u8>),
}

/// The mathematical model of `PlutusData`: the same tree with sequences in place of vectors.
#[verifier::ext_equal]
pub enum Data {
    Constr { tag: u64, any_constructor: Option<u64>, fields: Seq<Data> },
    DataMap(Seq<(Data, Data)>),
    Int(IntModel),
    Bytes(Seq<u8>),
    Array(Seq<Data>),
}

impl View for BigInt {
    type V = IntModel;

    open spec fn view(&self) -> IntModel {
        match self {
            BigInt::Int { neg, val } => IntModel::Int { neg: *neg, val: *val },
            BigInt::BigUInt(b) => IntModel::BigUInt(b@),
            BigInt::BigNInt(b) => IntModel::BigNInt(b@),
        }
    }
}

/// The model of a Plutus data value: vectors become sequences, element by element.
pub open spec fn data_of(p: PlutusData) -> Data
    decreases p,
{
    match p {
        PlutusData::Constr(c) => Data::Constr {
            tag: c.tag,
            any_constructor: c.any_constructor,
            fields: Seq::new(
                c.fields@.len(),
                |i: int|
                    if 0 <= i < c.fields@.len() {
                        data_of(c.fields@[i])
                    } else {
                        Data::Bytes(Seq::empty())
                    },
            ),
        },
        PlutusData::DataMap(m) => Data::DataMap(
            Seq::new(
                m@.len(),
                |i: int|
                    if 0 <= i < m@.len() {
                        (data_of(m@[i].0), data_of(m@[i].1))
                    } else {
                        (Data::Bytes(Seq::empty()), Data::Bytes(Seq::empty()))
                    },
            ),
        ),
        PlutusData::BigInt(b) => Data::Int(b@),
        PlutusData::BoundedBytes(b) => Data::Bytes(b@),
        PlutusData::Array(a) => Data::Array(
            Seq::new(
                a@.len(),
                |i: int|
                    if 0 <= i < a@.len() {
                        data_of(a@[i])
                    } else {
                        Data::Bytes(Seq::empty())
                    },
            ),
        ),
    }
}

impl View for PlutusData {
    type V = Data;

    open spec fn view(&self) -> Data {
        data_of(*self)
    }
}

/// The models of a sequence of Plutus data.
pub open spec fn views(s: Seq<PlutusData>) -> Seq<Data> {
    s.map_values(|d: PlutusData| d@)
}

/// A constructor application with no alternative constructor number.
pub open spec fn dconstr(tag: u64, fields: Seq<Data>) -> Data {
    Data::Constr { tag, any_constructor: None, fields }
}

/// The magnitude of `n`.
pub open spec fn magnitude(n: i64) -> u64 {
    if n < 0 {
        (-n) as u64
    } else {
        n as u64
    }
}

/// The model of the `BigInt` that stands for `n`.
pub open spec fn int_model(n: i64) -> IntModel {
    IntModel::Int { neg: n < 0, val: magnitude(n) }
}

/// The Plutus data of the integer `n`.
pub open spec fn int_data(n: i64) -> Data {
    Data::Int(int_model(n))
}

/// Whether a `BigInt` can be turned into an `i64`: it is a small integer
/// whose negation does not overflow.
pub open spec fn fits_i64(b: IntModel) -> bool {
    match b {
        IntModel::Int { neg, val } => neg ==> (val as i64) != i64::MIN,
        _ => false,
    }
}

/// The `i64` that a small integer stands for: its magnitude taken as an
/// `i64` (wrapping above `i64::MAX`), negated where the sign says so.
pub open spec fn int_value(b: IntModel) -> i64 {
    match b {
        IntModel::Int { neg, val } => if neg {
            (-(val as i64)) as i64
        } else {
            val as i64
        },
        _ => 0,
    }
}

/// Puts the entries' views into a sequence of model pairs.
pub open spec fn pair_views(s: Seq<(PlutusData, PlutusData)>) -> Seq<(Data, Data)> {
    s.map_values(|e: (PlutusData, PlutusData)| (e.0@, e.1@))
}

pub(crate) proof fn lemma_constr_view(c: Constr<PlutusData>)
    ensures
        PlutusData::Constr(c)@ == (Data::Constr {
            tag: c.tag,
            any_constructor: c.any_constructor,
            fields: views(c.fields@),
        }),
{
    let d = PlutusData::Constr(c)@;
    assert(d->fields =~= views(c.fields@));
}

pub(crate) proof fn lemma_map_view(m: Vec<(PlutusData, PlutusData)>)
    ensures
        PlutusData::DataMap(m)@ == Data::DataMap(pair_views(m@)),
{
    let d = PlutusData::DataMap(m)@;
    assert(d->DataMap_0 =~= pair_views(m@));
}

pub(crate) proof fn lemma_array_view(a: Vec<PlutusData>)
    ensures
        PlutusData::Array(a)@ == Data::Array(views(a@)),
{
    let d = PlutusData::Array(a)@;
    assert(d->Array_0 =~= views(a@));
}

/// A constructor application with the given tag and fields.
fn constr(tag: u64, fields: Vec<PlutusData>) -> (r: PlutusData)
    ensures
        r@ == dconstr(tag, views(fields@)),
{
    let c = Constr { tag, any_constructor: None, fields };
    proof {
        lemma_constr_view(c);
    }
    PlutusData::Constr(c)
}

impl From<i64> for BigInt {
    fn from(num: i64) -> (r: Self) {
        let neg = num < 0;
        let val: u64 = if neg {
            (0i128 - num as i128) as u64
        } else {
            num as u64
        };
        BigInt::Int { neg, val }
    }
}

impl vstd::std_specs::convert::FromSpecImpl<i64> for BigInt {
    open spec fn obeys_from_spec() -> bool {
        true
    }

    open spec fn from_spec(v: i64) -> BigInt {
        BigInt::Int { neg: v < 0, val: magnitude(v) }
    }
}

impl From<i64> for PlutusData {
    fn from(num: i64) -> (r: Self) {
        PlutusData::BigInt(BigInt::from(num))
    }
}

impl vstd::std_specs::convert::FromSpecImpl<i64> for PlutusData {
    open spec fn obeys_from_spec() -> bool {
        true
    }

    open spec fn from_spec(v: i64) -> PlutusData {
        PlutusData::BigInt(BigInt::Int { neg: v < 0, val: magnitude(v) })
    }
}

impl BigInt {
    /// The `i64` that a small integer stands for. Only small integers can be
    /// converted, and not the negation of `i64::MIN`, which overflows.
    pub fn to_i64(self) -> (r: i64)
        requires
            fits_i64(self@),
        ensures
            r == int_value(self@),
    {
        match self {
            BigInt::Int { neg, val } => {
                let value = val as i64;
                if neg {
                    -value
                } else {
                    value
                }
            },
            _ => 0,
        }
    }
}

/// An integer turned into a `BigInt` and back is the same integer, for every
/// `i64` but `i64::MIN`, whose magnitude does not fit in an `i64`.
pub proof fn lemma_int_round_trip(n: i64)
    requires
        n != i64::MIN,
    ensures
        fits_i64(int_model(n)),
        int_value(int_model(n)) == n,
{
}

/// The marker that the interval ends are written with: the constructor of `True`.
pub open spec fn closure_data() -> Data {
    dconstr(122, seq![])
}

/// One end of an interval: the bound and its closure marker.
pub open spec fn bound_data(bound: Data) -> Data {
    dconstr(121, seq![bound, closure_data()])
}

/// The interval that is unbounded at both ends.
pub open spec fn no_time_bound_data() -> Data {
    dconstr(121, seq![bound_data(dconstr(121, seq![])), bound_data(dconstr(123, seq![]))])
}

/// The interval from the finite time `bound`, unbounded above.
pub open spec fn lower_bound_data(bound: i64) -> Data {
    dconstr(121, seq![bound_data(dconstr(122, seq![int_data(bound)])), bound_data(dconstr(123, seq![]))])
}

/// The interval that a validity range stands for; ranges with an upper end
/// have none.
pub open spec fn valid_range_data(r: ValidRange) -> Data
    recommends
        r.upper is None,
{
    match r.lower {
        None => no_time_bound_data(),
        Some((bound, _)) => lower_bound_data(bound),
    }
}

/// The Plutus data of a datum.
pub open spec fn datum_data(d: DatumModel) -> Data {
    match d {
        DatumModel::NoDatum => dconstr(121, seq![]),
        DatumModel::DatumHash(h) => dconstr(122, seq![Data::Bytes(h)]),
        DatumModel::InlineDatum(d) => dconstr(123, seq![d]),
    }
}

/// The Plutus data of an optional byte string.
pub open spec fn opt_bytes_data(o: Option<Seq<u8>>) -> Data {
    match o {
        None => dconstr(121, seq![]),
        Some(b) => dconstr(122, seq![Data::Bytes(b)]),
    }
}

/// A constructor application with no fields.
fn constr0(tag: u64) -> (r: PlutusData)
    ensures
        r@ == dconstr(tag, seq![]),
{
    let v: Vec<PlutusData> = Vec::new();
    assert(views(v@) =~= seq![]);
    constr(tag, v)
}

/// A constructor application with one field.
fn constr1(tag: u64, a: PlutusData) -> (r: PlutusData)
    ensures
        r@ == dconstr(tag, seq![a@]),
{
    let v = vec![a];
    assert(views(v@) =~= seq![a@]);
    constr(tag, v)
}

/// A constructor application with two fields.
fn constr2(tag: u64, a: PlutusData, b: PlutusData) -> (r: PlutusData)
    ensures
        r@ == dconstr(tag, seq![a@, b@]),
{
    let v = vec![a, b];
    assert(views(v@) =~= seq![a@, b@]);
    constr(tag, v)
}

/// The interval with no bounds: negative infinity to positive infinity.
pub fn no_time_bound() -> (r: PlutusData)
    ensures
        r@ == no_time_bound_data(),
{
    // negative infinity, closed
    let lower = constr2(121, constr0(121), constr0(122));
    // positive infinity, closed
    let upper = constr2(121, constr0(123), constr0(122));
    constr2(121, lower, upper)
}

/// The interval from the finite time `bound` to positive infinity.
pub fn lower_bound(bound: i64) -> (r: PlutusData)
    ensures
        r@ == lower_bound_data(bound),
{
    // the finite bound, closed
    let lower = constr2(121, constr1(122, PlutusData::BigInt(BigInt::from(bound))), constr0(122));
    // positive infinity, closed
    let upper = constr2(121, constr0(123), constr0(122));
    constr2(121, lower, upper)
}

impl From<Datum> for PlutusData {
    fn from(value: Datum) -> (r: Self)
        ensures
            r@ == datum_data(value@),
    {
        match value {
            Datum::NoDatum => constr0(121),
            Datum::DatumHash(hash) => constr1(122, PlutusData::BoundedBytes(hash)),
            Datum::InlineDatum(data) => constr1(123, data),
        }
    }
}

impl vstd::std_specs::convert::FromSpecImpl<Datum> for PlutusData {
    open spec fn obeys_from_spec() -> bool {
        false
    }

    open spec fn from_spec(v: Datum) -> PlutusData {
        arbitrary()
    }
}

/// The Plutus data of an ordered map with byte-string keys, built by
/// inserting `pairs` in turn.
pub open spec fn bytes_map_data(pairs: Seq<(Seq<u8>, Data)>) -> Data {
    Data::DataMap(keyed_by_bytes(sorted_from(pairs)))
}

/// Entries with their byte keys put as Plutus byte strings.
pub open spec fn keyed_by_bytes(s: Seq<(Seq<u8>, Data)>) -> Seq<(Data, Data)> {
    s.map_values(|e: (Seq<u8>, Data)| (Data::Bytes(e.0), e.1))
}

/// The entries that the assets under one policy give: each asset name
/// decoded from hexadecimal, each amount as an integer (taken as an `i64`).
pub open spec fn asset_pairs(a: AssetsModel) -> Seq<(Seq<u8>, Data)> {
    a.map_values(|e: (Seq<char>, u64)| (hex_bytes(e.0), int_data(e.1 as i64)))
}

/// The Plutus data of the assets under one policy.
pub open spec fn assets_data(a: AssetsModel) -> Data {
    bytes_map_data(asset_pairs(a))
}

/// The entries that a value gives: each policy id decoded from hexadecimal,
/// with the map of its assets.
pub open spec fn value_pairs(v: ValueModel) -> Seq<(Seq<u8>, Data)> {
    v.map_values(|e: (Seq<char>, AssetsModel)| (hex_bytes(e.0), assets_data(e.1)))
}

/// The Plutus data of a value: a map from policy id to a map from asset name
/// to amount.
pub open spec fn value_data(v: ValueModel) -> Data {
    bytes_map_data(value_pairs(v))
}

/// Whether every asset name in `a` is hexadecimal.
pub open spec fn assets_are_hex(a: AssetsModel) -> bool {
    forall|j: int| 0 <= j < a.len() ==> is_hex(#[trigger] a[j].0)
}

/// Whether every policy id and asset name of a value is hexadecimal.
pub open spec fn value_is_hex(v: ValueModel) -> bool {
    forall|i: int| 0 <= i < v.len() ==> is_hex(#[trigger] v[i].0) && assets_are_hex(v[i].1)
}

/// Turns entries with byte keys into a Plutus map with byte-string keys.
fn bytes_map(entries: Vec<(Vec<u8>, PlutusData)>) -> (r: PlutusData)
    ensures
        r@ == Data::DataMap(keyed_by_bytes(entry_views(entries@))),
{
    let ghost goal = keyed_by_bytes(entry_views(entries@));
    let mut out: Vec<(PlutusData, PlutusData)> = Vec::new();
    let mut rest = entries;
    while rest.len() > 0
        invariant
            goal == keyed_by_bytes(entry_views(entries@)),
            pair_views(out@) + keyed_by_bytes(entry_views(rest@)) == goal,
        decreases rest.len(),
    {
        let ghost before = keyed_by_bytes(entry_views(rest@));
        let ghost out_before = pair_views(out@);
        let (k, v) = rest.remove(0);
        out.push((PlutusData::BoundedBytes(k), v));
        assert(pair_views(out@) =~= out_before.push(before[0]));
        assert(keyed_by_bytes(entry_views(rest@)) =~= before.drop_first());
        assert(pair_views(out@) + keyed_by_bytes(entry_views(rest@)) =~= goal);
    }
    assert(pair_views(out@) =~= goal);
    proof {
        lemma_map_view(out);
    }
    PlutusData::DataMap(out)
}

/// The Plutus data of the assets under one policy.
fn assets_to_data(assets: &Vec<(String, u64)>) -> (r: PlutusData)
    requires
        assets_are_hex(assets_view(assets@)),
    ensures
        r@ == assets_data(assets_view(assets@)),
{
    let ghost pairs = asset_pairs(assets_view(assets@));
    let mut m: Vec<(Vec<u8>, PlutusData)> = Vec::new();
    let mut j: usize = 0;
    assert(pairs.take(0) =~= seq![]);
    while j < assets.len()
        invariant
            j <= assets.len(),
            pairs == asset_pairs(assets_view(assets@)),
            assets_are_hex(assets_view(assets@)),
            entry_views(m@) == sorted_from(pairs.take(j as int)),
        decreases assets.len() - j,
    {
        let entry = &assets[j];
        assert(assets_view(assets@)[j as int].0 == entry.0@);
        let key = decode_hex(entry.0.as_str()).unwrap();
        let amount = PlutusData::BigInt(BigInt::from(entry.1 as i64));
        m = insert_sorted(m, key, amount);
        assert(pairs.take(j + 1).drop_last() =~= pairs.take(j as int));
        j = j + 1;
    }
    assert(pairs.take(j as int) =~= pairs);
    bytes_map(m)
}

impl PlutusData {
    /// The Plutus data of a value: policy ids and asset names, written in
    /// hexadecimal, become byte strings; amounts become integers. Both levels
    /// are maps in key order; where two ids decode to the same bytes, the
    /// later one wins.
    pub fn from_ctx_value(value: CtxValue) -> (r: PlutusData)
        requires
            value_is_hex(value@),
        ensures
            r@ == value_data(value@),
    {
        let ghost pairs = value_pairs(value@);
        let inner = &value.inner;
        let mut m: Vec<(Vec<u8>, PlutusData)> = Vec::new();
        let mut i: usize = 0;
        assert(pairs.take(0) =~= seq![]);
        while i < inner.len()
            invariant
                i <= inner.len(),
                pairs == value_pairs(value@),
                value@ == inner@.map_values(
                    |e: (String, Vec<(String, u64)>)| (e.0@, assets_view(e.1@)),
                ),
                value_is_hex(value@),
                entry_views(m@) == sorted_from(pairs.take(i as int)),
            decreases inner.len() - i,
        {
            let entry = &inner[i];
            assert(value@[i as int] == (entry.0@, assets_view(entry.1@)));
            assert(is_hex(value@[i as int].0) && assets_are_hex(value@[i as int].1));
            let key = decode_hex(entry.0.as_str()).unwrap();
            let assets = assets_to_data(&entry.1);
            m = insert_sorted(m, key, assets);
            assert(pairs.take(i + 1).drop_last() =~= pairs.take(i as int));
            i = i + 1;
        }
        assert(pairs.take(i as int) =~= pairs);
        bytes_map(m)
    }
}

/// The Plutus data of an output reference: the transaction id and the
/// output index (taken as an `i64`).
pub open spec fn out_ref_data(transaction_id: Seq<u8>, output_index: u64) -> Data {
    dconstr(121, seq![dconstr(121, seq![Data::Bytes(transaction_id)]), int_data(output_index as i64)])
}

/// The Plutus data of an output: address, value, datum and reference script.
pub open spec fn output_data(
    address: Seq<u8>,
    value: ValueModel,
    datum: DatumModel,
    reference_script: Option<Seq<u8>>,
) -> Data {
    dconstr(
        121,
        seq![Data::Bytes(address), value_data(value), datum_data(datum), opt_bytes_data(reference_script)],
    )
}

/// Whether the hexadecimal parts of an input (transaction id, address, and
/// the keys of its value) all decode.
pub open spec fn input_is_hex(i: InputModel) -> bool {
    &&& is_hex(i.transaction_id)
    &&& is_hex(i.address)
    &&& value_is_hex(i.value)
}

/// The Plutus data of an input: its output reference and the output it spends.
pub open spec fn input_data(i: InputModel) -> Data {
    dconstr(
        121,
        seq![
            out_ref_data(hex_bytes(i.transaction_id), i.output_index),
            output_data(hex_bytes(i.address), i.value, i.datum, i.reference_script),
        ],
    )
}

/// A value of `amount` lovelace: the empty policy id and the empty asset name.
pub open spec fn lovelace_data(amount: i64) -> Data {
    Data::DataMap(seq![(Data::Bytes(seq![]), Data::DataMap(seq![(Data::Bytes(seq![]), int_data(amount))]))])
}

/// The transaction information of a context: its inputs and validity range,
/// a fee of 999 lovelace, a mint of 0, and every other part empty.
pub open spec fn tx_info_data(ctx: TxContextModel) -> Data {
    dconstr(
        121,
        seq![
            Data::Array(ctx.inputs.map_values(|i: InputModel| input_data(i))),
            Data::Array(seq![]),
            Data::Array(seq![]),
            lovelace_data(999),
            lovelace_data(0),
            Data::Array(seq![]),
            Data::DataMap(seq![]),
            valid_range_data(ctx.range),
            Data::Array(seq![]),
            Data::DataMap(seq![]),
            Data::DataMap(seq![]),
            dconstr(121, seq![Data::Bytes(seq![])]),
        ],
    )
}

/// The Plutus data of a script context: the transaction information and the
/// purpose, which is spending.
pub open spec fn tx_context_data(ctx: TxContextModel) -> Data {
    dconstr(121, seq![tx_info_data(ctx), dconstr(122, seq![])])
}

/// Whether a context can be turned into Plutus data: its range has no upper
/// end and every input's hexadecimal parts decode.
pub open spec fn tx_context_convertible(ctx: TxContextModel) -> bool {
    &&& ctx.range.upper is None
    &&& forall|i: int| 0 <= i < ctx.inputs.len() ==> input_is_hex(#[trigger] ctx.inputs[i])
}

impl From<Option<Vec<u8>>> for PlutusData {
    fn from(value: Option<Vec<u8>>) -> (r: Self)
        ensures
            r@ == opt_bytes_data(crate::scripts::context::opt_bytes_view(value)),
    {
        match value {
            None => constr0(121),
            Some(inner) => constr1(122, PlutusData::BoundedBytes(inner)),
        }
    }
}

impl vstd::std_specs::convert::FromSpecImpl<Option<Vec<u8>>> for PlutusData {
    open spec fn obeys_from_spec() -> bool {
        false
    }

    open spec fn from_spec(v: Option<Vec<u8>>) -> PlutusData {
        arbitrary()
    }
}

impl From<Vec<u8>> for PlutusData {
    fn from(value: Vec<u8>) -> (r: Self) {
        PlutusData::BoundedBytes(value)
    }
}

impl vstd::std_specs::convert::FromSpecImpl<Vec<u8>> for PlutusData {
    open spec fn obeys_from_spec() -> bool {
        true
    }

    open spec fn from_spec(v: Vec<u8>) -> PlutusData {
        PlutusData::BoundedBytes(v)
    }
}

impl From<()> for PlutusData {
    fn from(value: ()) -> (r: Self)
        ensures
            r@ == Data::Bytes(seq![]),
    {
        let v: Vec<u8> = Vec::new();
        PlutusData::BoundedBytes(v)
    }
}

impl vstd::std_specs::convert::FromSpecImpl<()> for PlutusData {
    open spec fn obeys_from_spec() -> bool {
        false
    }

    open spec fn from_spec(v: ()) -> PlutusData {
        arbitrary()
    }
}

impl From<PlutusData> for () {
    fn from(value: PlutusData) -> (r: Self) {
    }
}

impl vstd::std_specs::convert::FromSpecImpl<PlutusData> for () {
    open spec fn obeys_from_spec() -> bool {
        true
    }

    open spec fn from_spec(v: PlutusData) -> () {
        ()
    }
}

/// An output reference: the transaction id, as bytes, and the output index.
struct CtxOutputReference {
    transaction_id: Vec<u8>,
    output_index: u64,
}

/// The Plutus data of an output reference.
fn out_ref_to_data(out_ref: CtxOutputReference) -> (r: PlutusData)
    ensures
        r@ == out_ref_data(out_ref.transaction_id@, out_ref.output_index),
{
    let transaction_id = constr1(121, PlutusData::BoundedBytes(out_ref.transaction_id));
    let output_index = PlutusData::BigInt(BigInt::from(out_ref.output_index as i64));
    constr2(121, transaction_id, output_index)
}

/// An output as the script context describes it.
struct CtxOutput {
    address: Vec<u8>,
    value: CtxValue,
    datum: Datum,
    reference_script: Option<Vec<u8>>,
}

/// The Plutus data of an output.
fn output_to_data(output: CtxOutput) -> (r: PlutusData)
    requires
        value_is_hex(output.value@),
    ensures
        r@ == output_data(
            output.address@,
            output.value@,
            output.datum@,
            crate::scripts::context::opt_bytes_view(output.reference_script),
        ),
{
    let address = PlutusData::BoundedBytes(output.address);
    let value = PlutusData::from_ctx_value(output.value);
    let datum = PlutusData::from(output.datum);
    let reference_script = PlutusData::from(output.reference_script);
    let v = vec![address, value, datum, reference_script];
    assert(views(v@) =~= seq![address@, value@, datum@, reference_script@]);
    constr(121, v)
}

impl PlutusData {
    /// The `i64` that an integer datum holds; any other datum is an error
    /// that carries the datum's debug text (see `data_text`). Only small integers whose
    /// negation does not overflow can be converted (see `BigInt::to_i64`).
    pub fn to_i64(self) -> (r: Result<i64, ScriptError>)
        requires
            self@ matches Data::Int(b) ==> fits_i64(b),
        ensures
            match self@ {
                Data::Int(b) => r == Ok::<i64, ScriptError>(int_value(b)),
                _ => r matches Err(ScriptError::DatumDeserialization(text)) && text@
                    == data_text(self@),
            },
    {
        match self {
            PlutusData::BigInt(inner) => Ok(inner.to_i64()),
            _ => Err(ScriptError::DatumDeserialization(self.debug_text())),
        }
    }

    /// The Plutus data of a validity range. Only ranges without an upper end
    /// have one: no lower end gives the unbounded interval, a lower end gives
    /// the interval from that time on (the inclusive flag is not used).
    pub fn from_valid_range(value: ValidRange) -> (r: PlutusData)
        requires
            value.upper is None,
        ensures
            r@ == valid_range_data(value),
    {
        match value.lower {
            None => no_time_bound(),
            Some((bound, _)) => lower_bound(bound),
        }
    }

    /// The Plutus data of an input. The transaction id, the address and the
    /// keys of the value are hexadecimal texts, decoded into bytes.
    pub fn from_input(input: Input) -> (r: PlutusData)
        requires
            input_is_hex(input@),
        ensures
            r@ == input_data(input@),
    {
        let ghost model = input@;
        let transaction_id = decode_hex(input.transaction_id.as_str()).unwrap();
        let address = decode_hex(input.address.as_str()).unwrap();
        let output_reference = out_ref_to_data(
            CtxOutputReference { transaction_id, output_index: input.output_index },
        );
        let output = output_to_data(
            CtxOutput {
                address,
                value: input.value,
                datum: input.datum,
                reference_script: input.reference_script,
            },
        );
        constr2(121, output_reference, output)
    }

    /// The Plutus data of a script context for spending, as a version 2
    /// script sees it. Only the inputs and the validity range come from the
    /// context; the fee is 999 lovelace, the mint is 0, and the other parts
    /// are empty.
    pub fn from_tx_context(ctx: TxContext) -> (r: PlutusData)
        requires
            tx_context_convertible(ctx@),
        ensures
            r@ == tx_context_data(ctx@),
    {
        let ghost model = ctx@;
        let TxContext { signer, range, inputs } = ctx;
        let ghost input_models = model.inputs;
        let mut converted: Vec<PlutusData> = Vec::new();
        let mut rest = inputs;
        let ghost n = rest@.len();
        while rest.len() > 0
            invariant
                input_models.len() == n,
                converted@.len() + rest@.len() == n,
                forall|j: int|
                    0 <= j < rest@.len() ==> #[trigger] rest@[j]@ == input_models[converted@.len()
                        + j],
                forall|j: int| 0 <= j < n ==> input_is_hex(#[trigger] input_models[j]),
                forall|j: int|
                    0 <= j < converted@.len() ==> #[trigger] converted@[j]@ == input_data(
                        input_models[j],
                    ),
            decreases rest.len(),
        {
            let ghost k = converted@.len();
            let ghost prev = rest@;
            assert(rest@[0]@ == input_models[k as int]);
            let input = rest.remove(0);
            converted.push(PlutusData::from_input(input));
            assert forall|j: int| 0 <= j < rest@.len() implies #[trigger] rest@[j]@
                == input_models[converted@.len() + j] by {
                assert(rest@[j] == prev[j + 1]);
            }
        }
        let ghost inputs_data = input_models.map_values(|i: InputModel| input_data(i));
        assert(views(converted@) =~= inputs_data);
        let inputs = PlutusData::Array(converted);
        proof {
            lemma_array_view(converted);
        }
        let reference_inputs = empty_array();
        let outputs = empty_array();
        let fee = lovelace(999);
        let mint = lovelace(0);
        let dcert = empty_array();
        let wdrl = empty_map();
        let valid_range = PlutusData::from_valid_range(range);
        let signatories = empty_array();
        let redeemers = empty_map();
        let data = empty_map();
        let id = constr1(121, PlutusData::BoundedBytes(Vec::new()));
        let fields = vec![
            inputs,
            reference_inputs,
            outputs,
            fee,
            mint,
            dcert,
            wdrl,
            valid_range,
            signatories,
            redeemers,
            data,
            id,
        ];
        assert(views(fields@) =~= seq![
            inputs@,
            reference_inputs@,
            outputs@,
            fee@,
            mint@,
            dcert@,
            wdrl@,
            valid_range@,
            signatories@,
            redeemers@,
            data@,
            id@,
        ]);
        let tx_info = constr(121, fields);
        // the purpose: spending
        let purpose = constr0(122);
        let r = constr2(121, tx_info, purpose);
        assert(r@ =~~= tx_context_data(model));
        r
    }
}

/// An empty array.
fn empty_array() -> (r: PlutusData)
    ensures
        r@ == Data::Array(seq![]),
{
    let v: Vec<PlutusData> = Vec::new();
    proof {
        lemma_array_view(v);
    }
    assert(views(v@) =~= seq![]);
    PlutusData::Array(v)
}

/// An empty map.
fn empty_map() -> (r: PlutusData)
    ensures
        r@ == Data::DataMap(seq![]),
{
    let v: Vec<(PlutusData, PlutusData)> = Vec::new();
    proof {
        lemma_map_view(v);
    }
    assert(pair_views(v@) =~= seq![]);
    PlutusData::DataMap(v)
}

/// A value of `amount` lovelace.
fn lovelace(amount: i64) -> (r: PlutusData)
    ensures
        r@ == lovelace_data(amount),
{
    let asset_name: Vec<u8> = Vec::new();
    let policy_id: Vec<u8> = Vec::new();
    assert(asset_name@ =~= seq![] && policy_id@ =~= seq![]);
    let inner = vec![(PlutusData::BoundedBytes(asset_name), PlutusData::BigInt(BigInt::from(amount)))];
    assert(pair_views(inner@) =~= seq![(Data::Bytes(seq![]), int_data(amount))]);
    let inner_data = PlutusData::DataMap(inner);
    proof {
        lemma_map_view(inner);
    }
    let outer = vec![(PlutusData::BoundedBytes(policy_id), inner_data)];
    assert(pair_views(outer@) =~= seq![(Data::Bytes(seq![]), inner_data@)]);
    proof {
        lemma_map_view(outer);
    }
    PlutusData::DataMap(outer)
}

/// The Plutus data of a value depends only on which assets each decoded
/// policy id ends up with, not on the order in which the policies are listed.
pub proof fn lemma_value_data_order_free(v1: ValueModel, v2: ValueModel)
    requires
        last_wins(value_pairs(v1)) == last_wins(value_pairs(v2)),
    ensures
        value_data(v1) == value_data(v2),
{
    lemma_sorted_from_order_free(value_pairs(v1), value_pairs(v2));
}

impl Clone for BigInt {
    fn clone(&self) -> (r: Self)
        ensures
            r@ == self@,
    {
        match self {
            BigInt::Int { neg, val } => BigInt::Int { neg: *neg, val: *val },
            BigInt::BigUInt(b) => BigInt::BigUInt(b.clone()),
            BigInt::BigNInt(b) => BigInt::BigNInt(b.clone()),
        }
    }
}

/// A copy of `d`, element by element.
#[verifier::loop_isolation(false)]
fn deep_clone(d: &PlutusData) -> (r: PlutusData)
    ensures
        r@ == d@,
    decreases d,
{
    match d {
        PlutusData::Constr(c) => {
            let mut fields: Vec<PlutusData> = Vec::new();
            let mut i: usize = 0;
            while i < c.fields.len()
                invariant
                    i <= c.fields@.len(),
                    fields@.len() == i,
                    forall|j: int| 0 <= j < i ==> #[trigger] fields@[j]@ == c.fields@[j]@,
                decreases c.fields.len() - i,
            {
                proof {
                    vstd::std_specs::vec::axiom_vec_index_decreases(c.fields, i as int);
                }
                fields.push(deep_clone(&c.fields[i]));
                i = i + 1;
            }
            let r = Constr { tag: c.tag, any_constructor: c.any_constructor, fields };
            proof {
                lemma_constr_view(r);
                lemma_constr_view(*c);
            }
            assert(views(r.fields@) =~= views(c.fields@));
            PlutusData::Constr(r)
        },
        PlutusData::DataMap(m) => {
            let mut entries: Vec<(PlutusData, PlutusData)> = Vec::new();
            let mut i: usize = 0;
            while i < m.len()
                invariant
                    i <= m@.len(),
                    entries@.len() == i,
                    forall|j: int| 0 <= j < i ==> (#[trigger] entries@[j]).0@ == m@[j].0@
                        && entries@[j].1@ == m@[j].1@,
                decreases m.len() - i,
            {
                proof {
                    vstd::std_specs::vec::axiom_vec_index_decreases(*m, i as int);
                }
                let k = deep_clone(&m[i].0);
                let v = deep_clone(&m[i].1);
                entries.push((k, v));
                i = i + 1;
            }
            proof {
                lemma_map_view(entries);
                lemma_map_view(*m);
            }
            assert(pair_views(entries@) =~= pair_views(m@));
            PlutusData::DataMap(entries)
        },
        PlutusData::BigInt(b) => PlutusData::BigInt(b.clone()),
        PlutusData::BoundedBytes(b) => PlutusData::BoundedBytes(b.clone()),
        PlutusData::Array(a) => {
            let mut items: Vec<PlutusData> = Vec::new();
            let mut i: usize = 0;
            while i < a.len()
                invariant
                    i <= a@.len(),
                    items@.len() == i,
                    forall|j: int| 0 <= j < i ==> #[trigger] items@[j]@ == a@[j]@,
                decreases a.len() - i,
            {
                proof {
                    vstd::std_specs::vec::axiom_vec_index_decreases(*a, i as int);
                }
                items.push(deep_clone(&a[i]));
                i = i + 1;
            }
            proof {
                lemma_array_view(items);
                lemma_array_view(*a);
            }
            assert(views(items@) =~= views(a@));
            PlutusData::Array(items)
        },
    }
}

impl Clone for PlutusData {
    fn clone(&self) -> (r: Self)
        ensures
            r@ == self@,
    {
        deep_clone(self)
    }
}

/// The constructor number of a constructor application; `None` for other data.
pub open spec fn constr_tag(d: Data) -> Option<u64> {
    match d {
        Data::Constr { tag, .. } => Some(tag),
        _ => None,
    }
}

/// The fields of a constructor application, or the items of an array; empty
/// for other data.
pub open spec fn parts(d: Data) -> Seq<Data> {
    match d {
        Data::Constr { fields, .. } => fields,
        Data::Array(items) => items,
        _ => seq![],
    }
}

/// The interval from time `n` holds `n` itself as its finite lower end: the
/// integer whose sign is that of `n` and whose magnitude is `|n|`, for every
/// `i64`, the most negative one included.
pub proof fn lemma_lower_bound_holds_time(n: i64)
    ensures
        constr_tag(lower_bound_data(n)) == Some(121u64),
        parts(lower_bound_data(n)).len() == 2,
        constr_tag(parts(lower_bound_data(n))[0]) == Some(121u64),
        constr_tag(parts(parts(lower_bound_data(n))[0])[0]) == Some(122u64),
        parts(parts(parts(lower_bound_data(n))[0])[0]) == seq![
            Data::Int(
                IntModel::Int {
                    neg: n < 0,
                    val: (if n < 0 {
                        -(n as int)
                    } else {
                        n as int
                    }) as u64,
                },
            ),
        ],
{
}

/// The data of an input holds what the input says, each in its place: the
/// transaction id's bytes and the output index (taken as an `i64`, so itself
/// wherever it fits) in the output reference, and
/// in the spent output the address's bytes, the value, the datum (an inline
/// datum `d` as constructor 123 holding `d`, a hash `h` as constructor 122
/// holding the bytes `h`, no datum as constructor 121 with no fields) and
/// the reference script.
pub proof fn lemma_input_data_parts(i: InputModel)
    ensures
        constr_tag(input_data(i)) == Some(121u64),
        parts(input_data(i)).len() == 2,
        parts(parts(input_data(i))[0]) == seq![
            dconstr(121, seq![Data::Bytes(hex_bytes(i.transaction_id))]),
            int_data(i.output_index as i64),
        ],
        i.output_index <= i64::MAX ==> parts(parts(input_data(i))[0])[1] == Data::Int(
            IntModel::Int { neg: false, val: i.output_index },
        ),
        constr_tag(parts(input_data(i))[1]) == Some(121u64),
        parts(parts(input_data(i))[1]) == seq![
            Data::Bytes(hex_bytes(i.address)),
            value_data(i.value),
            match i.datum {
                DatumModel::NoDatum => dconstr(121, seq![]),
                DatumModel::DatumHash(h) => dconstr(122, seq![Data::Bytes(h)]),
                DatumModel::InlineDatum(d) => dconstr(123, seq![d]),
            },
            match i.reference_script {
                None => dconstr(121, seq![]),
                Some(s) => dconstr(122, seq![Data::Bytes(s)]),
            },
        ],
{
}

/// The transaction information of a converted context lists the data of the
/// context's inputs, one for one and in the order the context gives them,
/// and holds the context's validity range.
pub proof fn lemma_tx_context_inputs(ctx: TxContextModel)
    ensures
        parts(tx_context_data(ctx)).len() == 2,
        parts(parts(tx_context_data(ctx))[0]).len() == 12,
        parts(parts(parts(tx_context_data(ctx))[0])[0]).len() == ctx.inputs.len(),
        forall|j: int|
            0 <= j < ctx.inputs.len() ==> #[trigger] parts(parts(parts(tx_context_data(ctx))[0])[0])[j]
                == input_data(ctx.inputs[j]),
        parts(parts(tx_context_data(ctx))[0])[7] == valid_range_data(ctx.range),
{
}

/// A range with no upper end converts to the unbounded interval where it has
/// no lower end either, and otherwise to the interval from its lower end,
/// whether that end is inclusive or not.
pub proof fn lemma_valid_range_conversion(value: ValidRange)
    requires
        value.upper is None,
    ensures
        value.lower is None ==> valid_range_data(value) == no_time_bound_data(),
        value.lower matches Some((bound, inclusive)) ==> valid_range_data(value)
            == lower_bound_data(bound) && valid_range_data(value) == valid_range_data(
            ValidRange { lower: Some((bound, !inclusive)), upper: None },
        ),
{
}

} // verus!
