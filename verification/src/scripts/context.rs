use crate::address::{Address, AddressModel};
use crate::values::{policy_entries, PolicyId, PolicyModel, Values};
use crate::scripts::raw_validator_script::plutus_data::{Data, PlutusData};
use vstd::prelude::*;

verus! {

/// What a script sees of the transaction that runs it.
pub struct TxContext {
    pub signer: Address,
    pub range: ValidRange,
    pub inputs: Vec<Input>,
}

/// The validity interval of a transaction: each end, where present, is a
/// time and whether that end is inclusive.
#[derive(Clone, Copy)]
pub struct ValidRange {
    pub lower: Option<(i64, bool)>,
    pub upper: Option<(i64, bool)>,
}

/// A transaction input as the script context describes it.
pub struct Input {
    pub transaction_id: String,
    pub output_index: u64,
    pub address: String,
    pub value: CtxValue,
    pub datum: Datum,
    pub reference_script: Option<Vec<u8>>,
}

/// The assets of an input: for each policy id, for each asset name, an amount.
/// Ada stands under the empty policy id and the empty asset name. A policy id
/// occurs at most once, and so does an asset name under one policy (see `wf`).
pub struct CtxValue {
    pub inner: Vec<(String, Vec<(String, u64)>)>,
}

/// The datum that an input carries.
pub enum Datum {
    NoDatum,
    DatumHash(Vec<u8>),
    InlineDatum(PlutusData),
}

/// Model of the assets under one policy: asset names and amounts, in order.
pub type AssetsModel = Seq<(Seq<char>, u64)>;

/// Model of a `CtxValue`: policy ids and their assets, in order.
pub type ValueModel = Seq<(Seq<char>, AssetsModel)>;

/// Model of a `Datum`.
pub enum DatumModel {
    NoDatum,
    DatumHash(Seq<u8>),
    InlineDatum(Data),
}

/// Model of an `Input`.
pub struct InputModel {
    pub transaction_id: Seq<char>,
    pub output_index: u64,
    pub address: Seq<char>,
    pub value: ValueModel,
    pub datum: DatumModel,
    pub reference_script: Option<Seq<u8>>,
}

/// Model of a `TxContext`.
pub struct TxContextModel {
    pub signer: AddressModel,
    pub range: ValidRange,
    pub inputs: Seq<InputModel>,
}

/// The model of the assets under one policy.
pub open spec fn assets_view(a: Seq<(String, u64)>) -> AssetsModel {
    a.map_values(|e: (String, u64)| (e.0@, e.1))
}

/// The model of policies and their assets.
pub open spec fn nested_view(v: Seq<(String, Vec<(String, u64)>)>) -> ValueModel {
    v.map_values(|e: (String, Vec<(String, u64)>)| (e.0@, assets_view(e.1@)))
}

impl View for CtxValue {
    type V = ValueModel;

    open spec fn view(&self) -> ValueModel {
        nested_view(self.inner@)
    }
}

impl View for Datum {
    type V = DatumModel;

    open spec fn view(&self) -> DatumModel {
        match self {
            Datum::NoDatum => DatumModel::NoDatum,
            Datum::DatumHash(h) => DatumModel::DatumHash(h@),
            Datum::InlineDatum(d) => DatumModel::InlineDatum(d@),
        }
    }
}

/// The model of an optional byte string.
pub open spec fn opt_bytes_view(o: Option<Vec<u8>>) -> Option<Seq<u8>> {
    match o {
        Some(b) => Some(b@),
        None => None,
    }
}

impl View for Input {
    type V = InputModel;

    open spec fn view(&self) -> InputModel {
        InputModel {
            transaction_id: self.transaction_id@,
            output_index: self.output_index,
            address: self.address@,
            value: self.value@,
            datum: self.datum@,
            reference_script: opt_bytes_view(self.reference_script),
        }
    }
}

impl View for TxContext {
    type V = TxContextModel;

    open spec fn view(&self) -> TxContextModel {
        TxContextModel {
            signer: self.signer@,
            range: self.range,
            inputs: self.inputs@.map_values(|i: Input| i@),
        }
    }
}

/// Whether `k` is the key of some entry of `s`.
pub open spec fn has_key<K, V>(s: Seq<(K, V)>, k: K) -> bool {
    exists|i: int| 0 <= i < s.len() && #[trigger] s[i].0 == k
}

/// The position of the entry with key `k`, where there is one.
pub open spec fn key_index<K, V>(s: Seq<(K, V)>, k: K) -> int {
    choose|i: int| 0 <= i < s.len() && #[trigger] s[i].0 == k
}

/// Whether no key occurs twice in `s`.
pub open spec fn keys_distinct<K, V>(s: Seq<(K, V)>) -> bool {
    forall|i: int, j: int| 0 <= i < j < s.len() ==> #[trigger] s[i].0 != #[trigger] s[j].0
}

/// Whether a value model is what a map of maps is: no policy id twice, and no
/// asset name twice under one policy.
pub open spec fn value_wf(v: ValueModel) -> bool {
    &&& keys_distinct(v)
    &&& forall|i: int| 0 <= i < v.len() ==> keys_distinct(#[trigger] v[i].1)
}

/// The amount of asset `name` in `a`; zero where there is none.
pub open spec fn asset_amount(a: AssetsModel, name: Seq<char>) -> nat {
    if has_key(a, name) {
        a[key_index(a, name)].1 as nat
    } else {
        0
    }
}

/// The amount of asset `name` under `policy_id`; zero where there is none.
pub open spec fn amount_of(v: ValueModel, policy_id: Seq<char>, name: Seq<char>) -> nat {
    if has_key(v, policy_id) {
        asset_amount(v[key_index(v, policy_id)].1, name)
    } else {
        0
    }
}

/// The assets with `amt` more of `name`: added to its entry, or in a new
/// entry at the end.
pub open spec fn assets_added(a: AssetsModel, name: Seq<char>, amt: u64) -> AssetsModel {
    if has_key(a, name) {
        let j = key_index(a, name);
        a.update(j, (name, (a[j].1 + amt) as u64))
    } else {
        a.push((name, amt))
    }
}

/// The value with `amt` more of asset `name` under `policy_id`: the amount is
/// added under the policy's entry, or the policy gets a new entry at the end.
pub open spec fn value_added(v: ValueModel, policy_id: Seq<char>, name: Seq<char>, amt: u64) -> ValueModel {
    if has_key(v, policy_id) {
        let i = key_index(v, policy_id);
        v.update(i, (policy_id, assets_added(v[i].1, name, amt)))
    } else {
        v.push((policy_id, seq![(name, amt)]))
    }
}

pub(crate) proof fn lemma_key_index<K, V>(s: Seq<(K, V)>, k: K, i: int)
    requires
        keys_distinct(s),
        0 <= i < s.len(),
        s[i].0 == k,
    ensures
        has_key(s, k),
        key_index(s, k) == i,
{
    assert(has_key(s, k));
    let j = key_index(s, k);
    if j < i {
        assert(s[j].0 != s[i].0);
    } else if i < j {
        assert(s[i].0 != s[j].0);
    }
}

/// Finds the entry with key `k`.
fn find_key<V>(s: &Vec<(String, V)>, k: &String) -> (r: Option<usize>)
    ensures
        match r {
            Some(i) => i < s@.len() && s@[i as int].0@ == k@ && (forall|j: int|
                0 <= j < i ==> s@[j].0@ != k@),
            None => (forall|j: int| 0 <= j < s@.len() ==> s@[j].0@ != k@),
        },
{
    let mut i: usize = 0;
    while i < s.len()
        invariant
            i <= s@.len(),
            forall|j: int| 0 <= j < i ==> s@[j].0@ != k@,
        decreases s.len() - i,
    {
        if s[i].0 == *k {
            return Some(i);
        }
        i = i + 1;
    }
    None
}

/// Adds `amt` of asset `asset_name` under `policy_id` to a value.
pub fn add_to_nested(
    values: &mut Vec<(String, Vec<(String, u64)>)>,
    policy_id: &str,
    asset_name: &str,
    amt: u64,
)
    requires
        value_wf(nested_view(old(values)@)),
        amount_of(nested_view(old(values)@), policy_id@, asset_name@) + amt <= u64::MAX,
    ensures
        nested_view(final(values)@) == value_added(
            nested_view(old(values)@),
            policy_id@,
            asset_name@,
            amt,
        ),
        value_wf(nested_view(final(values)@)),
{
    let ghost v0 = nested_view(values@);
    let policy = policy_id.to_string();
    let name = asset_name.to_string();
    match find_key(values, &policy) {
        Some(i) => {
            proof {
                lemma_key_index(v0, policy_id@, i as int);
            }
            let (key, mut assets) = values.remove(i);
            let ghost a0 = assets_view(assets@);
            assert(a0 == v0[i as int].1);
            match find_key(&assets, &name) {
                Some(j) => {
                    proof {
                        lemma_key_index(a0, asset_name@, j as int);
                    }
                    let (asset, total_amt) = assets.remove(j);
                    assets.insert(j, (asset, total_amt + amt));
                    assert(assets_view(assets@) =~= assets_added(a0, asset_name@, amt));
                },
                None => {
                    assets.push((name, amt));
                    assert(assets_view(assets@) =~= assets_added(a0, asset_name@, amt));
                },
            }
            values.insert(i, (key, assets));
            assert(nested_view(values@) =~= value_added(v0, policy_id@, asset_name@, amt));
        },
        None => {
            let assets = vec![(name, amt)];
            assert(assets_view(assets@) =~= seq![(asset_name@, amt)]);
            values.push((policy, assets));
            assert(nested_view(values@) =~= value_added(v0, policy_id@, asset_name@, amt));
        },
    }
}

proof fn lemma_assets_added(a: AssetsModel, name: Seq<char>, amt: u64, b: Seq<char>)
    requires
        keys_distinct(a),
        asset_amount(a, name) + amt <= u64::MAX,
    ensures
        keys_distinct(assets_added(a, name, amt)),
        asset_amount(assets_added(a, name, amt), b) == asset_amount(a, b) + (if b == name {
            amt as nat
        } else {
            0nat
        }),
{
    let a2 = assets_added(a, name, amt);
    if has_key(a, name) {
        let j = key_index(a, name);
        assert forall|x: int, y: int| 0 <= x < y < a2.len() implies #[trigger] a2[x].0
            != #[trigger] a2[y].0 by {
            assert(a2[x].0 == a[x].0 && a2[y].0 == a[y].0);
        }
        if has_key(a2, b) {
            let jb = key_index(a2, b);
            assert(a[jb].0 == b);
            lemma_key_index(a, b, jb);
        } else if has_key(a, b) {
            let jj = key_index(a, b);
            assert(a2[jj].0 == b);
        }
    } else {
        assert forall|x: int, y: int| 0 <= x < y < a2.len() implies #[trigger] a2[x].0
            != #[trigger] a2[y].0 by {
            if y == a.len() {
                assert(a[x].0 != name);
            }
        }
        if has_key(a2, b) {
            let jb = key_index(a2, b);
            if jb < a.len() {
                assert(a[jb].0 == b);
                lemma_key_index(a, b, jb);
            } else {
                lemma_key_index(a2, name, a.len() as int);
            }
        } else {
            if has_key(a, b) {
                let jj = key_index(a, b);
                assert(a2[jj].0 == b);
            }
            assert(a2[a.len() as int].0 == name);
        }
    }
}

/// Adding an amount of one asset to a value keeps it a map of maps, raises
/// that asset's amount by the amount added and leaves every other amount as it
/// was (where the new amount fits in a `u64`).
pub proof fn lemma_value_added_amounts(
    v: ValueModel,
    policy_id: Seq<char>,
    name: Seq<char>,
    amt: u64,
    q: Seq<char>,
    b: Seq<char>,
)
    requires
        value_wf(v),
        amount_of(v, policy_id, name) + amt <= u64::MAX,
    ensures
        value_wf(value_added(v, policy_id, name, amt)),
        amount_of(value_added(v, policy_id, name, amt), q, b) == amount_of(v, q, b) + (if q
            == policy_id && b == name {
            amt as nat
        } else {
            0nat
        }),
{
    let w = value_added(v, policy_id, name, amt);
    if has_key(v, policy_id) {
        let i = key_index(v, policy_id);
        let a = v[i].1;
        lemma_assets_added(a, name, amt, b);
        assert(w[i] == (policy_id, assets_added(a, name, amt)));
        assert forall|x: int, y: int| 0 <= x < y < w.len() implies #[trigger] w[x].0
            != #[trigger] w[y].0 by {
            assert(w[x].0 == v[x].0 && w[y].0 == v[y].0);
        }
        assert forall|k: int| 0 <= k < w.len() implies keys_distinct(#[trigger] w[k].1) by {
            if k != i {
                assert(w[k] == v[k]);
            }
        }
        if has_key(w, q) {
            let iq = key_index(w, q);
            assert(v[iq].0 == q);
            lemma_key_index(v, q, iq);
            if iq != i {
                assert(w[iq] == v[iq]);
            }
        } else if has_key(v, q) {
            let iq = key_index(v, q);
            assert(w[iq].0 == q);
        }
    } else {
        let single: AssetsModel = seq![(name, amt)];
        assert(w[v.len() as int] == (policy_id, single));
        assert forall|x: int, y: int| 0 <= x < y < w.len() implies #[trigger] w[x].0
            != #[trigger] w[y].0 by {
            if y == v.len() {
                assert(v[x].0 != policy_id);
            }
        }
        assert forall|k: int| 0 <= k < w.len() implies keys_distinct(#[trigger] w[k].1) by {
            if k < v.len() {
                assert(w[k] == v[k]);
            }
        }
        if has_key(w, q) {
            let iq = key_index(w, q);
            if iq < v.len() {
                assert(w[iq] == v[iq]);
                lemma_key_index(v, q, iq);
            } else {
                lemma_key_index(w, policy_id, v.len() as int);
                if has_key(single, b) {
                    lemma_key_index(single, b, 0);
                } else {
                    assert(single[0].0 == name);
                }
            }
        } else {
            if has_key(v, q) {
                let iq = key_index(v, q);
                assert(w[iq].0 == q);
            }
            assert(w[v.len() as int].0 == policy_id);
        }
    }
}

/// Whether asset `name` stands under `policy_id` in a value.
pub open spec fn has_asset(v: ValueModel, policy_id: Seq<char>, name: Seq<char>) -> bool {
    has_key(v, policy_id) && has_key(v[key_index(v, policy_id)].1, name)
}

/// The map that the assets under one policy stand for.
pub open spec fn assets_map(a: AssetsModel) -> Map<Seq<char>, u64> {
    Map::new(|n: Seq<char>| has_key(a, n), |n: Seq<char>| a[key_index(a, n)].1)
}

/// The map of maps that a value stands for: policy id to asset name to amount.
pub open spec fn value_map(v: ValueModel) -> Map<Seq<char>, Map<Seq<char>, u64>> {
    Map::new(|p: Seq<char>| has_key(v, p), |p: Seq<char>| assets_map(v[key_index(v, p)].1))
}

proof fn lemma_value_added_keys(
    v: ValueModel,
    policy_id: Seq<char>,
    name: Seq<char>,
    amt: u64,
    q: Seq<char>,
    b: Seq<char>,
)
    requires
        value_wf(v),
        amount_of(v, policy_id, name) + amt <= u64::MAX,
    ensures
        has_key(value_added(v, policy_id, name, amt), q) == (has_key(v, q) || q == policy_id),
        has_asset(value_added(v, policy_id, name, amt), q, b) == (has_asset(v, q, b) || (q
            == policy_id && b == name)),
{
    let w = value_added(v, policy_id, name, amt);
    lemma_value_added_amounts(v, policy_id, name, amt, q, b);
    if has_key(v, policy_id) {
        let i = key_index(v, policy_id);
        let a = v[i].1;
        let a2 = assets_added(a, name, amt);
        assert(w[i] == (policy_id, a2));
        if has_key(v, q) {
            let k = key_index(v, q);
            assert(w[k].0 == q);
            lemma_key_index(w, q, k);
            if k == i {
                if has_key(a, b) {
                    let j = key_index(a, b);
                    assert(a2[j].0 == b);
                }
                if has_key(a2, b) {
                    let j = key_index(a2, b);
                    if j < a.len() {
                        assert(a[j].0 == b);
                    }
                }
                if b == name && !has_key(a, name) {
                    assert(a2[a.len() as int].0 == name);
                }
            } else {
                assert(w[k] == v[k]);
            }
        } else if has_key(w, q) {
            let k = key_index(w, q);
            assert(v[k].0 == q);
        }
    } else {
        let single: AssetsModel = seq![(name, amt)];
        assert(w[v.len() as int] == (policy_id, single));
        if has_key(v, q) {
            let k = key_index(v, q);
            assert(w[k] == v[k]);
            lemma_key_index(w, q, k);
        } else if has_key(w, q) {
            let k = key_index(w, q);
            if k < v.len() {
                assert(v[k].0 == q);
            } else {
                lemma_key_index(w, policy_id, v.len() as int);
                if has_key(single, b) {
                    lemma_key_index(single, b, 0);
                }
                assert(single[0].0 == name);
            }
        } else {
            assert(w[v.len() as int].0 == policy_id);
        }
    }
}

/// Adding `x` and then `y` of one asset gives the same value as adding
/// `x + y` at once (where the total fits in a `u64`).
pub proof fn lemma_value_added_twice(
    v: ValueModel,
    policy_id: Seq<char>,
    name: Seq<char>,
    x: u64,
    y: u64,
)
    requires
        value_wf(v),
        amount_of(v, policy_id, name) + x + y <= u64::MAX,
    ensures
        value_added(value_added(v, policy_id, name, x), policy_id, name, y) == value_added(
            v,
            policy_id,
            name,
            (x + y) as u64,
        ),
{
    let w = value_added(v, policy_id, name, x);
    lemma_value_added_amounts(v, policy_id, name, x, policy_id, name);
    if has_key(v, policy_id) {
        let i = key_index(v, policy_id);
        let a = v[i].1;
        assert(w[i].0 == policy_id);
        lemma_key_index(w, policy_id, i);
        let a1 = assets_added(a, name, x);
        assert(w[i].1 == a1);
        if has_key(a, name) {
            let j = key_index(a, name);
            assert(a1[j].0 == name);
            lemma_key_index(a1, name, j);
            assert(assets_added(a1, name, y) =~= assets_added(a, name, (x + y) as u64));
        } else {
            assert(a1[a.len() as int].0 == name);
            lemma_key_index(a1, name, a.len() as int);
            assert(assets_added(a1, name, y) =~= assets_added(a, name, (x + y) as u64));
        }
        assert(value_added(w, policy_id, name, y) =~= value_added(v, policy_id, name, (x + y) as u64));
    } else {
        let single: AssetsModel = seq![(name, x)];
        assert(w[v.len() as int].0 == policy_id);
        lemma_key_index(w, policy_id, v.len() as int);
        lemma_key_index(single, name, 0);
        assert(assets_added(single, name, y) =~= seq![(name, (x + y) as u64)]);
        assert(value_added(w, policy_id, name, y) =~= value_added(v, policy_id, name, (x + y) as u64));
    }
}

proof fn lemma_value_map_equal(w1: ValueModel, w2: ValueModel)
    requires
        value_wf(w1),
        value_wf(w2),
        forall|q: Seq<char>| has_key(w1, q) == has_key(w2, q),
        forall|q: Seq<char>, b: Seq<char>| has_asset(w1, q, b) == has_asset(w2, q, b),
        forall|q: Seq<char>, b: Seq<char>| amount_of(w1, q, b) == amount_of(w2, q, b),
    ensures
        value_map(w1) == value_map(w2),
{
    assert forall|q: Seq<char>| #[trigger] value_map(w1).dom().contains(q) implies value_map(w1)[q]
        == value_map(w2)[q] by {
        let a1 = w1[key_index(w1, q)].1;
        let a2 = w2[key_index(w2, q)].1;
        assert forall|b: Seq<char>| #[trigger] assets_map(a1).dom().contains(b) implies assets_map(
            a2,
        ).dom().contains(b) && assets_map(a1)[b] == assets_map(a2)[b] by {
            assert(has_asset(w1, q, b) == has_asset(w2, q, b));
            assert(amount_of(w1, q, b) == amount_of(w2, q, b));
        }
        assert forall|b: Seq<char>| #[trigger] assets_map(a2).dom().contains(b) implies assets_map(
            a1,
        ).dom().contains(b) by {
            assert(has_asset(w1, q, b) == has_asset(w2, q, b));
        }
        assert(assets_map(a1) =~= assets_map(a2));
    }
    assert(value_map(w1) =~= value_map(w2));
}

/// Adding amounts of two assets, in either order, gives values that stand for
/// the same map of maps (where every total fits in a `u64`).
pub proof fn lemma_value_added_commute(
    v: ValueModel,
    p: Seq<char>,
    a: Seq<char>,
    x: u64,
    q: Seq<char>,
    c: Seq<char>,
    y: u64,
)
    requires
        value_wf(v),
        amount_of(v, p, a) + x + (if p == q && a == c {
            y as nat
        } else {
            0nat
        }) <= u64::MAX,
        amount_of(v, q, c) + y + (if p == q && a == c {
            x as nat
        } else {
            0nat
        }) <= u64::MAX,
    ensures
        value_map(value_added(value_added(v, p, a, x), q, c, y)) == value_map(
            value_added(value_added(v, q, c, y), p, a, x),
        ),
{
    let v1 = value_added(v, p, a, x);
    let v2 = value_added(v, q, c, y);
    lemma_value_added_amounts(v, p, a, x, q, c);
    lemma_value_added_amounts(v, q, c, y, p, a);
    let w1 = value_added(v1, q, c, y);
    let w2 = value_added(v2, p, a, x);
    lemma_value_added_amounts(v1, q, c, y, q, c);
    lemma_value_added_amounts(v2, p, a, x, p, a);
    assert forall|k: Seq<char>, b: Seq<char>| amount_of(w1, k, b) == amount_of(w2, k, b)
        && has_asset(w1, k, b) == has_asset(w2, k, b) && has_key(w1, k) == has_key(w2, k) by {
        lemma_value_added_amounts(v, p, a, x, k, b);
        lemma_value_added_amounts(v1, q, c, y, k, b);
        lemma_value_added_amounts(v, q, c, y, k, b);
        lemma_value_added_amounts(v2, p, a, x, k, b);
        lemma_value_added_keys(v, p, a, x, k, b);
        lemma_value_added_keys(v1, q, c, y, k, b);
        lemma_value_added_keys(v, q, c, y, k, b);
        lemma_value_added_keys(v2, p, a, x, k, b);
    }
    assert forall|k: Seq<char>| has_key(w1, k) == has_key(w2, k) by {
        assert(amount_of(w1, k, k) == amount_of(w2, k, k) && has_key(w1, k) == has_key(w2, k));
    }
    lemma_value_map_equal(w1, w2);
}

impl From<Option<PlutusData>> for Datum {
    fn from(value: Option<PlutusData>) -> (r: Self)
        ensures
            r@ == match value {
                None => DatumModel::NoDatum,
                Some(d) => DatumModel::InlineDatum(d@),
            },
    {
        match value {
            None => Datum::NoDatum,
            Some(datum) => Datum::InlineDatum(datum),
        }
    }
}

impl vstd::std_specs::convert::FromSpecImpl<Option<PlutusData>> for Datum {
    open spec fn obeys_from_spec() -> bool {
        true
    }

    open spec fn from_spec(v: Option<PlutusData>) -> Datum {
        match v {
            None => Datum::NoDatum,
            Some(d) => Datum::InlineDatum(d),
        }
    }
}

/// Builds a `TxContext` step by step: a signer, then a range and inputs.
pub struct ContextBuilder {
    signer: Address,
    range: Option<ValidRange>,
    inputs: Vec<Input>,
}

/// Model of a `ContextBuilder`.
pub struct ContextBuilderModel {
    pub signer: AddressModel,
    pub range: Option<ValidRange>,
    pub inputs: Seq<InputModel>,
}

impl View for ContextBuilder {
    type V = ContextBuilderModel;

    closed spec fn view(&self) -> ContextBuilderModel {
        ContextBuilderModel {
            signer: self.signer@,
            range: self.range,
            inputs: self.inputs@.map_values(|i: Input| i@),
        }
    }
}

/// The range that a built context gets: the one given, or no bounds at all.
pub open spec fn range_or_unbounded(r: Option<ValidRange>) -> ValidRange {
    match r {
        Some(range) => range,
        None => ValidRange { lower: None, upper: None },
    }
}

impl ContextBuilder {
    /// A builder for a context signed by `signer`, with no range and no inputs.
    pub fn new(signer: Address) -> (r: Self)
        ensures
            r@ == (ContextBuilderModel { signer: signer@, range: None, inputs: seq![] }),
    {
        let r = ContextBuilder { signer, range: None, inputs: vec![] };
        assert(r@.inputs =~= seq![]);
        r
    }

    /// Sets the validity range.
    pub fn with_range(self, lower: Option<(i64, bool)>, upper: Option<(i64, bool)>) -> (r: Self)
        ensures
            r@ == (ContextBuilderModel {
                range: Some(ValidRange { lower, upper }),
                ..self@
            }),
    {
        let mut builder = self;
        let valid_range = ValidRange { lower, upper };
        builder.range = Some(valid_range);
        builder
    }

    /// Starts an input spent from the given output: no assets, no datum and
    /// no reference script yet.
    pub fn with_input(self, transaction_id: String, output_index: u64, address: String) -> (r:
        InputBuilder)
        ensures
            r.wf(),
            r@ == (InputBuilderModel {
                outer: self@,
                transaction_id: transaction_id@,
                output_index,
                address: address@,
                value: seq![],
                datum: DatumModel::NoDatum,
                reference_script: None,
            }),
    {
        let r = InputBuilder {
            outer: self,
            transaction_id,
            address,
            value: Vec::new(),
            datum: Datum::NoDatum,
            reference_script: None,
            output_index,
        };
        assert(nested_view(r.value@) =~= seq![]);
        r
    }

    fn add_input(self, input: Input) -> (r: ContextBuilder)
        ensures
            r@ == (ContextBuilderModel { inputs: self@.inputs.push(input@), ..self@ }),
    {
        let mut builder = self;
        builder.inputs.push(input);
        assert(builder@.inputs =~= self@.inputs.push(input@));
        builder
    }

    /// The context built so far: the signer, and the range set or else no
    /// bounds. The inputs added are not carried into it: it has none.
    pub fn build(&self) -> (r: TxContext)
        ensures
            r@ == (TxContextModel {
                signer: self@.signer,
                range: range_or_unbounded(self@.range),
                inputs: seq![],
            }),
    {
        let range = if let Some(range) = self.range.clone() {
            range
        } else {
            ValidRange { lower: None, upper: None }
        };
        let r = TxContext { signer: self.signer.clone(), range, inputs: vec![] };
        assert(r@.inputs =~= seq![]);
        r
    }
}

/// Builds one input of a context; `finish_input` hands back the context builder.
pub struct InputBuilder {
    outer: ContextBuilder,
    transaction_id: String,
    output_index: u64,
    address: String,
    value: Vec<(String, Vec<(String, u64)>)>,
    datum: Datum,
    reference_script: Option<Vec<u8>>,
}

/// Model of an `InputBuilder`.
pub struct InputBuilderModel {
    pub outer: ContextBuilderModel,
    pub transaction_id: Seq<char>,
    pub output_index: u64,
    pub address: Seq<char>,
    pub value: ValueModel,
    pub datum: DatumModel,
    pub reference_script: Option<Seq<u8>>,
}

impl View for InputBuilder {
    type V = InputBuilderModel;

    closed spec fn view(&self) -> InputBuilderModel {
        InputBuilderModel {
            outer: self.outer@,
            transaction_id: self.transaction_id@,
            output_index: self.output_index,
            address: self.address@,
            value: nested_view(self.value@),
            datum: self.datum@,
            reference_script: opt_bytes_view(self.reference_script),
        }
    }
}

impl InputBuilder {
    /// The assets collected so far are a map of maps.
    pub open spec fn wf(&self) -> bool {
        value_wf(self@.value)
    }

    /// Adds `amt` of asset `asset_name` under `policy_id` to the input's
    /// assets. The amount already there plus `amt` must fit in a `u64`.
    pub fn with_value(self, policy_id: &str, asset_name: &str, amt: u64) -> (r: InputBuilder)
        requires
            self.wf(),
            amount_of(self@.value, policy_id@, asset_name@) + amt <= u64::MAX,
        ensures
            r.wf(),
            r@ == (InputBuilderModel {
                value: value_added(self@.value, policy_id@, asset_name@, amt),
                ..self@
            }),
    {
        let mut builder = self;
        add_to_nested(&mut builder.value, policy_id, asset_name, amt);
        builder
    }

    /// Sets the datum to the given inline datum.
    pub fn with_inline_datum(self, plutus_data: PlutusData) -> (r: InputBuilder)
        requires
            self.wf(),
        ensures
            r.wf(),
            r@ == (InputBuilderModel { datum: DatumModel::InlineDatum(plutus_data@), ..self@ }),
    {
        let mut builder = self;
        builder.datum = Datum::InlineDatum(plutus_data);
        builder
    }

    /// Sets the datum to the given datum hash.
    pub fn with_datum_hash(self, datum_hash: Vec<u8>) -> (r: InputBuilder)
        requires
            self.wf(),
        ensures
            r.wf(),
            r@ == (InputBuilderModel { datum: DatumModel::DatumHash(datum_hash@), ..self@ }),
    {
        let mut builder = self;
        builder.datum = Datum::DatumHash(datum_hash);
        builder
    }

    /// Ends the input and adds it to the context builder.
    pub fn finish_input(self) -> (r: ContextBuilder)
        ensures
            r@ == (ContextBuilderModel {
                inputs: self@.outer.inputs.push(
                    InputModel {
                        transaction_id: self@.transaction_id,
                        output_index: self@.output_index,
                        address: self@.address,
                        value: self@.value,
                        datum: self@.datum,
                        reference_script: self@.reference_script,
                    },
                ),
                ..self@.outer
            }),
    {
        let value = CtxValue { inner: self.value };
        let input = Input {
            transaction_id: self.transaction_id,
            output_index: self.output_index,
            address: self.address,
            value,
            datum: self.datum,
            reference_script: self.reference_script,
        };
        self.outer.add_input(input)
    }
}

/// Where the amount of a policy id stands in a context value: ada under the
/// empty policy id and the empty asset name, a native token under its policy
/// id and its asset name, or the empty asset name where it has none.
pub open spec fn asset_key(p: PolicyModel) -> (Seq<char>, Seq<char>) {
    match p {
        PolicyModel::Ada => (seq![], seq![]),
        PolicyModel::NativeToken(id, Some(name)) => (id, name),
        PolicyModel::NativeToken(id, None) => (id, seq![]),
    }
}

/// The context value that adding each entry in turn, at its asset key, gives.
pub open spec fn ctx_value_of(entries: Seq<(PolicyModel, u64)>) -> ValueModel
    decreases entries.len(),
{
    if entries.len() == 0 {
        seq![]
    } else {
        let k = asset_key(entries.last().0);
        value_added(ctx_value_of(entries.drop_last()), k.0, k.1, entries.last().1)
    }
}

/// The sum of the amounts of the entries whose asset key is `(q, b)`.
pub open spec fn total_under(entries: Seq<(PolicyModel, u64)>, q: Seq<char>, b: Seq<char>) -> nat
    decreases entries.len(),
{
    if entries.len() == 0 {
        0
    } else {
        total_under(entries.drop_last(), q, b) + (if asset_key(entries.last().0) == (q, b) {
            entries.last().1 as nat
        } else {
            0nat
        })
    }
}

proof fn lemma_total_under_prefix(entries: Seq<(PolicyModel, u64)>, i: int, q: Seq<char>, b: Seq<char>)
    requires
        0 <= i <= entries.len(),
    ensures
        total_under(entries.take(i), q, b) <= total_under(entries, q, b),
    decreases entries.len() - i,
{
    if i < entries.len() {
        lemma_total_under_prefix(entries, i + 1, q, b);
        assert(entries.take(i + 1).drop_last() =~= entries.take(i));
    } else {
        assert(entries.take(i) =~= entries);
    }
}

impl CtxValue {
    /// The context value of some amounts: each amount is added at its asset
    /// key, in the order of the entries. Amounts that land on one asset key
    /// are summed, and each sum must fit in a `u64`.
    pub fn from_values(values: &Values) -> (r: CtxValue)
        requires
            forall|q: Seq<char>, b: Seq<char>| #[trigger] total_under(values@, q, b) <= u64::MAX,
        ensures
            r@ == ctx_value_of(values@),
            value_wf(r@),
            forall|q: Seq<char>, b: Seq<char>| #[trigger] amount_of(r@, q, b) == total_under(values@, q, b),
    {
        let entries = values.as_iter();
        let ghost all = values@;
        let mut inner: Vec<(String, Vec<(String, u64)>)> = Vec::new();
        let empty = String::new();
        let mut i: usize = 0;
        assert(nested_view(inner@) =~= ctx_value_of(all.take(0))) by {
            assert(all.take(0) =~= seq![]);
        }
        assert forall|q: Seq<char>, b: Seq<char>| #[trigger] amount_of(nested_view(inner@), q, b)
            == total_under(all.take(0), q, b) by {
            assert(all.take(0) =~= seq![]);
        }
        while i < entries.len()
            invariant
                i <= entries@.len(),
                policy_entries(entries@) == all,
                empty@ == Seq::<char>::empty(),
                forall|q: Seq<char>, b: Seq<char>| #[trigger] total_under(all, q, b) <= u64::MAX,
                nested_view(inner@) == ctx_value_of(all.take(i as int)),
                value_wf(nested_view(inner@)),
                forall|q: Seq<char>, b: Seq<char>| #[trigger] amount_of(nested_view(inner@), q, b)
                    == total_under(all.take(i as int), q, b),
            decreases entries.len() - i,
        {
            let entry = &entries[i];
            assert(all[i as int] == (entry.0@, entry.1));
            let amt = entry.1;
            let (policy_id, asset_name) = match &entry.0 {
                PolicyId::ADA => (empty.as_str(), empty.as_str()),
                PolicyId::NativeToken(policy_id, a) => {
                    if let Some(asset_name) = a {
                        (policy_id.as_str(), asset_name.as_str())
                    } else {
                        (policy_id.as_str(), empty.as_str())
                    }
                },
            };
            let ghost v0 = nested_view(inner@);
            let ghost k = asset_key(all[i as int].0);
            assert(k == (policy_id@, asset_name@));
            assert(all.take(i + 1).drop_last() =~= all.take(i as int));
            proof {
                lemma_total_under_prefix(all, i + 1, policy_id@, asset_name@);
            }
            add_to_nested(&mut inner, policy_id, asset_name, amt);
            assert forall|q: Seq<char>, b: Seq<char>| #[trigger] amount_of(nested_view(inner@), q, b)
                == total_under(all.take(i + 1), q, b) by {
                lemma_value_added_amounts(v0, policy_id@, asset_name@, amt, q, b);
            }
            i = i + 1;
        }
        assert(all.take(i as int) =~= all);
        CtxValue { inner }
    }
}

impl Clone for Datum {
    fn clone(&self) -> (r: Self)
        ensures
            r@ == self@,
    {
        match self {
            Datum::NoDatum => Datum::NoDatum,
            Datum::DatumHash(h) => Datum::DatumHash(h.clone()),
            Datum::InlineDatum(d) => Datum::InlineDatum(d.clone()),
        }
    }
}

/// A copy of the assets under one policy.
fn clone_assets(a: &Vec<(String, u64)>) -> (r: Vec<(String, u64)>)
    ensures
        assets_view(r@) == assets_view(a@),
{
    let mut r: Vec<(String, u64)> = Vec::new();
    let mut i: usize = 0;
    while i < a.len()
        invariant
            i <= a@.len(),
            r@.len() == i,
            assets_view(r@) == assets_view(a@).take(i as int),
        decreases a.len() - i,
    {
        let ghost prev = r@;
        r.push((a[i].0.clone(), a[i].1));
        assert(r@ =~= prev.push(r@[i as int]));
        assert(assets_view(r@) =~= assets_view(prev).push(assets_view(a@)[i as int]));
        assert(assets_view(a@).take(i + 1) =~= assets_view(a@).take(i as int).push(
            assets_view(a@)[i as int],
        ));
        i = i + 1;
    }
    assert(assets_view(a@).take(i as int) =~= assets_view(a@));
    r
}

impl Clone for CtxValue {
    fn clone(&self) -> (r: Self)
        ensures
            r@ == self@,
    {
        let mut inner: Vec<(String, Vec<(String, u64)>)> = Vec::new();
        let mut i: usize = 0;
        while i < self.inner.len()
            invariant
                i <= self.inner@.len(),
                inner@.len() == i,
                nested_view(inner@) == nested_view(self.inner@).take(i as int),
            decreases self.inner.len() - i,
        {
            let ghost prev = inner@;
            inner.push((self.inner[i].0.clone(), clone_assets(&self.inner[i].1)));
            assert(inner@ =~= prev.push(inner@[i as int]));
            assert(nested_view(inner@) =~= nested_view(prev).push(nested_view(self.inner@)[i as int]));
            assert(nested_view(self.inner@).take(i + 1) =~= nested_view(self.inner@).take(
                i as int,
            ).push(nested_view(self.inner@)[i as int]));
            i = i + 1;
        }
        assert(nested_view(self.inner@).take(i as int) =~= nested_view(self.inner@));
        CtxValue { inner }
    }
}

impl Clone for Input {
    fn clone(&self) -> (r: Self)
        ensures
            r@ == self@,
    {
        let reference_script = match &self.reference_script {
            None => None,
            Some(b) => Some(b.clone()),
        };
        Input {
            transaction_id: self.transaction_id.clone(),
            output_index: self.output_index,
            address: self.address.clone(),
            value: self.value.clone(),
            datum: self.datum.clone(),
            reference_script,
        }
    }
}

impl Clone for TxContext {
    fn clone(&self) -> (r: Self)
        ensures
            r@ == self@,
    {
        let mut inputs: Vec<Input> = Vec::new();
        let mut i: usize = 0;
        while i < self.inputs.len()
            invariant
                i <= self.inputs@.len(),
                inputs@.len() == i,
                self@.inputs == self.inputs@.map_values(|x: Input| x@),
                inputs@.map_values(|x: Input| x@) == self@.inputs.take(i as int),
            decreases self.inputs.len() - i,
        {
            let ghost prev = inputs@;
            inputs.push(self.inputs[i].clone());
            assert(inputs@ =~= prev.push(inputs@[i as int]));
            assert(inputs@.map_values(|x: Input| x@) =~= prev.map_values(|x: Input| x@).push(
                self@.inputs[i as int],
            ));
            assert(self@.inputs.take(i + 1) =~= self@.inputs.take(i as int).push(
                self@.inputs[i as int],
            ));
            i = i + 1;
        }
        assert(self@.inputs.take(i as int) =~= self@.inputs);
        TxContext { signer: self.signer.clone(), range: self.range, inputs }
    }
}

} // verus!
