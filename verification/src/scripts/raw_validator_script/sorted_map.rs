use crate::scripts::raw_validator_script::plutus_data::{Data, PlutusData};
use vstd::prelude::*;

verus! {

/// The order of byte strings: lexicographic, a proper prefix first.
pub open spec fn bytes_lt(a: Seq<u8>, b: Seq<u8>) -> bool
    decreases a.len(),
{
    if a.len() == 0 {
        b.len() > 0
    } else if b.len() == 0 {
        false
    } else if a[0] != b[0] {
        a[0] < b[0]
    } else {
        bytes_lt(a.drop_first(), b.drop_first())
    }
}

/// The entries of a map keyed by bytes, each taken by its model.
pub open spec fn entry_views(s: Seq<(Vec<u8>, PlutusData)>) -> Seq<(Seq<u8>, Data)> {
    s.map_values(|e: (Vec<u8>, PlutusData)| (e.0@, e.1@))
}

/// Inserting `k` with `v` into a list of entries kept in key order, as an
/// ordered map does: the entry with key `k` takes the value `v`, or a new
/// entry goes in before the first key above `k`.
pub open spec fn sorted_insert(s: Seq<(Seq<u8>, Data)>, k: Seq<u8>, v: Data) -> Seq<(Seq<u8>, Data)>
    decreases s.len(),
{
    if s.len() == 0 {
        seq![(k, v)]
    } else if s[0].0 == k {
        seq![(k, v)] + s.drop_first()
    } else if bytes_lt(k, s[0].0) {
        seq![(k, v)] + s
    } else {
        seq![s[0]] + sorted_insert(s.drop_first(), k, v)
    }
}

/// The ordered map that inserting `pairs` one after the other, into an empty
/// map, gives: a later pair overrides an earlier one with the same key.
pub open spec fn sorted_from(pairs: Seq<(Seq<u8>, Data)>) -> Seq<(Seq<u8>, Data)>
    decreases pairs.len(),
{
    if pairs.len() == 0 {
        seq![]
    } else {
        sorted_insert(sorted_from(pairs.drop_last()), pairs.last().0, pairs.last().1)
    }
}

proof fn lemma_lt_common_prefix(a: Seq<u8>, b: Seq<u8>, i: int)
    requires
        0 <= i <= a.len(),
        i <= b.len(),
        a.take(i) == b.take(i),
    ensures
        bytes_lt(a, b) == bytes_lt(a.skip(i), b.skip(i)),
    decreases i,
{
    if i == 0 {
        assert(a.skip(0) =~= a);
        assert(b.skip(0) =~= b);
    } else {
        assert(a[0] == a.take(i)[0]);
        assert(b[0] == b.take(i)[0]);
        assert(a.drop_first().take(i - 1) =~= a.take(i).drop_first());
        assert(b.drop_first().take(i - 1) =~= b.take(i).drop_first());
        lemma_lt_common_prefix(a.drop_first(), b.drop_first(), i - 1);
        assert(a.drop_first().skip(i - 1) =~= a.skip(i));
        assert(b.drop_first().skip(i - 1) =~= b.skip(i));
    }
}

/// Byte strings are ordered by their first difference, each byte taken as an
/// unsigned number: where `a` and `b` agree before position `i` and differ
/// at `i`, `a` comes first exactly when its byte there is the smaller; where
/// `a` ends at `i`, it comes first exactly when `b` goes on; where `b` ends
/// there, `a` does not come first.
pub proof fn lemma_bytes_lt_first_difference(a: Seq<u8>, b: Seq<u8>, i: int)
    requires
        0 <= i <= a.len(),
        i <= b.len(),
        forall|k: int| 0 <= k < i ==> a[k] == b[k],
    ensures
        i < a.len() && i < b.len() && a[i] != b[i] ==> (bytes_lt(a, b) <==> (a[i] as int) < (
        b[i] as int)),
        i == a.len() ==> (bytes_lt(a, b) <==> i < b.len()),
        i < a.len() && i == b.len() ==> !bytes_lt(a, b),
{
    assert(a.take(i) =~= b.take(i));
    lemma_lt_common_prefix(a, b, i);
    let x = a.skip(i);
    let y = b.skip(i);
    if i < a.len() {
        assert(x[0] == a[i]);
        assert(x.len() > 0);
    }
    if i < b.len() {
        assert(y[0] == b[i]);
        assert(y.len() > 0);
    }
}

/// Whether `a` comes before `b` in the order of byte strings.
pub fn bytes_less(a: &Vec<u8>, b: &Vec<u8>) -> (r: bool)
    ensures
        r == bytes_lt(a@, b@),
{
    let mut i: usize = 0;
    while i < a.len() && i < b.len() && a[i] == b[i]
        invariant
            i <= a.len(),
            i <= b.len(),
            a@.take(i as int) == b@.take(i as int),
        decreases a.len() - i,
    {
        assert(a@.take(i + 1) =~= a@.take(i as int).push(a@[i as int]));
        assert(b@.take(i + 1) =~= b@.take(i as int).push(b@[i as int]));
        i = i + 1;
    }
    proof {
        lemma_lt_common_prefix(a@, b@, i as int);
    }
    if i == a.len() {
        i < b.len()
    } else if i == b.len() {
        false
    } else {
        a[i] < b[i]
    }
}

/// Whether two byte strings are the same.
pub fn bytes_equal(a: &Vec<u8>, b: &Vec<u8>) -> (r: bool)
    ensures
        r == (a@ == b@),
{
    if a.len() != b.len() {
        return false;
    }
    let mut i: usize = 0;
    while i < a.len()
        invariant
            a.len() == b.len(),
            i <= a.len(),
            forall|j: int| 0 <= j < i ==> a@[j] == b@[j],
        decreases a.len() - i,
    {
        if a[i] != b[i] {
            return false;
        }
        i = i + 1;
    }
    assert(a@ =~= b@);
    true
}

/// Inserts `key` with `val` into entries kept in key order, as an ordered
/// map does.
pub fn insert_sorted(entries: Vec<(Vec<u8>, PlutusData)>, key: Vec<u8>, val: PlutusData) -> (r: Vec<
    (Vec<u8>, PlutusData),
>)
    ensures
        entry_views(r@) == sorted_insert(entry_views(entries@), key@, val@),
{
    let ghost goal = sorted_insert(entry_views(entries@), key@, val@);
    let mut out: Vec<(Vec<u8>, PlutusData)> = Vec::new();
    let mut rest = entries;
    assert(entry_views(out@) + sorted_insert(entry_views(rest@), key@, val@) =~= goal);
    while rest.len() > 0
        invariant
            goal == sorted_insert(entry_views(entries@), key@, val@),
            entry_views(out@) + sorted_insert(entry_views(rest@), key@, val@) == goal,
        decreases rest.len(),
    {
        let ghost before = entry_views(rest@);
        let ghost out_before = entry_views(out@);
        let (k0, v0) = rest.remove(0);
        assert(before[0] == (k0@, v0@));
        assert(entry_views(rest@) =~= before.drop_first());
        if bytes_equal(&k0, &key) {
            out.push((key, val));
            assert(entry_views(out@) =~= out_before.push((key@, val@)));
            let ghost mid = entry_views(out@);
            out.append(&mut rest);
            assert(entry_views(out@) =~= mid + before.drop_first());
            assert(entry_views(out@) =~= goal);
            return out;
        } else if bytes_less(&key, &k0) {
            out.push((key, val));
            out.push((k0, v0));
            assert(entry_views(out@) =~= out_before.push((key@, val@)).push((k0@, v0@)));
            let ghost mid = entry_views(out@);
            out.append(&mut rest);
            assert(entry_views(out@) =~= mid + before.drop_first());
            assert(entry_views(out@) =~= goal);
            return out;
        } else {
            out.push((k0, v0));
            assert(entry_views(out@) =~= out_before.push((k0@, v0@)));
            assert(entry_views(out@) + sorted_insert(entry_views(rest@), key@, val@) =~= goal);
        }
    }
    out.push((key, val));
    assert(entry_views(out@) =~= goal);
    out
}

proof fn lemma_bytes_lt_irreflexive(a: Seq<u8>)
    ensures
        !bytes_lt(a, a),
    decreases a.len(),
{
    if a.len() > 0 {
        lemma_bytes_lt_irreflexive(a.drop_first());
    }
}

proof fn lemma_bytes_lt_transitive(a: Seq<u8>, b: Seq<u8>, c: Seq<u8>)
    requires
        bytes_lt(a, b),
        bytes_lt(b, c),
    ensures
        bytes_lt(a, c),
    decreases a.len(),
{
    if a.len() > 0 && b.len() > 0 && c.len() > 0 && a[0] == b[0] && b[0] == c[0] {
        lemma_bytes_lt_transitive(a.drop_first(), b.drop_first(), c.drop_first());
    }
}

proof fn lemma_bytes_lt_total(a: Seq<u8>, b: Seq<u8>)
    requires
        a != b,
    ensures
        bytes_lt(a, b) || bytes_lt(b, a),
    decreases a.len(),
{
    if a.len() > 0 && b.len() > 0 && a[0] == b[0] {
        if a.drop_first() == b.drop_first() {
            assert(a =~= seq![a[0]] + a.drop_first());
            assert(b =~= seq![b[0]] + b.drop_first());
        }
        lemma_bytes_lt_total(a.drop_first(), b.drop_first());
    } else if a.len() == 0 && b.len() == 0 {
        assert(a =~= b);
    }
}

/// Whether the keys of `s` rise strictly, in the order of byte strings.
pub open spec fn strictly_sorted(s: Seq<(Seq<u8>, Data)>) -> bool {
    forall|i: int, j: int| 0 <= i < j < s.len() ==> bytes_lt(#[trigger] s[i].0, #[trigger] s[j].0)
}

/// The map that a list of entries stands for, the first entry with a key
/// giving its value.
pub open spec fn assoc(s: Seq<(Seq<u8>, Data)>) -> Map<Seq<u8>, Data>
    decreases s.len(),
{
    if s.len() == 0 {
        Map::empty()
    } else {
        assoc(s.drop_first()).insert(s[0].0, s[0].1)
    }
}

/// The map that inserting `pairs` one after the other gives: a later pair
/// overrides an earlier one with the same key.
pub open spec fn last_wins(pairs: Seq<(Seq<u8>, Data)>) -> Map<Seq<u8>, Data>
    decreases pairs.len(),
{
    if pairs.len() == 0 {
        Map::empty()
    } else {
        last_wins(pairs.drop_last()).insert(pairs.last().0, pairs.last().1)
    }
}

proof fn lemma_assoc_keys(s: Seq<(Seq<u8>, Data)>)
    ensures
        forall|i: int| 0 <= i < s.len() ==> assoc(s).dom().contains(#[trigger] s[i].0),
        forall|k: Seq<u8>|
            #[trigger] assoc(s).dom().contains(k) ==> exists|i: int| 0 <= i < s.len() && s[i].0 == k,
    decreases s.len(),
{
    if s.len() > 0 {
        let rest = s.drop_first();
        lemma_assoc_keys(rest);
        assert forall|i: int| 0 <= i < s.len() implies assoc(s).dom().contains(#[trigger] s[i].0) by {
            if i > 0 {
                assert(s[i] == rest[i - 1]);
            }
        }
        assert forall|k: Seq<u8>| #[trigger] assoc(s).dom().contains(k) implies exists|i: int|
            0 <= i < s.len() && s[i].0 == k by {
            if k != s[0].0 {
                assert(assoc(rest).dom().contains(k));
                let i = choose|i: int| 0 <= i < rest.len() && rest[i].0 == k;
                assert(rest[i] == s[i + 1]);
                assert(s[i + 1].0 == k);
            } else {
                assert(s[0].0 == k);
            }
        }
    }
}

proof fn lemma_insert_keeps_sorted(s: Seq<(Seq<u8>, Data)>, k: Seq<u8>, v: Data)
    requires
        strictly_sorted(s),
    ensures
        strictly_sorted(sorted_insert(s, k, v)),
        assoc(sorted_insert(s, k, v)) == assoc(s).insert(k, v),
    decreases s.len(),
{
    let r = sorted_insert(s, k, v);
    if s.len() == 0 {
        assert(r.drop_first() =~= seq![]);
        assert(assoc(r.drop_first()) == Map::<Seq<u8>, Data>::empty());
        assert(assoc(r) =~= assoc(s).insert(k, v));
    } else if s[0].0 == k {
        let rest = s.drop_first();
        assert(r.drop_first() =~= rest);
        assert forall|i: int, j: int| 0 <= i < j < r.len() implies bytes_lt(#[trigger] r[i].0, #[trigger] r[j].0) by {
            assert(r[j] == s[j]);
            if i > 0 {
                assert(r[i] == s[i]);
            }
        }
        assert(assoc(r) =~= assoc(s).insert(k, v));
    } else if bytes_lt(k, s[0].0) {
        assert(r.drop_first() =~= s);
        assert forall|i: int, j: int| 0 <= i < j < r.len() implies bytes_lt(#[trigger] r[i].0, #[trigger] r[j].0) by {
            assert(r[j] == s[j - 1]);
            if i > 0 {
                assert(r[i] == s[i - 1]);
            } else if j > 1 {
                lemma_bytes_lt_transitive(k, s[0].0, s[j - 1].0);
            }
        }
        assert(assoc(r) =~= assoc(s).insert(k, v));
    } else {
        let rest = s.drop_first();
        lemma_bytes_lt_total(k, s[0].0);
        assert(strictly_sorted(rest)) by {
            assert forall|i: int, j: int| 0 <= i < j < rest.len() implies bytes_lt(#[trigger] rest[i].0, #[trigger] rest[j].0) by {
                assert(rest[i] == s[i + 1] && rest[j] == s[j + 1]);
            }
        }
        lemma_insert_keeps_sorted(rest, k, v);
        let ins = sorted_insert(rest, k, v);
        assert(r.drop_first() =~= ins);
        lemma_assoc_keys(ins);
        lemma_assoc_keys(rest);
        assert forall|i: int, j: int| 0 <= i < j < r.len() implies bytes_lt(#[trigger] r[i].0, #[trigger] r[j].0) by {
            assert(r[j] == ins[j - 1]);
            if i > 0 {
                assert(r[i] == ins[i - 1]);
            } else {
                let kj = ins[j - 1].0;
                assert(assoc(ins).dom().contains(kj));
                if kj != k {
                    assert(assoc(rest).dom().contains(kj));
                    let m = choose|m: int| 0 <= m < rest.len() && rest[m].0 == kj;
                    assert(rest[m] == s[m + 1]);
                }
            }
        }
        assert(assoc(r) =~= assoc(s).insert(k, v));
    }
}

/// An ordered map built by inserting pairs one after the other holds its keys
/// in strictly rising order, and maps each key to the value of the last pair
/// with that key: what `BTreeMap` promises of a map collected from pairs.
pub proof fn lemma_sorted_from_is_map(pairs: Seq<(Seq<u8>, Data)>)
    ensures
        strictly_sorted(sorted_from(pairs)),
        assoc(sorted_from(pairs)) == last_wins(pairs),
    decreases pairs.len(),
{
    if pairs.len() > 0 {
        lemma_sorted_from_is_map(pairs.drop_last());
        lemma_insert_keeps_sorted(sorted_from(pairs.drop_last()), pairs.last().0, pairs.last().1);
    }
}

proof fn lemma_sorted_unique(s1: Seq<(Seq<u8>, Data)>, s2: Seq<(Seq<u8>, Data)>)
    requires
        strictly_sorted(s1),
        strictly_sorted(s2),
        assoc(s1) == assoc(s2),
    ensures
        s1 == s2,
    decreases s1.len(),
{
    lemma_assoc_keys(s1);
    lemma_assoc_keys(s2);
    if s1.len() == 0 {
        if s2.len() > 0 {
            assert(assoc(s2).dom().contains(s2[0].0));
        }
        assert(s1 =~= s2);
    } else if s2.len() == 0 {
        assert(assoc(s1).dom().contains(s1[0].0));
    } else {
        let k1 = s1[0].0;
        let k2 = s2[0].0;
        if k1 != k2 {
            assert(assoc(s2).dom().contains(k1));
            assert(assoc(s1).dom().contains(k2));
            let j2 = choose|i: int| 0 <= i < s2.len() && s2[i].0 == k1;
            let j1 = choose|i: int| 0 <= i < s1.len() && s1[i].0 == k2;
            lemma_bytes_lt_irreflexive(k1);
            lemma_bytes_lt_irreflexive(k2);
            if j2 > 0 && j1 > 0 {
                lemma_bytes_lt_transitive(k1, k2, k1);
            }
        }
        let r1 = s1.drop_first();
        let r2 = s2.drop_first();
        lemma_assoc_keys(r1);
        lemma_assoc_keys(r2);
        assert(!assoc(r1).dom().contains(k1)) by {
            if assoc(r1).dom().contains(k1) {
                let m = choose|m: int| 0 <= m < r1.len() && r1[m].0 == k1;
                assert(s1[m + 1].0 == k1);
                lemma_bytes_lt_irreflexive(k1);
            }
        }
        assert(!assoc(r2).dom().contains(k1)) by {
            if assoc(r2).dom().contains(k1) {
                let m = choose|m: int| 0 <= m < r2.len() && r2[m].0 == k1;
                assert(s2[m + 1].0 == k1);
                lemma_bytes_lt_irreflexive(k1);
            }
        }
        assert(assoc(r1) =~= assoc(s1).remove(k1));
        assert(assoc(r2) =~= assoc(s2).remove(k1));
        assert(strictly_sorted(r1)) by {
            assert forall|i: int, j: int| 0 <= i < j < r1.len() implies bytes_lt(#[trigger] r1[i].0, #[trigger] r1[j].0) by {
                assert(r1[i] == s1[i + 1] && r1[j] == s1[j + 1]);
            }
        }
        assert(strictly_sorted(r2)) by {
            assert forall|i: int, j: int| 0 <= i < j < r2.len() implies bytes_lt(#[trigger] r2[i].0, #[trigger] r2[j].0) by {
                assert(r2[i] == s2[i + 1] && r2[j] == s2[j + 1]);
            }
        }
        lemma_sorted_unique(r1, r2);
        assert(assoc(s1)[k1] == s1[0].1);
        assert(assoc(s2)[k1] == s2[0].1);
        assert(s1 =~= seq![s1[0]] + r1);
        assert(s2 =~= seq![s2[0]] + r2);
    }
}

/// An ordered map built from pairs depends only on the map the pairs stand
/// for, not on the order in which they come: two lists of pairs that give the
/// same keys the same last values build the same ordered map.
pub proof fn lemma_sorted_from_order_free(p1: Seq<(Seq<u8>, Data)>, p2: Seq<(Seq<u8>, Data)>)
    requires
        last_wins(p1) == last_wins(p2),
    ensures
        sorted_from(p1) == sorted_from(p2),
{
    lemma_sorted_from_is_map(p1);
    lemma_sorted_from_is_map(p2);
    lemma_sorted_unique(sorted_from(p1), sorted_from(p2));
}

} // verus!
