use crate::scripts::context::{has_key, key_index, keys_distinct, lemma_key_index};
use vstd::prelude::*;

verus! {

/// What an amount is counted in: ada, or a native token named by its policy
/// id and, optionally, its asset name.
#[derive(Debug, PartialEq, Eq, Hash)]
pub enum PolicyId {
    ADA,
    NativeToken(String, Option<String>),
}

/// Model of a `PolicyId`.
pub enum PolicyModel {
    Ada,
    NativeToken(Seq<char>, Option<Seq<char>>),
}

impl View for PolicyId {
    type V = PolicyModel;

    open spec fn view(&self) -> PolicyModel {
        match self {
            PolicyId::ADA => PolicyModel::Ada,
            PolicyId::NativeToken(id, None) => PolicyModel::NativeToken(id@, None),
            PolicyId::NativeToken(id, Some(name)) => PolicyModel::NativeToken(id@, Some(name@)),
        }
    }
}

impl PolicyId {
    /// The native token with policy id `id` and no asset name.
    pub fn native_token(id: &str) -> (r: PolicyId)
        ensures
            r@ == PolicyModel::NativeToken(id@, None),
    {
        PolicyId::NativeToken(id.to_string(), None)
    }
}

impl Clone for PolicyId {
    fn clone(&self) -> (r: Self)
        ensures
            r@ == self@,
    {
        match self {
            PolicyId::ADA => PolicyId::ADA,
            PolicyId::NativeToken(id, None) => PolicyId::NativeToken(id.clone(), None),
            PolicyId::NativeToken(id, Some(name)) => PolicyId::NativeToken(
                id.clone(),
                Some(name.clone()),
            ),
        }
    }
}

/// Whether two policy ids name the same thing.
pub fn same_policy(a: &PolicyId, b: &PolicyId) -> (r: bool)
    ensures
        r == (a@ == b@),
{
    match (a, b) {
        (PolicyId::ADA, PolicyId::ADA) => true,
        (PolicyId::NativeToken(id_a, name_a), PolicyId::NativeToken(id_b, name_b)) => {
            if *id_a != *id_b {
                return false;
            }
            match (name_a, name_b) {
                (None, None) => true,
                (Some(x), Some(y)) => *x == *y,
                _ => false,
            }
        },
        _ => false,
    }
}

/// Amounts of ada and native tokens, one amount for each policy id.
pub struct Values {
    values: Vec<(PolicyId, u64)>,
}

/// The entries of a `Values`, each taken by its model.
pub open spec fn policy_entries(v: Seq<(PolicyId, u64)>) -> Seq<(PolicyModel, u64)> {
    v.map_values(|e: (PolicyId, u64)| (e.0@, e.1))
}

/// The amount of `policy` in the entries; zero where there is none.
pub open spec fn policy_amount(v: Seq<(PolicyModel, u64)>, policy: PolicyModel) -> nat {
    if has_key(v, policy) {
        v[key_index(v, policy)].1 as nat
    } else {
        0
    }
}

/// The entries with `amount` more of `policy`: added to its entry, or in a
/// new entry at the end.
pub open spec fn policy_added(v: Seq<(PolicyModel, u64)>, policy: PolicyModel, amount: u64) -> Seq<
    (PolicyModel, u64),
> {
    if has_key(v, policy) {
        let i = key_index(v, policy);
        v.update(i, (policy, (v[i].1 + amount) as u64))
    } else {
        v.push((policy, amount))
    }
}

impl View for Values {
    type V = Seq<(PolicyModel, u64)>;

    closed spec fn view(&self) -> Seq<(PolicyModel, u64)> {
        policy_entries(self.values@)
    }
}

impl Default for Values {
    fn default() -> (r: Self)
        ensures
            r@ == Seq::<(PolicyModel, u64)>::empty(),
            r.wf(),
    {
        let r = Values { values: Vec::new() };
        assert(r@ =~= Seq::<(PolicyModel, u64)>::empty());
        r
    }
}

impl Values {
    /// No policy id occurs twice.
    pub open spec fn wf(&self) -> bool {
        keys_distinct(self@)
    }

    /// Adds `amount` of `policy`. The amount already there plus `amount` must
    /// fit in a `u64`.
    pub fn add_one_value(&mut self, policy: &PolicyId, amount: u64)
        requires
            old(self).wf(),
            policy_amount(old(self)@, policy@) + amount <= u64::MAX,
        ensures
            final(self).wf(),
            final(self)@ == policy_added(old(self)@, policy@, amount),
    {
        let ghost v0 = self@;
        let mut i: usize = 0;
        while i < self.values.len()
            invariant
                v0 == old(self)@,
                v0 == policy_entries(self.values@),
                keys_distinct(v0),
                policy_amount(v0, policy@) + amount <= u64::MAX,
                i <= self.values.len(),
                forall|j: int| 0 <= j < i ==> v0[j].0 != policy@,
            decreases self.values.len() - i,
        {
            if same_policy(&self.values[i].0, policy) {
                proof {
                    lemma_key_index(v0, policy@, i as int);
                }
                let (p, total) = self.values.remove(i);
                self.values.insert(i, (p, total + amount));
                assert(self@ =~= policy_added(v0, policy@, amount));
                assert(keys_distinct(self@)) by {
                    assert forall|x: int, y: int| 0 <= x < y < self@.len() implies #[trigger] self@[x].0
                        != #[trigger] self@[y].0 by {
                        assert(self@[x].0 == v0[x].0 && self@[y].0 == v0[y].0);
                    }
                }
                return;
            }
            i = i + 1;
        }
        self.values.push((policy.clone(), amount));
        assert(self@ =~= policy_added(v0, policy@, amount));
        assert(keys_distinct(self@)) by {
            assert forall|x: int, y: int| 0 <= x < y < self@.len() implies #[trigger] self@[x].0
                != #[trigger] self@[y].0 by {
                if y == v0.len() {
                    assert(v0[x].0 != policy@);
                } else {
                    assert(self@[x].0 == v0[x].0 && self@[y].0 == v0[y].0);
                }
            }
        }
    }

    /// The amount of `policy`, where it has one.
    pub fn get(&self, policy: &PolicyId) -> (r: Option<u64>)
        requires
            self.wf(),
        ensures
            r == (if has_key(self@, policy@) {
                Some(self@[key_index(self@, policy@)].1)
            } else {
                None::<u64>
            }),
    {
        let mut i: usize = 0;
        while i < self.values.len()
            invariant
                self@ == policy_entries(self.values@),
                keys_distinct(self@),
                i <= self.values.len(),
                forall|j: int| 0 <= j < i ==> self@[j].0 != policy@,
            decreases self.values.len() - i,
        {
            if same_policy(&self.values[i].0, policy) {
                proof {
                    lemma_key_index(self@, policy@, i as int);
                }
                return Some(self.values[i].1);
            }
            i = i + 1;
        }
        None
    }

    /// The entries: each policy id with its amount.
    pub fn as_iter(&self) -> (r: &Vec<(PolicyId, u64)>)
        ensures
            policy_entries(r@) == self@,
    {
        &self.values
    }
}

/// Adding an amount of one policy keeps the policy ids distinct, raises that
/// policy's amount by the amount added, and leaves every other amount as it
/// was (where the new amount fits in a `u64`).
pub proof fn lemma_policy_added_amounts(
    v: Seq<(PolicyModel, u64)>,
    policy: PolicyModel,
    amount: u64,
    other: PolicyModel,
)
    requires
        keys_distinct(v),
        policy_amount(v, policy) + amount <= u64::MAX,
    ensures
        keys_distinct(policy_added(v, policy, amount)),
        policy_amount(policy_added(v, policy, amount), other) == policy_amount(v, other) + (if other
            == policy {
            amount as nat
        } else {
            0nat
        }),
{
    let w = policy_added(v, policy, amount);
    if has_key(v, policy) {
        let i = key_index(v, policy);
        assert forall|x: int, y: int| 0 <= x < y < w.len() implies #[trigger] w[x].0
            != #[trigger] w[y].0 by {
            assert(w[x].0 == v[x].0 && w[y].0 == v[y].0);
        }
        if has_key(w, other) {
            let k = key_index(w, other);
            assert(v[k].0 == other);
            lemma_key_index(v, other, k);
        } else if has_key(v, other) {
            let k = key_index(v, other);
            assert(w[k].0 == other);
        }
    } else {
        assert forall|x: int, y: int| 0 <= x < y < w.len() implies #[trigger] w[x].0
            != #[trigger] w[y].0 by {
            if y == v.len() {
                assert(v[x].0 != policy);
            }
        }
        if has_key(w, other) {
            let k = key_index(w, other);
            if k < v.len() {
                assert(v[k].0 == other);
                lemma_key_index(v, other, k);
            } else {
                lemma_key_index(w, policy, v.len() as int);
            }
        } else {
            if has_key(v, other) {
                let k = key_index(v, other);
                assert(w[k].0 == other);
            }
            assert(w[v.len() as int].0 == policy);
        }
    }
}

} // verus!
