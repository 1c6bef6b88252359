//! A small map with text keys, kept as a list of pairs in which no key occurs
//! twice.
use vstd::prelude::*;

verus! {

/// The map that a list of pairs with distinct keys stands for.
pub open spec fn pairs_map<V>(pairs: Seq<(String, V)>) -> Map<Seq<char>, V> {
    Map::new(
        |k: Seq<char>| exists|i: int| 0 <= i < pairs.len() && (#[trigger] pairs[i]).0@ == k,
        |k: Seq<char>|
            pairs[choose|i: int| 0 <= i < pairs.len() && (#[trigger] pairs[i]).0@ == k].1,
    )
}

/// No key occurs twice.
pub open spec fn distinct_keys<V>(pairs: Seq<(String, V)>) -> bool {
    forall|i: int, j: int|
        0 <= i < j < pairs.len() ==> (#[trigger] pairs[i]).0@ != (#[trigger] pairs[j]).0@
}

/// The sum of `weight` over the values of a finite map.
pub open spec fn map_total<V>(m: Map<Seq<char>, V>, weight: spec_fn(V) -> nat) -> nat
    decreases m.dom().len(),
    when m.dom().finite()
{
    if m.dom().len() == 0 {
        0
    } else {
        let k = m.dom().choose();
        weight(m[k]) + map_total(m.remove(k), weight)
    }
}

pub proof fn lemma_map_total_remove<V>(
    m: Map<Seq<char>, V>,
    k: Seq<char>,
    weight: spec_fn(V) -> nat,
)
    requires
        m.dom().finite(),
        m.contains_key(k),
    ensures
        map_total(m, weight) == weight(m[k]) + map_total(m.remove(k), weight),
    decreases m.dom().len(),
{
    let c = m.dom().choose();
    assert(m.dom().contains(c));
    if c != k {
        lemma_map_total_remove(m.remove(c), k, weight);
        lemma_map_total_remove(m.remove(k), c, weight);
        assert(m.remove(c).remove(k) =~= m.remove(k).remove(c));
        assert(m.remove(k).dom().len() > 0);
    }
}

/// Replacing the value at `k` replaces its weight in the sum.
pub proof fn lemma_map_total_insert<V>(
    m: Map<Seq<char>, V>,
    k: Seq<char>,
    v: V,
    weight: spec_fn(V) -> nat,
)
    requires
        m.dom().finite(),
    ensures
        map_total(m.insert(k, v), weight) == weight(v) + map_total(m.remove(k), weight),
        m.contains_key(k) ==> map_total(m, weight) == weight(m[k]) + map_total(m.remove(k), weight),
        !m.contains_key(k) ==> m.remove(k) == m,
{
    lemma_map_total_remove(m.insert(k, v), k, weight);
    assert(m.insert(k, v).remove(k) =~= m.remove(k));
    if m.contains_key(k) {
        lemma_map_total_remove(m, k, weight);
    } else {
        assert(m.remove(k) =~= m);
    }
}

pub proof fn lemma_pairs_map<V>(pairs: Seq<(String, V)>)
    requires
        distinct_keys(pairs),
    ensures
        forall|i: int|
            0 <= i < pairs.len() ==> pairs_map(pairs).contains_key((#[trigger] pairs[i]).0@)
                && pairs_map(pairs)[pairs[i].0@] == pairs[i].1,
        pairs_map(pairs).dom().finite(),
        pairs_map(pairs).dom().len() == pairs.len(),
{
    let m = pairs_map(pairs);
    assert forall|i: int| 0 <= i < pairs.len() implies m.contains_key((#[trigger] pairs[i]).0@)
        && m[pairs[i].0@] == pairs[i].1 by {
        let k = pairs[i].0@;
        let j = choose|j: int| 0 <= j < pairs.len() && (#[trigger] pairs[j]).0@ == k;
        assert(j == i);
    }
    let keys = Seq::new(pairs.len(), |i: int| pairs[i].0@);
    assert(keys.no_duplicates());
    keys.unique_seq_to_set();
    vstd::seq_lib::seq_to_set_is_finite(keys);
    assert(m.dom() =~= keys.to_set()) by {
        assert forall|k: Seq<char>| m.dom().contains(k) <==> keys.to_set().contains(k) by {
            if m.dom().contains(k) {
                let i = choose|i: int| 0 <= i < pairs.len() && (#[trigger] pairs[i]).0@ == k;
                assert(keys[i] == k);
            }
            if keys.to_set().contains(k) {
                let i = choose|i: int| 0 <= i < keys.len() && keys[i] == k;
                assert(pairs[i].0@ == k);
            }
        }
    }
}

proof fn lemma_pairs_map_push<V>(pairs: Seq<(String, V)>, pair: (String, V))
    requires
        distinct_keys(pairs.push(pair)),
    ensures
        pairs_map(pairs.push(pair)) == pairs_map(pairs).insert(pair.0@, pair.1),
        !pairs_map(pairs).contains_key(pair.0@),
{
    let after = pairs.push(pair);
    assert forall|i: int, j: int| 0 <= i < j < pairs.len() implies (#[trigger] pairs[i]).0@ != (
    #[trigger] pairs[j]).0@ by {
        assert(after[i] == pairs[i] && after[j] == pairs[j]);
    }
    lemma_pairs_map(pairs);
    lemma_pairs_map(after);
    if pairs_map(pairs).contains_key(pair.0@) {
        let i = choose|i: int| 0 <= i < pairs.len() && (#[trigger] pairs[i]).0@ == pair.0@;
        assert(after[i] == pairs[i] && after[pairs.len() as int] == pair);
    }
    assert(pairs_map(after) =~= pairs_map(pairs).insert(pair.0@, pair.1)) by {
        assert forall|k: Seq<char>|
            pairs_map(after).contains_key(k) <==> pairs_map(pairs).insert(
                pair.0@,
                pair.1,
            ).contains_key(k) by {
            if pairs_map(pairs).contains_key(k) {
                let i = choose|i: int| 0 <= i < pairs.len() && (#[trigger] pairs[i]).0@ == k;
                assert(after[i].0@ == k);
            }
            if k == pair.0@ {
                assert(after[pairs.len() as int].0@ == k);
            }
            if pairs_map(after).contains_key(k) {
                let i = choose|i: int| 0 <= i < after.len() && (#[trigger] after[i]).0@ == k;
                if i < pairs.len() {
                    assert(pairs[i].0@ == k);
                }
            }
        }
        assert forall|k: Seq<char>| pairs_map(after).contains_key(k) implies pairs_map(after)[k]
            == pairs_map(pairs).insert(pair.0@, pair.1)[k] by {
            let i = choose|i: int| 0 <= i < after.len() && (#[trigger] after[i]).0@ == k;
            if i < pairs.len() {
                assert(pairs[i].0@ == k);
                assert(after[pairs.len() as int].0@ == pair.0@);
            }
        }
    }
}

proof fn lemma_pairs_map_remove<V>(pairs: Seq<(String, V)>, at: int)
    requires
        distinct_keys(pairs),
        0 <= at < pairs.len(),
    ensures
        distinct_keys(pairs.remove(at)),
        pairs_map(pairs.remove(at)) == pairs_map(pairs).remove(pairs[at].0@),
{
    let after = pairs.remove(at);
    assert forall|i: int, j: int| 0 <= i < j < after.len() implies (#[trigger] after[i]).0@ != (
    #[trigger] after[j]).0@ by {
        let a = if i < at {
            i
        } else {
            i + 1
        };
        let b = if j < at {
            j
        } else {
            j + 1
        };
        assert(after[i] == pairs[a] && after[j] == pairs[b]);
    }
    lemma_pairs_map(pairs);
    lemma_pairs_map(after);
    let removed = pairs_map(pairs).remove(pairs[at].0@);
    assert(pairs_map(after) =~= removed) by {
        assert forall|k: Seq<char>|
            pairs_map(after).contains_key(k) <==> removed.contains_key(k) by {
            if pairs_map(after).contains_key(k) {
                let i = choose|i: int| 0 <= i < after.len() && (#[trigger] after[i]).0@ == k;
                let a = if i < at {
                    i
                } else {
                    i + 1
                };
                assert(pairs[a].0@ == k);
                assert(pairs[at].0@ != k);
            }
            if removed.contains_key(k) {
                let a = choose|a: int| 0 <= a < pairs.len() && (#[trigger] pairs[a]).0@ == k;
                let i = if a < at {
                    a
                } else {
                    a - 1
                };
                assert(after[i].0@ == k);
            }
        }
        assert forall|k: Seq<char>| pairs_map(after).contains_key(k) implies pairs_map(after)[k]
            == removed[k] by {
            let i = choose|i: int| 0 <= i < after.len() && (#[trigger] after[i]).0@ == k;
            let a = if i < at {
                i
            } else {
                i + 1
            };
            assert(pairs[a] == after[i]);
        }
    }
}

/// A map from texts to values.
#[derive(Debug)]
pub struct StrMap<V> {
    pairs: Vec<(String, V)>,
}

impl<V> View for StrMap<V> {
    type V = Map<Seq<char>, V>;

    closed spec fn view(&self) -> Map<Seq<char>, V> {
        pairs_map(self.pairs@)
    }
}

impl<V> StrMap<V> {
    #[verifier::type_invariant]
    closed spec fn keys_are_distinct(self) -> bool {
        distinct_keys(self.pairs@)
    }

    pub fn new() -> (m: Self)
        ensures
            m@ == Map::<Seq<char>, V>::empty(),
    {
        let m = StrMap { pairs: Vec::new() };
        assert(m@ =~= Map::<Seq<char>, V>::empty());
        m
    }

    /// The number of keys.
    pub fn len(&self) -> (n: usize)
        ensures
            n == self@.dom().len(),
            self@.dom().finite(),
    {
        proof {
            use_type_invariant(self);
            lemma_pairs_map(self.pairs@);
        }
        self.pairs.len()
    }

    fn position(&self, key: &str) -> (r: Option<usize>)
        ensures
            match r {
                Some(i) => i < self.pairs@.len() && self.pairs@[i as int].0@ == key@
                    && self@.contains_key(key@) && self@[key@] == self.pairs@[i as int].1,
                None => !self@.contains_key(key@),
            },
    {
        proof {
            use_type_invariant(self);
            lemma_pairs_map(self.pairs@);
        }
        let key_string = key.to_owned();
        let mut i: usize = 0;
        while i < self.pairs.len()
            invariant
                i <= self.pairs@.len(),
                key_string@ == key@,
                forall|j: int| 0 <= j < i ==> (#[trigger] self.pairs@[j]).0@ != key@,
            decreases self.pairs@.len() - i,
        {
            if self.pairs[i].0 == key_string {
                proof {
                    use_type_invariant(self);
                    lemma_pairs_map(self.pairs@);
                }
                return Some(i);
            }
            i += 1;
        }
        None
    }

    /// The pairs, in the order in which the keys came.
    pub fn entries(&self) -> (r: &[(String, V)])
        ensures
            distinct_keys(r@),
            pairs_map(r@) == self@,
    {
        proof {
            use_type_invariant(self);
        }
        self.pairs.as_slice()
    }

    pub fn contains_key(&self, key: &str) -> (b: bool)
        ensures
            b == self@.contains_key(key@),
    {
        self.position(key).is_some()
    }

    pub fn get(&self, key: &str) -> (r: Option<&V>)
        ensures
            match r {
                Some(v) => self@.contains_key(key@) && self@[key@] == *v,
                None => !self@.contains_key(key@),
            },
    {
        match self.position(key) {
            Some(i) => Some(&self.pairs[i].1),
            None => None,
        }
    }

    pub fn remove(&mut self, key: &str) -> (r: Option<V>)
        ensures
            final(self)@ == old(self)@.remove(key@),
            match r {
                Some(v) => old(self)@.contains_key(key@) && old(self)@[key@] == v,
                None => !old(self)@.contains_key(key@) && final(self)@ == old(self)@,
            },
    {
        proof {
            use_type_invariant(&*self);
        }
        match self.position(key) {
            Some(i) => {
                proof {
                    lemma_pairs_map_remove(self.pairs@, i as int);
                }
                let mut pairs: Vec<(String, V)> = Vec::new();
                std::mem::swap(&mut pairs, &mut self.pairs);
                let pair = pairs.remove(i);
                self.pairs = pairs;
                Some(pair.1)
            },
            None => {
                assert(self@.remove(key@) =~= self@);
                None
            },
        }
    }

    pub fn insert(&mut self, key: &str, value: V)
        ensures
            final(self)@ == old(self)@.insert(key@, value),
    {
        let _ = self.remove(key);
        proof {
            use_type_invariant(&*self);
        }
        let ghost before = self.pairs@;
        let pair = (key.to_owned(), value);
        proof {
            lemma_pairs_map(before);
            let after = before.push(pair);
            assert forall|i: int, j: int| 0 <= i < j < after.len() implies (#[trigger] after[i]).0@
                != (#[trigger] after[j]).0@ by {
                assert(before[i] == after[i]);
                if j < before.len() {
                    assert(before[j] == after[j]);
                } else {
                    assert(pairs_map(before).contains_key(before[i].0@));
                }
            }
            lemma_pairs_map_push(before, pair);
        }
        let mut pairs: Vec<(String, V)> = Vec::new();
        std::mem::swap(&mut pairs, &mut self.pairs);
        pairs.push(pair);
        self.pairs = pairs;
        assert(self@ =~= old(self)@.insert(key@, value));
    }
}

impl<V: Copy> StrMap<V> {
    /// A map with the same contents.
    pub fn copied(&self) -> (r: Self)
        ensures
            r@ == self@,
    {
        proof {
            use_type_invariant(self);
        }
        let mut pairs: Vec<(String, V)> = Vec::new();
        let mut i: usize = 0;
        while i < self.pairs.len()
            invariant
                i <= self.pairs@.len(),
                pairs@ == self.pairs@.take(i as int),
            decreases self.pairs@.len() - i,
        {
            pairs.push((self.pairs[i].0.clone(), self.pairs[i].1));
            i += 1;
            assert(pairs@ =~= self.pairs@.take(i as int));
        }
        assert(pairs@ =~= self.pairs@);
        StrMap { pairs }
    }
}

impl StrMap<(String, u64)> {
    /// A map with the same contents.
    pub fn copied_amounts(&self) -> (r: Self)
        ensures
            r@ == self@,
    {
        proof {
            use_type_invariant(self);
        }
        let mut pairs: Vec<(String, (String, u64))> = Vec::new();
        let mut i: usize = 0;
        while i < self.pairs.len()
            invariant
                i <= self.pairs@.len(),
                pairs@ == self.pairs@.take(i as int),
            decreases self.pairs@.len() - i,
        {
            let amount: u64 = self.pairs[i].1.1;
            pairs.push((self.pairs[i].0.clone(), (self.pairs[i].1.0.clone(), amount)));
            i += 1;
            assert(pairs@ =~= self.pairs@.take(i as int));
        }
        assert(pairs@ =~= self.pairs@);
        StrMap { pairs }
    }
}

/// The weight of an amount: the amount itself.
pub open spec fn amount() -> spec_fn(u64) -> nat {
    |v: u64| v as nat
}

/// The weight of an amount that belongs to an owner: the amount where the owner
/// is `owner`, nothing for any other.
pub open spec fn amount_of(owner: Seq<char>) -> spec_fn((String, u64)) -> nat {
    |v: (String, u64)|
        if v.0@ == owner {
            v.1 as nat
        } else {
            0
        }
}

proof fn lemma_prefix_total<V>(pairs: Seq<(String, V)>, i: int, weight: spec_fn(V) -> nat)
    requires
        distinct_keys(pairs),
        0 <= i < pairs.len(),
    ensures
        map_total(pairs_map(pairs.take(i + 1)), weight) == map_total(
            pairs_map(pairs.take(i)),
            weight,
        ) + weight(pairs[i].1),
{
    let before = pairs.take(i);
    assert(pairs.take(i + 1) =~= before.push(pairs[i]));
    assert forall|a: int, b: int| 0 <= a < b < before.push(pairs[i]).len() implies (
    #[trigger] before.push(pairs[i])[a]).0@ != (#[trigger] before.push(pairs[i])[b]).0@ by {
        assert(before.push(pairs[i])[a] == pairs[a] && before.push(pairs[i])[b] == pairs[b]);
    }
    lemma_pairs_map_push(before, pairs[i]);
    assert forall|a: int, b: int| 0 <= a < b < before.len() implies (#[trigger] before[a]).0@ != (
    #[trigger] before[b]).0@ by {
        assert(before[a] == pairs[a] && before[b] == pairs[b]);
    }
    lemma_pairs_map(before);
    lemma_map_total_insert(pairs_map(before), pairs[i].0@, pairs[i].1, weight);
}

proof fn lemma_prefix_total_bound<V>(pairs: Seq<(String, V)>, i: int, weight: spec_fn(V) -> nat)
    requires
        distinct_keys(pairs),
        0 <= i <= pairs.len(),
    ensures
        map_total(pairs_map(pairs.take(i)), weight) <= map_total(pairs_map(pairs), weight),
    decreases pairs.len() - i,
{
    if i < pairs.len() {
        lemma_prefix_total(pairs, i, weight);
        lemma_prefix_total_bound(pairs, i + 1, weight);
    } else {
        assert(pairs.take(i) =~= pairs);
    }
}

proof fn lemma_empty_total<V>(pairs: Seq<(String, V)>, weight: spec_fn(V) -> nat)
    ensures
        map_total(pairs_map(pairs.take(0)), weight) == 0,
{
    lemma_pairs_map(pairs.take(0));
}

impl StrMap<u64> {
    /// The sum of all amounts.
    pub fn total(&self) -> (sum: u64)
        requires
            map_total(self@, amount()) <= u64::MAX,
        ensures
            sum == map_total(self@, amount()),
    {
        proof {
            use_type_invariant(self);
            lemma_empty_total(self.pairs@, amount());
        }
        let mut sum: u64 = 0;
        let mut i: usize = 0;
        while i < self.pairs.len()
            invariant
                i <= self.pairs@.len(),
                distinct_keys(self.pairs@),
                self@ == pairs_map(self.pairs@),
                map_total(self@, amount()) <= u64::MAX,
                sum == map_total(pairs_map(self.pairs@.take(i as int)), amount()),
            decreases self.pairs@.len() - i,
        {
            proof {
                lemma_prefix_total(self.pairs@, i as int, amount());
                lemma_prefix_total_bound(self.pairs@, i + 1, amount());
            }
            sum = sum + self.pairs[i].1;
            i += 1;
        }
        assert(self.pairs@.take(i as int) =~= self.pairs@);
        sum
    }
}

impl StrMap<(String, u64)> {
    /// The sum of the amounts that belong to `owner`.
    pub fn total_of(&self, owner: &str) -> (sum: u64)
        requires
            map_total(self@, amount_of(owner@)) <= u64::MAX,
        ensures
            sum == map_total(self@, amount_of(owner@)),
    {
        proof {
            use_type_invariant(self);
            lemma_empty_total(self.pairs@, amount_of(owner@));
        }
        let owner_string = owner.to_owned();
        let mut sum: u64 = 0;
        let mut i: usize = 0;
        while i < self.pairs.len()
            invariant
                i <= self.pairs@.len(),
                owner_string@ == owner@,
                distinct_keys(self.pairs@),
                self@ == pairs_map(self.pairs@),
                map_total(self@, amount_of(owner@)) <= u64::MAX,
                sum == map_total(pairs_map(self.pairs@.take(i as int)), amount_of(owner@)),
            decreases self.pairs@.len() - i,
        {
            proof {
                lemma_prefix_total(self.pairs@, i as int, amount_of(owner@));
                lemma_prefix_total_bound(self.pairs@, i + 1, amount_of(owner@));
            }
            if self.pairs[i].1.0 == owner_string {
                sum = sum + self.pairs[i].1.1;
            }
            i += 1;
        }
        assert(self.pairs@.take(i as int) =~= self.pairs@);
        sum
    }
}

/// A total grows by what is added under a new key, and what is removed leaves it.
pub proof fn law_totals_add_up<V>(m: Map<Seq<char>, V>, k: Seq<char>, v: V, weight: spec_fn(V) -> nat)
    requires
        m.dom().finite(),
    ensures
        map_total(Map::<Seq<char>, V>::empty(), weight) == 0,
        !m.contains_key(k) ==> map_total(m.insert(k, v), weight) == map_total(m, weight) + weight(v),
        m.contains_key(k) ==> map_total(m, weight) == map_total(m.remove(k), weight) + weight(m[k]),
{
    lemma_map_total_insert(m, k, v, weight);
}

/// An amount counts as it is; one with an owner counts for that owner alone.
pub proof fn law_amounts_count_for_their_owner(n: u64, owner: String, other: Seq<char>)
    ensures
        amount()(n) == n,
        amount_of(owner@)((owner, n)) == n,
        other != owner@ ==> amount_of(other)((owner, n)) == 0,
{
}

} // verus!
