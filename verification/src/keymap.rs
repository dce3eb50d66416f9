//! An insertion-ordered map whose keys are compared by their views.
//!
//! The ledgers of this crate (balances, allowances, pools, proposals, ...) are
//! all keyed by strings, string pairs or integers.  `KeyMap` stores its entries
//! in a vector, keeps the keys pairwise distinct and exposes a `Map` view.
use vstd::prelude::*;

verus! {

/// Keys that can be compared and copied with a result fixed by their views.
pub trait MapKey: View + Sized {
    fn key_eq(&self, other: &Self) -> (r: bool)
        ensures
            r == (self@ == other@),
    ;

    fn key_clone(&self) -> (r: Self)
        ensures
            r@ == self@,
    ;
}

impl MapKey for String {
    fn key_eq(&self, other: &Self) -> (r: bool) {
        *self == *other
    }

    fn key_clone(&self) -> (r: Self) {
        self.clone()
    }
}

impl MapKey for u64 {
    fn key_eq(&self, other: &Self) -> (r: bool) {
        *self == *other
    }

    fn key_clone(&self) -> (r: Self) {
        *self
    }
}

impl MapKey for u32 {
    fn key_eq(&self, other: &Self) -> (r: bool) {
        *self == *other
    }

    fn key_clone(&self) -> (r: Self) {
        *self
    }
}

impl MapKey for (String, String) {
    fn key_eq(&self, other: &Self) -> (r: bool) {
        self.0 == other.0 && self.1 == other.1
    }

    fn key_clone(&self) -> (r: Self) {
        (self.0.clone(), self.1.clone())
    }
}

impl MapKey for (String, u32) {
    fn key_eq(&self, other: &Self) -> (r: bool) {
        self.0 == other.0 && self.1 == other.1
    }

    fn key_clone(&self) -> (r: Self) {
        (self.0.clone(), self.1)
    }
}

/// A finite map stored as two parallel vectors (keys and values) whose keys
/// are pairwise distinct.
pub struct KeyMap<K: MapKey, V> {
    keys: Vec<K>,
    vals: Vec<V>,
}

/// Whether the key at position `i` of `s` has view `k`.
pub open spec fn key_at<K: View, V>(s: Seq<(K, V)>, i: int, k: K::V) -> bool {
    0 <= i < s.len() && s[i].0@ == k
}

/// The keys of `s` are pairwise distinct (by view).
pub open spec fn distinct_keys<K: View, V>(s: Seq<(K, V)>) -> bool {
    forall|i: int, j: int|
        0 <= i < s.len() && 0 <= j < s.len() && i != j ==> #[trigger] s[i].0@ != #[trigger] s[j].0@
}

/// The map denoted by a sequence of entries.
pub open spec fn entries_map<K: View, V>(s: Seq<(K, V)>) -> Map<K::V, V> {
    Map::new(
        |k: K::V| exists|i: int| #[trigger] key_at(s, i, k),
        |k: K::V| s[choose|i: int| #[trigger] key_at(s, i, k)].1,
    )
}

/// In a sequence with distinct keys, the entry at `i` is what the map holds for its key.
pub proof fn lemma_entries_map_at<K: View, V>(s: Seq<(K, V)>, i: int)
    requires
        distinct_keys(s),
        0 <= i < s.len(),
    ensures
        entries_map(s).contains_key(s[i].0@),
        entries_map(s)[s[i].0@] == s[i].1,
{
    let k = s[i].0@;
    assert(key_at(s, i, k));
    let j = choose|j: int| #[trigger] key_at(s, j, k);
    assert(key_at(s, j, k));
    assert(i == j);
}

/// The entries formed by pairing keys with values position by position.
pub open spec fn zip<K, V>(ks: Seq<K>, vs: Seq<V>) -> Seq<(K, V)> {
    Seq::new(ks.len(), |i: int| (ks[i], vs[i]))
}

/// The keys are pairwise distinct (by view).
pub open spec fn keys_distinct<K: View>(ks: Seq<K>) -> bool {
    forall|i: int, j: int|
        0 <= i < ks.len() && 0 <= j < ks.len() && i != j ==> #[trigger] ks[i]@ != #[trigger] ks[j]@
}

proof fn lemma_zip_distinct<K: View, V>(ks: Seq<K>, vs: Seq<V>)
    requires
        ks.len() == vs.len(),
    ensures
        keys_distinct(ks) <==> distinct_keys(zip(ks, vs)),
{
    let z = zip(ks, vs);
    if keys_distinct(ks) {
        assert forall|i: int, j: int|
            0 <= i < z.len() && 0 <= j < z.len() && i != j implies #[trigger] z[i].0@
            != #[trigger] z[j].0@ by {
            assert(z[i].0 == ks[i] && z[j].0 == ks[j]);
        }
    }
    if distinct_keys(z) {
        assert forall|i: int, j: int|
            0 <= i < ks.len() && 0 <= j < ks.len() && i != j implies #[trigger] ks[i]@
            != #[trigger] ks[j]@ by {
            assert(z[i].0 == ks[i] && z[j].0 == ks[j]);
        }
    }
}

proof fn lemma_zip_update<K, V>(ks: Seq<K>, vs: Seq<V>, i: int, k: K, v: V)
    requires
        ks.len() == vs.len(),
        0 <= i < ks.len(),
    ensures
        zip(ks.update(i, k), vs.update(i, v)) == zip(ks, vs).update(i, (k, v)),
{
    assert(zip(ks.update(i, k), vs.update(i, v)) =~= zip(ks, vs).update(i, (k, v)));
}

proof fn lemma_zip_push<K, V>(ks: Seq<K>, vs: Seq<V>, k: K, v: V)
    requires
        ks.len() == vs.len(),
    ensures
        zip(ks.push(k), vs.push(v)) == zip(ks, vs).push((k, v)),
{
    assert(zip(ks.push(k), vs.push(v)) =~= zip(ks, vs).push((k, v)));
}

proof fn lemma_zip_remove<K, V>(ks: Seq<K>, vs: Seq<V>, i: int)
    requires
        ks.len() == vs.len(),
        0 <= i < ks.len(),
    ensures
        zip(ks.remove(i), vs.remove(i)) == zip(ks, vs).remove(i),
{
    assert(zip(ks.remove(i), vs.remove(i)) =~= zip(ks, vs).remove(i));
}

impl<K: MapKey, V> View for KeyMap<K, V> {
    type V = Map<K::V, V>;

    closed spec fn view(&self) -> Map<K::V, V> {
        entries_map(self.entries())
    }
}

impl<K: MapKey, V> KeyMap<K, V> {
    #[verifier::type_invariant]
    pub closed spec fn wf(&self) -> bool {
        &&& self.keys@.len() == self.vals@.len()
        &&& keys_distinct(self.keys@)
    }

    /// The entries in insertion order.
    pub closed spec fn entries(&self) -> Seq<(K, V)> {
        zip(self.keys@, self.vals@)
    }

    proof fn lemma_wf(&self)
        requires
            self.wf(),
        ensures
            distinct_keys(self.entries()),
            self.entries().len() == self.keys@.len(),
    {
        lemma_zip_distinct(self.keys@, self.vals@);
    }

    /// The map holds a key exactly when some entry has it.
    pub proof fn lemma_contains_key(&self, k: K::V)
        ensures
            self@.contains_key(k) == exists|i: int| #[trigger] key_at(self.entries(), i, k),
    {
    }

    pub fn new() -> (r: Self)
        ensures
            r@ == Map::<K::V, V>::empty(),
            r.entries().len() == 0,
    {
        let r = KeyMap { keys: Vec::new(), vals: Vec::new() };
        assert(r@ =~= Map::<K::V, V>::empty());
        r
    }

    pub fn len(&self) -> (r: usize)
        ensures
            r == self.entries().len(),
            r == self@.len(),
            self@.dom().finite(),
            distinct_keys(self.entries()),
            self@ == entries_map(self.entries()),
    {
        proof {
            use_type_invariant(self);
            self.lemma_wf();
            lemma_map_len(self.entries());
        }
        self.keys.len()
    }

    pub fn is_empty(&self) -> (r: bool)
        ensures
            r == (self@.len() == 0),
            r == (self@ == Map::<K::V, V>::empty()),
    {
        proof {
            use_type_invariant(self);
            self.lemma_wf();
            lemma_map_len(self.entries());
            if self.entries().len() > 0 {
                lemma_entries_map_at(self.entries(), 0);
                assert(self@.contains_key(self.entries()[0].0@));
            } else {
                assert(self@ =~= Map::<K::V, V>::empty());
            }
        }
        self.keys.len() == 0
    }

    /// Position of `k` among the entries, if present.
    pub fn find(&self, k: &K) -> (r: Option<usize>)
        ensures
            match r {
                Some(i) => i < self.entries().len() && self.entries()[i as int].0@ == k@
                    && self@.contains_key(k@) && self@[k@] == self.entries()[i as int].1,
                None => !self@.contains_key(k@),
            },
    {
        proof {
            use_type_invariant(self);
            self.lemma_wf();
        }
        let mut i: usize = 0;
        while i < self.keys.len()
            invariant
                i <= self.keys@.len(),
                self.entries().len() == self.keys@.len(),
                distinct_keys(self.entries()),
                forall|j: int| 0 <= j < i ==> self.entries()[j].0@ != k@,
            decreases self.keys@.len() - i,
        {
            if self.keys[i].key_eq(k) {
                proof {
                    lemma_entries_map_at(self.entries(), i as int);
                }
                return Some(i);
            }
            i = i + 1;
        }
        proof {
            if self@.contains_key(k@) {
                let j = choose|j: int| #[trigger] key_at(self.entries(), j, k@);
                assert(key_at(self.entries(), j, k@));
            }
        }
        None
    }

    pub fn contains_key(&self, k: &K) -> (r: bool)
        ensures
            r == self@.contains_key(k@),
    {
        self.find(k).is_some()
    }

    pub fn get(&self, k: &K) -> (r: Option<&V>)
        ensures
            match r {
                Some(v) => self@.contains_key(k@) && *v == self@[k@],
                None => !self@.contains_key(k@),
            },
    {
        proof {
            use_type_invariant(self);
        }
        match self.find(k) {
            Some(i) => Some(&self.vals[i]),
            None => None,
        }
    }

    /// The entry at position `i`.
    pub fn entry_at(&self, i: usize) -> (r: (&K, &V))
        requires
            i < self.entries().len(),
        ensures
            *r.0 == self.entries()[i as int].0,
            *r.1 == self.entries()[i as int].1,
            self@.contains_key(r.0@),
            self@[r.0@] == *r.1,
    {
        proof {
            use_type_invariant(self);
            self.lemma_wf();
            lemma_entries_map_at(self.entries(), i as int);
        }
        (&self.keys[i], &self.vals[i])
    }

    /// A mutable reference to the value of the entry at position `i`.
    pub fn value_at_mut(&mut self, i: usize) -> (r: &mut V)
        requires
            i < old(self).entries().len(),
        ensures
            *r == old(self).entries()[i as int].1,
            final(self).entries() == old(self).entries().update(
                i as int,
                (old(self).entries()[i as int].0, *final(r)),
            ),
    {
        proof {
            use_type_invariant(&*self);
        }
        let ghost ks = self.keys@;
        let ghost vs = self.vals@;
        let r = &mut self.vals[i];
        proof {
            assert(zip(ks, vs.update(i as int, *final(r))) =~= zip(ks, vs).update(
                i as int,
                (ks[i as int], *final(r)),
            ));
        }
        r
    }

    /// A mutable reference to the value stored for `k`, if any.
    pub fn get_mut(&mut self, k: &K) -> (r: Option<&mut V>)
        ensures
            r is Some <==> old(self)@.contains_key(k@),
            r is None ==> final(self)@ == old(self)@,
            r matches Some(v) ==> *v == old(self)@[k@] && final(self)@ == old(self)@.insert(
                k@,
                *final(v),
            ),
    {
        proof {
            use_type_invariant(&*self);
            self.lemma_wf();
        }
        match self.find(k) {
            Some(i) => {
                let ghost es = self.entries();
                let v = self.value_at_mut(i);
                proof {
                    lemma_set_entry(es, i as int, (es[i as int].0, *final(v)));
                }
                Some(v)
            },
            None => None,
        }
    }

    /// A mutable reference to the value stored for `k`, which must be present.
    pub fn value_mut(&mut self, k: &K) -> (r: &mut V)
        requires
            old(self)@.contains_key(k@),
        ensures
            *r == old(self)@[k@],
            final(self)@ == old(self)@.insert(k@, *final(r)),
    {
        proof {
            use_type_invariant(&*self);
            self.lemma_wf();
        }
        let i = match self.find(k) {
            Some(i) => i,
            None => {
                proof {
                    assert(false);
                }
                0
            },
        };
        let ghost es = self.entries();
        let v = self.value_at_mut(i);
        proof {
            lemma_set_entry(es, i as int, (es[i as int].0, *final(v)));
        }
        v
    }

    /// Takes the map apart into its key and value vectors.
    fn into_parts(self) -> (r: (Vec<K>, Vec<V>))
        ensures
            r.0@.len() == r.1@.len(),
            keys_distinct(r.0@),
            zip(r.0@, r.1@) == self.entries(),
    {
        proof {
            use_type_invariant(&self);
        }
        let KeyMap { keys, vals } = self;
        (keys, vals)
    }

    /// Maps `k` to `v`; an existing entry keeps its position, a new one is appended.
    pub fn insert(&mut self, k: K, v: V)
        ensures
            final(self)@ == old(self)@.insert(k@, v),
            old(self)@.contains_key(k@) ==> exists|i: int|
                0 <= i < old(self).entries().len() && old(self).entries()[i].0@ == k@
                    && #[trigger] final(self).entries() == old(self).entries().update(i, (k, v)),
            !old(self)@.contains_key(k@) ==> final(self).entries() == old(self).entries().push((k, v)),
    {
        let ghost old_entries = self.entries();
        let found = self.find(&k);
        let mut tmp = KeyMap::new();
        std::mem::swap(self, &mut tmp);
        let (mut ks, mut vs) = tmp.into_parts();
        proof {
            lemma_zip_distinct(ks@, vs@);
        }
        match found {
            Some(i) => {
                proof {
                    lemma_zip_update(ks@, vs@, i as int, k, v);
                    lemma_set_entry(old_entries, i as int, (k, v));
                }
                ks.set(i, k);
                vs.set(i, v);
            },
            None => {
                proof {
                    lemma_zip_push(ks@, vs@, k, v);
                    lemma_push_entry(old_entries, (k, v));
                }
                ks.push(k);
                vs.push(v);
            },
        }
        proof {
            lemma_zip_distinct(ks@, vs@);
        }
        *self = KeyMap { keys: ks, vals: vs };
    }

    /// Removes the entry for `k` (if any), keeping the others in order.
    pub fn remove(&mut self, k: &K) -> (r: Option<V>)
        ensures
            final(self)@ == old(self)@.remove(k@),
            match r {
                Some(v) => old(self)@.contains_key(k@) && v == old(self)@[k@],
                None => !old(self)@.contains_key(k@),
            },
    {
        match self.find(k) {
            Some(i) => {
                let (_, v) = self.remove_at(i);
                Some(v)
            },
            None => {
                assert(self@ =~= old(self)@.remove(k@));
                None
            },
        }
    }

    /// Removes the entry at position `i` and hands it back.
    pub fn remove_at(&mut self, i: usize) -> (r: (K, V))
        requires
            i < old(self).entries().len(),
        ensures
            r == old(self).entries()[i as int],
            old(self)@.contains_key(r.0@),
            old(self)@[r.0@] == r.1,
            final(self)@ == old(self)@.remove(r.0@),
            final(self).entries() == old(self).entries().remove(i as int),
    {
        proof {
            use_type_invariant(&*self);
            self.lemma_wf();
            lemma_entries_map_at(self.entries(), i as int);
        }
        let ghost old_entries = self.entries();
        let mut tmp = KeyMap::new();
        std::mem::swap(self, &mut tmp);
        let (mut ks, mut vs) = tmp.into_parts();
        proof {
            lemma_zip_remove(ks@, vs@, i as int);
            lemma_remove_entry(old_entries, i as int);
        }
        let k = ks.remove(i);
        let v = vs.remove(i);
        proof {
            lemma_zip_distinct(ks@, vs@);
        }
        *self = KeyMap { keys: ks, vals: vs };
        (k, v)
    }
}

impl KeyMap<String, u64> {
    /// Sum of all stored amounts.
    pub open spec fn total(&self) -> int {
        sum_values(self.entries())
    }

    /// The amount stored for `k`, or zero.
    pub fn amount(&self, k: &str) -> (r: u64)
        ensures
            r == get_or_zero(self@, k@),
            r <= self.total(),
    {
        let key = k.to_owned();
        match self.find(&key) {
            Some(i) => {
                proof {
                    lemma_sum_bound(self.entries(), i as int);
                }
                *self.entry_at(i).1
            },
            None => {
                proof {
                    lemma_sum_nonneg(self.entries());
                }
                0
            },
        }
    }

    /// Sum of all stored amounts, when it fits in a `u64`.
    pub fn sum(&self) -> (r: u64)
        requires
            self.total() <= u64::MAX,
        ensures
            r == self.total(),
    {
        let n = self.len();
        let mut acc: u64 = 0;
        let mut i: usize = 0;
        while i < n
            invariant
                n == self.entries().len(),
                i <= n,
                acc == sum_values(self.entries().take(i as int)),
                self.total() <= u64::MAX,
            decreases n - i,
        {
            let v = *self.entry_at(i).1;
            proof {
                assert(self.entries().take(i + 1).drop_last() == self.entries().take(i as int));
                lemma_sum_prefix(self.entries(), i + 1);
            }
            acc = acc + v;
            i = i + 1;
        }
        assert(self.entries().take(n as int) == self.entries());
        acc
    }

    /// Stores `v` for `k`; the total changes by the difference.
    pub fn set_amount(&mut self, k: &str, v: u64)
        ensures
            final(self)@ == old(self)@.insert(k@, v),
            final(self).total() == old(self).total() - get_or_zero(old(self)@, k@) + v,
    {
        proof {
            use_type_invariant(&*self);
        }
        let key = k.to_owned();
        let ghost old_entries = self.entries();
        let ghost had = self@.contains_key(k@);
        let ghost oldv = get_or_zero(self@, k@);
        self.insert(key, v);
        proof {
            if had {
                let i = choose|i: int|
                    0 <= i < old_entries.len() && old_entries[i].0@ == k@
                        && #[trigger] self.entries() == old_entries.update(i, (key, v));
                lemma_sum_update(old_entries, i, (key, v));
                lemma_entries_map_at(old_entries, i);
            } else {
                lemma_sum_push(old_entries, (key, v));
            }
        }
    }
}

/// In a well-formed map, the entry at `i` carries the map's value for its key.
pub proof fn lemma_distinct_index<K: MapKey, V>(m: &KeyMap<K, V>, i: int)
    requires
        distinct_keys(m.entries()),
        m@ == entries_map(m.entries()),
        0 <= i < m.entries().len(),
    ensures
        m@.contains_key(m.entries()[i].0@),
        m@[m.entries()[i].0@] == m.entries()[i].1,
{
    lemma_entries_map_at(m.entries(), i);
}

/// The value stored for `k`, or zero when there is none.
pub open spec fn get_or_zero<K>(m: Map<K, u64>, k: K) -> u64 {
    if m.contains_key(k) {
        m[k]
    } else {
        0
    }
}

/// Sum of the values of a sequence of entries.
pub open spec fn sum_values<K>(s: Seq<(K, u64)>) -> int
    decreases s.len(),
{
    if s.len() == 0 {
        0
    } else {
        sum_values(s.drop_last()) + s.last().1
    }
}

pub proof fn lemma_sum_push<K>(s: Seq<(K, u64)>, e: (K, u64))
    ensures
        sum_values(s.push(e)) == sum_values(s) + e.1,
{
    assert(s.push(e).drop_last() == s);
}

pub proof fn lemma_sum_update<K>(s: Seq<(K, u64)>, i: int, e: (K, u64))
    requires
        0 <= i < s.len(),
    ensures
        sum_values(s.update(i, e)) == sum_values(s) - s[i].1 + e.1,
    decreases s.len(),
{
    let t = s.update(i, e);
    if i == s.len() - 1 {
        assert(t.drop_last() == s.drop_last());
    } else {
        assert(t.drop_last() == s.drop_last().update(i, e));
        lemma_sum_update(s.drop_last(), i, e);
    }
}

pub proof fn lemma_sum_remove<K>(s: Seq<(K, u64)>, i: int)
    requires
        0 <= i < s.len(),
    ensures
        sum_values(s.remove(i)) == sum_values(s) - s[i].1,
    decreases s.len(),
{
    let t = s.remove(i);
    if i == s.len() - 1 {
        assert(t == s.drop_last());
    } else {
        assert(t.drop_last() == s.drop_last().remove(i));
        lemma_sum_remove(s.drop_last(), i);
    }
}

/// Every value is at most the sum, and the sum is non-negative.
pub proof fn lemma_sum_bound<K>(s: Seq<(K, u64)>, i: int)
    requires
        0 <= i < s.len(),
    ensures
        s[i].1 <= sum_values(s),
    decreases s.len(),
{
    lemma_sum_nonneg(s.drop_last());
    if i < s.len() - 1 {
        lemma_sum_bound(s.drop_last(), i);
    }
}

/// A prefix sums to at most the whole.
pub proof fn lemma_sum_prefix<K>(s: Seq<(K, u64)>, i: int)
    requires
        0 <= i <= s.len(),
    ensures
        0 <= sum_values(s.take(i)) <= sum_values(s),
    decreases s.len() - i,
{
    lemma_sum_nonneg(s.take(i));
    if i < s.len() {
        lemma_sum_prefix(s, i + 1);
        assert(s.take(i + 1).drop_last() == s.take(i));
    } else {
        assert(s.take(i) == s);
    }
}

pub proof fn lemma_sum_nonneg<K>(s: Seq<(K, u64)>)
    ensures
        sum_values(s) >= 0,
    decreases s.len(),
{
    if s.len() > 0 {
        lemma_sum_nonneg(s.drop_last());
    }
}

/// The map of a sequence with distinct keys has as many keys as there are entries.
pub proof fn lemma_map_len<K: View, V>(s: Seq<(K, V)>)
    requires
        distinct_keys(s),
    ensures
        entries_map(s).dom().finite(),
        entries_map(s).len() == s.len(),
    decreases s.len(),
{
    if s.len() == 0 {
        assert(entries_map(s).dom() =~= Set::<K::V>::empty());
    } else {
        let t = s.drop_last();
        let last = s[s.len() - 1];
        assert(distinct_keys(t)) by {
            assert forall|i: int, j: int|
                0 <= i < t.len() && 0 <= j < t.len() && i != j implies #[trigger] t[i].0@
                != #[trigger] t[j].0@ by {
                assert(t[i] == s[i] && t[j] == s[j]);
            }
        }
        lemma_map_len(t);
        assert(entries_map(s).dom() =~= entries_map(t).dom().insert(last.0@)) by {
            assert forall|k: K::V| #[trigger] entries_map(s).dom().contains(k) implies entries_map(
                t,
            ).dom().insert(last.0@).contains(k) by {
                let i = choose|i: int| #[trigger] key_at(s, i, k);
                if i < s.len() - 1 {
                    assert(key_at(t, i, k));
                }
            }
            assert forall|k: K::V| #[trigger] entries_map(t).dom().insert(last.0@).contains(
                k,
            ) implies entries_map(s).dom().contains(k) by {
                if k == last.0@ {
                    assert(key_at(s, s.len() - 1, k));
                } else {
                    let i = choose|i: int| #[trigger] key_at(t, i, k);
                    assert(key_at(s, i, k));
                }
            }
        }
        assert(!entries_map(t).dom().contains(last.0@)) by {
            if entries_map(t).dom().contains(last.0@) {
                let i = choose|i: int| #[trigger] key_at(t, i, last.0@);
                assert(s[i].0@ == s[s.len() - 1].0@);
            }
        }
    }
}

pub proof fn lemma_set_entry<K: View, V>(s: Seq<(K, V)>, i: int, e: (K, V))
    requires
        distinct_keys(s),
        0 <= i < s.len(),
        s[i].0@ == e.0@,
    ensures
        distinct_keys(s.update(i, e)),
        entries_map(s.update(i, e)) == entries_map(s).insert(e.0@, e.1),
{
    let t = s.update(i, e);
    assert(distinct_keys(t)) by {
        assert forall|a: int, b: int|
            0 <= a < t.len() && 0 <= b < t.len() && a != b implies #[trigger] t[a].0@
            != #[trigger] t[b].0@ by {
            assert(t[a].0@ == s[a].0@);
            assert(t[b].0@ == s[b].0@);
        }
    }
    assert(entries_map(t) =~= entries_map(s).insert(e.0@, e.1)) by {
        assert forall|k: K::V| #[trigger] entries_map(t).contains_key(k) <==> entries_map(
            s,
        ).insert(e.0@, e.1).contains_key(k) by {
            if entries_map(t).contains_key(k) {
                let a = choose|a: int| #[trigger] key_at(t, a, k);
                assert(key_at(s, a, k));
            }
            if entries_map(s).contains_key(k) {
                let a = choose|a: int| #[trigger] key_at(s, a, k);
                assert(key_at(t, a, k));
            }
            if k == e.0@ {
                assert(key_at(t, i, k));
            }
        }
        assert forall|k: K::V| #[trigger] entries_map(t).contains_key(k) implies entries_map(t)[k]
            == entries_map(s).insert(e.0@, e.1)[k] by {
            let a = choose|a: int| #[trigger] key_at(t, a, k);
            assert(key_at(t, a, k));
            lemma_entries_map_at(t, a);
            if a != i {
                assert(key_at(s, a, k));
                lemma_entries_map_at(s, a);
            }
        }
    }
}

proof fn lemma_push_entry<K: View, V>(s: Seq<(K, V)>, e: (K, V))
    requires
        distinct_keys(s),
        !entries_map(s).contains_key(e.0@),
    ensures
        distinct_keys(s.push(e)),
        entries_map(s.push(e)) == entries_map(s).insert(e.0@, e.1),
{
    let t = s.push(e);
    assert(distinct_keys(t)) by {
        assert forall|a: int, b: int|
            0 <= a < t.len() && 0 <= b < t.len() && a != b implies #[trigger] t[a].0@
            != #[trigger] t[b].0@ by {
            if a == s.len() {
                assert(!key_at(s, b, e.0@));
            } else if b == s.len() {
                assert(!key_at(s, a, e.0@));
            } else {
                assert(t[a] == s[a] && t[b] == s[b]);
            }
        }
    }
    assert(entries_map(t) =~= entries_map(s).insert(e.0@, e.1)) by {
        assert forall|k: K::V| #[trigger] entries_map(t).contains_key(k) <==> entries_map(
            s,
        ).insert(e.0@, e.1).contains_key(k) by {
            if entries_map(t).contains_key(k) {
                let a = choose|a: int| #[trigger] key_at(t, a, k);
                if a < s.len() {
                    assert(key_at(s, a, k));
                }
            }
            if entries_map(s).contains_key(k) {
                let a = choose|a: int| #[trigger] key_at(s, a, k);
                assert(key_at(t, a, k));
            }
            if k == e.0@ {
                assert(key_at(t, s.len() as int, k));
            }
        }
        assert forall|k: K::V| #[trigger] entries_map(t).contains_key(k) implies entries_map(t)[k]
            == entries_map(s).insert(e.0@, e.1)[k] by {
            let a = choose|a: int| #[trigger] key_at(t, a, k);
            assert(key_at(t, a, k));
            lemma_entries_map_at(t, a);
            if a < s.len() {
                assert(key_at(s, a, k));
                lemma_entries_map_at(s, a);
            }
        }
    }
}

proof fn lemma_remove_entry<K: View, V>(s: Seq<(K, V)>, i: int)
    requires
        distinct_keys(s),
        0 <= i < s.len(),
    ensures
        distinct_keys(s.remove(i)),
        entries_map(s.remove(i)) == entries_map(s).remove(s[i].0@),
{
    let t = s.remove(i);
    let k0 = s[i].0@;
    assert forall|a: int| 0 <= a < t.len() implies #[trigger] t[a] == (if a < i {
        s[a]
    } else {
        s[a + 1]
    }) by {}
    assert(distinct_keys(t)) by {
        assert forall|a: int, b: int|
            0 <= a < t.len() && 0 <= b < t.len() && a != b implies #[trigger] t[a].0@
            != #[trigger] t[b].0@ by {
            let sa = if a < i {
                a
            } else {
                a + 1
            };
            let sb = if b < i {
                b
            } else {
                b + 1
            };
            assert(t[a] == s[sa] && t[b] == s[sb]);
        }
    }
    assert(entries_map(t) =~= entries_map(s).remove(k0)) by {
        assert forall|k: K::V| #[trigger] entries_map(t).contains_key(k) <==> entries_map(
            s,
        ).remove(k0).contains_key(k) by {
            if entries_map(t).contains_key(k) {
                let a = choose|a: int| #[trigger] key_at(t, a, k);
                let sa = if a < i {
                    a
                } else {
                    a + 1
                };
                assert(t[a] == s[sa]);
                assert(key_at(s, sa, k));
            }
            if entries_map(s).contains_key(k) && k != k0 {
                let a = choose|a: int| #[trigger] key_at(s, a, k);
                if a < i {
                    assert(t[a] == s[a]);
                    assert(key_at(t, a, k));
                } else {
                    assert(a != i);
                    assert(t[a - 1] == s[a]);
                    assert(key_at(t, a - 1, k));
                }
            }
        }
        assert forall|k: K::V| #[trigger] entries_map(t).contains_key(k) implies entries_map(t)[k]
            == entries_map(s).remove(k0)[k] by {
            let a = choose|a: int| #[trigger] key_at(t, a, k);
            assert(key_at(t, a, k));
            lemma_entries_map_at(t, a);
            let sa = if a < i {
                a
            } else {
                a + 1
            };
            assert(t[a] == s[sa]);
            assert(key_at(s, sa, k));
            lemma_entries_map_at(s, sa);
        }
    }
}

/// A finite set of strings (the keys of a map to `()`).
pub struct StrSet {
    items: KeyMap<String, ()>,
}

impl View for StrSet {
    type V = Set<Seq<char>>;

    closed spec fn view(&self) -> Set<Seq<char>> {
        self.items@.dom()
    }
}

impl StrSet {
    pub fn new() -> (r: Self)
        ensures
            r@ == Set::<Seq<char>>::empty(),
    {
        let r = StrSet { items: KeyMap::new() };
        assert(r@ =~= Set::<Seq<char>>::empty());
        r
    }

    pub fn contains(&self, s: &str) -> (r: bool)
        ensures
            r == self@.contains(s@),
    {
        self.items.contains_key(&s.to_owned())
    }

    pub fn insert(&mut self, s: &str)
        ensures
            final(self)@ == old(self)@.insert(s@),
    {
        self.items.insert(s.to_owned(), ());
        assert(self@ =~= old(self)@.insert(s@));
    }

    pub fn remove(&mut self, s: &str)
        ensures
            final(self)@ == old(self)@.remove(s@),
    {
        let _ = self.items.remove(&s.to_owned());
        assert(self@ =~= old(self)@.remove(s@));
    }

    pub fn len(&self) -> (r: usize)
        ensures
            r == self@.len(),
            self@.finite(),
    {
        self.items.len()
    }

    pub fn is_empty(&self) -> (r: bool)
        ensures
            r == (self@.len() == 0),
            self@.finite(),
    {
        self.items.len() == 0
    }
}

} // verus!
