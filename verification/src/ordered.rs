//! A map that keeps its entries in the order of their keys.
//!
//! The entries live in a vector sorted by key, with no key twice. What the
//! map holds is stated twice: as the sorted listing of its entries, and as
//! the mathematical map from keys to values. Either one determines the
//! other (`lemma_listing_determined`).

use vstd::prelude::*;

verus! {

/// A value that can be copied in full, with a model that the copy shares.
pub trait Plain: Sized {
    type Model;

    spec fn model(&self) -> Self::Model;

    fn duplicate(&self) -> (copy: Self)
        ensures
            copy.model() == self.model(),
    ;
}

/// A key with a strict total order on its model.
pub trait OrderedKey: Plain {
    spec fn precedes(a: Self::Model, b: Self::Model) -> bool;

    proof fn lemma_irreflexive(a: Self::Model)
        ensures
            !Self::precedes(a, a),
    ;

    proof fn lemma_transitive(a: Self::Model, b: Self::Model, c: Self::Model)
        requires
            Self::precedes(a, b),
            Self::precedes(b, c),
        ensures
            Self::precedes(a, c),
    ;

    proof fn lemma_total(a: Self::Model, b: Self::Model)
        ensures
            a == b || Self::precedes(a, b) || Self::precedes(b, a),
    ;

    fn is_before(&self, other: &Self) -> (before: bool)
        ensures
            before == Self::precedes(self.model(), other.model()),
    ;
}

/// Whether the keys of `listing` strictly ascend.
pub open spec fn ascending<K: OrderedKey, M>(listing: Seq<(K::Model, M)>) -> bool {
    forall|i: int, j: int|
        0 <= i < j < listing.len() ==> K::precedes((#[trigger] listing[i]).0, (#[trigger] listing[j]).0)
}

/// Whether `listing` has an entry for `key`.
pub open spec fn lists<KM, M>(listing: Seq<(KM, M)>, key: KM) -> bool {
    exists|i: int| 0 <= i < listing.len() && (#[trigger] listing[i]).0 == key
}

/// The position of an entry for `key` in `listing`.
pub open spec fn position<KM, M>(listing: Seq<(KM, M)>, key: KM) -> int {
    choose|i: int| 0 <= i < listing.len() && (#[trigger] listing[i]).0 == key
}

/// The map that binds each key of `listing` to the value listed with it.
pub open spec fn bindings<KM, M>(listing: Seq<(KM, M)>) -> Map<KM, M> {
    Map::new(|key: KM| lists(listing, key), |key: KM| listing[position(listing, key)].1)
}

/// In an ascending listing every key stands at one position only, so the
/// bindings of the listing give each key the value listed with it.
pub proof fn lemma_bindings_at<K: OrderedKey, M>(listing: Seq<(K::Model, M)>, i: int)
    requires
        ascending::<K, M>(listing),
        0 <= i < listing.len(),
    ensures
        lists(listing, listing[i].0),
        position(listing, listing[i].0) == i,
        bindings(listing)[listing[i].0] == listing[i].1,
{
    let key = listing[i].0;
    assert(lists(listing, key));
    let j = position(listing, key);
    K::lemma_irreflexive(key);
    if j < i {
        assert(K::precedes(listing[j].0, listing[i].0));
    } else if i < j {
        assert(K::precedes(listing[i].0, listing[j].0));
    }
}

/// Two ascending listings with the same bindings are the same listing.
pub proof fn lemma_listing_determined<K: OrderedKey, M>(
    a: Seq<(K::Model, M)>,
    b: Seq<(K::Model, M)>,
)
    requires
        ascending::<K, M>(a),
        ascending::<K, M>(b),
        bindings(a) == bindings(b),
    ensures
        a == b,
    decreases a.len(),
{
    if a.len() == 0 {
        if b.len() > 0 {
            lemma_bindings_at::<K, M>(b, 0);
            assert(bindings(b).dom().contains(b[0].0));
            assert(lists(a, b[0].0));
        }
        assert(a =~= b);
    } else {
        // the last entry of `a` is the last entry of `b`
        let last = a.len() - 1;
        lemma_bindings_at::<K, M>(a, last);
        assert(bindings(a).dom().contains(a[last].0));
        assert(lists(b, a[last].0));
        let at = position(b, a[last].0);
        lemma_bindings_at::<K, M>(b, at);
        if at < b.len() - 1 {
            let tail = b.len() - 1;
            lemma_bindings_at::<K, M>(b, tail);
            assert(bindings(b).dom().contains(b[tail].0));
            assert(lists(a, b[tail].0));
            let back = position(a, b[tail].0);
            assert(K::precedes(b[at].0, b[tail].0));
            K::lemma_irreflexive(a[last].0);
            if back < last {
                assert(K::precedes(a[back].0, a[last].0));
                K::lemma_transitive(a[last].0, a[back].0, a[last].0);
            }
            assert(false);
        }
        assert(a[last] == b[at]);
        let a_rest = a.drop_last();
        let b_rest = b.drop_last();
        assert(ascending::<K, M>(a_rest));
        assert(ascending::<K, M>(b_rest));
        assert(bindings(a_rest) =~= bindings(b_rest)) by {
            assert forall|key: K::Model| lists(a_rest, key) <==> lists(b_rest, key) by {
                lemma_rest_lists::<K, M>(a, key);
                lemma_rest_lists::<K, M>(b, key);
                assert(bindings(a).dom().contains(key) == bindings(b).dom().contains(key));
                assert(bindings(a).dom().contains(key) == lists(a, key));
                assert(bindings(b).dom().contains(key) == lists(b, key));
                assert(lists(a, key) == lists(b, key));
                assert(a.last().0 == b.last().0);
            }
            assert forall|key: K::Model| lists(a_rest, key) implies bindings(a_rest)[key]
                == bindings(b_rest)[key] by {
                lemma_rest_binding::<K, M>(a, key);
                lemma_rest_binding::<K, M>(b, key);
            }
        }
        lemma_listing_determined::<K, M>(a_rest, b_rest);
        assert(a =~= a_rest.push(a[last]));
        assert(b =~= b_rest.push(b[at]));
    }
}

/// Without its last entry, an ascending listing lists the keys it listed
/// before, but for the key of that entry.
proof fn lemma_rest_lists<K: OrderedKey, M>(listing: Seq<(K::Model, M)>, key: K::Model)
    requires
        ascending::<K, M>(listing),
        listing.len() > 0,
    ensures
        lists(listing.drop_last(), key) <==> lists(listing, key) && key != listing.last().0,
{
    let rest = listing.drop_last();
    if lists(rest, key) {
        let i = position(rest, key);
        assert(listing[i].0 == key);
        assert(K::precedes(listing[i].0, listing[listing.len() - 1].0));
        K::lemma_irreflexive(key);
    }
    if lists(listing, key) && key != listing.last().0 {
        let i = position(listing, key);
        assert(rest[i].0 == key);
    }
}

/// Without its last entry, an ascending listing binds the keys it still
/// lists to the values it bound them to before.
proof fn lemma_rest_binding<K: OrderedKey, M>(listing: Seq<(K::Model, M)>, key: K::Model)
    requires
        ascending::<K, M>(listing),
        listing.len() > 0,
        lists(listing.drop_last(), key),
    ensures
        bindings(listing.drop_last())[key] == bindings(listing)[key],
{
    let rest = listing.drop_last();
    let i = position(rest, key);
    assert(ascending::<K, M>(rest));
    lemma_bindings_at::<K, M>(rest, i);
    assert(listing[i] == rest[i]);
    lemma_bindings_at::<K, M>(listing, i);
}

/// The models of the entries of `entries`, in their order.
pub open spec fn models<K: Plain, V: Plain>(entries: Seq<(K, V)>) -> Seq<(K::Model, V::Model)> {
    entries.map_values(|entry: (K, V)| (entry.0.model(), entry.1.model()))
}

pub struct OrderedMap<K: OrderedKey, V: Plain> {
    entries: Vec<(K, V)>,
}

impl<K: OrderedKey, V: Plain> OrderedMap<K, V> {
    /// The entries of the map, ascending by key.
    pub closed spec fn listing(&self) -> Seq<(K::Model, V::Model)> {
        models(self.entries@)
    }

    /// The keys of the map ascend strictly: no key occurs twice.
    pub open spec fn wf(&self) -> bool {
        ascending::<K, V::Model>(self.listing())
    }

    /// The value that each key of the map is bound to.
    pub open spec fn view(&self) -> Map<K::Model, V::Model> {
        bindings(self.listing())
    }

    pub fn new() -> (map: Self)
        ensures
            map.wf(),
            map.listing() == Seq::<(K::Model, V::Model)>::empty(),
    {
        let map = OrderedMap { entries: Vec::new() };
        assert(map.listing() =~= Seq::<(K::Model, V::Model)>::empty());
        map
    }

    pub fn len(&self) -> (len: usize)
        ensures
            len == self.listing().len(),
    {
        self.entries.len()
    }

    /// The key of the entry at position `i` of the listing.
    pub fn key_at(&self, i: usize) -> (key: &K)
        requires
            i < self.listing().len(),
        ensures
            key.model() == self.listing()[i as int].0,
    {
        &self.entries[i].0
    }

    /// The value of the entry at position `i` of the listing.
    pub fn value_at(&self, i: usize) -> (value: &V)
        requires
            i < self.listing().len(),
        ensures
            value.model() == self.listing()[i as int].1,
    {
        &self.entries[i].1
    }

    /// The number of entries whose key is before `key`; with an ascending
    /// listing they are the entries at the positions below that number.
    fn rank(&self, key: &K) -> (rank: usize)
        requires
            self.wf(),
        ensures
            rank <= self.listing().len(),
            forall|i: int| 0 <= i < rank ==> K::precedes((#[trigger] self.listing()[i]).0, key.model()),
            forall|i: int|
                rank <= i < self.listing().len() ==> !K::precedes(
                    (#[trigger] self.listing()[i]).0,
                    key.model(),
                ),
    {
        let mut rank: usize = 0;
        while rank < self.entries.len() && self.entries[rank].0.is_before(key)
            invariant
                self.wf(),
                rank <= self.entries.len(),
                forall|i: int|
                    0 <= i < rank ==> K::precedes((#[trigger] self.listing()[i]).0, key.model()),
            decreases self.entries.len() - rank,
        {
            rank += 1;
        }
        proof {
            if rank < self.entries.len() {
                assert(!K::precedes(self.listing()[rank as int].0, key.model()));
                assert forall|i: int| rank <= i < self.listing().len() implies !K::precedes(
                    (#[trigger] self.listing()[i]).0,
                    key.model(),
                ) by {
                    if rank < i && K::precedes(self.listing()[i].0, key.model()) {
                        assert(K::precedes(self.listing()[rank as int].0, self.listing()[i].0));
                        K::lemma_transitive(
                            self.listing()[rank as int].0,
                            self.listing()[i].0,
                            key.model(),
                        );
                    }
                }
            }
        }
        rank
    }

    /// The position of the entry for `key`, if the map has one.
    fn find(&self, key: &K) -> (found: Option<usize>)
        requires
            self.wf(),
        ensures
            match found {
                Some(i) => i < self.listing().len() && self.listing()[i as int].0 == key.model(),
                None => !lists(self.listing(), key.model()),
            },
    {
        let rank = self.rank(key);
        if rank < self.entries.len() && !key.is_before(&self.entries[rank].0) {
            proof {
                K::lemma_total(self.listing()[rank as int].0, key.model());
            }
            Some(rank)
        } else {
            proof {
                if lists(self.listing(), key.model()) {
                    let i = position(self.listing(), key.model());
                    K::lemma_irreflexive(key.model());
                    if i > rank {
                        assert(K::precedes(self.listing()[rank as int].0, self.listing()[i].0));
                    }
                }
            }
            None
        }
    }

    pub fn contains_key(&self, key: &K) -> (found: bool)
        requires
            self.wf(),
        ensures
            found == self@.dom().contains(key.model()),
    {
        self.find(key).is_some()
    }

    /// The value that `key` is bound to.
    pub fn get(&self, key: &K) -> (found: Option<&V>)
        requires
            self.wf(),
        ensures
            match found {
                Some(value) => self@.dom().contains(key.model()) && value.model() == self@[key.model()],
                None => !self@.dom().contains(key.model()),
            },
    {
        match self.find(key) {
            Some(i) => {
                proof {
                    lemma_bindings_at::<K, V::Model>(self.listing(), i as int);
                }
                Some(&self.entries[i].1)
            },
            None => None,
        }
    }

    /// Binds `key` to `value` and returns the value it was bound to before.
    pub fn insert(&mut self, key: K, value: V) -> (before: Option<V>)
        requires
            old(self).wf(),
        ensures
            final(self).wf(),
            final(self)@ == old(self)@.insert(key.model(), value.model()),
            final(self).listing().len() == old(self).listing().len() + if before is Some {
                0int
            } else {
                1int
            },
            match before {
                Some(replaced) => old(self)@.dom().contains(key.model()) && replaced.model() == old(self)@[key.model()],
                None => !old(self)@.dom().contains(key.model()),
            },
    {
        let rank = self.rank(&key);
        let ghost before_listing = self.listing();
        let ghost entry = (key.model(), value.model());
        if rank < self.entries.len() && !key.is_before(&self.entries[rank].0) {
            proof {
                K::lemma_total(before_listing[rank as int].0, key.model());
                lemma_bindings_at::<K, V::Model>(before_listing, rank as int);
            }
            let replaced = self.entries.remove(rank);
            self.entries.insert(rank, (key, value));
            proof {
                assert(self.listing() =~= before_listing.update(rank as int, entry));
                lemma_update_bindings::<K, V::Model>(before_listing, rank as int, entry.1);
            }
            Some(replaced.1)
        } else {
            proof {
                assert forall|i: int| rank <= i < before_listing.len() implies K::precedes(
                    key.model(),
                    (#[trigger] before_listing[i]).0,
                ) by {
                    if i > rank {
                        assert(K::precedes(before_listing[rank as int].0, before_listing[i].0));
                        K::lemma_transitive(
                            key.model(),
                            before_listing[rank as int].0,
                            before_listing[i].0,
                        );
                    }
                }
                if lists(before_listing, key.model()) {
                    let i = position(before_listing, key.model());
                    K::lemma_irreflexive(key.model());
                }
            }
            self.entries.insert(rank, (key, value));
            proof {
                assert(self.listing() =~= before_listing.insert(rank as int, entry));
                lemma_insert_bindings::<K, V::Model>(before_listing, rank as int, entry);
            }
            None
        }
    }

    /// Takes the entry for `key` out of the map and returns its value.
    pub fn remove(&mut self, key: &K) -> (removed: Option<V>)
        requires
            old(self).wf(),
        ensures
            final(self).wf(),
            final(self)@ == old(self)@.remove(key.model()),
            final(self).listing().len() == old(self).listing().len() - if removed is Some {
                1int
            } else {
                0int
            },
            match removed {
                Some(value) => old(self)@.dom().contains(key.model()) && value.model() == old(self)@[key.model()],
                None => !old(self)@.dom().contains(key.model()),
            },
    {
        let ghost before_listing = self.listing();
        match self.find(key) {
            Some(i) => {
                proof {
                    lemma_bindings_at::<K, V::Model>(before_listing, i as int);
                }
                let entry = self.entries.remove(i);
                proof {
                    assert(self.listing() =~= before_listing.remove(i as int));
                    lemma_remove_bindings::<K, V::Model>(before_listing, i as int);
                }
                Some(entry.1)
            },
            None => {
                assert(self@ =~= old(self)@.remove(key.model()));
                None
            },
        }
    }

    /// A copy of every entry, ascending by key.
    pub fn entries(&self) -> (copies: Vec<(K, V)>)
        ensures
            models(copies@) == self.listing(),
    {
        let mut copies: Vec<(K, V)> = Vec::new();
        let mut i: usize = 0;
        while i < self.entries.len()
            invariant
                i <= self.entries.len(),
                copies@.len() == i,
                models(copies@) == self.listing().take(i as int),
            decreases self.entries.len() - i,
        {
            let key = self.entries[i].0.duplicate();
            let value = self.entries[i].1.duplicate();
            let ghost copied = copies@;
            copies.push((key, value));
            proof {
                assert forall|j: int| 0 <= j < i + 1 implies models(copies@)[j]
                    == self.listing().take(i + 1)[j] by {
                    if j < i {
                        assert(copies@[j] == copied[j]);
                        assert(models(copied)[j] == self.listing().take(i as int)[j]);
                    }
                }
                assert(models(copies@) =~= self.listing().take(i + 1));
            }
            i += 1;
        }
        assert(self.listing().take(self.entries.len() as int) =~= self.listing());
        copies
    }
}

/// Replacing the value at one position of an ascending listing rebinds the
/// key of that position and nothing else.
pub proof fn lemma_update_bindings<K: OrderedKey, M>(listing: Seq<(K::Model, M)>, at: int, value: M)
    requires
        ascending::<K, M>(listing),
        0 <= at < listing.len(),
    ensures
        ascending::<K, M>(listing.update(at, (listing[at].0, value))),
        bindings(listing.update(at, (listing[at].0, value))) == bindings(listing).insert(
            listing[at].0,
            value,
        ),
{
    let key = listing[at].0;
    let after = listing.update(at, (key, value));
    assert(ascending::<K, M>(after)) by {
        assert forall|i: int, j: int| 0 <= i < j < after.len() implies K::precedes(
            (#[trigger] after[i]).0,
            (#[trigger] after[j]).0,
        ) by {
            assert(after[i].0 == listing[i].0 && after[j].0 == listing[j].0);
        }
    }
    assert forall|k: K::Model| lists(after, k) <==> lists(listing, k) by {
        if lists(after, k) {
            let i = position(after, k);
            assert(listing[i].0 == k);
        }
        if lists(listing, k) {
            let i = position(listing, k);
            assert(after[i].0 == k);
        }
    }
    assert forall|k: K::Model| lists(after, k) implies bindings(after)[k] == bindings(
        listing,
    ).insert(key, value)[k] by {
        let i = position(after, k);
        lemma_bindings_at::<K, M>(after, i);
        assert(listing[i].0 == k);
        lemma_bindings_at::<K, M>(listing, i);
        lemma_bindings_at::<K, M>(listing, at);
        if i != at {
            assert(after[i] == listing[i]);
        }
    }
    assert(lists(listing, key)) by {
        assert(listing[at].0 == key);
    }
    assert(bindings(after) =~= bindings(listing).insert(key, value));
}

/// Putting an entry with a new key at its place in an ascending listing
/// binds that key and leaves the other bindings as they were.
pub proof fn lemma_insert_bindings<K: OrderedKey, M>(
    listing: Seq<(K::Model, M)>,
    at: int,
    entry: (K::Model, M),
)
    requires
        ascending::<K, M>(listing),
        0 <= at <= listing.len(),
        forall|i: int| 0 <= i < at ==> K::precedes((#[trigger] listing[i]).0, entry.0),
        forall|i: int| at <= i < listing.len() ==> K::precedes(entry.0, (#[trigger] listing[i]).0),
    ensures
        ascending::<K, M>(listing.insert(at, entry)),
        bindings(listing.insert(at, entry)) == bindings(listing).insert(entry.0, entry.1),
{
    let after = listing.insert(at, entry);
    assert(ascending::<K, M>(after)) by {
        assert forall|i: int, j: int| 0 <= i < j < after.len() implies K::precedes(
            (#[trigger] after[i]).0,
            (#[trigger] after[j]).0,
        ) by {
            if i < at && j > at {
                assert(after[i] == listing[i] && after[j] == listing[j - 1]);
                if i < j - 1 {
                } else {
                    K::lemma_transitive(listing[i].0, entry.0, listing[j - 1].0);
                }
            } else if i < at && j < at {
                assert(after[i] == listing[i] && after[j] == listing[j]);
            } else if i > at {
                assert(after[i] == listing[i - 1] && after[j] == listing[j - 1]);
            } else if i == at {
                assert(after[j] == listing[j - 1]);
            } else {
                assert(after[i] == listing[i]);
            }
        }
    }
    assert forall|k: K::Model| lists(after, k) <==> (lists(listing, k) || k == entry.0) by {
        if lists(after, k) {
            let i = position(after, k);
            if i < at {
                assert(listing[i].0 == k);
            } else if i > at {
                assert(listing[i - 1].0 == k);
            }
        }
        if lists(listing, k) {
            let i = position(listing, k);
            if i < at {
                assert(after[i].0 == k);
            } else {
                assert(after[i + 1].0 == k);
            }
        }
        if k == entry.0 {
            assert(after[at].0 == k);
        }
    }
    assert forall|k: K::Model| lists(after, k) implies bindings(after)[k] == bindings(
        listing,
    ).insert(entry.0, entry.1)[k] by {
        let i = position(after, k);
        lemma_bindings_at::<K, M>(after, i);
        if i < at {
            assert(listing[i] == after[i]);
            lemma_bindings_at::<K, M>(listing, i);
            K::lemma_irreflexive(k);
        } else if i > at {
            assert(listing[i - 1] == after[i]);
            lemma_bindings_at::<K, M>(listing, i - 1);
            K::lemma_irreflexive(k);
        }
    }
    assert(bindings(after) =~= bindings(listing).insert(entry.0, entry.1));
}

/// Taking one entry out of an ascending listing unbinds its key and leaves
/// the other bindings as they were.
pub proof fn lemma_remove_bindings<K: OrderedKey, M>(listing: Seq<(K::Model, M)>, at: int)
    requires
        ascending::<K, M>(listing),
        0 <= at < listing.len(),
    ensures
        ascending::<K, M>(listing.remove(at)),
        bindings(listing.remove(at)) == bindings(listing).remove(listing[at].0),
{
    let key = listing[at].0;
    let after = listing.remove(at);
    assert(ascending::<K, M>(after)) by {
        assert forall|i: int, j: int| 0 <= i < j < after.len() implies K::precedes(
            (#[trigger] after[i]).0,
            (#[trigger] after[j]).0,
        ) by {
            let from_i = if i < at { i } else { i + 1 };
            let from_j = if j < at { j } else { j + 1 };
            assert(after[i] == listing[from_i] && after[j] == listing[from_j]);
        }
    }
    assert forall|k: K::Model| lists(after, k) <==> (lists(listing, k) && k != key) by {
        if lists(after, k) {
            let i = position(after, k);
            let from = if i < at { i } else { i + 1 };
            assert(listing[from].0 == k);
            K::lemma_irreflexive(k);
            if from < at {
                assert(K::precedes(listing[from].0, listing[at].0));
            } else {
                assert(K::precedes(listing[at].0, listing[from].0));
            }
        }
        if lists(listing, k) && k != key {
            let i = position(listing, k);
            let to = if i < at { i } else { i - 1 };
            assert(after[to].0 == k);
        }
    }
    assert forall|k: K::Model| lists(after, k) implies bindings(after)[k] == bindings(
        listing,
    ).remove(key)[k] by {
        let i = position(after, k);
        lemma_bindings_at::<K, M>(after, i);
        let from = if i < at { i } else { i + 1 };
        assert(listing[from] == after[i]);
        lemma_bindings_at::<K, M>(listing, from);
    }
    assert(bindings(after) =~= bindings(listing).remove(key));
}

} // verus!
