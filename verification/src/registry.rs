//! A registry of named items: the names are kept in a concurrent hash map,
//! the items in slots that the names point at.

use vstd::prelude::*;
use dashmap::DashMap;

verus! {

#[verifier::external_type_specification]
#[verifier::external_body]
#[verifier::reject_recursive_types(K)]
#[verifier::reject_recursive_types(V)]
#[verifier::reject_recursive_types(S)]
pub struct ExDashMap<K, V, S>(DashMap<K, V, S>);

/// The map from names to slots.
pub type Names = DashMap<String, usize>;

/// The slot that each name of the map points at.
pub uninterp spec fn slots_by_name(names: DashMap<String, usize>) -> Map<Seq<char>, usize>;

/// `DashMap::new`: a map without entries.
#[verifier::external_body]
fn names_new() -> (names: Names)
    ensures
        forall|name: Seq<char>| !slots_by_name(names).dom().contains(name),
{
    DashMap::new()
}

/// `DashMap::get`: the value stored under the name, if the map holds the
/// name. The guard that the map hands out is dropped before this returns.
#[verifier::external_body]
fn names_get(names: &Names, name: &str) -> (slot: Option<usize>)
    ensures
        slot == if slots_by_name(*names).dom().contains(name@) {
            Some(slots_by_name(*names)[name@])
        } else {
            None
        },
{
    names.get(name).map(|entry| *entry.value())
}

/// `DashMap::insert`: binds the name to the slot, replacing what the name was
/// bound to, and returns the slot it was bound to before, if any. No
/// reference into the map is alive during the call.
#[verifier::external_body]
fn names_insert(names: &mut Names, name: String, slot: usize) -> (before: Option<
    usize,
>)
    ensures
        slots_by_name(*final(names)) == slots_by_name(*old(names)).insert(name@, slot),
        before == if slots_by_name(*old(names)).dom().contains(name@) {
            Some(slots_by_name(*old(names))[name@])
        } else {
            None
        },
{
    names.insert(name, slot)
}

/// `DashMap::remove`: takes the name out of the map and returns the slot it
/// was bound to, if the map held the name.
#[verifier::external_body]
fn names_remove(names: &mut Names, name: &str) -> (before: Option<usize>)
    ensures
        slots_by_name(*final(names)) == slots_by_name(*old(names)).remove(name@),
        before == if slots_by_name(*old(names)).dom().contains(name@) {
            Some(slots_by_name(*old(names))[name@])
        } else {
            None
        },
{
    names.remove(name).map(|entry| entry.1)
}

/// `DashMap::is_empty`: whether the map holds no name at all.
#[verifier::external_body]
fn names_is_empty(names: &Names) -> (empty: bool)
    ensures
        empty <==> forall|name: Seq<char>| !slots_by_name(*names).dom().contains(name),
{
    names.is_empty()
}

/// `DashMap::iter`: every name of the map exactly once, in an order that the
/// map does not promise.
#[verifier::external_body]
fn names_all(names: &Names) -> (all: Vec<String>)
    ensures
        forall|name: Seq<char>|
            slots_by_name(*names).dom().contains(name) <==> exists|i: int|
                0 <= i < all@.len() && (#[trigger] all@[i])@ == name,
        forall|i: int, j: int|
            0 <= i < j < all@.len() ==> (#[trigger] all@[i])@ != (#[trigger] all@[j])@,
{
    names.iter().map(|entry| entry.key().clone()).collect()
}

pub struct Registry<T> {
    names: Names,
    slots: Vec<Option<T>>,
}

impl<T> Registry<T> {
    /// Every name points at a slot that holds an item, and no two names at
    /// the same slot.
    pub closed spec fn wf(&self) -> bool {
        let by_name = slots_by_name(self.names);
        &&& forall|name: Seq<char>| #[trigger]
            by_name.dom().contains(name) ==> by_name[name] < self.slots@.len()
                && self.slots@[by_name[name] as int] is Some
        &&& forall|a: Seq<char>, b: Seq<char>|
            by_name.dom().contains(a) && by_name.dom().contains(b) && a != b ==> #[trigger] by_name[a]
                != #[trigger] by_name[b]
    }

    /// The item that each name stands for.
    pub closed spec fn view(&self) -> Map<Seq<char>, T> {
        let by_name = slots_by_name(self.names);
        Map::new(
            |name: Seq<char>| by_name.dom().contains(name),
            |name: Seq<char>| self.slots@[by_name[name] as int]->0,
        )
    }

    pub fn new() -> (registry: Self)
        ensures
            registry.wf(),
            registry@ == Map::<Seq<char>, T>::empty(),
    {
        let registry = Registry { names: names_new(), slots: Vec::new() };
        assert(registry@ =~= Map::<Seq<char>, T>::empty());
        registry
    }

    pub fn contains(&self, name: &str) -> (found: bool)
        ensures
            found == self@.dom().contains(name@),
    {
        names_get(&self.names, name).is_some()
    }

    pub fn is_empty(&self) -> (empty: bool)
        ensures
            empty <==> self@ == Map::<Seq<char>, T>::empty(),
    {
        let empty = names_is_empty(&self.names);
        proof {
            if empty {
                assert(self@ =~= Map::<Seq<char>, T>::empty());
            } else {
                let name = choose|name: Seq<char>| slots_by_name(self.names).dom().contains(name);
                assert(self@.dom().contains(name));
            }
        }
        empty
    }

    /// Every name of the registry exactly once, in no promised order.
    pub fn names(&self) -> (all: Vec<String>)
        ensures
            forall|name: Seq<char>|
                self@.dom().contains(name) <==> exists|i: int|
                    0 <= i < all@.len() && (#[trigger] all@[i])@ == name,
            forall|i: int, j: int|
                0 <= i < j < all@.len() ==> (#[trigger] all@[i])@ != (#[trigger] all@[j])@,
    {
        names_all(&self.names)
    }

    /// Registers `item` under `name` unless the name is taken; says whether
    /// it did.
    pub fn insert(&mut self, name: &str, item: T) -> (inserted: bool)
        requires
            old(self).wf(),
        ensures
            final(self).wf(),
            inserted == !old(self)@.dom().contains(name@),
            final(self)@ == if inserted {
                old(self)@.insert(name@, item)
            } else {
                old(self)@
            },
    {
        if names_get(&self.names, name).is_some() {
            return false;
        }
        let slot = self.slots.len();
        self.slots.push(Some(item));
        let owned = name.to_owned();
        names_insert(&mut self.names, owned, slot);
        assert(self@ =~= old(self)@.insert(name@, item));
        true
    }

    /// Registers `item` under `name`; an item that was registered under the
    /// name before is replaced and handed back.
    pub fn put(&mut self, name: &str, item: T) -> (before: Option<T>)
        requires
            old(self).wf(),
        ensures
            final(self).wf(),
            final(self)@ == old(self)@.insert(name@, item),
            before == if old(self)@.dom().contains(name@) {
                Some(old(self)@[name@])
            } else {
                None::<T>
            },
    {
        let before = self.remove(name);
        self.insert(name, item);
        assert(self@ =~= old(self)@.insert(name@, item));
        before
    }

    /// Takes the item registered under `name` out of the registry.
    pub fn remove(&mut self, name: &str) -> (removed: Option<T>)
        requires
            old(self).wf(),
        ensures
            final(self).wf(),
            removed == if old(self)@.dom().contains(name@) {
                Some(old(self)@[name@])
            } else {
                None::<T>
            },
            final(self)@ == old(self)@.remove(name@),
    {
        match names_remove(&mut self.names, name) {
            Some(slot) => {
                let removed = self.slots[slot].take();
                assert(self@ =~= old(self)@.remove(name@));
                removed
            },
            None => {
                assert(self@ =~= old(self)@.remove(name@));
                None
            },
        }
    }

    /// The item registered under `name`.
    pub fn get(&self, name: &str) -> (found: Option<&T>)
        requires
            self.wf(),
        ensures
            match found {
                Some(item) => self@.dom().contains(name@) && *item == self@[name@],
                None => !self@.dom().contains(name@),
            },
    {
        match names_get(&self.names, name) {
            Some(slot) => self.slots[slot].as_ref(),
            None => None,
        }
    }

    /// The item registered under `name`, to be changed in place.
    pub fn get_mut(&mut self, name: &str) -> (found: Option<&mut T>)
        requires
            old(self).wf(),
        ensures
            final(self).wf(),
            match found {
                Some(item) => old(self)@.dom().contains(name@) && *item == old(self)@[name@]
                    && final(self)@ == old(self)@.insert(name@, *final(item)),
                None => !old(self)@.dom().contains(name@) && *final(self) == *old(self),
            },
    {
        match names_get(&self.names, name) {
            Some(slot) => {
                self.slots[slot].as_mut()
            },
            None => None,
        }
    }

    /// Runs `operation` on the item registered under `name`, if there is
    /// one, and hands back what the operation returned.
    pub fn work_with<R, F: FnOnce(&mut T) -> R>(&mut self, name: &str, operation: F) -> (outcome:
        Option<R>)
        requires
            old(self).wf(),
            forall|item: &mut T|
                old(self)@.dom().contains(name@) && *item == old(self)@[name@] ==> call_requires(
                    operation,
                    (item,),
                ),
        ensures
            final(self).wf(),
            match outcome {
                Some(returned) => old(self)@.dom().contains(name@) && exists|item: &mut T|
                    *item == old(self)@[name@] && call_ensures(operation, (item,), returned)
                        && final(self)@ == old(self)@.insert(name@, *final(item)),
                None => !old(self)@.dom().contains(name@) && final(self)@ == old(self)@,
            },
    {
        match self.get_mut(name) {
            Some(item) => Some(operation(item)),
            None => None,
        }
    }
}

} // verus!
