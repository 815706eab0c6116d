//! An ordered registry of uniquely keyed items.
//!
//! The items stand in a vector, in insertion order; beside it an index
//! maps each key to the position of its item. Every mutation goes through
//! the registry, which keeps the two in step and records, for each change
//! of structure, one event that tells an observer which positions changed.

use crate::error::RegistryError;
use crate::key_index::{
    index_insert, index_keys, index_new, index_position, index_shift_remove, index_swap_remove,
};
use indexmap::IndexSet;
use vstd::prelude::*;

verus! {

/// An item that a registry can hold: it names itself by a key.
pub trait Keyed {
    /// The key as a sequence of characters.
    spec fn key_view(&self) -> Seq<char>;

    /// The key.
    fn key(&self) -> (k: &str)
        ensures
            k@ == self.key_view(),
    ;
}

/// An item whose key can be replaced, as a registry does when it renames.
pub trait Rekey: Keyed {
    /// Whether `other` is this item in everything but its key.
    spec fn same_apart_from_key(&self, other: &Self) -> bool;

    /// Gives the item the key `key` and changes nothing else.
    fn set_key(&mut self, key: String)
        ensures
            final(self).key_view() == key@,
            old(self).same_apart_from_key(final(self)),
    ;
}

/// A change to an item that leaves its key alone, so that a registry can
/// apply it to an item in place.
pub trait Edit<T: Keyed> {
    /// Whether `after` is `before` with this change made.
    spec fn changes(&self, before: &T, after: &T) -> bool;

    /// Makes the change.
    fn apply(self, item: &mut T)
        ensures
            final(item).key_view() == old(item).key_view(),
            self.changes(old(item), final(item)),
    ;
}

/// One change of a registry's structure, as an observer is told of it: at
/// `position`, `removed_count` items went and `inserted_count` items came.
#[derive(Clone, Copy, Debug, PartialEq, Eq, Structural)]
pub struct ChangeEvent {
    pub position: usize,
    pub removed_count: usize,
    pub inserted_count: usize,
}

impl ChangeEvent {
    /// The event of one item appended at `position`.
    pub open spec fn inserted_at(position: int) -> ChangeEvent {
        ChangeEvent { position: position as usize, removed_count: 0, inserted_count: 1 }
    }

    /// The event of one item removed from `position`.
    pub open spec fn removed_at(position: int) -> ChangeEvent {
        ChangeEvent { position: position as usize, removed_count: 1, inserted_count: 0 }
    }

    /// The event of the item at `position` changed in place.
    pub open spec fn changed_at(position: int) -> ChangeEvent {
        ChangeEvent { position: position as usize, removed_count: 1, inserted_count: 1 }
    }
}

/// The keys that an observer holds after it has replayed `event` on the
/// keys `mirror` that it held before: the keys before the position stay,
/// those that the event removed go, those that it inserted are read from
/// `keys`, the keys of the registry after the change, and the rest
/// follows.
pub open spec fn replayed(mirror: Seq<Seq<char>>, event: ChangeEvent, keys: Seq<Seq<char>>) -> Seq<
    Seq<char>,
> {
    mirror.subrange(0, event.position as int) + keys.subrange(
        event.position as int,
        event.position + event.inserted_count,
    ) + mirror.subrange(event.position + event.removed_count, mirror.len() as int)
}

/// An observer that replays the event of a change on the keys it held
/// before the change holds the keys of the registry after it: the event
/// of an insertion, of a removal and of a change in place each name the
/// position at which the registry changed, and no other.
pub proof fn lemma_events_replay(keys: Seq<Seq<char>>, position: int, key: Seq<char>)
    requires
        0 <= position < keys.len() <= usize::MAX,
    ensures
        replayed(keys, ChangeEvent::inserted_at(keys.len() as int), keys.push(key)) == keys.push(
            key,
        ),
        replayed(keys, ChangeEvent::removed_at(position), keys.remove(position)) == keys.remove(
            position,
        ),
        replayed(keys, ChangeEvent::changed_at(position), keys.update(position, key))
            == keys.update(position, key),
{
    assert(replayed(keys, ChangeEvent::inserted_at(keys.len() as int), keys.push(key)) =~= keys.push(
        key,
    ));
    assert(replayed(keys, ChangeEvent::removed_at(position), keys.remove(position))
        =~= keys.remove(position));
    assert(replayed(keys, ChangeEvent::changed_at(position), keys.update(position, key))
        =~= keys.update(position, key));
}

/// The keys of a sequence of items, position by position.
pub open spec fn keys_of<T: Keyed>(items: Seq<T>) -> Seq<Seq<char>> {
    items.map_values(|item: T| item.key_view())
}

/// The map that sends each of `keys` to the position at which it stands.
pub open spec fn positions_of(keys: Seq<Seq<char>>) -> Map<Seq<char>, int> {
    Map::new(|key: Seq<char>| keys.contains(key), |key: Seq<char>| keys.index_of(key))
}

/// An insertion-ordered collection of items with pairwise distinct keys.
pub struct IndexedRegistry<T: Keyed> {
    items: Vec<T>,
    index: IndexSet<String>,
    events: Vec<ChangeEvent>,
}

impl<T: Keyed> IndexedRegistry<T> {
    /// The items in their order.
    pub closed spec fn view(&self) -> Seq<T> {
        self.items@
    }

    /// The keys of the items, position by position.
    pub open spec fn keys(&self) -> Seq<Seq<char>> {
        keys_of(self@)
    }

    /// The events recorded since they were last taken, oldest first.
    pub closed spec fn pending(&self) -> Seq<ChangeEvent> {
        self.events@
    }

    /// The map from each indexed key to the position that the index gives it.
    pub closed spec fn index_map(&self) -> Map<Seq<char>, int> {
        positions_of(index_keys(self.index))
    }

    /// The index lists exactly the keys of the items, in the items' order,
    /// and no key occurs twice.
    pub closed spec fn wf(&self) -> bool {
        &&& index_keys(self.index) == keys_of(self.items@)
        &&& index_keys(self.index).no_duplicates()
    }

    /// In a well-formed registry no two items share a key.
    pub proof fn lemma_keys_distinct(&self)
        requires
            self.wf(),
        ensures
            self.keys().no_duplicates(),
            forall|i: int, j: int|
                0 <= i < self@.len() && 0 <= j < self@.len() && #[trigger] self@[i].key_view()
                    == #[trigger] self@[j].key_view() ==> i == j,
    {
        assert forall|i: int, j: int|
            0 <= i < self@.len() && 0 <= j < self@.len() && #[trigger] self@[i].key_view()
                == #[trigger] self@[j].key_view() implies i == j by {
            assert(self.keys()[i] == self.keys()[j]);
        }
    }

    /// The index agrees with the items: it is the map of the items' keys
    /// to their positions, so it holds the keys of the items and no
    /// others, and it maps the key of the item at each position to that
    /// position.
    pub proof fn lemma_index_matches_positions(&self)
        requires
            self.wf(),
        ensures
            self.index_map() == positions_of(self.keys()),
            forall|key: Seq<char>| #[trigger]
                self.index_map().dom().contains(key) <==> self.keys().contains(key),
            forall|i: int|
                0 <= i < self@.len() ==> self.index_map()[#[trigger] self.keys()[i]] == i,
    {
        assert forall|i: int| 0 <= i < self@.len() implies self.index_map()[#[trigger] self.keys()[i]]
            == i by {
            let key = self.keys()[i];
            assert(index_keys(self.index)[i] == key);
            let found = index_keys(self.index).index_of(key);
            assert(index_keys(self.index)[found] == key);
        }
    }

    /// A position holds the key that `index_of` finds there.
    proof fn lemma_position(keys: Seq<Seq<char>>, key: Seq<char>, i: int)
        requires
            keys.no_duplicates(),
            0 <= i < keys.len(),
            keys[i] == key,
        ensures
            keys.contains(key),
            keys.index_of(key) == i,
    {
        let found = keys.index_of(key);
        assert(keys[found] == key);
    }

    /// An empty registry with no event pending.
    pub fn new() -> (registry: Self)
        ensures
            registry.wf(),
            registry@ == Seq::<T>::empty(),
            registry.pending() == Seq::<ChangeEvent>::empty(),
    {
        let registry = IndexedRegistry { items: Vec::new(), index: index_new(), events: Vec::new() };
        assert(keys_of(registry.items@) =~= Seq::<Seq<char>>::empty());
        registry
    }

    /// The number of items.
    pub fn len(&self) -> (n: usize)
        ensures
            n == self@.len(),
    {
        self.items.len()
    }

    /// Whether no item is registered.
    pub fn is_empty(&self) -> (empty: bool)
        ensures
            empty == (self@.len() == 0),
    {
        self.items.len() == 0
    }

    /// The position of the item with key `key`, if one is registered.
    pub fn position(&self, key: &str) -> (found: Option<usize>)
        requires
            self.wf(),
        ensures
            match found {
                Some(position) => {
                    &&& self.keys().contains(key@)
                    &&& position == self.keys().index_of(key@)
                    &&& self.index_map().dom().contains(key@)
                    &&& position == self.index_map()[key@]
                },
                None => !self.keys().contains(key@) && !self.index_map().dom().contains(key@),
            },
    {
        let found = index_position(&self.index, key);
        proof {
            if let Some(i) = found {
                Self::lemma_position(self.keys(), key@, i as int);
            }
        }
        found
    }

    /// Whether an item with key `key` is registered.
    pub fn contains(&self, key: &str) -> (held: bool)
        requires
            self.wf(),
        ensures
            held == self.keys().contains(key@),
    {
        self.position(key).is_some()
    }

    /// The item at `position`, if there is one.
    pub fn get_at(&self, position: usize) -> (item: Option<&T>)
        ensures
            match item {
                Some(item) => position < self@.len() && *item == self@[position as int],
                None => position >= self@.len(),
            },
    {
        if position < self.items.len() {
            Some(&self.items[position])
        } else {
            None
        }
    }

    /// The item with key `key`, if one is registered.
    pub fn get(&self, key: &str) -> (item: Option<&T>)
        requires
            self.wf(),
        ensures
            match item {
                Some(item) => {
                    &&& self.keys().contains(key@)
                    &&& *item == self@[self.keys().index_of(key@)]
                },
                None => !self.keys().contains(key@),
            },
    {
        match self.position(key) {
            Some(position) => Some(&self.items[position]),
            None => None,
        }
    }

    /// Appends `item` unless its key is taken. On success one event for
    /// the new last position is recorded; on failure nothing changes.
    pub fn insert(&mut self, item: T) -> (result: Result<(), RegistryError>)
        requires
            old(self).wf(),
        ensures
            final(self).wf(),
            match result {
                Ok(()) => {
                    &&& !old(self).keys().contains(item.key_view())
                    &&& final(self)@ == old(self)@.push(item)
                    &&& final(self).pending() == old(self).pending().push(
                        ChangeEvent::inserted_at(old(self)@.len() as int),
                    )
                },
                Err(error) => {
                    &&& error == RegistryError::DuplicateKey
                    &&& old(self).keys().contains(item.key_view())
                    &&& final(self)@ == old(self)@
                    &&& final(self).pending() == old(self).pending()
                },
            },
    {
        let position = self.items.len();
        let added = index_insert(&mut self.index, item.key().to_owned());
        if !added {
            return Err(RegistryError::DuplicateKey);
        }
        self.items.push(item);
        self.events.push(ChangeEvent { position, removed_count: 0, inserted_count: 1 });
        assert(keys_of(self.items@) =~= keys_of(old(self).items@).push(item.key_view()));
        Ok(())
    }

    /// Removes the item with key `key` and hands it back; the items behind
    /// it move one position down. On success one event for the vacated
    /// position is recorded; on failure nothing changes.
    pub fn remove(&mut self, key: &str) -> (result: Result<T, RegistryError>)
        requires
            old(self).wf(),
        ensures
            final(self).wf(),
            match result {
                Ok(item) => {
                    &&& old(self).keys().contains(key@)
                    &&& item == old(self)@[old(self).keys().index_of(key@)]
                    &&& final(self)@ == old(self)@.remove(old(self).keys().index_of(key@))
                    &&& final(self).pending() == old(self).pending().push(
                        ChangeEvent::removed_at(old(self).keys().index_of(key@)),
                    )
                },
                Err(error) => {
                    &&& error == RegistryError::NotFound
                    &&& !old(self).keys().contains(key@)
                    &&& final(self)@ == old(self)@
                    &&& final(self).pending() == old(self).pending()
                },
            },
    {
        match index_shift_remove(&mut self.index, key) {
            None => Err(RegistryError::NotFound),
            Some(position) => {
                proof {
                    Self::lemma_position(old(self).keys(), key@, position as int);
                }
                let item = self.items.remove(position);
                self.events.push(ChangeEvent { position, removed_count: 1, inserted_count: 0 });
                assert(keys_of(self.items@) =~= keys_of(old(self).items@).remove(position as int));
                Ok(item)
            },
        }
    }

    /// Applies `edit` to the item with key `key`, in place. On success one
    /// event for the item's position is recorded; on failure nothing
    /// changes.
    pub fn edit<E: Edit<T>>(&mut self, key: &str, edit: E) -> (result: Result<(), RegistryError>)
        requires
            old(self).wf(),
        ensures
            final(self).wf(),
            final(self).keys() == old(self).keys(),
            match result {
                Ok(()) => {
                    let position = old(self).keys().index_of(key@);
                    &&& old(self).keys().contains(key@)
                    &&& final(self)@.len() == old(self)@.len()
                    &&& forall|j: int|
                        0 <= j < old(self)@.len() && j != position ==> final(self)@[j] == old(
                            self,
                        )@[j]
                    &&& edit.changes(&old(self)@[position], &final(self)@[position])
                    &&& final(self).pending() == old(self).pending().push(
                        ChangeEvent::changed_at(position),
                    )
                },
                Err(error) => {
                    &&& error == RegistryError::NotFound
                    &&& !old(self).keys().contains(key@)
                    &&& final(self)@ == old(self)@
                    &&& final(self).pending() == old(self).pending()
                },
            },
    {
        match self.position(key) {
            None => Err(RegistryError::NotFound),
            Some(position) => {
                edit.apply(&mut self.items[position]);
                self.events.push(ChangeEvent { position, removed_count: 1, inserted_count: 1 });
                assert(keys_of(self.items@) =~= keys_of(old(self).items@));
                Ok(())
            },
        }
    }

    /// Hands out the pending events, oldest first, and leaves none
    /// pending. An event tells where the registry changed, not what is
    /// there now: an observer that keeps a copy takes the events after
    /// each change and reads what was inserted from the registry as it is
    /// then.
    pub fn take_events(&mut self) -> (events: Vec<ChangeEvent>)
        requires
            old(self).wf(),
        ensures
            final(self).wf(),
            events@ == old(self).pending(),
            final(self).pending() == Seq::<ChangeEvent>::empty(),
            final(self)@ == old(self)@,
    {
        let mut events = Vec::new();
        events.append(&mut self.events);
        events
    }
}

/// Why a registry whose keys are `keys` refuses to rename `old_key` to
/// `new_key`, or `None` where it does not refuse. A key that another item
/// holds is refused first, then an empty key, then a missing item.
pub open spec fn rename_refusal(keys: Seq<Seq<char>>, old_key: Seq<char>, new_key: Seq<char>) -> Option<
    RegistryError,
> {
    if keys.contains(new_key) && new_key != old_key {
        Some(RegistryError::DuplicateKey)
    } else if new_key.len() == 0 {
        Some(RegistryError::InvalidKey)
    } else if !keys.contains(old_key) {
        Some(RegistryError::NotFound)
    } else {
        None
    }
}

impl<T: Rekey> IndexedRegistry<T> {
    /// Gives the item with key `old_key` the key `new_key`, in place: no
    /// item moves. A rename to another key records one event for the
    /// item's position; a rename to the key that the item has already
    /// changes nothing and records nothing, and so does a refusal.
    pub fn rename(&mut self, old_key: &str, new_key: &str) -> (result: Result<(), RegistryError>)
        requires
            old(self).wf(),
        ensures
            final(self).wf(),
            match result {
                Ok(()) => rename_refusal(old(self).keys(), old_key@, new_key@) is None,
                Err(error) => rename_refusal(old(self).keys(), old_key@, new_key@) == Some(error),
            },
            result is Err || new_key@ == old_key@ ==> {
                &&& final(self)@ == old(self)@
                &&& final(self).pending() == old(self).pending()
            },
            result is Ok && new_key@ != old_key@ ==> {
                let position = old(self).keys().index_of(old_key@);
                &&& final(self).keys() == old(self).keys().update(position, new_key@)
                &&& forall|j: int|
                    0 <= j < old(self)@.len() && j != position ==> final(self)@[j] == old(self)@[j]
                &&& old(self)@[position].same_apart_from_key(&final(self)@[position])
                &&& final(self).pending() == old(self).pending().push(
                    ChangeEvent::changed_at(position),
                )
            },
    {
        let target = index_position(&self.index, new_key);
        let source = index_position(&self.index, old_key);
        proof {
            if let Some(t) = target {
                Self::lemma_position(self.keys(), new_key@, t as int);
            }
            if let Some(s) = source {
                Self::lemma_position(self.keys(), old_key@, s as int);
            }
        }
        let position = match (target, source) {
            (Some(t), Some(s)) => {
                if t == s {
                    if new_key.is_empty() {
                        return Err(RegistryError::InvalidKey);
                    }
                    return Ok(());
                }
                return Err(RegistryError::DuplicateKey);
            },
            (Some(_), None) => {
                return Err(RegistryError::DuplicateKey);
            },
            (None, None) => {
                if new_key.is_empty() {
                    return Err(RegistryError::InvalidKey);
                }
                return Err(RegistryError::NotFound);
            },
            (None, Some(s)) => {
                if new_key.is_empty() {
                    return Err(RegistryError::InvalidKey);
                }
                s
            },
        };
        let ghost before = old(self).keys();
        let added = index_insert(&mut self.index, new_key.to_owned());
        assert(added);
        let moved = index_swap_remove(&mut self.index, old_key);
        proof {
            let grown = before.push(new_key@);
            assert(grown[position as int] == old_key@);
            Self::lemma_position(grown, old_key@, position as int);
            assert(moved == Some(position));
            assert(index_keys(self.index) =~= before.update(position as int, new_key@));
        }
        self.items[position].set_key(new_key.to_owned());
        self.events.push(ChangeEvent { position, removed_count: 1, inserted_count: 1 });
        assert(keys_of(self.items@) =~= before.update(position as int, new_key@));
        Ok(())
    }
}

} // verus!
