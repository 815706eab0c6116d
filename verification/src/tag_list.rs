//! The tag registry: the tags of a store, by name, in the order in which
//! they were added.

use crate::error::RegistryError;
use crate::registry::{rename_refusal, ChangeEvent, IndexedRegistry, Keyed};
use crate::tag::Tag;
use crate::text::{lemma_views_push, views_of};
use vstd::prelude::*;

verus! {

/// The names that a tag list built from `names` holds: each name that is
/// not empty, once, at the place of its first occurrence.
pub open spec fn accepted_names(names: Seq<Seq<char>>) -> Seq<Seq<char>>
    decreases names.len(),
{
    if names.len() == 0 {
        Seq::empty()
    } else {
        let earlier = accepted_names(names.drop_last());
        let name = names.last();
        if name.len() > 0 && !earlier.contains(name) {
            earlier.push(name)
        } else {
            earlier
        }
    }
}

/// The names in `names` that are not among `known`, in their order.
pub open spec fn names_outside(names: Seq<Seq<char>>, known: Seq<Seq<char>>) -> Seq<Seq<char>>
    decreases names.len(),
{
    if names.len() == 0 {
        Seq::empty()
    } else if known.contains(names.last()) {
        names_outside(names.drop_last(), known)
    } else {
        names_outside(names.drop_last(), known).push(names.last())
    }
}

/// An ordered list of tags with pairwise distinct, non-empty names.
pub struct TagList {
    tags: IndexedRegistry<Tag>,
}

impl View for TagList {
    type V = Seq<Seq<char>>;

    /// The names of the tags, in order.
    closed spec fn view(&self) -> Seq<Seq<char>> {
        self.tags.keys()
    }
}

impl TagList {
    /// The registry is well formed and no tag has the empty name.
    pub closed spec fn wf(&self) -> bool {
        &&& self.tags.wf()
        &&& forall|i: int| 0 <= i < self.tags.keys().len() ==> (#[trigger] self.tags.keys()[i]).len() > 0
    }

    /// The events recorded since they were last taken, oldest first.
    pub closed spec fn pending(&self) -> Seq<ChangeEvent> {
        self.tags.pending()
    }

    /// In a well-formed list the names are pairwise distinct and none is
    /// empty.
    pub proof fn lemma_names_valid(&self)
        requires
            self.wf(),
        ensures
            self@.no_duplicates(),
            forall|i: int| 0 <= i < self@.len() ==> (#[trigger] self@[i]).len() > 0,
    {
        self.tags.lemma_keys_distinct();
    }

    /// An empty list with no event pending.
    pub fn new() -> (list: TagList)
        ensures
            list.wf(),
            list@ == Seq::<Seq<char>>::empty(),
            list.pending() == Seq::<ChangeEvent>::empty(),
    {
        let list = TagList { tags: IndexedRegistry::new() };
        assert(list.tags.keys() =~= Seq::<Seq<char>>::empty());
        list
    }

    /// The list of the names in `names` that can be tags, in their order:
    /// an empty name, and a name that came before, is passed over.
    pub fn from_names(names: &Vec<String>) -> (list: TagList)
        ensures
            list.wf(),
            list@ == accepted_names(views_of(names@)),
            list.pending() == Seq::<ChangeEvent>::empty(),
    {
        let mut list = TagList::new();
        let ghost all = views_of(names@);
        let mut i: usize = 0;
        while i < names.len()
            invariant
                i <= names.len(),
                all == views_of(names@),
                list.wf(),
                list@ == accepted_names(all.take(i as int)),
            decreases names.len() - i,
        {
            let _ = list.append(Tag::new(names[i].as_str()));
            proof {
                assert(all.take(i as int + 1).drop_last() =~= all.take(i as int));
                assert(all.take(i as int + 1).last() == names[i as int]@);
            }
            i += 1;
        }
        assert(all.take(i as int) =~= all);
        let _ = list.take_events();
        list
    }

    /// The number of tags.
    pub fn len(&self) -> (n: usize)
        ensures
            n == self@.len(),
    {
        self.tags.len()
    }

    /// The tag at `position`, if there is one.
    pub fn get_at(&self, position: usize) -> (tag: Option<&Tag>)
        ensures
            match tag {
                Some(tag) => position < self@.len() && tag@ == self@[position as int],
                None => position >= self@.len(),
            },
    {
        self.tags.get_at(position)
    }

    /// Appends `tag`. An empty name is refused as invalid, a name that the
    /// list holds as a duplicate; a refusal changes nothing. On success one
    /// event for the new last position is recorded.
    pub fn append(&mut self, tag: Tag) -> (result: Result<(), RegistryError>)
        requires
            old(self).wf(),
        ensures
            final(self).wf(),
            match result {
                Ok(()) => {
                    &&& tag@.len() > 0
                    &&& !old(self)@.contains(tag@)
                    &&& final(self)@ == old(self)@.push(tag@)
                    &&& final(self).pending() == old(self).pending().push(
                        ChangeEvent::inserted_at(old(self)@.len() as int),
                    )
                },
                Err(error) => {
                    &&& error == if tag@.len() == 0 {
                        RegistryError::InvalidKey
                    } else {
                        RegistryError::DuplicateKey
                    }
                    &&& tag@.len() == 0 || old(self)@.contains(tag@)
                    &&& final(self)@ == old(self)@
                    &&& final(self).pending() == old(self).pending()
                },
            },
    {
        if tag.name().is_empty() {
            return Err(RegistryError::InvalidKey);
        }
        let result = self.tags.insert(tag);
        proof {
            if result.is_ok() {
                assert(self.tags.keys() =~= old(self).tags.keys().push(tag@));
            }
        }
        result
    }

    /// Removes the tag named as `tag` is; the tags behind it move one
    /// position down. On success one event for the vacated position is
    /// recorded; where the list holds no such tag, nothing changes.
    pub fn remove(&mut self, tag: &Tag) -> (result: Result<(), RegistryError>)
        requires
            old(self).wf(),
        ensures
            final(self).wf(),
            match result {
                Ok(()) => {
                    &&& old(self)@.contains(tag@)
                    &&& final(self)@ == old(self)@.remove(old(self)@.index_of(tag@))
                    &&& final(self).pending() == old(self).pending().push(
                        ChangeEvent::removed_at(old(self)@.index_of(tag@)),
                    )
                },
                Err(error) => {
                    &&& error == RegistryError::NotFound
                    &&& !old(self)@.contains(tag@)
                    &&& final(self)@ == old(self)@
                    &&& final(self).pending() == old(self).pending()
                },
            },
    {
        match self.tags.remove(tag.name()) {
            Ok(_) => {
                assert(self.tags.keys() =~= old(self).tags.keys().remove(
                    old(self).tags.keys().index_of(tag@),
                ));
                Ok(())
            },
            Err(error) => Err(error),
        }
    }

    /// Renames the tag named as `tag` is to `name`, in place. A name that
    /// another tag holds is refused as a duplicate, an empty name as
    /// invalid, a tag that the list does not hold as not found. A rename
    /// to another name records one event for the tag's position; a rename
    /// to the name that the tag has changes nothing, and so does a refusal.
    pub fn rename_tag(&mut self, tag: &Tag, name: &str) -> (result: Result<(), RegistryError>)
        requires
            old(self).wf(),
        ensures
            final(self).wf(),
            match result {
                Ok(()) => rename_refusal(old(self)@, tag@, name@) is None,
                Err(error) => rename_refusal(old(self)@, tag@, name@) == Some(error),
            },
            result is Err || name@ == tag@ ==> {
                &&& final(self)@ == old(self)@
                &&& final(self).pending() == old(self).pending()
            },
            result is Ok && name@ != tag@ ==> {
                &&& final(self)@ == old(self)@.update(old(self)@.index_of(tag@), name@)
                &&& final(self).pending() == old(self).pending().push(
                    ChangeEvent::changed_at(old(self)@.index_of(tag@)),
                )
            },
    {
        let result = self.tags.rename(tag.name(), name);
        proof {
            if result.is_ok() && name@ != tag@ {
                let position = old(self)@.index_of(tag@);
                assert(old(self)@[position] == tag@);
                assert forall|i: int| 0 <= i < self.tags.keys().len() implies (
                #[trigger] self.tags.keys()[i]).len() > 0 by {
                    if i != position {
                        assert(self.tags.keys()[i] == old(self).tags.keys()[i]);
                    }
                }
            }
        }
        result
    }

    /// Whether the list holds a tag named as `tag` is.
    pub fn contains(&self, tag: &Tag) -> (held: bool)
        requires
            self.wf(),
        ensures
            held == self@.contains(tag@),
    {
        self.tags.contains(tag.name())
    }

    /// The tag named `name`, if the list holds one.
    pub fn get_with_name(&self, name: &str) -> (tag: Option<&Tag>)
        requires
            self.wf(),
        ensures
            match tag {
                Some(tag) => self@.contains(name@) && tag@ == name@,
                None => !self@.contains(name@),
            },
    {
        let tag = self.tags.get(name);
        proof {
            if self@.contains(name@) {
                let position = self@.index_of(name@);
                assert(self@[position] == name@);
            }
        }
        tag
    }

    /// Whether the list holds a tag named `name`.
    pub fn contains_with_name(&self, name: &str) -> (held: bool)
        requires
            self.wf(),
        ensures
            held == self@.contains(name@),
    {
        self.tags.contains(name)
    }

    /// Whether a tag could be added under `name`, or renamed to it: the
    /// name is not empty and no tag holds it.
    pub fn is_valid_name(&self, name: &str) -> (valid: bool)
        requires
            self.wf(),
        ensures
            valid == (name@.len() > 0 && !self@.contains(name@)),
    {
        !self.contains_with_name(name) && !name.is_empty()
    }

    /// The position of the tag named `name`, if the list holds one.
    pub fn position(&self, name: &str) -> (found: Option<usize>)
        requires
            self.wf(),
        ensures
            match found {
                Some(position) => self@.contains(name@) && position == self@.index_of(name@),
                None => !self@.contains(name@),
            },
    {
        self.tags.position(name)
    }

    /// The names in `names` that no tag of the list has, in their order:
    /// the tags that a note refers to and the list does not know.
    pub fn missing_from(&self, names: &Vec<String>) -> (missing: Vec<String>)
        requires
            self.wf(),
        ensures
            views_of(missing@) == names_outside(views_of(names@), self@),
    {
        let mut missing: Vec<String> = Vec::new();
        let mut i: usize = 0;
        while i < names.len()
            invariant
                i <= names.len(),
                self.wf(),
                views_of(missing@) == names_outside(views_of(names@).take(i as int), self@),
            decreases names.len() - i,
        {
            let ghost before = missing@;
            let ghost seen = views_of(names@).take(i + 1);
            assert(seen.drop_last() =~= views_of(names@).take(i as int));
            assert(seen.last() == names[i as int]@);
            if !self.contains_with_name(names[i].as_str()) {
                missing.push(names[i].clone());
                proof {
                    lemma_views_push(before, missing@.last());
                }
            }
            i += 1;
        }
        assert(views_of(names@).take(i as int) =~= views_of(names@));
        missing
    }

    /// The names of the tags, in order.
    pub fn names(&self) -> (names: Vec<String>)
        ensures
            views_of(names@) == self@,
    {
        let mut names: Vec<String> = Vec::new();
        let mut i: usize = 0;
        while i < self.tags.len()
            invariant
                i <= self.tags@.len(),
                views_of(names@) == self@.take(i as int),
            decreases self.tags@.len() - i,
        {
            let ghost before = names@;
            match self.tags.get_at(i) {
                Some(tag) => {
                    names.push(tag.name().to_owned());
                    proof {
                        lemma_views_push(before, names@.last());
                        assert(self@.take(i + 1) =~= self@.take(i as int).push(tag@));
                    }
                },
                None => {},
            }
            i += 1;
        }
        assert(self@.take(i as int) =~= self@);
        names
    }

    /// Hands out the pending events, oldest first, and leaves none pending.
    pub fn take_events(&mut self) -> (events: Vec<ChangeEvent>)
        requires
            old(self).wf(),
        ensures
            final(self).wf(),
            events@ == old(self).pending(),
            final(self).pending() == Seq::<ChangeEvent>::empty(),
            final(self)@ == old(self)@,
    {
        let events = self.tags.take_events();
        assert(self.tags.keys() == old(self).tags.keys());
        events
    }
}

impl Default for TagList {
    /// An empty list with no event pending.
    fn default() -> (list: TagList)
        ensures
            list.wf(),
            list@ == Seq::<Seq<char>>::empty(),
            list.pending() == Seq::<ChangeEvent>::empty(),
    {
        TagList::new()
    }
}

} // verus!
