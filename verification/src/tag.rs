//! A tag: a label that notes refer to by its name.

use crate::registry::{Keyed, Rekey};
use vstd::prelude::*;

verus! {

/// A tag. Its name is its identity: two tags with one name are one tag.
#[derive(Debug)]
pub struct Tag {
    name: String,
}

impl View for Tag {
    type V = Seq<char>;

    /// The name.
    closed spec fn view(&self) -> Seq<char> {
        self.name@
    }
}

impl Tag {
    /// A tag named `name`.
    pub fn new(name: &str) -> (tag: Tag)
        ensures
            tag@ == name@,
    {
        Tag { name: name.to_owned() }
    }

    /// The name.
    pub fn name(&self) -> (name: &str)
        ensures
            name@ == self@,
    {
        self.name.as_str()
    }
}

impl Keyed for Tag {
    open spec fn key_view(&self) -> Seq<char> {
        self@
    }

    fn key(&self) -> (k: &str) {
        self.name.as_str()
    }
}

impl Rekey for Tag {
    /// A tag is nothing but its name.
    open spec fn same_apart_from_key(&self, other: &Self) -> bool {
        true
    }

    fn set_key(&mut self, key: String) {
        self.name = key;
    }
}

} // verus!
