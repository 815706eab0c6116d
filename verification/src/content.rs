//! What the pane beside the list of notes shows: the note that is open,
//! or the page that says that none is.

use vstd::prelude::*;

verus! {

/// A page of the pane.
#[derive(Clone, Copy, Debug, PartialEq, Eq, Structural)]
pub enum ContentPage {
    /// The open note, with the controls that pin it and move it to the
    /// trash.
    Note,
    /// The notice that no note is selected.
    NoSelection,
}

/// The state of the pane: the note that is open, by its identifier.
#[derive(Debug)]
pub struct Content {
    note: Option<String>,
}

impl View for Content {
    type V = Option<Seq<char>>;

    /// The identifier of the open note, if one is open.
    closed spec fn view(&self) -> Option<Seq<char>> {
        match self.note {
            Some(id) => Some(id@),
            None => None,
        }
    }
}

impl Content {
    /// A pane with no note open.
    pub fn new() -> (content: Content)
        ensures
            content@ is None,
    {
        Content { note: None }
    }

    /// The identifier of the open note, if one is open.
    pub fn note(&self) -> (note: Option<&str>)
        ensures
            match note {
                Some(id) => self@ == Some(id@),
                None => self@ is None,
            },
    {
        match &self.note {
            Some(id) => Some(id.as_str()),
            None => None,
        }
    }

    /// Opens the note `note`, or none, and says whether that is a change,
    /// of which observers are to be told and after which the controls are
    /// to be bound anew.
    pub fn set_note(&mut self, note: Option<String>) -> (changed: bool)
        ensures
            changed == (old(self)@ != match note {
                Some(id) => Some(id@),
                None => None,
            }),
            final(self)@ == match note {
                Some(id) => Some(id@),
                None => None,
            },
    {
        let same = match (&self.note, &note) {
            (Some(current), Some(wanted)) => *current == *wanted,
            (None, None) => true,
            _ => false,
        };
        if same {
            return false;
        }
        self.note = note;
        true
    }

    /// The page that the pane shows: the note where one is open.
    pub fn page(&self) -> (page: ContentPage)
        ensures
            page == if self@ is Some {
                ContentPage::Note
            } else {
                ContentPage::NoSelection
            },
    {
        if self.note.is_some() {
            ContentPage::Note
        } else {
            ContentPage::NoSelection
        }
    }
}

} // verus!
