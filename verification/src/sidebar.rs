//! What the list of notes shows: which notes under which heading, and in
//! what order.
//!
//! The list itself belongs to whoever presents the store. This module
//! holds the decisions that the presentation asks for: whether a note is
//! shown, which of two notes comes first, which headings can be selected,
//! and whether a selection is new.

use crate::metadata::{Metadata, MetadataView};
use crate::tag::Tag;
use vstd::prelude::*;

verus! {

/// A row of the list of headings under which notes are shown.
#[derive(Debug)]
pub enum ItemKind {
    /// Every note that is not in the trash.
    AllNotes,
    /// The notes in the trash.
    Trash,
    /// The notes with this tag that are not in the trash.
    Tag(Tag),
    /// A line between groups of rows.
    Separator,
    /// The title of a group of rows.
    Category,
    /// The row that opens the editor of the tags.
    EditTags,
}

/// Where the first of two notes stands with respect to the second.
#[derive(Clone, Copy, Debug, PartialEq, Eq, Structural)]
pub enum Placement {
    /// Before it.
    Smaller,
    /// Beside it: neither comes first.
    Equal,
    /// Behind it.
    Larger,
}

/// Where `first` stands with respect to `second`: a pinned note before
/// one that is not; of two that are alike in this, the one modified later
/// before the other.
pub open spec fn placement(first: MetadataView, second: MetadataView) -> Placement {
    if first.is_pinned == second.is_pinned {
        if first.last_modified.micros > second.last_modified.micros {
            Placement::Smaller
        } else if first.last_modified.micros == second.last_modified.micros {
            Placement::Equal
        } else {
            Placement::Larger
        }
    } else if first.is_pinned {
        Placement::Smaller
    } else {
        Placement::Larger
    }
}

/// Whether a note is shown under the heading `kind`. Under a row that is
/// no heading every note is shown.
pub open spec fn shown_under(kind: &ItemKind, note: MetadataView) -> bool {
    match kind {
        ItemKind::AllNotes => !note.is_trashed,
        ItemKind::Trash => note.is_trashed,
        ItemKind::Tag(tag) => note.tags.contains(tag@) && !note.is_trashed,
        ItemKind::Separator => true,
        ItemKind::Category => true,
        ItemKind::EditTags => true,
    }
}

/// The order of the notes reverses when the notes are exchanged.
pub proof fn lemma_placement_antisymmetric(first: MetadataView, second: MetadataView)
    ensures
        placement(first, second) == Placement::Smaller <==> placement(second, first)
            == Placement::Larger,
        placement(first, second) == Placement::Equal <==> placement(second, first)
            == Placement::Equal,
{
}

/// The order of the notes is transitive, so a list can be sorted by it.
pub proof fn lemma_placement_transitive(
    first: MetadataView,
    second: MetadataView,
    third: MetadataView,
)
    requires
        placement(first, second) != Placement::Larger,
        placement(second, third) != Placement::Larger,
    ensures
        placement(first, third) != Placement::Larger,
        placement(first, second) == Placement::Smaller || placement(second, third)
            == Placement::Smaller ==> placement(first, third) == Placement::Smaller,
{
}

impl ItemKind {
    /// Whether the row can be selected: the headings can, the rows that
    /// only structure the list cannot.
    pub fn is_selectable(&self) -> (selectable: bool)
        ensures
            selectable == (self is AllNotes || self is Trash || self is Tag),
    {
        match self {
            ItemKind::AllNotes => true,
            ItemKind::Trash => true,
            ItemKind::Tag(_) => true,
            ItemKind::Separator => false,
            ItemKind::Category => false,
            ItemKind::EditTags => false,
        }
    }
}

/// Where `first` stands with respect to `second` in the list.
pub fn place(first: &Metadata, second: &Metadata) -> (order: Placement)
    ensures
        order == placement(first@, second@),
{
    if first.is_pinned() == second.is_pinned() {
        if first.last_modified().is_after(&second.last_modified()) {
            Placement::Smaller
        } else if second.last_modified().is_after(&first.last_modified()) {
            Placement::Larger
        } else {
            Placement::Equal
        }
    } else if first.is_pinned() {
        Placement::Smaller
    } else {
        Placement::Larger
    }
}

/// The state of the list of notes: the heading under which notes are
/// shown, and the note that is selected, by its identifier.
#[derive(Debug)]
pub struct Sidebar {
    selected_kind: ItemKind,
    selected_note: Option<String>,
}

impl Sidebar {
    /// The heading under which notes are shown.
    pub closed spec fn kind(&self) -> &ItemKind {
        &self.selected_kind
    }

    /// The identifier of the selected note, if one is selected.
    pub closed spec fn selection(&self) -> Option<Seq<char>> {
        match self.selected_note {
            Some(id) => Some(id@),
            None => None,
        }
    }

    /// A list that shows every note and has none selected.
    pub fn new() -> (sidebar: Sidebar)
        ensures
            sidebar.kind() is AllNotes,
            sidebar.selection() is None,
    {
        Sidebar { selected_kind: ItemKind::AllNotes, selected_note: None }
    }

    /// The heading under which notes are shown.
    pub fn selected_kind(&self) -> (kind: &ItemKind)
        ensures
            kind == self.kind(),
    {
        &self.selected_kind
    }

    /// Shows the notes under `kind`. A row that cannot be selected is
    /// not taken: the list shows every note instead. Says whether the row
    /// was taken.
    pub fn select_kind(&mut self, kind: ItemKind) -> (taken: bool)
        ensures
            taken == (kind is AllNotes || kind is Trash || kind is Tag),
            taken ==> *final(self).kind() == kind,
            !taken ==> final(self).kind() is AllNotes,
            final(self).selection() == old(self).selection(),
    {
        if kind.is_selectable() {
            self.selected_kind = kind;
            true
        } else {
            self.selected_kind = ItemKind::AllNotes;
            false
        }
    }

    /// The identifier of the selected note, if one is selected.
    pub fn selected_note(&self) -> (selected: Option<&str>)
        ensures
            match selected {
                Some(id) => self.selection() == Some(id@),
                None => self.selection() is None,
            },
    {
        match &self.selected_note {
            Some(id) => Some(id.as_str()),
            None => None,
        }
    }

    /// Selects the note `selected`, or none, and says whether that is a
    /// change, of which observers are to be told.
    pub fn set_selected_note(&mut self, selected: Option<String>) -> (changed: bool)
        ensures
            changed == (old(self).selection() != match selected {
                Some(id) => Some(id@),
                None => None,
            }),
            final(self).selection() == match selected {
                Some(id) => Some(id@),
                None => None,
            },
            final(self).kind() == old(self).kind(),
    {
        let same = match (&self.selected_note, &selected) {
            (Some(current), Some(wanted)) => *current == *wanted,
            (None, None) => true,
            _ => false,
        };
        if same {
            return false;
        }
        self.selected_note = selected;
        true
    }

    /// Whether a note is shown under the heading of the list.
    pub fn shows(&self, note: &Metadata) -> (shown: bool)
        ensures
            shown == shown_under(self.kind(), note@),
    {
        match &self.selected_kind {
            ItemKind::AllNotes => !note.is_trashed(),
            ItemKind::Trash => note.is_trashed(),
            ItemKind::Tag(tag) => note.has_tag(tag.name()) && !note.is_trashed(),
            ItemKind::Separator => true,
            ItemKind::Category => true,
            ItemKind::EditTags => true,
        }
    }
}

} // verus!
