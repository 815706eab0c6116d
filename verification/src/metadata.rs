//! What a note says of itself at the head of its file: its title, when it
//! was last modified, whether it is pinned or in the trash, and its tags.

use crate::clock::micros_rfc3339;
use crate::date::Date;
use crate::tag_list::{accepted_names, TagList};
use crate::text::{copy_texts, holds_text, lemma_views_push, same_texts, views_of};
use crate::yaml::{
    entry_keys, mapping_entries, mapping_new, mapping_put_flag, mapping_put_list, mapping_put_text,
    mapping_to_text, read_yaml_field, yaml_field, yaml_text, FieldValue, FieldView,
};
use vstd::prelude::*;

verus! {

/// The metadata of a note as contracts speak of it.
pub struct MetadataView {
    pub title: Seq<char>,
    pub last_modified: Date,
    pub is_pinned: bool,
    pub is_trashed: bool,
    pub tags: Seq<Seq<char>>,
}

impl MetadataView {
    /// The metadata of a note of which nothing is known: no title, the
    /// epoch, not pinned, not in the trash, no tags.
    pub open spec fn blank() -> MetadataView {
        MetadataView {
            title: Seq::empty(),
            last_modified: Date { micros: 0 },
            is_pinned: false,
            is_trashed: false,
            tags: Seq::empty(),
        }
    }
}

/// The text of a field that holds one, else the empty text.
pub open spec fn text_or_empty(field: FieldView) -> Seq<char> {
    match field {
        FieldView::Text(text) => text,
        _ => Seq::empty(),
    }
}

/// The moment that a field's text denotes, else the epoch.
pub open spec fn date_or_epoch(field: FieldView) -> Date {
    match field {
        FieldView::Text(text) => match Date::parsed(text) {
            Some(date) => date,
            None => Date { micros: 0 },
        },
        _ => Date { micros: 0 },
    }
}

/// The flag of a field that holds one, else `false`.
pub open spec fn flag_or_false(field: FieldView) -> bool {
    match field {
        FieldView::Flag(flag) => flag,
        _ => false,
    }
}

/// The tag names of a field that holds a list, each once and none empty,
/// else no names.
pub open spec fn names_or_none(field: FieldView) -> Seq<Seq<char>> {
    match field {
        FieldView::List(names) => accepted_names(names),
        _ => Seq::empty(),
    }
}

/// The metadata that the five fields of a front matter give. A field that
/// is missing, that could not be read because the front matter holds no
/// mapping, or that holds a value of another kind than it should, gives
/// the default of its part.
pub open spec fn metadata_of_fields(
    title: FieldView,
    modified: FieldView,
    is_pinned: FieldView,
    is_trashed: FieldView,
    tags: FieldView,
) -> MetadataView {
    MetadataView {
        title: text_or_empty(title),
        last_modified: date_or_epoch(modified),
        is_pinned: flag_or_false(is_pinned),
        is_trashed: flag_or_false(is_trashed),
        tags: names_or_none(tags),
    }
}

/// The metadata that a front matter gives.
pub open spec fn metadata_of_yaml(text: Seq<char>) -> MetadataView {
    metadata_of_fields(
        yaml_field(text, "title"@),
        yaml_field(text, "modified"@),
        yaml_field(text, "is_pinned"@),
        yaml_field(text, "is_trashed"@),
        yaml_field(text, "tag_list"@),
    )
}

/// The fields of the front matter that is written for `metadata`: the
/// moment is left out where the calendar does not reach it.
pub open spec fn metadata_entries(metadata: MetadataView) -> Seq<(Seq<char>, FieldView)> {
    let head = seq![("title"@, FieldView::Text(metadata.title))];
    let dated = match micros_rfc3339(metadata.last_modified.micros) {
        Some(text) => head.push(("modified"@, FieldView::Text(text))),
        None => head,
    };
    dated.push(("is_pinned"@, FieldView::Flag(metadata.is_pinned))).push(
        ("is_trashed"@, FieldView::Flag(metadata.is_trashed)),
    ).push(("tag_list"@, FieldView::List(metadata.tags)))
}

/// A front matter without fields, and one that could not be read, gives
/// blank metadata, and each field that is there fills its own part and no
/// other.
pub proof fn lemma_missing_fields_default(
    title: FieldView,
    modified: FieldView,
    is_pinned: FieldView,
    is_trashed: FieldView,
    tags: FieldView,
)
    ensures
        metadata_of_fields(
            FieldView::Missing,
            FieldView::Missing,
            FieldView::Missing,
            FieldView::Missing,
            FieldView::Missing,
        ) == MetadataView::blank(),
        metadata_of_fields(
            FieldView::Unreadable,
            FieldView::Unreadable,
            FieldView::Unreadable,
            FieldView::Unreadable,
            FieldView::Unreadable,
        ) == MetadataView::blank(),
        metadata_of_fields(FieldView::Missing, modified, is_pinned, is_trashed, tags).title
            == Seq::<char>::empty(),
        metadata_of_fields(title, FieldView::Missing, is_pinned, is_trashed, tags).last_modified
            == (Date { micros: 0 }),
        !metadata_of_fields(title, modified, FieldView::Missing, is_trashed, tags).is_pinned,
        !metadata_of_fields(title, modified, is_pinned, FieldView::Missing, tags).is_trashed,
        metadata_of_fields(title, modified, is_pinned, is_trashed, FieldView::Missing).tags
            == Seq::<Seq<char>>::empty(),
{
}

/// The five field names are pairwise different.
proof fn lemma_field_names_differ()
    ensures
        "title"@ != "modified"@,
        "title"@ != "is_pinned"@,
        "title"@ != "is_trashed"@,
        "title"@ != "tag_list"@,
        "modified"@ != "is_pinned"@,
        "modified"@ != "is_trashed"@,
        "modified"@ != "tag_list"@,
        "is_pinned"@ != "is_trashed"@,
        "is_pinned"@ != "tag_list"@,
        "is_trashed"@ != "tag_list"@,
{
    reveal_strlit("title");
    reveal_strlit("modified");
    reveal_strlit("is_pinned");
    reveal_strlit("is_trashed");
    reveal_strlit("tag_list");
    assert("title"@.len() == 5);
    assert("modified"@.len() == 8);
    assert("is_pinned"@.len() == 9);
    assert("is_trashed"@.len() == 10);
    assert("tag_list"@.len() == 8);
    assert("modified"@[0] == 'm');
    assert("tag_list"@[0] == 't');
}

/// The names in `tags` without `name`.
pub open spec fn without_name(tags: Seq<Seq<char>>, name: Seq<char>) -> Seq<Seq<char>>
    decreases tags.len(),
{
    if tags.len() == 0 {
        Seq::empty()
    } else if tags.last() == name {
        without_name(tags.drop_last(), name)
    } else {
        without_name(tags.drop_last(), name).push(tags.last())
    }
}

/// The metadata of a note.
#[derive(Debug)]
pub struct Metadata {
    title: String,
    last_modified: Date,
    is_pinned: bool,
    is_trashed: bool,
    tags: Vec<String>,
}

impl View for Metadata {
    type V = MetadataView;

    closed spec fn view(&self) -> MetadataView {
        MetadataView {
            title: self.title@,
            last_modified: self.last_modified,
            is_pinned: self.is_pinned,
            is_trashed: self.is_trashed,
            tags: views_of(self.tags@),
        }
    }
}

impl Metadata {
    /// Blank metadata.
    pub fn new() -> (metadata: Metadata)
        ensures
            metadata@ == MetadataView::blank(),
    {
        let metadata = Metadata {
            title: String::new(),
            last_modified: Date::epoch(),
            is_pinned: false,
            is_trashed: false,
            tags: Vec::new(),
        };
        assert(views_of(metadata.tags@) =~= Seq::<Seq<char>>::empty());
        metadata
    }

    /// The metadata that the five fields of a front matter give.
    pub fn from_fields(
        title: FieldValue,
        modified: FieldValue,
        is_pinned: FieldValue,
        is_trashed: FieldValue,
        tags: FieldValue,
    ) -> (metadata: Metadata)
        ensures
            metadata@ == metadata_of_fields(title@, modified@, is_pinned@, is_trashed@, tags@),
    {
        let title_text = match title {
            FieldValue::Text(text) => text,
            _ => String::new(),
        };
        let last_modified = match modified {
            FieldValue::Text(text) => match Date::parse(text.as_str()) {
                Some(date) => date,
                None => Date::epoch(),
            },
            _ => Date::epoch(),
        };
        let pinned = match is_pinned {
            FieldValue::Flag(flag) => flag,
            _ => false,
        };
        let trashed = match is_trashed {
            FieldValue::Flag(flag) => flag,
            _ => false,
        };
        let names = match tags {
            FieldValue::List(names) => TagList::from_names(&names).names(),
            _ => Vec::new(),
        };
        assert(views_of(names@) =~= names_or_none(tags@));
        Metadata {
            title: title_text,
            last_modified,
            is_pinned: pinned,
            is_trashed: trashed,
            tags: names,
        }
    }

    /// The metadata that a front matter gives.
    pub fn from_yaml(text: &str) -> (metadata: Metadata)
        ensures
            metadata@ == metadata_of_yaml(text@),
    {
        Metadata::from_fields(
            read_yaml_field(text, "title"),
            read_yaml_field(text, "modified"),
            read_yaml_field(text, "is_pinned"),
            read_yaml_field(text, "is_trashed"),
            read_yaml_field(text, "tag_list"),
        )
    }

    /// The front matter written for this metadata, or `None` where the
    /// writer fails.
    pub fn to_yaml(&self) -> (text: Option<String>)
        ensures
            match text {
                Some(text) => yaml_text(metadata_entries(self@)) == Some(text@),
                None => yaml_text(metadata_entries(self@)) is None,
            },
    {
        proof {
            lemma_field_names_differ();
        }
        let mut mapping = mapping_new();
        assert(entry_keys(mapping_entries(mapping)) =~= Seq::<Seq<char>>::empty());
        mapping_put_text(&mut mapping, "title", self.title.as_str());
        assert(entry_keys(mapping_entries(mapping)) =~= seq!["title"@]);
        assert(!seq!["title"@].contains("modified"@));
        match self.last_modified.to_text() {
            Some(text) => {
                mapping_put_text(&mut mapping, "modified", text.as_str());
                assert(entry_keys(mapping_entries(mapping)) =~= seq!["title"@, "modified"@]);
            },
            None => {},
        }
        let ghost dated = mapping_entries(mapping);
        assert(!entry_keys(dated).contains("is_pinned"@));
        mapping_put_flag(&mut mapping, "is_pinned", self.is_pinned);
        assert(entry_keys(mapping_entries(mapping)) =~= entry_keys(dated).push("is_pinned"@));
        assert(!entry_keys(mapping_entries(mapping)).contains("is_trashed"@));
        mapping_put_flag(&mut mapping, "is_trashed", self.is_trashed);
        assert(entry_keys(mapping_entries(mapping)) =~= entry_keys(dated).push("is_pinned"@).push(
            "is_trashed"@,
        ));
        assert(!entry_keys(mapping_entries(mapping)).contains("tag_list"@));
        mapping_put_list(&mut mapping, "tag_list", &self.tags);
        assert(mapping_entries(mapping) =~= metadata_entries(self@));
        mapping_to_text(&mapping)
    }

    /// Whether `other` is the same metadata.
    pub fn same_as(&self, other: &Metadata) -> (same: bool)
        ensures
            same == (self@ == other@),
    {
        self.title == other.title && self.last_modified == other.last_modified && self.is_pinned
            == other.is_pinned && self.is_trashed == other.is_trashed && same_texts(
            &self.tags,
            &other.tags,
        )
    }

    /// A copy of this metadata.
    pub fn duplicate(&self) -> (copy: Metadata)
        ensures
            copy@ == self@,
    {
        Metadata {
            title: self.title.clone(),
            last_modified: self.last_modified,
            is_pinned: self.is_pinned,
            is_trashed: self.is_trashed,
            tags: copy_texts(&self.tags),
        }
    }

    /// The title.
    pub fn title(&self) -> (title: &str)
        ensures
            title@ == self@.title,
    {
        self.title.as_str()
    }

    /// When the note was last modified.
    pub fn last_modified(&self) -> (date: Date)
        ensures
            date == self@.last_modified,
    {
        self.last_modified
    }

    /// Whether the note is pinned.
    pub fn is_pinned(&self) -> (pinned: bool)
        ensures
            pinned == self@.is_pinned,
    {
        self.is_pinned
    }

    /// Whether the note is in the trash.
    pub fn is_trashed(&self) -> (trashed: bool)
        ensures
            trashed == self@.is_trashed,
    {
        self.is_trashed
    }

    /// The names of the note's tags.
    pub fn tags(&self) -> (tags: &Vec<String>)
        ensures
            views_of(tags@) == self@.tags,
    {
        &self.tags
    }

    /// Whether the note has the tag named `name`.
    pub fn has_tag(&self, name: &str) -> (held: bool)
        ensures
            held == self@.tags.contains(name@),
    {
        holds_text(&self.tags, name)
    }

    /// Sets the moment of the last modification.
    pub fn set_last_modified(&mut self, date: Date)
        ensures
            final(self)@ == (MetadataView { last_modified: date, ..old(self)@ }),
    {
        self.last_modified = date;
    }

    /// Sets the moment of the last modification to the present, as the
    /// clock gives it; the rest stays.
    pub fn update_last_modified(&mut self)
        ensures
            final(self)@ == (MetadataView {
                last_modified: final(self)@.last_modified,
                ..old(self)@
            }),
    {
        self.set_last_modified(Date::now());
    }

    /// Sets the title; the note counts as modified now, at the moment
    /// that the clock gives.
    pub fn set_title(&mut self, title: String)
        ensures
            final(self)@ == (MetadataView {
                title: title@,
                last_modified: final(self)@.last_modified,
                ..old(self)@
            }),
    {
        self.set_title_at(title, Date::now());
    }

    /// Pins or unpins the note; the note counts as modified now, at the
    /// moment that the clock gives.
    pub fn set_is_pinned(&mut self, is_pinned: bool)
        ensures
            final(self)@ == (MetadataView {
                is_pinned,
                last_modified: final(self)@.last_modified,
                ..old(self)@
            }),
    {
        self.set_is_pinned_at(is_pinned, Date::now());
    }

    /// Moves the note into the trash or out of it; the note counts as
    /// modified now, at the moment that the clock gives.
    pub fn set_is_trashed(&mut self, is_trashed: bool)
        ensures
            final(self)@ == (MetadataView {
                is_trashed,
                last_modified: final(self)@.last_modified,
                ..old(self)@
            }),
    {
        self.set_is_trashed_at(is_trashed, Date::now());
    }

    /// Gives the note the tag named `name`, unless it has it or the name
    /// is empty, and says whether it did; if so the note counts as
    /// modified now, at the moment that the clock gives.
    pub fn add_tag(&mut self, name: &str) -> (added: bool)
        ensures
            added == (name@.len() > 0 && !old(self)@.tags.contains(name@)),
            added ==> final(self)@ == (MetadataView {
                tags: old(self)@.tags.push(name@),
                last_modified: final(self)@.last_modified,
                ..old(self)@
            }),
            !added ==> final(self)@ == old(self)@,
    {
        self.add_tag_at(name, Date::now())
    }

    /// Takes the tag named `name` from the note, and says whether the
    /// note had it; if so the note counts as modified now, at the moment
    /// that the clock gives.
    pub fn remove_tag(&mut self, name: &str) -> (removed: bool)
        ensures
            removed == old(self)@.tags.contains(name@),
            removed ==> final(self)@ == (MetadataView {
                tags: without_name(old(self)@.tags, name@),
                last_modified: final(self)@.last_modified,
                ..old(self)@
            }),
            !removed ==> final(self)@ == old(self)@,
    {
        self.remove_tag_at(name, Date::now())
    }

    /// Sets the title; the note counts as modified at `now`.
    pub fn set_title_at(&mut self, title: String, now: Date)
        ensures
            final(self)@ == (MetadataView { title: title@, last_modified: now, ..old(self)@ }),
    {
        self.title = title;
        self.last_modified = now;
    }

    /// Pins or unpins the note; the note counts as modified at `now`.
    pub fn set_is_pinned_at(&mut self, is_pinned: bool, now: Date)
        ensures
            final(self)@ == (MetadataView { is_pinned, last_modified: now, ..old(self)@ }),
    {
        self.is_pinned = is_pinned;
        self.last_modified = now;
    }

    /// Moves the note into the trash or out of it; the note counts as
    /// modified at `now`.
    pub fn set_is_trashed_at(&mut self, is_trashed: bool, now: Date)
        ensures
            final(self)@ == (MetadataView { is_trashed, last_modified: now, ..old(self)@ }),
    {
        self.is_trashed = is_trashed;
        self.last_modified = now;
    }

    /// Gives the note the tag named `name`, unless it has it or the name
    /// is empty, and says whether it did; if so the note counts as
    /// modified at `now`, and if not nothing changes.
    pub fn add_tag_at(&mut self, name: &str, now: Date) -> (added: bool)
        ensures
            added == (name@.len() > 0 && !old(self)@.tags.contains(name@)),
            added ==> final(self)@ == (MetadataView {
                tags: old(self)@.tags.push(name@),
                last_modified: now,
                ..old(self)@
            }),
            !added ==> final(self)@ == old(self)@,
    {
        if name.is_empty() || holds_text(&self.tags, name) {
            return false;
        }
        let ghost before = self.tags@;
        self.tags.push(name.to_owned());
        proof {
            lemma_views_push(before, self.tags@.last());
        }
        self.last_modified = now;
        true
    }

    /// Takes the tag named `name` from the note, and says whether the
    /// note had it; if so the note counts as modified at `now`, and if not
    /// nothing changes.
    pub fn remove_tag_at(&mut self, name: &str, now: Date) -> (removed: bool)
        ensures
            removed == old(self)@.tags.contains(name@),
            removed ==> final(self)@ == (MetadataView {
                tags: without_name(old(self)@.tags, name@),
                last_modified: now,
                ..old(self)@
            }),
            !removed ==> final(self)@ == old(self)@,
    {
        if !holds_text(&self.tags, name) {
            return false;
        }
        let wanted = name.to_owned();
        let mut kept: Vec<String> = Vec::new();
        let mut i: usize = 0;
        while i < self.tags.len()
            invariant
                i <= self.tags.len(),
                wanted@ == name@,
                self.tags == old(self).tags,
                views_of(kept@) == without_name(views_of(self.tags@).take(i as int), name@),
            decreases self.tags.len() - i,
        {
            let ghost before = kept@;
            let ghost seen = views_of(self.tags@).take(i + 1);
            assert(seen.drop_last() =~= views_of(self.tags@).take(i as int));
            assert(seen.last() == self.tags[i as int]@);
            if self.tags[i] != wanted {
                kept.push(self.tags[i].clone());
                proof {
                    lemma_views_push(before, kept@.last());
                }
            }
            i += 1;
        }
        assert(views_of(self.tags@).take(i as int) =~= views_of(self.tags@));
        self.tags = kept;
        self.last_modified = now;
        true
    }
}

impl Default for Metadata {
    /// Blank metadata.
    fn default() -> (metadata: Metadata)
        ensures
            metadata@ == MetadataView::blank(),
    {
        Metadata::new()
    }
}

} // verus!
