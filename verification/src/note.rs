//! A note: a text with metadata, kept in one file whose name is the
//! note's identifier followed by `.md`.

use crate::date::Date;
use crate::error::StoreError;
use crate::front_matter::{
    block_sound, body_of, frame_document, framed, is_sound_block, lemma_framed_splits, matter_of,
    opens_with_fence, split_document,
};
use crate::metadata::{metadata_entries, metadata_of_yaml, without_name, Metadata, MetadataView};
use crate::registry::{Edit, Keyed};
use crate::text::text_from_utf8;
use crate::yaml::yaml_text;
use vstd::prelude::*;
use vstd::slice::{slice_subrange, slice_to_vec};
use vstd::string::{StrSliceExecFns, StringExecFns};
use vstd::utf8::{
    decode_utf8, encode_utf8, encode_utf8_decode_utf8, encode_utf8_valid_utf8, valid_utf8,
};

verus! {

/// A note as contracts speak of it.
pub struct NoteView {
    pub id: Seq<char>,
    pub metadata: MetadataView,
    pub content: Seq<char>,
    pub is_saved: bool,
}

/// The name of the file of the note `id`.
pub open spec fn note_file_name(id: Seq<char>) -> Seq<char> {
    id + ".md"@
}

/// The identifier of the note kept in the file `file_name`: what stands
/// before `.md`, where the name ends so and something stands before.
pub open spec fn note_id_of(file_name: Seq<char>) -> Option<Seq<char>> {
    let cut = file_name.len() - 3;
    if cut > 0 && file_name.subrange(cut, file_name.len() as int) == ".md"@ {
        Some(file_name.subrange(0, cut))
    } else {
        None
    }
}

/// The metadata that the front matter of a file gives: blank where the
/// file has no front matter or its front matter is no text.
pub open spec fn metadata_of_matter(matter: Option<Seq<u8>>) -> MetadataView {
    match matter {
        Some(bytes) => if valid_utf8(bytes) {
            metadata_of_yaml(decode_utf8(bytes))
        } else {
            MetadataView::blank()
        },
        None => MetadataView::blank(),
    }
}

/// The note that the file `file_name` with content `bytes` holds: none
/// where the name is not that of a note file or the body is no text.
pub open spec fn loaded(file_name: Seq<char>, bytes: Seq<u8>) -> Option<NoteView> {
    match note_id_of(file_name) {
        Some(id) => if valid_utf8(body_of(bytes)) {
            Some(
                NoteView {
                    id,
                    metadata: metadata_of_matter(matter_of(bytes)),
                    content: decode_utf8(body_of(bytes)),
                    is_saved: true,
                },
            )
        } else {
            None
        },
        None => None,
    }
}

/// Whether a block of front matter, read again, gives `metadata`.
pub open spec fn reads_back(block: Seq<u8>, metadata: MetadataView) -> bool {
    let matter = block.subrange(4, block.len() as int);
    valid_utf8(matter) && metadata_of_yaml(decode_utf8(matter)) == metadata
}

/// The content of the file written for a note: the block of front matter
/// that the writer gives for its metadata, the closing fence, and the
/// text. There is none where the writer fails, or gives a block that a
/// reader would not take for this metadata.
pub open spec fn serialized(note: NoteView) -> Option<Seq<u8>> {
    match yaml_text(metadata_entries(note.metadata)) {
        Some(text) => {
            let block = encode_utf8(text);
            if block_sound(block) && reads_back(block, note.metadata) {
                Some(framed(block, encode_utf8(note.content)))
            } else {
                None
            }
        },
        None => None,
    }
}

/// What is written for a note is read as that note: the same identifier
/// under the note's file name, the same metadata and the same text,
/// whatever the text holds.
pub proof fn lemma_serialize_round_trip(note: NoteView)
    requires
        serialized(note) is Some,
        note.id.len() > 0,
    ensures
        loaded(note_file_name(note.id), serialized(note)->0) == Some(
            NoteView { is_saved: true, ..note },
        ),
{
    let text = yaml_text(metadata_entries(note.metadata))->0;
    let block = encode_utf8(text);
    let body = encode_utf8(note.content);
    lemma_framed_splits(block, body);
    encode_utf8_valid_utf8(note.content);
    encode_utf8_decode_utf8(note.content);
    lemma_file_name_round_trip(note.id);
}

/// The identifier of a note is read from the name of its file.
pub proof fn lemma_file_name_round_trip(id: Seq<char>)
    requires
        id.len() > 0,
    ensures
        note_id_of(note_file_name(id)) == Some(id),
{
    reveal_strlit(".md");
    let name = note_file_name(id);
    assert(name.len() == id.len() + 3);
    assert(name.subrange(id.len() as int, name.len() as int) =~= ".md"@);
    assert(name.subrange(0, id.len() as int) =~= id);
}

/// A file is a note whatever its front matter holds, as long as its name
/// is that of a note file and its body is text; one without front matter
/// is a note with blank metadata whose text is the whole file.
pub proof fn lemma_loads_without_front_matter(file_name: Seq<char>, bytes: Seq<u8>)
    requires
        note_id_of(file_name) is Some,
        valid_utf8(body_of(bytes)),
    ensures
        loaded(file_name, bytes) is Some,
        !opens_with_fence(bytes) ==> loaded(file_name, bytes)->0.metadata == MetadataView::blank(),
        !opens_with_fence(bytes) ==> loaded(file_name, bytes)->0.content == decode_utf8(bytes),
{
}

/// A note.
#[derive(Debug)]
pub struct Note {
    id: String,
    metadata: Metadata,
    content: String,
    is_saved: bool,
}

impl View for Note {
    type V = NoteView;

    closed spec fn view(&self) -> NoteView {
        NoteView {
            id: self.id@,
            metadata: self.metadata@,
            content: self.content@,
            is_saved: self.is_saved,
        }
    }
}

/// The identifier of the note kept in the file `file_name`, where the
/// name is that of a note file.
pub fn note_id_from_file_name(file_name: &str) -> (id: Option<String>)
    ensures
        match id {
            Some(id) => note_id_of(file_name@) == Some(id@),
            None => note_id_of(file_name@) is None,
        },
{
    proof {
        reveal_strlit(".md");
    }
    let length = file_name.unicode_len();
    if length > 3 && file_name.get_char(length - 3) == '.' && file_name.get_char(length - 2) == 'm'
        && file_name.get_char(length - 1) == 'd' {
        assert(file_name@.subrange(length - 3, length as int) =~= ".md"@);
        Some(file_name.substring_char(0, length - 3).to_owned())
    } else {
        if length > 3 {
            let ghost tail = file_name@.subrange(length - 3, length as int);
            assert(tail[0] == file_name@[length - 3]);
            assert(tail[1] == file_name@[length - 2]);
            assert(tail[2] == file_name@[length - 1]);
        }
        None
    }
}

impl Note {
    /// The note that the file `file_name` with content `bytes` holds. A
    /// file without front matter, or with fields missing from it, gives a
    /// note with the defaults in their place; only a name that is not
    /// that of a note file, or a body that is no text, is refused.
    pub fn from_file(file_name: &str, bytes: &[u8]) -> (result: Result<Note, StoreError>)
        ensures
            match result {
                Ok(note) => loaded(file_name@, bytes@) == Some(note@),
                Err(error) => error == StoreError::DeserializationError && loaded(
                    file_name@,
                    bytes@,
                ) is None,
            },
    {
        let id = match note_id_from_file_name(file_name) {
            Some(id) => id,
            None => {
                return Err(StoreError::DeserializationError);
            },
        };
        let document = split_document(bytes);
        let content = match text_from_utf8(document.body) {
            Some(content) => content,
            None => {
                return Err(StoreError::DeserializationError);
            },
        };
        proof {
            encode_utf8_valid_utf8(content@);
            encode_utf8_decode_utf8(content@);
        }
        let metadata = match document.matter {
            Some(matter) => Note::metadata_from_matter(matter),
            None => Metadata::new(),
        };
        Ok(Note { id, metadata, content, is_saved: true })
    }

    /// The metadata that a front matter gives, blank where it is no text.
    fn metadata_from_matter(matter: Vec<u8>) -> (metadata: Metadata)
        ensures
            metadata@ == metadata_of_matter(Some(matter@)),
    {
        match text_from_utf8(matter) {
            Some(text) => {
                proof {
                    encode_utf8_valid_utf8(text@);
                    encode_utf8_decode_utf8(text@);
                }
                Metadata::from_yaml(text.as_str())
            },
            None => Metadata::new(),
        }
    }

    /// A new note for the file `file_name`, last modified at `created`:
    /// no title, no text, no tags, not pinned, not in the trash, and not
    /// saved yet. A name that is not that of a note file is refused.
    pub fn create_default_at(file_name: &str, created: Date) -> (result: Result<Note, StoreError>)
        ensures
            match result {
                Ok(note) => {
                    &&& note_id_of(file_name@) is Some
                    &&& note@ == (NoteView {
                        id: note_id_of(file_name@)->0,
                        metadata: MetadataView { last_modified: created, ..MetadataView::blank() },
                        content: Seq::empty(),
                        is_saved: false,
                    })
                },
                Err(error) => error == StoreError::DeserializationError && note_id_of(
                    file_name@,
                ) is None,
            },
    {
        match note_id_from_file_name(file_name) {
            Some(id) => {
                let mut metadata = Metadata::new();
                metadata.set_last_modified(created);
                Ok(Note { id, metadata, content: String::new(), is_saved: false })
            },
            None => Err(StoreError::DeserializationError),
        }
    }

    /// A new note for the file `file_name`, last modified now, as the
    /// clock gives it.
    pub fn create_default(file_name: &str) -> (result: Result<Note, StoreError>)
        ensures
            match result {
                Ok(note) => {
                    &&& note_id_of(file_name@) is Some
                    &&& note@ == (NoteView {
                        id: note_id_of(file_name@)->0,
                        metadata: MetadataView {
                            last_modified: note@.metadata.last_modified,
                            ..MetadataView::blank()
                        },
                        content: Seq::empty(),
                        is_saved: false,
                    })
                },
                Err(error) => error == StoreError::DeserializationError && note_id_of(
                    file_name@,
                ) is None,
            },
    {
        Note::create_default_at(file_name, Date::now())
    }

    /// The identifier.
    pub fn id(&self) -> (id: &str)
        ensures
            id@ == self@.id,
    {
        self.id.as_str()
    }

    /// The name of the note's file.
    pub fn file(&self) -> (file_name: String)
        ensures
            file_name@ == note_file_name(self@.id),
    {
        self.id.clone().concat(".md")
    }

    /// The metadata.
    pub fn metadata(&self) -> (metadata: &Metadata)
        ensures
            metadata@ == self@.metadata,
    {
        &self.metadata
    }

    /// The text.
    pub fn content(&self) -> (content: &str)
        ensures
            content@ == self@.content,
    {
        self.content.as_str()
    }

    /// Whether the note is as its file has it.
    pub fn is_saved(&self) -> (saved: bool)
        ensures
            saved == self@.is_saved,
    {
        self.is_saved
    }

    /// Records that the note is, or is no longer, as its file has it.
    pub fn set_is_saved(&mut self, is_saved: bool)
        ensures
            final(self)@ == (NoteView { is_saved, ..old(self)@ }),
    {
        self.is_saved = is_saved;
    }

    /// Sets the title; the note is modified now, at the moment that the
    /// clock gives, and no longer saved.
    pub fn set_title(&mut self, title: String)
        ensures
            final(self)@ == (NoteView {
                metadata: MetadataView {
                    title: title@,
                    last_modified: final(self)@.metadata.last_modified,
                    ..old(self)@.metadata
                },
                is_saved: false,
                ..old(self)@
            }),
    {
        self.set_title_at(title, Date::now());
    }

    /// Pins or unpins the note; the note is modified now, at the moment
    /// that the clock gives, and no longer saved.
    pub fn set_is_pinned(&mut self, is_pinned: bool)
        ensures
            final(self)@ == (NoteView {
                metadata: MetadataView {
                    is_pinned,
                    last_modified: final(self)@.metadata.last_modified,
                    ..old(self)@.metadata
                },
                is_saved: false,
                ..old(self)@
            }),
    {
        self.set_is_pinned_at(is_pinned, Date::now());
    }

    /// Moves the note into the trash or out of it; the note is modified
    /// now, at the moment that the clock gives, and no longer saved.
    pub fn set_is_trashed(&mut self, is_trashed: bool)
        ensures
            final(self)@ == (NoteView {
                metadata: MetadataView {
                    is_trashed,
                    last_modified: final(self)@.metadata.last_modified,
                    ..old(self)@.metadata
                },
                is_saved: false,
                ..old(self)@
            }),
    {
        self.set_is_trashed_at(is_trashed, Date::now());
    }

    /// Replaces the text; the note is modified now, at the moment that
    /// the clock gives, and no longer saved.
    pub fn set_content(&mut self, content: String)
        ensures
            final(self)@ == (NoteView {
                content: content@,
                metadata: MetadataView {
                    last_modified: final(self)@.metadata.last_modified,
                    ..old(self)@.metadata
                },
                is_saved: false,
                ..old(self)@
            }),
    {
        self.set_content_at(content, Date::now());
    }

    /// Gives the note the tag named `name`, unless it has it or the name
    /// is empty, and says whether it did; if so the note is modified now,
    /// at the moment that the clock gives, and no longer saved.
    pub fn add_tag(&mut self, name: &str) -> (added: bool)
        ensures
            added == (name@.len() > 0 && !old(self)@.metadata.tags.contains(name@)),
            added ==> final(self)@ == (NoteView {
                metadata: MetadataView {
                    tags: old(self)@.metadata.tags.push(name@),
                    last_modified: final(self)@.metadata.last_modified,
                    ..old(self)@.metadata
                },
                is_saved: false,
                ..old(self)@
            }),
            !added ==> final(self)@ == old(self)@,
    {
        self.add_tag_at(name, Date::now())
    }

    /// Takes the tag named `name` from the note, and says whether the
    /// note had it; if so the note is modified now, at the moment that the
    /// clock gives, and no longer saved.
    pub fn remove_tag(&mut self, name: &str) -> (removed: bool)
        ensures
            removed == old(self)@.metadata.tags.contains(name@),
            removed ==> final(self)@ == (NoteView {
                metadata: MetadataView {
                    tags: without_name(old(self)@.metadata.tags, name@),
                    last_modified: final(self)@.metadata.last_modified,
                    ..old(self)@.metadata
                },
                is_saved: false,
                ..old(self)@
            }),
            !removed ==> final(self)@ == old(self)@,
    {
        self.remove_tag_at(name, Date::now())
    }

    /// Sets the title; the note is modified at `now` and no longer saved.
    pub fn set_title_at(&mut self, title: String, now: Date)
        ensures
            final(self)@ == (NoteEdit::SetTitle(title)).applied(old(self)@, now),
    {
        self.metadata.set_title_at(title, now);
        self.is_saved = false;
    }

    /// Pins or unpins the note; the note is modified at `now` and no
    /// longer saved.
    pub fn set_is_pinned_at(&mut self, is_pinned: bool, now: Date)
        ensures
            final(self)@ == (NoteEdit::SetPinned(is_pinned)).applied(old(self)@, now),
    {
        self.metadata.set_is_pinned_at(is_pinned, now);
        self.is_saved = false;
    }

    /// Moves the note into the trash or out of it; the note is modified
    /// at `now` and no longer saved.
    pub fn set_is_trashed_at(&mut self, is_trashed: bool, now: Date)
        ensures
            final(self)@ == (NoteEdit::SetTrashed(is_trashed)).applied(old(self)@, now),
    {
        self.metadata.set_is_trashed_at(is_trashed, now);
        self.is_saved = false;
    }

    /// Replaces the text; the note is modified at `now` and no longer
    /// saved.
    pub fn set_content_at(&mut self, content: String, now: Date)
        ensures
            final(self)@ == (NoteEdit::SetContent(content)).applied(old(self)@, now),
    {
        self.content = content;
        self.metadata.set_last_modified(now);
        self.is_saved = false;
    }

    /// Gives the note the tag named `name`, unless it has it or the name
    /// is empty, and says whether it did; if so the note is modified at
    /// `now` and no longer saved, and if not nothing changes.
    pub fn add_tag_at(&mut self, name: &str, now: Date) -> (added: bool)
        ensures
            added == (name@.len() > 0 && !old(self)@.metadata.tags.contains(name@)),
            added ==> final(self)@ == (NoteView {
                metadata: MetadataView {
                    tags: old(self)@.metadata.tags.push(name@),
                    last_modified: now,
                    ..old(self)@.metadata
                },
                is_saved: false,
                ..old(self)@
            }),
            !added ==> final(self)@ == old(self)@,
    {
        let added = self.metadata.add_tag_at(name, now);
        if added {
            self.is_saved = false;
        }
        added
    }

    /// Takes the tag named `name` from the note, and says whether the
    /// note had it; if so the note is modified at `now` and no longer
    /// saved, and if not nothing changes.
    pub fn remove_tag_at(&mut self, name: &str, now: Date) -> (removed: bool)
        ensures
            removed == old(self)@.metadata.tags.contains(name@),
            removed ==> final(self)@ == (NoteView {
                metadata: MetadataView {
                    tags: without_name(old(self)@.metadata.tags, name@),
                    last_modified: now,
                    ..old(self)@.metadata
                },
                is_saved: false,
                ..old(self)@
            }),
            !removed ==> final(self)@ == old(self)@,
    {
        let removed = self.metadata.remove_tag_at(name, now);
        if removed {
            self.is_saved = false;
        }
        removed
    }

    /// Makes `edit` on the note, at the moment `now`.
    pub fn apply_at(&mut self, edit: NoteEdit, now: Date)
        ensures
            final(self)@ == edit.applied(old(self)@, now),
    {
        match edit {
            NoteEdit::SetTitle(title) => self.set_title_at(title, now),
            NoteEdit::SetPinned(is_pinned) => self.set_is_pinned_at(is_pinned, now),
            NoteEdit::SetTrashed(is_trashed) => self.set_is_trashed_at(is_trashed, now),
            NoteEdit::SetContent(content) => self.set_content_at(content, now),
            NoteEdit::AddTag(name) => {
                self.add_tag_at(name.as_str(), now);
            },
            NoteEdit::RemoveTag(name) => {
                self.remove_tag_at(name.as_str(), now);
            },
            NoteEdit::MarkSaved => self.set_is_saved(true),
        }
    }

    /// The content of the file written for the note: the front matter,
    /// the closing fence, the text. The front matter is read again before
    /// it is handed out, and the note is refused where a reader would not
    /// find this metadata in it.
    pub fn serialize(&self) -> (result: Result<Vec<u8>, StoreError>)
        ensures
            match result {
                Ok(bytes) => serialized(self@) == Some(bytes@),
                Err(error) => error == StoreError::DeserializationError && serialized(self@) is None,
            },
    {
        let text = match self.metadata.to_yaml() {
            Some(text) => text,
            None => {
                return Err(StoreError::DeserializationError);
            },
        };
        let block = text.as_str().as_bytes();
        if !is_sound_block(block) {
            return Err(StoreError::DeserializationError);
        }
        let matter = slice_to_vec(slice_subrange(block, 4, block.len()));
        let read = match text_from_utf8(matter) {
            Some(matter_text) => {
                proof {
                    encode_utf8_valid_utf8(matter_text@);
                    encode_utf8_decode_utf8(matter_text@);
                }
                Metadata::from_yaml(matter_text.as_str())
            },
            None => {
                return Err(StoreError::DeserializationError);
            },
        };
        if !read.same_as(&self.metadata) {
            return Err(StoreError::DeserializationError);
        }
        Ok(frame_document(block, self.content.as_str().as_bytes()))
    }
}

impl Keyed for Note {
    open spec fn key_view(&self) -> Seq<char> {
        self@.id
    }

    fn key(&self) -> (k: &str) {
        self.id.as_str()
    }
}

/// A change to a note that a registry can make in place.
#[derive(Debug)]
pub enum NoteEdit {
    /// Set the title.
    SetTitle(String),
    /// Pin or unpin.
    SetPinned(bool),
    /// Move into the trash or out of it.
    SetTrashed(bool),
    /// Replace the text.
    SetContent(String),
    /// Give the tag of this name.
    AddTag(String),
    /// Take the tag of this name.
    RemoveTag(String),
    /// Record that the note is as its file has it.
    MarkSaved,
}

/// The metadata `before` with the moment of the last modification replaced.
pub open spec fn modified_at(before: MetadataView, moment: Date) -> MetadataView {
    MetadataView { last_modified: moment, ..before }
}

impl NoteEdit {
    /// The note `before` with this change made at the moment `now`. A
    /// change that finds nothing to do leaves the note as it was; every
    /// other one but `MarkSaved` leaves it modified at `now` and not
    /// saved.
    pub open spec fn applied(&self, before: NoteView, now: Date) -> NoteView {
        match self {
            NoteEdit::SetTitle(title) => NoteView {
                metadata: modified_at(MetadataView { title: title@, ..before.metadata }, now),
                is_saved: false,
                ..before
            },
            NoteEdit::SetPinned(is_pinned) => NoteView {
                metadata: modified_at(
                    MetadataView { is_pinned: *is_pinned, ..before.metadata },
                    now,
                ),
                is_saved: false,
                ..before
            },
            NoteEdit::SetTrashed(is_trashed) => NoteView {
                metadata: modified_at(
                    MetadataView { is_trashed: *is_trashed, ..before.metadata },
                    now,
                ),
                is_saved: false,
                ..before
            },
            NoteEdit::SetContent(content) => NoteView {
                content: content@,
                metadata: modified_at(before.metadata, now),
                is_saved: false,
                ..before
            },
            NoteEdit::AddTag(name) => if name@.len() > 0 && !before.metadata.tags.contains(name@) {
                NoteView {
                    metadata: modified_at(
                        MetadataView {
                            tags: before.metadata.tags.push(name@),
                            ..before.metadata
                        },
                        now,
                    ),
                    is_saved: false,
                    ..before
                }
            } else {
                before
            },
            NoteEdit::RemoveTag(name) => if before.metadata.tags.contains(name@) {
                NoteView {
                    metadata: modified_at(
                        MetadataView {
                            tags: without_name(before.metadata.tags, name@),
                            ..before.metadata
                        },
                        now,
                    ),
                    is_saved: false,
                    ..before
                }
            } else {
                before
            },
            NoteEdit::MarkSaved => NoteView { is_saved: true, ..before },
        }
    }

    /// Whether `after` is `before` with this change made at some moment:
    /// at the moment at which `after` was last modified, where the change
    /// modifies the note.
    pub open spec fn alters(&self, before: NoteView, after: NoteView) -> bool {
        after == self.applied(before, after.metadata.last_modified)
    }

    /// A change made at a moment is a change made at some moment.
    pub proof fn lemma_applied_alters(&self, before: NoteView, now: Date)
        ensures
            self.alters(before, self.applied(before, now)),
    {
    }
}

impl Edit<Note> for NoteEdit {
    /// The change made at the moment that the clock gives.
    open spec fn changes(&self, before: &Note, after: &Note) -> bool {
        self.alters(before@, after@)
    }

    fn apply(self, item: &mut Note) {
        let now = Date::now();
        proof {
            self.lemma_applied_alters(item@, now);
        }
        item.apply_at(self, now);
    }
}

/// A change to a note together with the moment at which it is made.
#[derive(Debug)]
pub struct TimedEdit {
    pub edit: NoteEdit,
    pub now: Date,
}

impl Edit<Note> for TimedEdit {
    open spec fn changes(&self, before: &Note, after: &Note) -> bool {
        after@ == self.edit.applied(before@, self.now)
    }

    fn apply(self, item: &mut Note) {
        item.apply_at(self.edit, self.now);
    }
}

} // verus!
