//! The store: the notes and the tags of one directory, and what is to be
//! read from its files and written to them.
//!
//! The manager touches no file. It is handed what was read, and says what
//! is to be written or deleted; the caller does the reading and the
//! writing, and tells the manager when a write has been made.

use crate::clock::{read_clock, ClockReading};
use crate::date::Date;
use crate::error::{RegistryError, StoreError};
use crate::metadata::{names_or_none, MetadataView};
use crate::note::{
    lemma_file_name_round_trip, loaded, note_file_name, note_id_from_file_name, note_id_of,
    serialized, Note, NoteEdit, NoteView, TimedEdit,
};
use crate::note_id::{lemma_note_ids_distinct, note_id, note_id_text, tick};
use crate::registry::{keys_of, rename_refusal, ChangeEvent, IndexedRegistry};
use crate::repository::Repository;
use crate::tag::Tag;
use crate::tag_list::TagList;
use crate::text::{same_texts, text_from_utf8, views_of};
use crate::yaml::{
    entry_keys, mapping_entries, mapping_new, mapping_put_list, mapping_to_text, read_yaml_field,
    yaml_field, yaml_text, FieldValue, FieldView,
};
use vstd::prelude::*;
use vstd::string::StringExecFns;
use vstd::utf8::{
    decode_utf8, encode_utf8, encode_utf8_decode_utf8, encode_utf8_valid_utf8, valid_utf8,
};

verus! {

/// The registry of the notes of a store.
pub type NoteList = IndexedRegistry<Note>;

/// The name of the file that holds the tags of a store.
pub const DATA_FILE_NAME: &'static str = "data.nwty";

/// A file found in the directory of a store: its name, and its content
/// where it could be read.
pub struct NoteFile {
    pub name: String,
    pub content: Option<Vec<u8>>,
}

/// A file as contracts speak of it.
pub struct NoteFileView {
    pub name: Seq<char>,
    pub content: Option<Seq<u8>>,
}

impl View for NoteFile {
    type V = NoteFileView;

    open spec fn view(&self) -> NoteFileView {
        NoteFileView {
            name: self.name@,
            content: match self.content {
                Some(bytes) => Some(bytes@),
                None => None,
            },
        }
    }
}

/// What became of a file when the notes were loaded.
#[derive(Clone, Copy, Debug, PartialEq, Eq, Structural)]
pub enum LoadOutcome {
    /// Its note is in the registry.
    Loaded,
    /// Its name is not that of a note file.
    Skipped,
    /// It could not be read.
    Unreadable,
    /// Its content is no note.
    Malformed,
    /// A file before it gave a note with the same identifier.
    Duplicate,
}

/// A file to write: its name within the directory of the store, and its
/// new content.
pub struct FileWrite {
    pub file_name: String,
    pub bytes: Vec<u8>,
}

/// A file to write as contracts speak of it.
pub struct FileWriteView {
    pub file_name: Seq<char>,
    pub bytes: Seq<u8>,
}

impl View for FileWrite {
    type V = FileWriteView;

    open spec fn view(&self) -> FileWriteView {
        FileWriteView { file_name: self.file_name@, bytes: self.bytes@ }
    }
}

/// The views of a sequence of writes.
pub open spec fn write_views(writes: Seq<FileWrite>) -> Seq<FileWriteView> {
    writes.map_values(|write: FileWrite| write@)
}

/// The write that saves `note`: none for a note that is saved, and none
/// for one that cannot be written.
pub open spec fn write_for(note: NoteView) -> Option<FileWriteView> {
    if note.is_saved {
        None
    } else {
        match serialized(note) {
            Some(bytes) => Some(FileWriteView { file_name: note_file_name(note.id), bytes }),
            None => None,
        }
    }
}

/// The writes that save `notes`, in the order of the notes.
pub open spec fn writes_for(notes: Seq<NoteView>) -> Seq<FileWriteView>
    decreases notes.len(),
{
    if notes.len() == 0 {
        Seq::empty()
    } else {
        match write_for(notes.last()) {
            Some(write) => writes_for(notes.drop_last()).push(write),
            None => writes_for(notes.drop_last()),
        }
    }
}

/// Whether every note of `notes` that is not saved can be written.
pub open spec fn all_writable(notes: Seq<NoteView>) -> bool {
    forall|i: int| 0 <= i < notes.len() && !(#[trigger] notes[i]).is_saved ==> serialized(notes[i]) is Some
}

/// What a flush of the notes gives: the writes to make, in their order,
/// and, where a note could not be written, its position in the registry
/// and the failure. The flush stops at that note: the writes are those of
/// the notes before it.
pub struct Flush {
    pub writes: Vec<FileWrite>,
    pub failure: Option<(usize, StoreError)>,
}

/// The views of a sequence of notes.
pub open spec fn note_views(notes: Seq<Note>) -> Seq<NoteView> {
    notes.map_values(|note: Note| note@)
}

/// The identifiers of a sequence of notes.
pub open spec fn note_ids(notes: Seq<NoteView>) -> Seq<Seq<char>> {
    notes.map_values(|note: NoteView| note.id)
}

/// What becomes of `file` when the notes with the identifiers `ids` are
/// loaded already.
pub open spec fn load_outcome(ids: Seq<Seq<char>>, file: NoteFileView) -> LoadOutcome {
    if note_id_of(file.name) is None {
        LoadOutcome::Skipped
    } else if file.content is None {
        LoadOutcome::Unreadable
    } else if loaded(file.name, file.content->0) is None {
        LoadOutcome::Malformed
    } else if ids.contains(note_id_of(file.name)->0) {
        LoadOutcome::Duplicate
    } else {
        LoadOutcome::Loaded
    }
}

/// The notes that loading `files` gives, in the order of the files: each
/// file is taken by itself, and one that gives no note is passed over.
pub open spec fn notes_loaded(files: Seq<NoteFileView>) -> Seq<NoteView>
    decreases files.len(),
{
    if files.len() == 0 {
        Seq::empty()
    } else {
        let earlier = notes_loaded(files.drop_last());
        let file = files.last();
        if load_outcome(note_ids(earlier), file) == LoadOutcome::Loaded {
            earlier.push(loaded(file.name, file.content->0)->0)
        } else {
            earlier
        }
    }
}

/// What becomes of each of `files` when they are loaded in their order.
pub open spec fn load_outcomes(files: Seq<NoteFileView>) -> Seq<LoadOutcome>
    decreases files.len(),
{
    if files.len() == 0 {
        Seq::empty()
    } else {
        load_outcomes(files.drop_last()).push(
            load_outcome(note_ids(notes_loaded(files.drop_last())), files.last()),
        )
    }
}

/// The views of a sequence of files.
pub open spec fn file_views(files: Seq<NoteFile>) -> Seq<NoteFileView> {
    files.map_values(|file: NoteFile| file@)
}

/// The tag names that the data file gives: none where there is no file,
/// where it is no text, or where it holds no list under `tag_list`; else
/// the names of the list, each once and none empty.
pub open spec fn data_tag_names(content: Option<Seq<u8>>) -> Seq<Seq<char>> {
    match content {
        Some(bytes) => if valid_utf8(bytes) {
            names_or_none(yaml_field(decode_utf8(bytes), "tag_list"@))
        } else {
            Seq::empty()
        },
        None => Seq::empty(),
    }
}

/// The content of the data file for the tags `names`, or `None` where the
/// writer fails.
pub open spec fn data_file_bytes(names: Seq<Seq<char>>) -> Option<Seq<u8>> {
    match yaml_text(seq![("tag_list"@, FieldView::List(names))]) {
        Some(text) => Some(encode_utf8(text)),
        None => None,
    }
}

/// The content of the data file that is handed out for the tags `names`:
/// what the writer gives, where a reader finds these names in it again;
/// else none.
pub open spec fn data_file_written(names: Seq<Seq<char>>) -> Option<Seq<u8>> {
    match data_file_bytes(names) {
        Some(bytes) => if data_tag_names(Some(bytes)) == names {
            Some(bytes)
        } else {
            None
        },
        None => None,
    }
}

/// The data file that is written for a list of tags is read as that list.
pub proof fn lemma_data_file_round_trip(names: Seq<Seq<char>>)
    requires
        data_file_written(names) is Some,
    ensures
        data_tag_names(data_file_written(names)) == names,
{
}

/// A flush has the write of every note that is not saved and can be
/// written: once its writes are made and recorded, no such note is left.
pub proof fn lemma_flush_covers(notes: Seq<NoteView>, position: int)
    requires
        0 <= position < notes.len(),
        write_for(notes[position]) is Some,
    ensures
        writes_for(notes).contains(write_for(notes[position])->0),
    decreases notes.len(),
{
    let earlier = writes_for(notes.drop_last());
    if position == notes.len() - 1 {
        let write = write_for(notes.last())->0;
        assert(earlier.push(write)[earlier.len() as int] == write);
    } else {
        lemma_flush_covers(notes.drop_last(), position);
        let write = write_for(notes[position])->0;
        let at = earlier.index_of(write);
        assert(earlier[at] == write);
        assert(writes_for(notes)[at] == write);
    }
}

/// A flush has no other writes: each is the write of a note that is not
/// saved, so the file of a saved note is not written again.
pub proof fn lemma_flush_only_unsaved(notes: Seq<NoteView>, write: FileWriteView)
    requires
        writes_for(notes).contains(write),
    ensures
        exists|position: int|
            0 <= position < notes.len() && !(#[trigger] notes[position]).is_saved && write_for(
                notes[position],
            ) == Some(write),
    decreases notes.len(),
{
    if notes.len() > 0 {
        let earlier = writes_for(notes.drop_last());
        let last = notes.len() - 1;
        if write_for(notes.last()) == Some(write) {
            assert(!notes[last].is_saved);
        } else {
            let at = writes_for(notes).index_of(write);
            assert(writes_for(notes)[at] == write);
            assert(earlier[at] == write);
            lemma_flush_only_unsaved(notes.drop_last(), write);
            let position = choose|position: int|
                0 <= position < notes.drop_last().len() && !(#[trigger] notes.drop_last()[position]).is_saved
                    && write_for(notes.drop_last()[position]) == Some(write);
            assert(notes[position] == notes.drop_last()[position]);
        }
    }
}

/// The identifiers of the notes of a registry are its keys.
proof fn lemma_ids_are_keys(notes: Seq<Note>)
    ensures
        note_ids(note_views(notes)) == keys_of(notes),
{
    assert(note_ids(note_views(notes)) =~= keys_of(notes));
}

/// The views of a sequence with one more note.
proof fn lemma_note_views_push(notes: Seq<Note>, note: Note)
    ensures
        note_views(notes.push(note)) == note_views(notes).push(note@),
{
    assert(note_views(notes.push(note)) =~= note_views(notes).push(note@));
}

/// The store of one directory.
pub struct NoteManager {
    directory: String,
    repository: Repository,
    note_list: Option<NoteList>,
    tag_list: Option<TagList>,
}

impl NoteManager {
    /// The repository is that of the directory, and the registries that
    /// are loaded are well formed.
    pub closed spec fn wf(&self) -> bool {
        &&& self.repository@ == self.directory@
        &&& self.note_list matches Some(notes) ==> notes.wf()
        &&& self.tag_list matches Some(tags) ==> tags.wf()
    }

    /// The directory of the store.
    pub closed spec fn directory_view(&self) -> Seq<char> {
        self.directory@
    }

    /// The notes, once they are loaded.
    pub closed spec fn notes(&self) -> Option<Seq<NoteView>> {
        match self.note_list {
            Some(notes) => Some(note_views(notes@)),
            None => None,
        }
    }

    /// The events of the note registry that are pending, once the notes
    /// are loaded.
    pub closed spec fn note_events(&self) -> Option<Seq<ChangeEvent>> {
        match self.note_list {
            Some(notes) => Some(notes.pending()),
            None => None,
        }
    }

    /// The names of the tags, once they are loaded.
    pub closed spec fn tags(&self) -> Option<Seq<Seq<char>>> {
        match self.tag_list {
            Some(tags) => Some(tags@),
            None => None,
        }
    }

    /// The events of the tag registry that are pending, once the tags are
    /// loaded.
    pub closed spec fn tag_events(&self) -> Option<Seq<ChangeEvent>> {
        match self.tag_list {
            Some(tags) => Some(tags.pending()),
            None => None,
        }
    }

    /// In a well-formed store no two notes share an identifier.
    pub proof fn lemma_notes_distinct(&self)
        requires
            self.wf(),
            self.notes() is Some,
        ensures
            note_ids(self.notes()->0).no_duplicates(),
    {
        let notes = self.note_list->0;
        lemma_ids_are_keys(notes@);
        notes.lemma_keys_distinct();
    }

    /// The store of the directory `directory`, with nothing loaded yet.
    pub fn for_directory(directory: &str) -> (manager: NoteManager)
        ensures
            manager.wf(),
            manager.directory_view() == directory@,
            manager.notes() is None,
            manager.tags() is None,
    {
        NoteManager {
            directory: directory.to_owned(),
            repository: Repository::new(directory),
            note_list: None,
            tag_list: None,
        }
    }

    /// The directory of the store.
    pub fn directory(&self) -> (directory: &str)
        ensures
            directory@ == self.directory_view(),
    {
        self.directory.as_str()
    }

    /// The repository of the store.
    pub fn repository(&self) -> (repository: &Repository)
        requires
            self.wf(),
        ensures
            repository@ == self.directory_view(),
    {
        &self.repository
    }

    /// The note registry, once the notes are loaded.
    pub fn note_list(&self) -> (notes: Option<&NoteList>)
        requires
            self.wf(),
        ensures
            match notes {
                Some(notes) => notes.wf() && self.notes() == Some(note_views(notes@))
                    && self.note_events() == Some(notes.pending()),
                None => self.notes() is None,
            },
    {
        self.note_list.as_ref()
    }

    /// The tag registry, once the tags are loaded.
    pub fn tag_list(&self) -> (tags: Option<&TagList>)
        requires
            self.wf(),
        ensures
            match tags {
                Some(tags) => tags.wf() && self.tags() == Some(tags@) && self.tag_events() == Some(
                    tags.pending(),
                ),
                None => self.tags() is None,
            },
    {
        self.tag_list.as_ref()
    }

    /// Whether the tags and the notes are loaded.
    pub fn is_loaded(&self) -> (loaded: bool)
        ensures
            loaded == (self.notes() is Some && self.tags() is Some),
    {
        self.note_list.is_some() && self.tag_list.is_some()
    }

    /// Loads the tags from the content of the data file, `None` where
    /// there is no file or it could not be read. Whatever the content, the
    /// store has a tag registry afterwards: a file that gives no tags
    /// gives an empty one.
    pub fn load_data_file(&mut self, content: Option<&[u8]>)
        requires
            old(self).wf(),
        ensures
            final(self).wf(),
            final(self).tags() == Some(
                data_tag_names(
                    match content {
                        Some(bytes) => Some(bytes@),
                        None => None,
                    },
                ),
            ),
            final(self).tag_events() == Some(Seq::<ChangeEvent>::empty()),
            final(self).notes() == old(self).notes(),
            final(self).note_events() == old(self).note_events(),
            final(self).directory_view() == old(self).directory_view(),
    {
        let names = match content {
            Some(bytes) => match text_from_utf8(vstd::slice::slice_to_vec(bytes)) {
                Some(text) => {
                    proof {
                        encode_utf8_valid_utf8(text@);
                        encode_utf8_decode_utf8(text@);
                    }
                    match read_yaml_field(text.as_str(), "tag_list") {
                        FieldValue::List(names) => names,
                        _ => Vec::new(),
                    }
                },
                None => Vec::new(),
            },
            None => Vec::new(),
        };
        let tags = TagList::from_names(&names);
        proof {
            assert(crate::tag_list::accepted_names(Seq::<Seq<char>>::empty()) =~= Seq::<
                Seq<char>,
            >::empty());
            assert(views_of(Seq::<String>::empty()) =~= Seq::<Seq<char>>::empty());
        }
        self.tag_list = Some(tags);
    }

    /// What becomes of `file` when it is loaded into `notes`.
    fn load_file(notes: &mut NoteList, file: &NoteFile) -> (outcome: LoadOutcome)
        requires
            old(notes).wf(),
        ensures
            final(notes).wf(),
            outcome == load_outcome(note_ids(note_views(old(notes)@)), file@),
            note_views(final(notes)@) == if outcome == LoadOutcome::Loaded {
                note_views(old(notes)@).push(loaded(file@.name, file@.content->0)->0)
            } else {
                note_views(old(notes)@)
            },
    {
        if note_id_from_file_name(file.name.as_str()).is_none() {
            return LoadOutcome::Skipped;
        }
        let bytes = match &file.content {
            Some(bytes) => bytes,
            None => {
                return LoadOutcome::Unreadable;
            },
        };
        let note = match Note::from_file(file.name.as_str(), bytes.as_slice()) {
            Ok(note) => note,
            Err(_) => {
                return LoadOutcome::Malformed;
            },
        };
        proof {
            lemma_ids_are_keys(notes@);
            lemma_note_views_push(notes@, note);
        }
        match notes.insert(note) {
            Ok(()) => LoadOutcome::Loaded,
            Err(_) => LoadOutcome::Duplicate,
        }
    }

    /// Loads the notes from the files of the directory, in the order
    /// given, and says what became of each file. Each file is taken by
    /// itself: one that is no note file, could not be read or holds no
    /// note is passed over and the others are loaded all the same. The
    /// notes that were loaded before are replaced.
    pub fn load_notes(&mut self, files: &Vec<NoteFile>) -> (outcomes: Vec<LoadOutcome>)
        requires
            old(self).wf(),
        ensures
            final(self).wf(),
            final(self).notes() == Some(notes_loaded(file_views(files@))),
            final(self).note_events() == Some(Seq::<ChangeEvent>::empty()),
            outcomes@ == load_outcomes(file_views(files@)),
            final(self).tags() == old(self).tags(),
            final(self).tag_events() == old(self).tag_events(),
            final(self).directory_view() == old(self).directory_view(),
    {
        let mut notes = NoteList::new();
        let mut outcomes: Vec<LoadOutcome> = Vec::new();
        let ghost views = file_views(files@);
        assert(note_views(notes@) =~= notes_loaded(views.take(0)));
        let mut i: usize = 0;
        while i < files.len()
            invariant
                i <= files.len(),
                views == file_views(files@),
                notes.wf(),
                note_views(notes@) == notes_loaded(views.take(i as int)),
                outcomes@ == load_outcomes(views.take(i as int)),
            decreases files.len() - i,
        {
            proof {
                assert(views.take(i + 1).drop_last() =~= views.take(i as int));
                assert(views.take(i + 1).last() == files[i as int]@);
            }
            let outcome = NoteManager::load_file(&mut notes, &files[i]);
            outcomes.push(outcome);
            i += 1;
        }
        assert(views.take(i as int) =~= views);
        let _ = notes.take_events();
        self.note_list = Some(notes);
        outcomes
    }

    /// Loads the store: first the tags from the data file, then the notes
    /// from the files, so that what a note says of its tags can be held
    /// against the tags that exist.
    pub fn load(&mut self, data_file: Option<&[u8]>, files: &Vec<NoteFile>) -> (outcomes: Vec<
        LoadOutcome,
    >)
        requires
            old(self).wf(),
        ensures
            final(self).wf(),
            final(self).tags() == Some(
                data_tag_names(
                    match data_file {
                        Some(bytes) => Some(bytes@),
                        None => None,
                    },
                ),
            ),
            final(self).notes() == Some(notes_loaded(file_views(files@))),
            final(self).note_events() == Some(Seq::<ChangeEvent>::empty()),
            final(self).tag_events() == Some(Seq::<ChangeEvent>::empty()),
            outcomes@ == load_outcomes(file_views(files@)),
            final(self).directory_view() == old(self).directory_view(),
    {
        self.load_data_file(data_file);
        self.load_notes(files)
    }

    /// The write that saves `note`: none where the note is saved already,
    /// a failure where it cannot be written.
    fn write_of(note: &Note) -> (result: Result<Option<FileWrite>, StoreError>)
        ensures
            match result {
                Ok(Some(write)) => !note@.is_saved && write_for(note@) == Some(write@),
                Ok(None) => note@.is_saved,
                Err(error) => {
                    &&& error == StoreError::DeserializationError
                    &&& !note@.is_saved
                    &&& serialized(note@) is None
                },
            },
    {
        if note.is_saved() {
            return Ok(None);
        }
        match note.serialize() {
            Ok(bytes) => Ok(Some(FileWrite { file_name: note.file(), bytes })),
            Err(error) => Err(error),
        }
    }

    /// The write that saves the note `id`: none where the note is saved
    /// already. The note stays unsaved until `note_saved` tells the store
    /// that the write was made.
    pub fn save_note(&self, id: &str) -> (result: Result<Option<FileWrite>, StoreError>)
        requires
            self.wf(),
            self.notes() is Some,
        ensures
            match result {
                Ok(write) => {
                    let notes = self.notes()->0;
                    let note = notes[note_ids(notes).index_of(id@)];
                    &&& note_ids(notes).contains(id@)
                    &&& match write {
                        Some(write) => !note.is_saved && write_for(note) == Some(write@),
                        None => note.is_saved,
                    }
                },
                Err(error) => {
                    let notes = self.notes()->0;
                    let note = notes[note_ids(notes).index_of(id@)];
                    if note_ids(notes).contains(id@) {
                        &&& error == StoreError::DeserializationError
                        &&& !note.is_saved
                        &&& serialized(note) is None
                    } else {
                        error == StoreError::Registry(RegistryError::NotFound)
                    }
                },
            },
    {
        let notes = match &self.note_list {
            Some(notes) => notes,
            None => {
                return Err(StoreError::Registry(RegistryError::NotFound));
            },
        };
        proof {
            lemma_ids_are_keys(notes@);
        }
        let note = match notes.get(id) {
            Some(note) => note,
            None => {
                return Err(StoreError::Registry(RegistryError::NotFound));
            },
        };
        NoteManager::write_of(note)
    }

    /// The writes that save every note that is not saved, in the order of
    /// the registry. The flush stops at the first note that cannot be
    /// written and names it with its failure; the writes handed out are
    /// then those of the notes before it, all of which could be written.
    /// A flush without failure has a write for every note that is not
    /// saved. A note stays unsaved until `note_saved` tells the store that
    /// its write was made.
    pub fn save_all_notes(&self) -> (flush: Flush)
        requires
            self.wf(),
            self.notes() is Some,
        ensures
            match flush.failure {
                None => {
                    &&& write_views(flush.writes@) == writes_for(self.notes()->0)
                    &&& all_writable(self.notes()->0)
                },
                Some((position, error)) => {
                    let notes = self.notes()->0;
                    &&& error == StoreError::DeserializationError
                    &&& position < notes.len()
                    &&& !notes[position as int].is_saved
                    &&& serialized(notes[position as int]) is None
                    &&& write_views(flush.writes@) == writes_for(notes.take(position as int))
                    &&& all_writable(notes.take(position as int))
                },
            },
    {
        let mut writes: Vec<FileWrite> = Vec::new();
        let notes = match &self.note_list {
            Some(notes) => notes,
            None => {
                return Flush { writes, failure: None };
            },
        };
        let ghost views = note_views(notes@);
        assert(write_views(writes@) =~= writes_for(views.take(0)));
        let mut i: usize = 0;
        while i < notes.len()
            invariant
                i <= notes@.len(),
                views == note_views(notes@),
                self.notes() == Some(views),
                write_views(writes@) == writes_for(views.take(i as int)),
                all_writable(views.take(i as int)),
            decreases notes@.len() - i,
        {
            proof {
                assert(views.take(i + 1).drop_last() =~= views.take(i as int));
                assert(views.take(i + 1).last() == notes@[i as int]@);
            }
            let ghost before = writes@;
            match notes.get_at(i) {
                Some(note) => match NoteManager::write_of(note) {
                    Ok(Some(write)) => {
                        writes.push(write);
                        assert(write_views(writes@) =~= write_views(before).push(write@));
                    },
                    Ok(None) => {},
                    Err(error) => {
                        assert(views[i as int] == note@);
                        return Flush { writes, failure: Some((i, error)) };
                    },
                },
                None => {},
            }
            assert forall|j: int|
                0 <= j < i + 1 && !(#[trigger] views.take(i + 1)[j]).is_saved implies serialized(
                views.take(i + 1)[j],
            ) is Some by {
                if j < i {
                    assert(views.take(i + 1)[j] == views.take(i as int)[j]);
                }
            }
            i += 1;
        }
        assert(views.take(i as int) =~= views);
        Flush { writes, failure: None }
    }

    /// Records that the file of the note `id` was written: the note is
    /// saved.
    pub fn note_saved(&mut self, id: &str) -> (result: Result<(), StoreError>)
        requires
            old(self).wf(),
            old(self).notes() is Some,
        ensures
            final(self).wf(),
            Self::edited(old(self), final(self), id@, NoteEdit::MarkSaved, result),
    {
        self.edit_note(id, NoteEdit::MarkSaved)
    }

    /// Whether `after` is `before` once `edit` was asked of the note
    /// `id` and `result` came back: done in place where the note exists,
    /// with one event recorded for its position; refused, with nothing
    /// changed, where it does not.
    pub open spec fn edited(
        before: &NoteManager,
        after: &NoteManager,
        id: Seq<char>,
        edit: NoteEdit,
        result: Result<(), StoreError>,
    ) -> bool {
        let notes = before.notes()->0;
        let position = note_ids(notes).index_of(id);
        &&& after.notes() is Some
        &&& after.tags() == before.tags()
        &&& after.tag_events() == before.tag_events()
        &&& after.directory_view() == before.directory_view()
        &&& match result {
            Ok(()) => {
                &&& note_ids(notes).contains(id)
                &&& after.notes()->0.len() == notes.len()
                &&& note_ids(after.notes()->0) == note_ids(notes)
                &&& forall|j: int|
                    0 <= j < notes.len() && j != position ==> after.notes()->0[j] == notes[j]
                &&& edit.alters(notes[position], after.notes()->0[position])
                &&& after.note_events() == Some(
                    before.note_events()->0.push(ChangeEvent::changed_at(position)),
                )
            },
            Err(error) => {
                &&& error == StoreError::Registry(RegistryError::NotFound)
                &&& !note_ids(notes).contains(id)
                &&& after.notes() == before.notes()
                &&& after.note_events() == before.note_events()
            },
        }
    }

    /// Whether `after` is `before` once `edit` was asked of the note
    /// `id` at the moment `now` and `result` came back: as `edited` says,
    /// and with the note changed exactly as the edit changes it at that
    /// moment.
    pub open spec fn edited_at(
        before: &NoteManager,
        after: &NoteManager,
        id: Seq<char>,
        edit: NoteEdit,
        now: Date,
        result: Result<(), StoreError>,
    ) -> bool {
        let notes = before.notes()->0;
        let position = note_ids(notes).index_of(id);
        &&& Self::edited(before, after, id, edit, result)
        &&& result is Ok ==> after.notes()->0[position] == edit.applied(notes[position], now)
    }

    /// Makes `edit` on the note `id`, in place, at the moment `now`.
    pub fn edit_note_at(&mut self, id: &str, edit: NoteEdit, now: Date) -> (result: Result<
        (),
        StoreError,
    >)
        requires
            old(self).wf(),
            old(self).notes() is Some,
        ensures
            final(self).wf(),
            Self::edited_at(old(self), final(self), id@, edit, now, result),
    {
        let mut notes = match self.note_list.take() {
            Some(notes) => notes,
            None => {
                return Err(StoreError::Registry(RegistryError::NotFound));
            },
        };
        let ghost before = notes@;
        let result = notes.edit(id, TimedEdit { edit, now });
        proof {
            lemma_ids_are_keys(before);
            lemma_ids_are_keys(notes@);
            if result.is_ok() {
                let position = note_ids(note_views(before)).index_of(id@);
                edit.lemma_applied_alters(note_views(before)[position], now);
                assert forall|j: int| 0 <= j < before.len() && j != position implies note_views(
                    notes@,
                )[j] == note_views(before)[j] by {
                    assert(notes@[j] == before[j]);
                }
            }
        }
        self.note_list = Some(notes);
        match result {
            Ok(()) => Ok(()),
            Err(error) => Err(StoreError::Registry(error)),
        }
    }

    /// Makes `edit` on the note `id`, in place, at the moment that the
    /// clock gives.
    pub fn edit_note(&mut self, id: &str, edit: NoteEdit) -> (result: Result<(), StoreError>)
        requires
            old(self).wf(),
            old(self).notes() is Some,
        ensures
            final(self).wf(),
            Self::edited(old(self), final(self), id@, edit, result),
    {
        let mut notes = match self.note_list.take() {
            Some(notes) => notes,
            None => {
                return Err(StoreError::Registry(RegistryError::NotFound));
            },
        };
        let ghost before = notes@;
        let result = notes.edit(id, edit);
        proof {
            lemma_ids_are_keys(before);
            lemma_ids_are_keys(notes@);
            if result.is_ok() {
                let position = note_ids(note_views(before)).index_of(id@);
                assert forall|j: int| 0 <= j < before.len() && j != position implies note_views(
                    notes@,
                )[j] == note_views(before)[j] by {
                    assert(notes@[j] == before[j]);
                }
            }
        }
        self.note_list = Some(notes);
        match result {
            Ok(()) => Ok(()),
            Err(error) => Err(StoreError::Registry(error)),
        }
    }

    /// The write that saves the tags: the data file with the names of
    /// the tags in their order. The file is read again before it is
    /// handed out, and the write is refused where the writer fails or a
    /// reader would not find these tags in what it wrote.
    pub fn save_data_file(&self) -> (result: Result<FileWrite, StoreError>)
        requires
            self.wf(),
            self.tags() is Some,
        ensures
            match result {
                Ok(write) => {
                    &&& write.file_name@ == DATA_FILE_NAME@
                    &&& data_file_written(self.tags()->0) == Some(write.bytes@)
                    &&& data_tag_names(Some(write.bytes@)) == self.tags()->0
                },
                Err(error) => {
                    &&& error == StoreError::DeserializationError
                    &&& data_file_written(self.tags()->0) is None
                },
            },
    {
        let names = match &self.tag_list {
            Some(tags) => tags.names(),
            None => Vec::new(),
        };
        let mut mapping = mapping_new();
        assert(entry_keys(mapping_entries(mapping)) =~= Seq::<Seq<char>>::empty());
        mapping_put_list(&mut mapping, "tag_list", &names);
        assert(mapping_entries(mapping) =~= seq![("tag_list"@, FieldView::List(views_of(names@)))]);
        let text = match mapping_to_text(&mapping) {
            Some(text) => text,
            None => {
                return Err(StoreError::DeserializationError);
            },
        };
        proof {
            encode_utf8_valid_utf8(text@);
            encode_utf8_decode_utf8(text@);
        }
        let read = match read_yaml_field(text.as_str(), "tag_list") {
            FieldValue::List(found) => TagList::from_names(&found).names(),
            _ => Vec::new(),
        };
        assert(views_of(read@) =~= data_tag_names(Some(encode_utf8(text@))));
        if !same_texts(&read, &names) {
            return Err(StoreError::DeserializationError);
        }
        Ok(
            FileWrite {
                file_name: DATA_FILE_NAME.to_owned(),
                bytes: vstd::slice::slice_to_vec(text.as_str().as_bytes()),
            },
        )
    }

    /// The note that is created at the moment `reading`.
    pub open spec fn fresh_note(reading: ClockReading) -> NoteView {
        NoteView {
            id: note_id_text(reading),
            metadata: MetadataView {
                last_modified: Date { micros: reading.unix_micros },
                ..MetadataView::blank()
            },
            content: Seq::empty(),
            is_saved: false,
        }
    }

    /// Whether `after` is `before` once the note of the moment `reading`
    /// was to be created and `result` came back: the note appended under
    /// the identifier of the moment, with one event recorded for the new
    /// last position; or, where that identifier is taken, the creation
    /// refused as a duplicate and nothing changed.
    pub open spec fn created(
        before: &NoteManager,
        after: &NoteManager,
        reading: ClockReading,
        result: Result<String, StoreError>,
    ) -> bool {
        let notes = before.notes()->0;
        &&& after.tags() == before.tags()
        &&& after.tag_events() == before.tag_events()
        &&& after.directory_view() == before.directory_view()
        &&& match result {
            Ok(id) => {
                &&& id@ == note_id_text(reading)
                &&& !note_ids(notes).contains(id@)
                &&& after.notes() == Some(notes.push(Self::fresh_note(reading)))
                &&& after.note_events() == Some(
                    before.note_events()->0.push(ChangeEvent::inserted_at(notes.len() as int)),
                )
            },
            Err(error) => {
                &&& error == StoreError::Registry(RegistryError::DuplicateKey)
                &&& note_ids(notes).contains(note_id_text(reading))
                &&& after.notes() == before.notes()
                &&& after.note_events() == before.note_events()
            },
        }
    }

    /// Creates the note of the moment `reading`: a new note without
    /// title, text or tags, last modified at that moment and not saved,
    /// appended to the registry under the identifier of the moment, which
    /// is handed back. A moment whose identifier is taken is refused as a
    /// duplicate and changes nothing.
    pub fn create_note_at(&mut self, reading: &ClockReading) -> (result: Result<String, StoreError>)
        requires
            old(self).wf(),
            old(self).notes() is Some,
        ensures
            final(self).wf(),
            Self::created(old(self), final(self), *reading, result),
    {
        let mut notes = match self.note_list.take() {
            Some(notes) => notes,
            None => {
                return Err(StoreError::Registry(RegistryError::DuplicateKey));
            },
        };
        let id = note_id(reading);
        let file_name = id.clone().concat(".md");
        proof {
            reveal_strlit("Noteworthy-");
            assert(id@.len() > 0);
            lemma_file_name_round_trip(id@);
            lemma_ids_are_keys(notes@);
        }
        let created = Date::of_reading(reading);
        let result = match Note::create_default_at(file_name.as_str(), created) {
            Ok(note) => {
                proof {
                    lemma_note_views_push(notes@, note);
                }
                match notes.insert(note) {
                    Ok(()) => Ok(id),
                    Err(error) => Err(StoreError::Registry(error)),
                }
            },
            Err(error) => Err(error),
        };
        self.note_list = Some(notes);
        result
    }

    /// Creates the note of the present moment, as the clock gives it:
    /// what `create_note_at` does for some moment of the calendar. So
    /// either a note with a new identifier is appended and one event
    /// recorded, or the identifier is taken and the creation is refused as
    /// a duplicate, with nothing changed.
    pub fn create_note(&mut self) -> (result: Result<String, StoreError>)
        requires
            old(self).wf(),
            old(self).notes() is Some,
        ensures
            final(self).wf(),
            exists|reading: ClockReading|
                reading.wf() && #[trigger] Self::created(old(self), final(self), reading, result),
    {
        let reading = read_clock();
        let result = self.create_note_at(&reading);
        assert(Self::created(old(self), self, reading, result));
        result
    }

    /// Two creations, one after the other: both succeed only with two
    /// different identifiers; at moments that show alike the second is
    /// refused as a duplicate once the first has succeeded; and moments
    /// that show differently never share an identifier.
    pub proof fn lemma_create_twice(
        start: &NoteManager,
        middle: &NoteManager,
        end: &NoteManager,
        first: ClockReading,
        second: ClockReading,
        first_result: Result<String, StoreError>,
        second_result: Result<String, StoreError>,
    )
        requires
            start.notes() is Some,
            first.wf(),
            second.wf(),
            Self::created(start, middle, first, first_result),
            Self::created(middle, end, second, second_result),
        ensures
            first_result is Ok && second_result is Ok ==> first_result->Ok_0@
                != second_result->Ok_0@,
            first_result is Ok && tick(first) == tick(second) ==> second_result == Err::<
                String,
                StoreError,
            >(StoreError::Registry(RegistryError::DuplicateKey)),
            tick(first) != tick(second) ==> note_id_text(first) != note_id_text(second),
    {
        if first_result is Ok {
            let notes = middle.notes()->0;
            assert(note_ids(notes)[notes.len() - 1] == note_id_text(first));
        }
        if tick(first) != tick(second) {
            lemma_note_ids_distinct(first, second);
        }
    }

    /// Takes the note `id` out of the registry and hands back the name of
    /// its file, which the caller is to delete. The note leaves the
    /// registry first, and stays out of it whatever becomes of the file.
    pub fn delete_note(&mut self, id: &str) -> (result: Result<String, StoreError>)
        requires
            old(self).wf(),
            old(self).notes() is Some,
        ensures
            final(self).wf(),
            final(self).tags() == old(self).tags(),
            final(self).tag_events() == old(self).tag_events(),
            final(self).directory_view() == old(self).directory_view(),
            match result {
                Ok(file_name) => {
                    let notes = old(self).notes()->0;
                    let position = note_ids(notes).index_of(id@);
                    &&& note_ids(notes).contains(id@)
                    &&& file_name@ == note_file_name(id@)
                    &&& final(self).notes() == Some(notes.remove(position))
                    &&& final(self).note_events() == Some(
                        old(self).note_events()->0.push(ChangeEvent::removed_at(position)),
                    )
                },
                Err(error) => {
                    &&& error == StoreError::Registry(RegistryError::NotFound)
                    &&& !note_ids(old(self).notes()->0).contains(id@)
                    &&& final(self).notes() == old(self).notes()
                    &&& final(self).note_events() == old(self).note_events()
                },
            },
    {
        let mut notes = match self.note_list.take() {
            Some(notes) => notes,
            None => {
                return Err(StoreError::Registry(RegistryError::NotFound));
            },
        };
        let ghost before = notes@;
        proof {
            lemma_ids_are_keys(before);
        }
        let result = match notes.remove(id) {
            Ok(note) => {
                proof {
                    let position = note_ids(note_views(before)).index_of(id@);
                    assert(note_views(before)[position].id == id@);
                    assert(note_views(notes@) =~= note_views(before).remove(position));
                }
                Ok(note.file())
            },
            Err(error) => Err(StoreError::Registry(error)),
        };
        self.note_list = Some(notes);
        result
    }

    /// What the deletion of a note's file means, once the note has left
    /// the registry: where the file is still there, the note is an
    /// orphan, and the caller is told so.
    pub fn conclude_delete(file_deleted: bool) -> (result: Result<(), StoreError>)
        ensures
            result == if file_deleted {
                Ok::<(), StoreError>(())
            } else {
                Err::<(), StoreError>(StoreError::OrphanedEntity)
            },
    {
        if file_deleted {
            Ok(())
        } else {
            Err(StoreError::OrphanedEntity)
        }
    }

    /// Hands out the pending events of the note registry, oldest first,
    /// and leaves none pending.
    pub fn take_note_events(&mut self) -> (events: Vec<ChangeEvent>)
        requires
            old(self).wf(),
            old(self).notes() is Some,
        ensures
            final(self).wf(),
            events@ == old(self).note_events()->0,
            final(self).note_events() == Some(Seq::<ChangeEvent>::empty()),
            final(self).notes() == old(self).notes(),
            final(self).tags() == old(self).tags(),
            final(self).tag_events() == old(self).tag_events(),
            final(self).directory_view() == old(self).directory_view(),
    {
        let mut notes = match self.note_list.take() {
            Some(notes) => notes,
            None => {
                return Vec::new();
            },
        };
        let events = notes.take_events();
        self.note_list = Some(notes);
        events
    }

    /// Whether `after` is `before` with nothing changed but the tags and
    /// their events.
    pub open spec fn same_but_tags(before: &NoteManager, after: &NoteManager) -> bool {
        &&& after.tags() is Some
        &&& after.notes() == before.notes()
        &&& after.note_events() == before.note_events()
        &&& after.directory_view() == before.directory_view()
    }

    /// Appends `tag` to the tag registry, as `TagList::append` does.
    pub fn append_tag(&mut self, tag: Tag) -> (result: Result<(), RegistryError>)
        requires
            old(self).wf(),
            old(self).tags() is Some,
        ensures
            final(self).wf(),
            Self::same_but_tags(old(self), final(self)),
            match result {
                Ok(()) => {
                    &&& tag@.len() > 0
                    &&& !old(self).tags()->0.contains(tag@)
                    &&& final(self).tags()->0 == old(self).tags()->0.push(tag@)
                    &&& final(self).tag_events()->0 == old(self).tag_events()->0.push(
                        ChangeEvent::inserted_at(old(self).tags()->0.len() as int),
                    )
                },
                Err(error) => {
                    &&& error == if tag@.len() == 0 {
                        RegistryError::InvalidKey
                    } else {
                        RegistryError::DuplicateKey
                    }
                    &&& tag@.len() == 0 || old(self).tags()->0.contains(tag@)
                    &&& final(self).tags() == old(self).tags()
                    &&& final(self).tag_events() == old(self).tag_events()
                },
            },
    {
        let mut tags = match self.tag_list.take() {
            Some(tags) => tags,
            None => {
                return Err(RegistryError::InvalidKey);
            },
        };
        let result = tags.append(tag);
        self.tag_list = Some(tags);
        result
    }

    /// Removes the tag named as `tag` is from the tag registry, as
    /// `TagList::remove` does. The notes keep what they say of their tags.
    pub fn remove_tag(&mut self, tag: &Tag) -> (result: Result<(), RegistryError>)
        requires
            old(self).wf(),
            old(self).tags() is Some,
        ensures
            final(self).wf(),
            Self::same_but_tags(old(self), final(self)),
            match result {
                Ok(()) => {
                    let position = old(self).tags()->0.index_of(tag@);
                    &&& old(self).tags()->0.contains(tag@)
                    &&& final(self).tags()->0 == old(self).tags()->0.remove(position)
                    &&& final(self).tag_events()->0 == old(self).tag_events()->0.push(
                        ChangeEvent::removed_at(position),
                    )
                },
                Err(error) => {
                    &&& error == RegistryError::NotFound
                    &&& !old(self).tags()->0.contains(tag@)
                    &&& final(self).tags() == old(self).tags()
                    &&& final(self).tag_events() == old(self).tag_events()
                },
            },
    {
        let mut tags = match self.tag_list.take() {
            Some(tags) => tags,
            None => {
                return Err(RegistryError::NotFound);
            },
        };
        let result = tags.remove(tag);
        self.tag_list = Some(tags);
        result
    }

    /// Renames the tag named as `tag` is to `name` in the tag registry, as
    /// `TagList::rename_tag` does. The notes keep what they say of their
    /// tags.
    pub fn rename_tag(&mut self, tag: &Tag, name: &str) -> (result: Result<(), RegistryError>)
        requires
            old(self).wf(),
            old(self).tags() is Some,
        ensures
            final(self).wf(),
            Self::same_but_tags(old(self), final(self)),
            match result {
                Ok(()) => rename_refusal(old(self).tags()->0, tag@, name@) is None,
                Err(error) => rename_refusal(old(self).tags()->0, tag@, name@) == Some(error),
            },
            result is Err || name@ == tag@ ==> {
                &&& final(self).tags() == old(self).tags()
                &&& final(self).tag_events() == old(self).tag_events()
            },
            result is Ok && name@ != tag@ ==> {
                let position = old(self).tags()->0.index_of(tag@);
                &&& final(self).tags()->0 == old(self).tags()->0.update(position, name@)
                &&& final(self).tag_events()->0 == old(self).tag_events()->0.push(
                    ChangeEvent::changed_at(position),
                )
            },
    {
        let mut tags = match self.tag_list.take() {
            Some(tags) => tags,
            None => {
                return Err(RegistryError::NotFound);
            },
        };
        let result = tags.rename_tag(tag, name);
        self.tag_list = Some(tags);
        result
    }

    /// Hands out the pending events of the tag registry, oldest first,
    /// and leaves none pending.
    pub fn take_tag_events(&mut self) -> (events: Vec<ChangeEvent>)
        requires
            old(self).wf(),
            old(self).tags() is Some,
        ensures
            final(self).wf(),
            Self::same_but_tags(old(self), final(self)),
            events@ == old(self).tag_events()->0,
            final(self).tag_events() == Some(Seq::<ChangeEvent>::empty()),
            final(self).tags() == old(self).tags(),
    {
        let mut tags = match self.tag_list.take() {
            Some(tags) => tags,
            None => {
                return Vec::new();
            },
        };
        let events = tags.take_events();
        self.tag_list = Some(tags);
        events
    }
}

} // verus!
