use noteworthy::acquire::{advance_acquire, begin_acquire, AcquireState, Binding};
use noteworthy::clock::ClockReading;
use noteworthy::date::Date;
use noteworthy::error::{RegistryError, RepositoryError, StoreError};
use noteworthy::note::{Note, NoteEdit};
use noteworthy::note_manager::{LoadOutcome, NoteFile, NoteManager};
use noteworthy::registry::ChangeEvent;
use noteworthy::repository::{conclude, Operation, Repository, SyncOutcome};
use noteworthy::tag::Tag;

fn event(position: usize, removed_count: usize, inserted_count: usize) -> ChangeEvent {
    ChangeEvent { position, removed_count, inserted_count }
}

fn file(name: &str, content: Option<&str>) -> NoteFile {
    NoteFile { name: name.to_string(), content: content.map(|text| text.as_bytes().to_vec()) }
}

fn reading(nanosecond: u32) -> ClockReading {
    ClockReading {
        year: 2021,
        month: 11,
        day: 5,
        hour: 9,
        minute: 7,
        second: 3,
        nanosecond,
        unix_micros: 1_636_103_223_000_000,
    }
}

fn ids(manager: &NoteManager) -> Vec<String> {
    let notes = manager.note_list().unwrap();
    (0..notes.len()).map(|position| notes.get_at(position).unwrap().id().to_string()).collect()
}

#[test]
fn a_new_manager_has_nothing_loaded() {
    let manager = NoteManager::for_directory("/tmp/notes");
    assert_eq!(manager.directory(), "/tmp/notes");
    assert_eq!(manager.repository().base_path(), "/tmp/notes");
    assert!(manager.note_list().is_none());
    assert!(manager.tag_list().is_none());
    assert!(!manager.is_loaded());
}

#[test]
fn load_reads_the_tags_and_the_notes() {
    let mut manager = NoteManager::for_directory("dir");
    let files = vec![
        file("b.md", Some("---\ntitle: B\ntag_list:\n  - work\n  - lost\n---\nbody b")),
        file("data.nwty", Some("tag_list:\n  - work\n")),
        file("a.md", Some("plain")),
        file("broken.md", None),
        file("binary.md", None),
        file("b.md", Some("again")),
        file("notes.txt", Some("x")),
    ];
    let outcomes = manager.load(Some(b"---\ntag_list:\n  - work\n  - home\n  - work\n"), &files);
    assert_eq!(
        outcomes,
        vec![
            LoadOutcome::Loaded,
            LoadOutcome::Skipped,
            LoadOutcome::Loaded,
            LoadOutcome::Unreadable,
            LoadOutcome::Unreadable,
            LoadOutcome::Duplicate,
            LoadOutcome::Skipped,
        ]
    );
    assert!(manager.is_loaded());
    assert_eq!(manager.tag_list().unwrap().names(), vec!["work".to_string(), "home".to_string()]);
    assert_eq!(ids(&manager), vec!["b".to_string(), "a".to_string()]);
    let note = manager.note_list().unwrap().get("b").unwrap();
    assert_eq!(note.metadata().title(), "B");
    assert_eq!(note.content(), "body b");
    assert_eq!(
        manager.tag_list().unwrap().missing_from(note.metadata().tags()),
        vec!["lost".to_string()]
    );
    assert!(manager.take_note_events().is_empty());
}

#[test]
fn one_bad_file_does_not_stop_the_load() {
    let mut manager = NoteManager::for_directory("dir");
    let files = vec![
        NoteFile { name: "bad.md".to_string(), content: Some(vec![0xff, 0x00]) },
        file("good.md", Some("fine")),
    ];
    let outcomes = manager.load(None, &files);
    assert_eq!(outcomes, vec![LoadOutcome::Malformed, LoadOutcome::Loaded]);
    assert_eq!(ids(&manager), vec!["good".to_string()]);
    assert!(manager.tag_list().unwrap().names().is_empty());
}

#[test]
fn a_data_file_that_is_no_tag_list_gives_no_tags() {
    for content in ["", "tag_list: 3\n", "other: [a]\n", "tag_list:\n  - [nested]\n", ": : {"] {
        let mut manager = NoteManager::for_directory("dir");
        manager.load_data_file(Some(content.as_bytes()));
        assert!(manager.tag_list().unwrap().names().is_empty());
    }
    let mut manager = NoteManager::for_directory("dir");
    manager.load_data_file(Some(&[0xff]));
    assert_eq!(manager.tag_list().unwrap().len(), 0);
    manager.load_data_file(None);
    assert_eq!(manager.tag_list().unwrap().len(), 0);
}

#[test]
fn acquire_with_an_unreachable_remote_gives_an_empty_local_store() {
    let repository = Repository::new("empty");
    let request = repository.clone("git@unreachable.invalid:me/notes.git".to_string(), "pw".to_string());
    let mut state = begin_acquire(request.is_ok());
    assert_eq!(state, AcquireState::Cloning);
    state = advance_acquire(state, conclude(Operation::Clone, SyncOutcome::Failure));
    assert_eq!(state, AcquireState::Opening);
    state = advance_acquire(state, Repository::open("empty", false).map(|_| ()));
    assert_eq!(state, AcquireState::Bound(Binding::LocalOnly));

    let mut manager = NoteManager::for_directory("empty");
    let outcomes = manager.load(None, &Vec::new());
    assert!(outcomes.is_empty());
    assert!(manager.is_loaded());
    assert_eq!(manager.tag_list().unwrap().len(), 0);
    assert_eq!(manager.note_list().unwrap().len(), 0);
}

#[test]
fn acquire_follows_the_outcomes() {
    let ok: Result<(), RepositoryError> = Ok(());
    let failed: Result<(), RepositoryError> = Err(RepositoryError::IoError);
    assert_eq!(begin_acquire(false), AcquireState::Opening);
    assert_eq!(advance_acquire(AcquireState::Cloning, ok), AcquireState::Bound(Binding::Cloned));
    assert_eq!(advance_acquire(AcquireState::Cloning, failed), AcquireState::Opening);
    assert_eq!(advance_acquire(AcquireState::Opening, ok), AcquireState::Fetching);
    assert_eq!(advance_acquire(AcquireState::Fetching, ok), AcquireState::Merging);
    assert_eq!(advance_acquire(AcquireState::Fetching, failed), AcquireState::Bound(Binding::Stale));
    assert_eq!(advance_acquire(AcquireState::Merging, ok), AcquireState::Bound(Binding::Updated));
    assert_eq!(
        advance_acquire(AcquireState::Merging, Err(RepositoryError::MergeConflict)),
        AcquireState::Bound(Binding::Stale)
    );
    assert_eq!(
        advance_acquire(AcquireState::Bound(Binding::Stale), ok),
        AcquireState::Bound(Binding::Stale)
    );
}

#[test]
fn create_note_appends_a_note_named_after_the_moment() {
    let mut manager = NoteManager::for_directory("dir");
    manager.load(None, &Vec::new());
    let id = manager.create_note_at(&reading(1_000)).unwrap();
    assert_eq!(id, "Noteworthy-2021-11-05-09-07-03-000001000");
    assert_eq!(manager.take_note_events(), vec![event(0, 0, 1)]);
    let note = manager.note_list().unwrap().get(&id).unwrap();
    assert_eq!(note.file(), "Noteworthy-2021-11-05-09-07-03-000001000.md");
    assert_eq!(note.content(), "");
    assert!(!note.is_saved());
}

#[test]
fn create_note_twice_in_one_tick_fails_the_second_time() {
    let mut manager = NoteManager::for_directory("dir");
    manager.load(None, &Vec::new());
    assert!(manager.create_note_at(&reading(1_000)).is_ok());
    assert_eq!(
        manager.create_note_at(&reading(1_000)),
        Err(StoreError::Registry(RegistryError::DuplicateKey))
    );
    assert_eq!(manager.note_list().unwrap().len(), 1);
    let other = manager.create_note_at(&reading(2_000)).unwrap();
    assert_eq!(other, "Noteworthy-2021-11-05-09-07-03-000002000");
    assert_eq!(manager.note_list().unwrap().len(), 2);
    assert_eq!(manager.take_note_events(), vec![event(0, 0, 1), event(1, 0, 1)]);
}

#[test]
fn create_note_by_the_clock() {
    let mut manager = NoteManager::for_directory("dir");
    manager.load(None, &Vec::new());
    let first = manager.create_note();
    let second = manager.create_note();
    let id = first.unwrap();
    assert!(id.starts_with("Noteworthy-"));
    match second {
        Ok(other) => {
            assert_ne!(other, id);
            assert_eq!(manager.note_list().unwrap().len(), 2);
        }
        Err(error) => {
            assert_eq!(error, StoreError::Registry(RegistryError::DuplicateKey));
            assert_eq!(manager.note_list().unwrap().len(), 1);
        }
    }
}

#[test]
fn delete_note_takes_the_note_out_and_names_its_file() {
    let mut manager = NoteManager::for_directory("dir");
    let files = vec![file("a.md", Some("a")), file("b.md", Some("b")), file("c.md", Some("c"))];
    manager.load(None, &files);
    assert_eq!(manager.delete_note("b"), Ok("b.md".to_string()));
    assert_eq!(ids(&manager), vec!["a".to_string(), "c".to_string()]);
    assert_eq!(manager.note_list().unwrap().len(), 2);
    assert_eq!(manager.take_note_events(), vec![event(1, 1, 0)]);
    assert_eq!(manager.delete_note("b"), Err(StoreError::Registry(RegistryError::NotFound)));
    assert!(manager.take_note_events().is_empty());
    assert_eq!(NoteManager::conclude_delete(true), Ok(()));
    assert_eq!(NoteManager::conclude_delete(false), Err(StoreError::OrphanedEntity));

    let remaining = vec![file("a.md", Some("a")), file("c.md", Some("c"))];
    let mut reloaded = NoteManager::for_directory("dir");
    reloaded.load(None, &remaining);
    assert!(reloaded.note_list().unwrap().get("b").is_none());
    assert_eq!(ids(&reloaded), vec!["a".to_string(), "c".to_string()]);
}

#[test]
fn save_note_writes_only_what_is_dirty() {
    let mut manager = NoteManager::for_directory("dir");
    manager.load(None, &vec![file("a.md", Some("a")), file("b.md", Some("b"))]);
    assert!(manager.save_note("a").unwrap().is_none());
    assert_eq!(manager.save_note("z").err(), Some(StoreError::Registry(RegistryError::NotFound)));
    let flush = manager.save_all_notes();
    assert!(flush.writes.is_empty());
    assert_eq!(flush.failure, None);

    assert_eq!(manager.edit_note("a", NoteEdit::SetTitle("A".to_string())), Ok(()));
    assert_eq!(manager.take_note_events(), vec![event(0, 1, 1)]);
    assert_eq!(
        manager.edit_note("z", NoteEdit::SetPinned(true)),
        Err(StoreError::Registry(RegistryError::NotFound))
    );
    let write = manager.save_note("a").unwrap().unwrap();
    assert_eq!(write.file_name, "a.md");
    let read = Note::from_file("a.md", &write.bytes).unwrap();
    assert_eq!(read.metadata().title(), "A");
    assert_eq!(read.content(), "a");
    assert!(manager.save_note("a").unwrap().is_some());
    assert_eq!(manager.note_saved("a"), Ok(()));
    assert!(manager.save_note("a").unwrap().is_none());
    assert_eq!(manager.note_saved("z"), Err(StoreError::Registry(RegistryError::NotFound)));
}

#[test]
fn save_all_notes_writes_every_dirty_note_in_order() {
    let mut manager = NoteManager::for_directory("dir");
    manager.load(
        None,
        &vec![file("a.md", Some("a")), file("b.md", Some("b")), file("c.md", Some("c"))],
    );
    manager.edit_note("c", NoteEdit::SetContent("see".to_string())).unwrap();
    manager.edit_note("a", NoteEdit::AddTag("t".to_string())).unwrap();
    manager.edit_note("b", NoteEdit::AddTag("".to_string())).unwrap();
    manager.edit_note("b", NoteEdit::RemoveTag("t".to_string())).unwrap();
    let id = manager.create_note_at(&reading(5)).unwrap();
    let flush = manager.save_all_notes();
    assert_eq!(flush.failure, None);
    let writes = flush.writes;
    let names: Vec<String> = writes.iter().map(|write| write.file_name.clone()).collect();
    assert_eq!(names, vec!["a.md".to_string(), "c.md".to_string(), format!("{}.md", id)]);
    assert_eq!(Note::from_file("c.md", &writes[1].bytes).unwrap().content(), "see");
    for write in &writes {
        manager.note_saved(write.file_name.strip_suffix(".md").unwrap()).unwrap();
    }
    let notes = manager.note_list().unwrap();
    for position in 0..notes.len() {
        assert!(notes.get_at(position).unwrap().is_saved());
    }
    let flush = manager.save_all_notes();
    assert!(flush.writes.is_empty());
    assert_eq!(flush.failure, None);
    manager.edit_note("b", NoteEdit::SetTrashed(true)).unwrap();
    manager.edit_note("b", NoteEdit::MarkSaved).unwrap();
    assert!(manager.save_all_notes().writes.is_empty());
}

#[test]
fn save_data_file_lists_the_tags_in_order() {
    let mut manager = NoteManager::for_directory("dir");
    manager.load_data_file(Some(b"tag_list:\n  - work\n  - home\n"));
    let write = manager.save_data_file().unwrap();
    assert_eq!(write.file_name, "data.nwty");
    let text = String::from_utf8(write.bytes.clone()).unwrap();
    assert!(text.contains("tag_list:"));
    let mut again = NoteManager::for_directory("dir");
    again.load_data_file(Some(&write.bytes));
    assert_eq!(again.tag_list().unwrap().names(), vec!["work".to_string(), "home".to_string()]);

    let mut empty = NoteManager::for_directory("dir");
    empty.load_data_file(None);
    let write = empty.save_data_file().unwrap();
    let mut again = NoteManager::for_directory("dir");
    again.load_data_file(Some(&write.bytes));
    assert!(again.tag_list().unwrap().names().is_empty());
}

#[test]
fn the_manager_keeps_the_tags() {
    let mut manager = NoteManager::for_directory("dir");
    manager.load(None, &vec![file("a.md", Some("a"))]);
    assert_eq!(manager.append_tag(Tag::new("work")), Ok(()));
    assert_eq!(manager.append_tag(Tag::new("home")), Ok(()));
    assert_eq!(manager.append_tag(Tag::new("work")), Err(RegistryError::DuplicateKey));
    assert_eq!(manager.append_tag(Tag::new("")), Err(RegistryError::InvalidKey));
    assert_eq!(manager.take_tag_events(), vec![event(0, 0, 1), event(1, 0, 1)]);
    assert_eq!(manager.rename_tag(&Tag::new("work"), "job"), Ok(()));
    assert_eq!(manager.rename_tag(&Tag::new("home"), "job"), Err(RegistryError::DuplicateKey));
    assert_eq!(manager.rename_tag(&Tag::new("work"), "x"), Err(RegistryError::NotFound));
    assert_eq!(manager.take_tag_events(), vec![event(0, 1, 1)]);
    assert_eq!(manager.tag_list().unwrap().names(), vec!["job".to_string(), "home".to_string()]);
    assert_eq!(manager.remove_tag(&Tag::new("job")), Ok(()));
    assert_eq!(manager.remove_tag(&Tag::new("job")), Err(RegistryError::NotFound));
    assert_eq!(manager.take_tag_events(), vec![event(0, 1, 0)]);
    assert_eq!(manager.tag_list().unwrap().names(), vec!["home".to_string()]);
    assert_eq!(ids(&manager), vec!["a".to_string()]);
    assert!(manager.take_note_events().is_empty());
}

#[test]
fn save_all_notes_stops_at_a_note_that_cannot_be_written() {
    let mut manager = NoteManager::for_directory("dir");
    manager.load(None, &vec![file("a.md", Some("a")), file("b.md", Some("b"))]);
    manager.edit_note("a", NoteEdit::SetContent("A".to_string())).unwrap();
    let mut beyond = reading(1);
    beyond.unix_micros = i64::MAX;
    let bad = manager.create_note_at(&beyond).unwrap();
    let good = manager.create_note_at(&reading(2)).unwrap();
    assert_eq!(manager.save_note(&bad).err(), Some(StoreError::DeserializationError));

    let flush = manager.save_all_notes();
    assert_eq!(flush.failure, Some((2, StoreError::DeserializationError)));
    let names: Vec<String> = flush.writes.iter().map(|write| write.file_name.clone()).collect();
    assert_eq!(names, vec!["a.md".to_string()]);
    manager.note_saved("a").unwrap();

    let notes = manager.note_list().unwrap();
    assert!(notes.get("a").unwrap().is_saved());
    assert!(notes.get("b").unwrap().is_saved());
    assert!(!notes.get(&bad).unwrap().is_saved());
    assert!(!notes.get(&good).unwrap().is_saved());
    assert_eq!(notes.get_at(2).unwrap().id(), bad);

    let again = manager.save_all_notes();
    assert_eq!(again.failure, Some((2, StoreError::DeserializationError)));
    assert!(again.writes.is_empty());

    manager.delete_note(&bad).unwrap();
    let flush = manager.save_all_notes();
    assert_eq!(flush.failure, None);
    assert_eq!(flush.writes.len(), 1);
    assert_eq!(flush.writes[0].file_name, format!("{}.md", good));
}

#[test]
fn edit_note_at_changes_the_note_at_that_moment() {
    let mut manager = NoteManager::for_directory("dir");
    manager.load(None, &vec![file("a.md", Some("a")), file("b.md", Some("b"))]);
    let now = Date { micros: 77 };
    assert_eq!(manager.edit_note_at("b", NoteEdit::SetPinned(true), now), Ok(()));
    assert_eq!(manager.take_note_events(), vec![event(1, 1, 1)]);
    let note = manager.note_list().unwrap().get("b").unwrap();
    assert!(note.metadata().is_pinned());
    assert_eq!(note.metadata().last_modified(), now);
    assert_eq!(note.metadata().title(), "");
    assert!(!note.is_saved());
    let other = manager.note_list().unwrap().get("a").unwrap();
    assert!(other.is_saved());
    assert_eq!(other.metadata().last_modified(), Date { micros: 0 });
    assert_eq!(
        manager.edit_note_at("z", NoteEdit::SetPinned(true), now),
        Err(StoreError::Registry(RegistryError::NotFound))
    );
    assert!(manager.take_note_events().is_empty());
}

#[test]
fn save_data_file_hands_out_what_reads_back() {
    let mut manager = NoteManager::for_directory("dir");
    manager.load(None, &Vec::new());
    for name in ["work", "a: b", "- dash", "multi\nline", "日記", "true", "#hash", " padded "] {
        manager.append_tag(Tag::new(name)).unwrap();
    }
    let names = manager.tag_list().unwrap().names();
    let write = manager.save_data_file().unwrap();
    let mut again = NoteManager::for_directory("dir");
    again.load_data_file(Some(&write.bytes));
    assert_eq!(again.tag_list().unwrap().names(), names);
}
