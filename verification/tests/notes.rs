use noteworthy::clock::ClockReading;
use noteworthy::date::Date;
use noteworthy::error::StoreError;
use noteworthy::front_matter::{frame_document, is_sound_block, split_document};
use noteworthy::metadata::Metadata;
use noteworthy::note::{note_id_from_file_name, Note, NoteEdit};
use noteworthy::note_id::note_id;
use noteworthy::yaml::FieldValue;

fn reading(year: i32, nanosecond: u32) -> ClockReading {
    ClockReading {
        year,
        month: 11,
        day: 5,
        hour: 9,
        minute: 7,
        second: 3,
        nanosecond,
        unix_micros: 1_636_103_223_000_000,
    }
}

#[test]
fn note_id_writes_the_moment_out() {
    assert_eq!(note_id(&reading(2021, 26_490_000)), "Noteworthy-2021-11-05-09-07-03-026490000");
    assert_eq!(note_id(&reading(987, 0)), "Noteworthy-0987-11-05-09-07-03-000000000");
    assert_eq!(note_id(&reading(0, 0)), "Noteworthy-0000-11-05-09-07-03-000000000");
    assert_eq!(note_id(&reading(9999, 0)), "Noteworthy-9999-11-05-09-07-03-000000000");
    assert_eq!(note_id(&reading(10000, 0)), "Noteworthy-+10000-11-05-09-07-03-000000000");
    assert_eq!(note_id(&reading(12345, 1)), "Noteworthy-+12345-11-05-09-07-03-000000001");
    assert_eq!(note_id(&reading(262142, 1)), "Noteworthy-+262142-11-05-09-07-03-000000001");
    assert_eq!(note_id(&reading(-1, 0)), "Noteworthy--0001-11-05-09-07-03-000000000");
    assert_eq!(note_id(&reading(-44, 999_999_999)), "Noteworthy--0044-11-05-09-07-03-999999999");
    assert_eq!(note_id(&reading(-123456, 0)), "Noteworthy--123456-11-05-09-07-03-000000000");
    assert_eq!(note_id(&reading(i32::MAX, 0)), "Noteworthy-+2147483647-11-05-09-07-03-000000000");
    assert_eq!(note_id(&reading(i32::MIN, 0)), "Noteworthy--2147483648-11-05-09-07-03-000000000");
    assert_eq!(note_id(&reading(2021, 1_500_000_000)), "Noteworthy-2021-11-05-09-07-04-500000000");
}

#[test]
fn note_ids_of_different_ticks_differ() {
    let first = note_id(&reading(2021, 1_000));
    let second = note_id(&reading(2021, 2_000));
    assert_ne!(first, second);
    assert_eq!(first, note_id(&reading(2021, 1_000)));
}

#[test]
fn note_file_names_end_in_md() {
    assert_eq!(note_id_from_file_name("a.md"), Some("a".to_string()));
    assert_eq!(note_id_from_file_name("a.b.md"), Some("a.b".to_string()));
    assert_eq!(note_id_from_file_name("日記.md"), Some("日記".to_string()));
    assert_eq!(note_id_from_file_name(".md"), None);
    assert_eq!(note_id_from_file_name("md"), None);
    assert_eq!(note_id_from_file_name("a.txt"), None);
    assert_eq!(note_id_from_file_name("data.nwty"), None);
    assert_eq!(note_id_from_file_name(""), None);
}

#[test]
fn split_document_finds_the_front_matter() {
    let document = split_document(b"---\ntitle: x\n---\nbody\n");
    assert_eq!(document.matter, Some(b"title: x\n".to_vec()));
    assert_eq!(document.body, b"body\n".to_vec());
    let document = split_document(b"---\n---\n");
    assert_eq!(document.matter, Some(Vec::new()));
    assert_eq!(document.body, Vec::<u8>::new());
    let document = split_document(b"---\ntitle: x\n---");
    assert_eq!(document.matter, Some(b"title: x\n".to_vec()));
    assert_eq!(document.body, Vec::<u8>::new());
}

#[test]
fn split_document_without_front_matter_is_all_body() {
    for text in ["", "plain\n", "---", "---\nnever closed\n", "--- \nx\n---\n", "x\n---\ny\n---\n"] {
        let document = split_document(text.as_bytes());
        assert_eq!(document.matter, None);
        assert_eq!(document.body, text.as_bytes().to_vec());
    }
}

#[test]
fn split_document_stops_at_the_first_closing_fence() {
    let document = split_document(b"---\na: 1\n---\nbody\n---\nmore\n");
    assert_eq!(document.matter, Some(b"a: 1\n".to_vec()));
    assert_eq!(document.body, b"body\n---\nmore\n".to_vec());
    let document = split_document(b"---\na: ---\n----\n ---\n---\nbody");
    assert_eq!(document.matter, Some(b"a: ---\n----\n ---\n".to_vec()));
    assert_eq!(document.body, b"body".to_vec());
}

#[test]
fn frame_document_is_undone_by_split_document() {
    let block = b"---\ntitle: x\n";
    assert!(is_sound_block(block));
    for body in ["", "\n", "body", "body\n", "\n\nbody\n\n", "---\n", "a\n---\nb\n", "---"] {
        let file = frame_document(block, body.as_bytes());
        let document = split_document(&file);
        assert_eq!(document.matter, Some(b"title: x\n".to_vec()));
        assert_eq!(document.body, body.as_bytes().to_vec());
    }
    assert!(!is_sound_block(b"title: x\n"));
    assert!(!is_sound_block(b"---\ntitle: x"));
    assert!(!is_sound_block(b"---\ntitle: x\n---\n"));
    assert!(!is_sound_block(b""));
}

#[test]
fn from_file_reads_the_fields() {
    let text = "---\ntitle: Shopping\nmodified: 2021-11-05T09:07:03+00:00\nis_pinned: true\n---\nmilk\neggs\n";
    let note = Note::from_file("list.md", text.as_bytes()).unwrap();
    assert_eq!(note.id(), "list");
    assert_eq!(note.file(), "list.md");
    assert_eq!(note.metadata().title(), "Shopping");
    assert_eq!(note.metadata().last_modified(), Date { micros: 1_636_103_223_000_000 });
    assert!(note.metadata().is_pinned());
    assert!(!note.metadata().is_trashed());
    assert!(note.metadata().tags().is_empty());
    assert_eq!(note.content(), "milk\neggs\n");
    assert!(note.is_saved());
}

#[test]
fn from_file_defaults_what_is_missing() {
    let note = Note::from_file("a.md", b"just text\n").unwrap();
    assert_eq!(note.metadata().title(), "");
    assert_eq!(note.metadata().last_modified(), Date { micros: 0 });
    assert!(!note.metadata().is_pinned());
    assert!(!note.metadata().is_trashed());
    assert_eq!(note.content(), "just text\n");

    let note = Note::from_file("a.md", b"---\nis_pinned: true\n---\nx").unwrap();
    assert_eq!(note.metadata().title(), "");
    assert_eq!(note.metadata().last_modified(), Date { micros: 0 });
    assert!(note.metadata().is_pinned());
    assert_eq!(note.content(), "x");

    let note = Note::from_file("a.md", b"").unwrap();
    assert_eq!(note.metadata().title(), "");
    assert_eq!(note.content(), "");
}

#[test]
fn from_file_defaults_what_is_malformed() {
    let text = "---\ntitle: [1, 2]\nmodified: yesterday\nis_pinned: maybe\ntag_list: none\n---\nx";
    let note = Note::from_file("a.md", text.as_bytes()).unwrap();
    assert_eq!(note.metadata().title(), "");
    assert_eq!(note.metadata().last_modified(), Date { micros: 0 });
    assert!(!note.metadata().is_pinned());
    assert!(note.metadata().tags().is_empty());
    assert_eq!(note.content(), "x");

    let note = Note::from_file("a.md", b"---\n: : : {{{\n---\nbody").unwrap();
    assert_eq!(note.metadata().title(), "");
    assert_eq!(note.content(), "body");
}

#[test]
fn from_file_reads_the_tags_once_each() {
    let text = "---\ntag_list:\n  - work\n  - home\n  - work\n  - \"\"\n---\n";
    let note = Note::from_file("a.md", text.as_bytes()).unwrap();
    assert_eq!(note.metadata().tags(), &vec!["work".to_string(), "home".to_string()]);
    assert!(note.metadata().has_tag("home"));
    assert!(!note.metadata().has_tag("garden"));
}

#[test]
fn from_file_refuses_what_is_no_note() {
    assert_eq!(Note::from_file("a.txt", b"x").err(), Some(StoreError::DeserializationError));
    assert_eq!(Note::from_file(".md", b"x").err(), Some(StoreError::DeserializationError));
    assert_eq!(Note::from_file("a.md", &[0xff, 0xfe]).err(), Some(StoreError::DeserializationError));
    assert_eq!(
        Note::from_file("a.md", &[b'-', b'-', b'-', b'\n', b'-', b'-', b'-', b'\n', 0xc3]).err(),
        Some(StoreError::DeserializationError)
    );
}

fn round_trip(title: &str, pinned: bool, body: &str) {
    let mut note = Note::create_default_at("n.md", Date { micros: 1_636_103_223_123_456 }).unwrap();
    note.set_title(title.to_string());
    note.set_is_pinned(pinned);
    note.set_content(body.to_string());
    note.add_tag("work");
    note.add_tag("home");
    let bytes = note.serialize().unwrap();
    let read = Note::from_file("n.md", &bytes).unwrap();
    assert_eq!(read.id(), "n");
    assert_eq!(read.metadata().title(), title);
    assert_eq!(read.metadata().is_pinned(), pinned);
    assert_eq!(read.metadata().is_trashed(), false);
    assert_eq!(read.metadata().last_modified(), note.metadata().last_modified());
    assert_eq!(read.metadata().tags(), &vec!["work".to_string(), "home".to_string()]);
    assert_eq!(read.content(), body);
    assert!(read.is_saved());
}

#[test]
fn serialize_round_trips() {
    round_trip("Shopping", true, "milk\neggs\n");
    round_trip("", false, "");
    round_trip("a: b # c", false, "no newline at the end");
    round_trip("---", true, "\n\nleading and trailing\n\n");
    round_trip("multi\nline\n---\ntitle", false, "x");
    round_trip("日記 \"quoted\" 'single'", true, "本文\r\nwith carriage returns\r\n");
    round_trip("true", false, "  indented\n\ttabbed\n");
}

#[test]
fn serialize_round_trips_a_body_with_the_separator() {
    round_trip("t", false, "---\n");
    round_trip("t", false, "before\n---\nafter\n");
    round_trip("t", true, "---\ntitle: not this one\n---\nreally\n");
    round_trip("t", false, "---");
}

#[test]
fn serialize_puts_the_separator_before_the_body() {
    let mut note = Note::create_default_at("n.md", Date { micros: 0 }).unwrap();
    note.set_content("body".to_string());
    note.set_title("T".to_string());
    let bytes = note.serialize().unwrap();
    let text = String::from_utf8(bytes).unwrap();
    assert!(text.starts_with("---\n"));
    assert!(text.ends_with("\n---\nbody"));
    assert!(text.contains("title: T\n"));
}

#[test]
fn create_default_is_blank_and_unsaved() {
    let note = Note::create_default_at("fresh.md", Date { micros: 42 }).unwrap();
    assert_eq!(note.id(), "fresh");
    assert_eq!(note.metadata().title(), "");
    assert_eq!(note.metadata().last_modified(), Date { micros: 42 });
    assert!(!note.metadata().is_pinned());
    assert!(!note.metadata().is_trashed());
    assert!(note.metadata().tags().is_empty());
    assert_eq!(note.content(), "");
    assert!(!note.is_saved());
    assert_eq!(
        Note::create_default_at("fresh", Date { micros: 42 }).err(),
        Some(StoreError::DeserializationError)
    );
    let note = Note::create_default("now.md").unwrap();
    assert!(note.metadata().last_modified().is_after(&Date { micros: 1_600_000_000_000_000 }));
    assert!(!note.is_saved());
}

#[test]
fn mutation_marks_the_note_dirty_and_modified() {
    let text = "---\ntitle: old\nmodified: 2001-01-01T00:00:00+00:00\n---\nbody";
    let fresh = || Note::from_file("a.md", text.as_bytes()).unwrap();
    let before = fresh().metadata().last_modified();

    let mut note = fresh();
    assert!(note.is_saved());
    note.set_title("new".to_string());
    assert_eq!(note.metadata().title(), "new");
    assert!(!note.is_saved());
    assert!(note.metadata().last_modified().is_after(&before));

    let mut note = fresh();
    note.set_is_pinned(true);
    assert!(note.metadata().is_pinned());
    assert!(!note.is_saved());
    assert!(note.metadata().last_modified().is_after(&before));

    let mut note = fresh();
    note.set_is_trashed(true);
    assert!(note.metadata().is_trashed());
    assert!(!note.is_saved());

    let mut note = fresh();
    note.set_content("other".to_string());
    assert_eq!(note.content(), "other");
    assert!(!note.is_saved());
    assert!(note.metadata().last_modified().is_after(&before));

    let mut note = fresh();
    assert!(note.add_tag("t"));
    assert!(!note.is_saved());
    note.set_is_saved(true);
    assert!(note.is_saved());
    assert!(!note.add_tag("t"));
    assert!(!note.add_tag(""));
    assert!(note.is_saved());
    assert!(!note.remove_tag("u"));
    assert!(note.is_saved());
    assert!(note.remove_tag("t"));
    assert!(!note.is_saved());
    assert!(note.metadata().tags().is_empty());
    assert_eq!(note.id(), "a");
    assert_eq!(note.file(), "a.md");
}

#[test]
fn metadata_from_fields_takes_what_fits() {
    let metadata = Metadata::from_fields(
        FieldValue::Text("T".to_string()),
        FieldValue::Text("1970-01-01T00:00:01Z".to_string()),
        FieldValue::Flag(true),
        FieldValue::Missing,
        FieldValue::List(vec!["a".to_string(), "a".to_string(), "b".to_string()]),
    );
    assert_eq!(metadata.title(), "T");
    assert_eq!(metadata.last_modified(), Date { micros: 1_000_000 });
    assert!(metadata.is_pinned());
    assert!(!metadata.is_trashed());
    assert_eq!(metadata.tags(), &vec!["a".to_string(), "b".to_string()]);

    let metadata = Metadata::from_fields(
        FieldValue::Flag(true),
        FieldValue::Other,
        FieldValue::Text("true".to_string()),
        FieldValue::List(Vec::new()),
        FieldValue::Text("a".to_string()),
    );
    assert!(metadata.same_as(&Metadata::new()));
    let metadata = Metadata::from_fields(
        FieldValue::Unreadable,
        FieldValue::Unreadable,
        FieldValue::Unreadable,
        FieldValue::Unreadable,
        FieldValue::Unreadable,
    );
    assert!(metadata.same_as(&Metadata::new()));
    assert!(metadata.duplicate().same_as(&metadata));
}

#[test]
fn metadata_yaml_round_trips() {
    let mut metadata = Metadata::new();
    metadata.set_title("A title".to_string());
    metadata.set_is_pinned(true);
    metadata.add_tag("x");
    metadata.set_last_modified(Date { micros: 1_700_000_000_123_456 });
    let text = metadata.to_yaml().unwrap();
    assert!(text.contains("title: A title"));
    assert!(text.contains("is_pinned: true"));
    assert!(text.contains("is_trashed: false"));
    let read = Metadata::from_yaml(&text);
    assert!(read.same_as(&metadata));
    metadata.set_is_trashed(true);
    assert!(!read.same_as(&metadata));
}

#[test]
fn date_reads_and_writes_rfc_3339() {
    assert_eq!(Date::parse("1970-01-01T00:00:00Z"), Some(Date { micros: 0 }));
    assert_eq!(Date::parse("2021-11-05T17:07:03.5+08:00"), Some(Date { micros: 1_636_103_223_500_000 }));
    assert_eq!(Date::parse("yesterday"), None);
    assert_eq!(Date::parse(""), None);
    assert_eq!(Date::epoch(), Date { micros: 0 });
    assert_eq!(Date { micros: 0 }.to_text(), Some("1970-01-01T00:00:00+00:00".to_string()));
    assert_eq!(
        Date { micros: 1_636_103_223_500_000 }.to_text(),
        Some("2021-11-05T09:07:03.500+00:00".to_string())
    );
    assert_eq!(Date { micros: i64::MAX }.to_text(), None);
    assert!(Date { micros: 2 }.is_after(&Date { micros: 1 }));
    assert!(!Date { micros: 1 }.is_after(&Date { micros: 1 }));
    assert!(Date::now().is_after(&Date { micros: 1_600_000_000_000_000 }));
}

#[test]
fn serialize_refuses_what_would_not_read_back() {
    let note = Note::create_default_at("n.md", Date { micros: i64::MAX }).unwrap();
    assert_eq!(note.serialize().err(), Some(StoreError::DeserializationError));
    let note = Note::create_default_at("n.md", Date { micros: i64::MAX - 1 }).unwrap();
    assert_eq!(note.serialize().err(), Some(StoreError::DeserializationError));
    let note = Note::create_default_at("n.md", Date { micros: 0 }).unwrap();
    assert!(note.serialize().is_ok());
}

#[test]
fn the_default_metadata_is_blank() {
    let metadata = Metadata::default();
    assert_eq!(metadata.title(), "");
    assert_eq!(metadata.last_modified(), Date::epoch());
    assert!(!metadata.is_pinned());
    assert!(!metadata.is_trashed());
    assert!(metadata.tags().is_empty());
    assert!(metadata.same_as(&Metadata::new()));
}

#[test]
fn the_date_of_a_reading_is_its_count_of_microseconds() {
    assert_eq!(Date::of_reading(&reading(2021, 0)), Date { micros: 1_636_103_223_000_000 });
    let mut early = reading(1969, 0);
    early.unix_micros = -1;
    assert_eq!(Date::of_reading(&early), Date { micros: -1 });
}

#[test]
fn a_setter_that_is_given_the_moment_sets_it() {
    let t0 = Date { micros: 1_000 };
    let now = Date { micros: 2_000 };
    let fresh = || {
        let mut metadata = Metadata::new();
        metadata.set_title_at("old".to_string(), t0);
        metadata.add_tag_at("t", t0);
        metadata
    };

    let mut metadata = fresh();
    metadata.set_is_pinned_at(true, now);
    assert!(metadata.is_pinned());
    assert_eq!(metadata.last_modified(), now);
    assert_eq!(metadata.title(), "old");
    assert_eq!(metadata.tags(), &vec!["t".to_string()]);
    assert!(!metadata.is_trashed());

    let mut metadata = fresh();
    metadata.set_title_at("new".to_string(), now);
    assert_eq!(metadata.title(), "new");
    assert_eq!(metadata.last_modified(), now);
    assert!(!metadata.is_pinned());

    let mut metadata = fresh();
    metadata.set_is_trashed_at(true, now);
    assert!(metadata.is_trashed());
    assert_eq!(metadata.last_modified(), now);

    let mut metadata = fresh();
    assert!(metadata.add_tag_at("u", now));
    assert_eq!(metadata.tags(), &vec!["t".to_string(), "u".to_string()]);
    assert_eq!(metadata.last_modified(), now);

    let mut metadata = fresh();
    assert!(!metadata.add_tag_at("t", now));
    assert!(!metadata.add_tag_at("", now));
    assert!(!metadata.remove_tag_at("u", now));
    assert_eq!(metadata.last_modified(), t0);
    assert!(metadata.remove_tag_at("t", now));
    assert!(metadata.tags().is_empty());
    assert_eq!(metadata.last_modified(), now);
}

#[test]
fn a_note_changed_at_a_moment_is_modified_then() {
    let t0 = Date { micros: 1_000 };
    let now = Date { micros: 2_000 };
    let fresh = || {
        let mut note = Note::create_default_at("n.md", t0).unwrap();
        note.set_is_saved(true);
        note
    };

    let mut note = fresh();
    note.set_is_pinned_at(true, now);
    assert!(note.metadata().is_pinned());
    assert_eq!(note.metadata().last_modified(), now);
    assert_eq!(note.metadata().title(), "");
    assert!(!note.is_saved());

    let mut note = fresh();
    note.set_title_at("T".to_string(), now);
    assert_eq!(note.metadata().title(), "T");
    assert_eq!(note.metadata().last_modified(), now);
    assert!(!note.is_saved());

    let mut note = fresh();
    note.set_is_trashed_at(true, now);
    assert!(note.metadata().is_trashed());
    assert_eq!(note.metadata().last_modified(), now);

    let mut note = fresh();
    note.set_content_at("body".to_string(), now);
    assert_eq!(note.content(), "body");
    assert_eq!(note.metadata().last_modified(), now);
    assert!(!note.is_saved());

    let mut note = fresh();
    assert!(!note.add_tag_at("", now));
    assert!(!note.remove_tag_at("t", now));
    assert!(note.is_saved());
    assert_eq!(note.metadata().last_modified(), t0);
    assert!(note.add_tag_at("t", now));
    assert_eq!(note.metadata().last_modified(), now);
    assert!(!note.is_saved());

    let mut note = fresh();
    note.apply_at(NoteEdit::SetPinned(true), now);
    assert!(note.metadata().is_pinned());
    assert_eq!(note.metadata().last_modified(), now);
    note.apply_at(NoteEdit::MarkSaved, Date { micros: 3_000 });
    assert!(note.is_saved());
    assert_eq!(note.metadata().last_modified(), now);
    note.apply_at(NoteEdit::RemoveTag("none".to_string()), Date { micros: 3_000 });
    assert!(note.is_saved());
    assert_eq!(note.metadata().last_modified(), now);
}

fn moment(year: i32, month: u32, day: u32, hour: u32, minute: u32, second: u32, nanosecond: u32) -> ClockReading {
    ClockReading { year, month, day, hour, minute, second, nanosecond, unix_micros: 0 }
}

#[test]
fn note_ids_sort_as_their_moments_do() {
    let moments = [
        moment(0, 1, 1, 0, 0, 0, 0),
        moment(999, 12, 31, 23, 59, 59, 999_999_999),
        moment(1000, 1, 1, 0, 0, 0, 0),
        moment(2021, 1, 31, 23, 59, 59, 999_999_999),
        moment(2021, 2, 1, 0, 0, 0, 0),
        moment(2021, 2, 1, 0, 0, 0, 1),
        moment(2021, 2, 1, 0, 0, 0, 1_000),
        moment(2021, 2, 1, 0, 0, 1, 0),
        moment(2021, 2, 1, 0, 1, 0, 0),
        moment(2021, 2, 1, 1, 0, 0, 0),
        moment(2021, 2, 2, 0, 0, 0, 0),
        moment(2021, 10, 1, 0, 0, 0, 0),
        moment(2021, 12, 31, 23, 59, 59, 999_999_999),
        moment(2021, 12, 31, 23, 59, 59, 1_000_000_000),
        moment(2022, 1, 1, 0, 0, 0, 0),
        moment(9999, 12, 31, 23, 59, 59, 999_999_999),
    ];
    let ids: Vec<String> = moments.iter().map(note_id).collect();
    for pair in ids.windows(2) {
        assert!(pair[0] < pair[1], "{} and {}", pair[0], pair[1]);
    }
}

#[test]
fn note_ids_are_safe_file_names() {
    for reading in [
        moment(2021, 11, 5, 9, 7, 3, 26_490_000),
        moment(-44, 1, 1, 0, 0, 0, 0),
        moment(123_456, 12, 31, 23, 59, 59, 1_999_999_999),
        moment(i32::MIN, 1, 1, 0, 0, 0, 0),
    ] {
        let id = note_id(&reading);
        assert!(!id.is_empty());
        assert!(id.chars().all(|c| c.is_ascii_alphanumeric() || c == '-' || c == '+'), "{}", id);
        assert!(!id.contains('/') && !id.contains('.') && !id.contains(char::is_whitespace));
        assert_eq!(note_id_from_file_name(&format!("{}.md", id)), Some(id));
    }
}

#[test]
fn note_ids_a_microsecond_apart_differ() {
    let first = note_id(&moment(2021, 11, 5, 9, 7, 3, 26_490_000));
    let second = note_id(&moment(2021, 11, 5, 9, 7, 3, 26_491_000));
    assert_ne!(first, second);
    let leap = note_id(&moment(2021, 11, 5, 9, 7, 3, 1_026_490_000));
    assert_ne!(first, leap);
}
