use noteworthy::error::RegistryError;
use noteworthy::registry::{ChangeEvent, IndexedRegistry};
use noteworthy::tag::Tag;
use noteworthy::tag_list::TagList;

fn event(position: usize, removed_count: usize, inserted_count: usize) -> ChangeEvent {
    ChangeEvent { position, removed_count, inserted_count }
}

fn names(list: &TagList) -> Vec<String> {
    list.names()
}

fn list_of(tags: &[&str]) -> TagList {
    let mut list = TagList::new();
    for tag in tags {
        list.append(Tag::new(tag)).unwrap();
    }
    list.take_events();
    list
}

#[test]
fn new_list_is_empty() {
    let mut list = TagList::new();
    assert_eq!(list.len(), 0);
    assert!(list.get_at(0).is_none());
    assert!(list.take_events().is_empty());
}

#[test]
fn append_adds_at_the_end_and_reports_the_position() {
    let mut list = TagList::new();
    assert_eq!(list.append(Tag::new("work")), Ok(()));
    assert_eq!(list.append(Tag::new("home")), Ok(()));
    assert_eq!(names(&list), vec!["work".to_string(), "home".to_string()]);
    assert_eq!(list.take_events(), vec![event(0, 0, 1), event(1, 0, 1)]);
    assert!(list.take_events().is_empty());
}

#[test]
fn append_refuses_a_duplicate_and_changes_nothing() {
    let mut list = list_of(&["work", "home"]);
    assert_eq!(list.append(Tag::new("work")), Err(RegistryError::DuplicateKey));
    assert_eq!(names(&list), vec!["work".to_string(), "home".to_string()]);
    assert_eq!(list.len(), 2);
    assert!(list.take_events().is_empty());
}

#[test]
fn append_refuses_the_empty_name() {
    let mut list = list_of(&["work"]);
    assert_eq!(list.append(Tag::new("")), Err(RegistryError::InvalidKey));
    assert_eq!(list.len(), 1);
    assert!(list.take_events().is_empty());
}

#[test]
fn names_are_case_sensitive() {
    let mut list = list_of(&["work"]);
    assert_eq!(list.append(Tag::new("Work")), Ok(()));
    assert!(list.contains_with_name("work"));
    assert!(list.contains_with_name("Work"));
    assert!(!list.contains_with_name("WORK"));
}

#[test]
fn remove_shifts_the_tags_behind_and_reports_the_vacated_position() {
    let mut list = list_of(&["a", "b", "c", "d"]);
    assert_eq!(list.remove(&Tag::new("b")), Ok(()));
    assert_eq!(names(&list), vec!["a".to_string(), "c".to_string(), "d".to_string()]);
    assert_eq!(list.take_events(), vec![event(1, 1, 0)]);
    assert_eq!(list.position("a"), Some(0));
    assert_eq!(list.position("c"), Some(1));
    assert_eq!(list.position("d"), Some(2));
    assert_eq!(list.position("b"), None);
}

#[test]
fn remove_of_an_absent_tag_fails_and_changes_nothing() {
    let mut list = list_of(&["a", "b"]);
    assert_eq!(list.remove(&Tag::new("z")), Err(RegistryError::NotFound));
    assert_eq!(names(&list), vec!["a".to_string(), "b".to_string()]);
    assert!(list.take_events().is_empty());
}

#[test]
fn rename_keeps_the_position() {
    let mut list = list_of(&["a", "b", "c"]);
    assert_eq!(list.rename_tag(&Tag::new("a"), "x"), Ok(()));
    assert_eq!(names(&list), vec!["x".to_string(), "b".to_string(), "c".to_string()]);
    assert_eq!(list.take_events(), vec![event(0, 1, 1)]);
    assert_eq!(list.rename_tag(&Tag::new("c"), "z"), Ok(()));
    assert_eq!(names(&list), vec!["x".to_string(), "b".to_string(), "z".to_string()]);
    assert_eq!(list.take_events(), vec![event(2, 1, 1)]);
    assert_eq!(list.get_at(0).unwrap().name(), "x");
    assert_eq!(list.get_at(2).unwrap().name(), "z");
}

#[test]
fn rename_to_an_existing_other_name_fails() {
    let mut list = list_of(&["a", "b"]);
    assert_eq!(list.rename_tag(&Tag::new("a"), "b"), Err(RegistryError::DuplicateKey));
    assert_eq!(names(&list), vec!["a".to_string(), "b".to_string()]);
    assert!(list.take_events().is_empty());
}

#[test]
fn rename_to_the_current_name_is_a_no_op() {
    let mut list = list_of(&["a", "b"]);
    assert_eq!(list.rename_tag(&Tag::new("b"), "b"), Ok(()));
    assert_eq!(names(&list), vec!["a".to_string(), "b".to_string()]);
    assert!(list.take_events().is_empty());
}

#[test]
fn rename_to_the_empty_name_fails() {
    let mut list = list_of(&["a"]);
    assert_eq!(list.rename_tag(&Tag::new("a"), ""), Err(RegistryError::InvalidKey));
    assert_eq!(names(&list), vec!["a".to_string()]);
}

#[test]
fn rename_of_an_absent_tag_fails() {
    let mut list = list_of(&["a"]);
    assert_eq!(list.rename_tag(&Tag::new("q"), "r"), Err(RegistryError::NotFound));
    assert_eq!(list.rename_tag(&Tag::new("q"), "a"), Err(RegistryError::DuplicateKey));
    assert_eq!(list.rename_tag(&Tag::new("q"), ""), Err(RegistryError::InvalidKey));
    assert_eq!(names(&list), vec!["a".to_string()]);
    assert!(list.take_events().is_empty());
}

#[test]
fn work_renamed_to_job_emits_one_content_change() {
    let mut list = TagList::new();
    list.append(Tag::new("work")).unwrap();
    assert_eq!(list.take_events(), vec![event(0, 0, 1)]);
    assert_eq!(list.rename_tag(&Tag::new("work"), "job"), Ok(()));
    assert_eq!(list.take_events(), vec![event(0, 1, 1)]);
    assert_eq!(list.get_with_name("job").map(|tag| tag.name().to_string()), Some("job".to_string()));
    assert!(list.get_with_name("work").is_none());
    assert!(!list.contains(&Tag::new("work")));
    assert!(list.contains(&Tag::new("job")));
    assert_eq!(list.len(), 1);
}

#[test]
fn index_follows_every_operation() {
    let mut list = TagList::new();
    let check = |list: &TagList| {
        let names = list.names();
        for (position, name) in names.iter().enumerate() {
            assert_eq!(list.position(name), Some(position));
            assert_eq!(list.get_at(position).unwrap().name(), name);
            assert_eq!(list.get_with_name(name).unwrap().name(), name);
        }
        assert_eq!(list.len(), names.len());
    };
    for name in ["a", "b", "c", "d", "e", "f"] {
        list.append(Tag::new(name)).unwrap();
        check(&list);
    }
    list.remove(&Tag::new("c")).unwrap();
    check(&list);
    list.rename_tag(&Tag::new("a"), "z").unwrap();
    check(&list);
    list.rename_tag(&Tag::new("f"), "c").unwrap();
    check(&list);
    list.remove(&Tag::new("z")).unwrap();
    check(&list);
    list.append(Tag::new("a")).unwrap();
    check(&list);
    list.rename_tag(&Tag::new("d"), "y").unwrap();
    check(&list);
    list.remove(&Tag::new("a")).unwrap();
    check(&list);
    assert_eq!(
        list.names(),
        vec!["b".to_string(), "y".to_string(), "e".to_string(), "c".to_string()]
    );
}

#[test]
fn is_valid_name_wants_a_new_name_that_is_not_empty() {
    let list = list_of(&["a"]);
    assert!(list.is_valid_name("b"));
    assert!(!list.is_valid_name("a"));
    assert!(!list.is_valid_name(""));
}

#[test]
fn from_names_passes_over_empty_and_repeated_names() {
    let given = vec![
        "a".to_string(),
        "".to_string(),
        "b".to_string(),
        "a".to_string(),
        "c".to_string(),
        "b".to_string(),
    ];
    let mut list = TagList::from_names(&given);
    assert_eq!(list.names(), vec!["a".to_string(), "b".to_string(), "c".to_string()]);
    assert!(list.take_events().is_empty());
}

#[test]
fn missing_from_lists_the_unknown_names() {
    let list = list_of(&["a", "b"]);
    let wanted = vec!["b".to_string(), "x".to_string(), "a".to_string(), "y".to_string()];
    assert_eq!(list.missing_from(&wanted), vec!["x".to_string(), "y".to_string()]);
}

#[test]
fn registry_of_tags_by_key() {
    let mut registry: IndexedRegistry<Tag> = IndexedRegistry::new();
    assert!(registry.is_empty());
    assert_eq!(registry.insert(Tag::new("one")), Ok(()));
    assert_eq!(registry.insert(Tag::new("two")), Ok(()));
    assert_eq!(registry.insert(Tag::new("")), Ok(()));
    assert_eq!(registry.insert(Tag::new("one")), Err(RegistryError::DuplicateKey));
    assert_eq!(registry.len(), 3);
    assert!(registry.contains("two"));
    assert!(!registry.contains("three"));
    assert_eq!(registry.get("two").unwrap().name(), "two");
    assert!(registry.get("three").is_none());
    assert_eq!(registry.get_at(1).unwrap().name(), "two");
    assert!(registry.get_at(3).is_none());
    assert_eq!(registry.position("two"), Some(1));
    let removed = registry.remove("one").unwrap();
    assert_eq!(removed.name(), "one");
    assert_eq!(registry.position("two"), Some(0));
    assert_eq!(registry.remove("one").err(), Some(RegistryError::NotFound));
    assert_eq!(registry.rename("", ""), Err(RegistryError::InvalidKey));
    assert_eq!(registry.rename("", "zero"), Ok(()));
    assert_eq!(registry.position("zero"), Some(1));
    assert_eq!(
        registry.take_events(),
        vec![event(0, 0, 1), event(1, 0, 1), event(2, 0, 1), event(0, 1, 0), event(1, 1, 1)]
    );
}

#[test]
fn the_default_list_is_empty() {
    let mut list = TagList::default();
    assert_eq!(list.len(), 0);
    assert!(list.names().is_empty());
    assert!(list.take_events().is_empty());
}

fn replay(mirror: &mut Vec<String>, list: &mut TagList) {
    let events = list.take_events();
    assert!(events.len() <= 1);
    let names = list.names();
    for event in events {
        let inserted = names[event.position..event.position + event.inserted_count].to_vec();
        mirror.splice(event.position..event.position + event.removed_count, inserted);
    }
    assert_eq!(*mirror, names);
}

#[test]
fn an_observer_that_replays_the_events_keeps_up() {
    let mut list = TagList::new();
    let mut mirror: Vec<String> = Vec::new();
    for name in ["a", "b", "c", "d"] {
        list.append(Tag::new(name)).unwrap();
        replay(&mut mirror, &mut list);
    }
    list.remove(&Tag::new("b")).unwrap();
    replay(&mut mirror, &mut list);
    list.rename_tag(&Tag::new("d"), "b").unwrap();
    replay(&mut mirror, &mut list);
    assert!(list.append(Tag::new("a")).is_err());
    replay(&mut mirror, &mut list);
    list.rename_tag(&Tag::new("a"), "a").unwrap();
    replay(&mut mirror, &mut list);
    list.remove(&Tag::new("a")).unwrap();
    replay(&mut mirror, &mut list);
    list.append(Tag::new("e")).unwrap();
    replay(&mut mirror, &mut list);
    assert_eq!(mirror, vec!["c".to_string(), "b".to_string(), "e".to_string()]);
}
