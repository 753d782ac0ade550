use issue_tracker::models::{clone_ids, DBState, Epic, Status, Story};
use issue_tracker::state::{contains_id, ids_without, DbError};
use issue_tracker::table::{Record, Table};

#[test]
fn table_keeps_one_entry_for_each_id_in_order_of_arrival() {
    let mut table: Table<Story> = Table::new();
    assert_eq!(table.len(), 0);

    table.insert("b".to_owned(), Story::new("first".to_owned(), "".to_owned()));
    table.insert("a".to_owned(), Story::new("second".to_owned(), "".to_owned()));
    table.insert("b".to_owned(), Story::new("third".to_owned(), "".to_owned()));

    assert_eq!(table.len(), 2);
    assert_eq!(table.key_at(0), "b");
    assert_eq!(table.key_at(1), "a");
    assert_eq!(table.value_at(0).name, "third");
    assert_eq!(table.value_at(1).name, "second");
    assert_eq!(table.get(&"b".to_owned()).unwrap().name, "third");
    assert_eq!(table.get(&"c".to_owned()), None);
    assert_eq!(table.contains_key(&"a".to_owned()), true);
    assert_eq!(table.contains_key(&"c".to_owned()), false);
}

#[test]
fn table_remove_takes_out_the_entry_and_hands_it_back() {
    let mut table: Table<Story> = Table::new();
    table.insert("a".to_owned(), Story::new("one".to_owned(), "".to_owned()));
    table.insert("b".to_owned(), Story::new("two".to_owned(), "".to_owned()));
    table.insert("c".to_owned(), Story::new("three".to_owned(), "".to_owned()));

    assert_eq!(table.remove(&"b".to_owned()), Some(Story::new("two".to_owned(), "".to_owned())));
    assert_eq!(table.remove(&"b".to_owned()), None);

    assert_eq!(table.len(), 2);
    assert_eq!(table.key_at(0), "a");
    assert_eq!(table.key_at(1), "c");
    assert_eq!(table.contains_key(&"b".to_owned()), false);
}

#[test]
fn table_duplicate_is_independent_of_the_table() {
    let mut table: Table<Story> = Table::new();
    table.insert("a".to_owned(), Story::new("one".to_owned(), "".to_owned()));
    let copy = table.duplicate();
    table.insert("a".to_owned(), Story::new("changed".to_owned(), "".to_owned()));
    table.insert("b".to_owned(), Story::new("two".to_owned(), "".to_owned()));

    assert_eq!(copy.len(), 1);
    assert_eq!(copy.get(&"a".to_owned()).unwrap().name, "one");
}

#[test]
fn id_lists_are_searched_copied_and_filtered() {
    let ids = vec!["a".to_owned(), "b".to_owned(), "a".to_owned(), "c".to_owned()];

    assert_eq!(contains_id(&ids, &"c".to_owned()), true);
    assert_eq!(contains_id(&ids, &"d".to_owned()), false);
    assert_eq!(clone_ids(&ids), ids);
    assert_eq!(ids_without(&ids, &"a".to_owned()), vec!["b".to_owned(), "c".to_owned()]);
    assert_eq!(ids_without(&ids, &"d".to_owned()), ids);
}

#[test]
fn state_changes_on_plain_values() {
    let mut state = DBState::new("0".to_owned());
    let e1 = "e1".to_owned();
    let s1 = "s1".to_owned();

    state.add_epic(e1.clone(), Epic::new("A".to_owned(), "a".to_owned()));
    assert_eq!(state.last_item_id, "e1");
    assert_eq!(state.epic(&e1), Ok(Epic::new("A".to_owned(), "a".to_owned())));

    assert_eq!(
        state.add_story(s1.clone(), Story::new("S".to_owned(), "s".to_owned()), &"e9".to_owned()),
        Err(DbError::NotFound)
    );
    assert_eq!(state.last_item_id, "e1");
    assert_eq!(state.stories.len(), 0);

    assert_eq!(state.add_story(s1.clone(), Story::new("S".to_owned(), "s".to_owned()), &e1), Ok(()));
    assert_eq!(state.last_item_id, "s1");
    assert_eq!(state.epic(&e1).unwrap().stories, vec![s1.clone()]);
    assert_eq!(state.epic_story(&e1, &s1), Ok(Story::new("S".to_owned(), "s".to_owned())));

    assert_eq!(state.set_epic_status(&e1, Status::InProgress), Ok(()));
    assert_eq!(state.set_story_status(&s1, Status::Closed), Ok(()));
    assert_eq!(state.set_epic_status(&s1, Status::Closed), Err(DbError::NotFound));
    assert_eq!(state.set_story_status(&e1, Status::Closed), Err(DbError::NotFound));
    assert_eq!(state.epic(&e1).unwrap().status, Status::InProgress);
    assert_eq!(state.epic(&e1).unwrap().stories, vec![s1.clone()]);
    assert_eq!(state.epic_story(&e1, &s1).unwrap().status, Status::Closed);
    assert_eq!(state.last_item_id, "s1");

    assert_eq!(state.remove_story(&e1, &s1), Ok(()));
    assert_eq!(state.remove_story(&e1, &s1), Err(DbError::NotFound));
    assert_eq!(state.epic(&e1).unwrap().stories, Vec::<String>::new());
    assert_eq!(state.epic_story(&e1, &s1), Err(DbError::NotFound));

    assert_eq!(state.remove_epic(&e1), Ok(()));
    assert_eq!(state.remove_epic(&e1), Err(DbError::NotFound));
    assert_eq!(state.epic(&e1), Err(DbError::NotFound));
    assert_eq!(state.last_item_id, "e1");
}

#[test]
fn a_listed_story_that_is_gone_is_not_found() {
    let mut state = DBState::new("0".to_owned());
    let e1 = "e1".to_owned();
    let e2 = "e2".to_owned();
    let s1 = "s1".to_owned();
    state.add_epic(e1.clone(), Epic::new("".to_owned(), "".to_owned()));
    state.add_epic(e2.clone(), Epic::new("".to_owned(), "".to_owned()));
    assert_eq!(state.add_story(s1.clone(), Story::new("".to_owned(), "".to_owned()), &e1), Ok(()));
    assert_eq!(state.remove_story(&e2, &s1), Ok(()));

    assert_eq!(state.epic(&e1).unwrap().stories, vec![s1.clone()]);
    assert_eq!(state.epic_story(&e1, &s1), Err(DbError::NotFound));
}

#[test]
fn copies_of_entities_are_equal_to_them() {
    let epic = Epic {
        name: "n".to_owned(),
        description: "d".to_owned(),
        status: Status::Resolved,
        stories: vec!["s".to_owned()],
    };
    let story = Story { name: "n".to_owned(), description: "d".to_owned(), status: Status::Closed };

    assert_eq!(epic.clone(), epic);
    assert_eq!(epic.duplicate(), epic);
    assert_eq!(story.clone(), story);

    let mut state = DBState::new("0".to_owned());
    state.add_epic("e".to_owned(), epic);
    let copy = state.clone();
    state.add_epic("f".to_owned(), Epic::new("".to_owned(), "".to_owned()));
    assert_eq!(copy.epics.len(), 1);
    assert_eq!(copy.last_item_id, "e");
    assert_eq!(copy.epics.get(&"e".to_owned()), Some(&Epic::new("n".to_owned(), "d".to_owned())));
}
