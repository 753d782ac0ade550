use issue_tracker::db::{JiraDatabase, MockDB};
use issue_tracker::models::{Action, DBState, Epic, Status, Story};
use issue_tracker::state::DbError;
use issue_tracker::ui::pages::{
    detail_row, epic_lines, home_lines, list_row, same_text, story_lines, EpicDetail, HomePage,
    Page, StoryDetail,
};

#[test]
fn draw_page_should_not_throw_error() {
    let db = JiraDatabase {
        database: MockDB::new(),
    };

    let page = HomePage {};
    assert_eq!(page.draw_page(&db).is_ok(), true);
}

#[test]
fn handle_input_should_not_throw_error() {
    let db = JiraDatabase {
        database: MockDB::new(),
    };

    let page = HomePage {};
    assert_eq!(page.handle_input(&db, "").is_ok(), true);
}

#[test]
fn handle_input_should_return_the_correct_actions() {
    let mut db = JiraDatabase {
        database: MockDB::new(),
    };

    let epic = Epic::new("".to_owned(), "".to_owned());

    let epic_id = db.create_epic(epic).unwrap();

    let page = HomePage {};

    let q = "q";
    let c = "c";
    let invalid_epic_id = "999";
    let junk_input = "j983f2j";

    assert_eq!(page.handle_input(&db, q).unwrap(), Some(Action::Exit));
    assert_eq!(page.handle_input(&db, c).unwrap(), Some(Action::CreateEpic));
    assert_eq!(
        page.handle_input(&db, &epic_id).unwrap(),
        Some(Action::NavigateToEpicDetail {
            epic_id: epic_id.clone()
        })
    );
    assert_eq!(page.handle_input(&db, invalid_epic_id).unwrap(), None);
    assert_eq!(page.handle_input(&db, junk_input).unwrap(), None);
}

#[test]
fn mod_draw_page_should_not_throw_error() {
    let mut db = JiraDatabase {
        database: MockDB::new(),
    };
    let epic_id = db
        .create_epic(Epic::new("".to_owned(), "".to_owned()))
        .unwrap();

    let page = EpicDetail { epic_id };
    assert_eq!(page.draw_page(&db).is_ok(), true);
}

#[test]
fn mod_handle_input_should_not_throw_error() {
    let mut db = JiraDatabase {
        database: MockDB::new(),
    };
    let epic_id = db
        .create_epic(Epic::new("".to_owned(), "".to_owned()))
        .unwrap();

    let page = EpicDetail { epic_id };
    assert_eq!(page.handle_input(&db, "").is_ok(), true);
}

#[test]
fn draw_page_should_throw_error_for_invalid_epic_id() {
    let db = JiraDatabase {
        database: MockDB::new(),
    };

    let page = EpicDetail {
        epic_id: "999".to_owned(),
    };
    assert_eq!(page.draw_page(&db).is_err(), true);
}

#[test]
fn mod_handle_input_should_return_the_correct_actions() {
    let mut db = JiraDatabase {
        database: MockDB::new(),
    };

    let epic_id = db
        .create_epic(Epic::new("".to_owned(), "".to_owned()))
        .unwrap();
    let story_id = db
        .create_story(Story::new("".to_owned(), "".to_owned()), &epic_id)
        .unwrap();

    let page = EpicDetail {
        epic_id: epic_id.clone(),
    };

    let p = "p";
    let u = "u";
    let d = "d";
    let c = "c";
    let invalid_story_id = "999";
    let junk_input = "j983f2j";

    assert_eq!(
        page.handle_input(&db, p).unwrap(),
        Some(Action::NavigateToPreviousPage)
    );
    assert_eq!(
        page.handle_input(&db, u).unwrap(),
        Some(Action::UpdateEpicStatus {
            epic_id: epic_id.clone()
        })
    );
    assert_eq!(
        page.handle_input(&db, d).unwrap(),
        Some(Action::DeleteEpic {
            epic_id: epic_id.clone()
        })
    );
    assert_eq!(
        page.handle_input(&db, c).unwrap(),
        Some(Action::CreateStory {
            epic_id: epic_id.clone()
        })
    );
    assert_eq!(
        page.handle_input(&db, &story_id.to_string()).unwrap(),
        Some(Action::NavigateToStoryDetail {
            epic_id: epic_id.clone(),
            story_id: story_id.clone()
        })
    );
    assert_eq!(page.handle_input(&db, invalid_story_id).unwrap(), None);
    assert_eq!(page.handle_input(&db, junk_input).unwrap(), None);
}

#[test]
fn story_detail_draw_page_should_not_throw_error() {
    let mut db = JiraDatabase {
        database: MockDB::new(),
    };

    let epic_id = db
        .create_epic(Epic::new("".to_owned(), "".to_owned()))
        .unwrap();
    let story_id = db
        .create_story(Story::new("".to_owned(), "".to_owned()), &epic_id)
        .unwrap();

    let page = StoryDetail { epic_id, story_id };
    assert_eq!(page.draw_page(&db).is_ok(), true);
}

#[test]
fn story_detail_handle_input_should_not_throw_error() {
    let mut db = JiraDatabase {
        database: MockDB::new(),
    };

    let epic_id = db
        .create_epic(Epic::new("".to_owned(), "".to_owned()))
        .unwrap();
    let story_id = db
        .create_story(Story::new("".to_owned(), "".to_owned()), &epic_id)
        .unwrap();

    let page = StoryDetail { epic_id, story_id };
    assert_eq!(page.handle_input(&db, "").is_ok(), true);
}

#[test]
fn draw_page_should_throw_error_for_invalid_story_id() {
    let mut db = JiraDatabase {
        database: MockDB::new(),
    };

    let epic_id = db
        .create_epic(Epic::new("".to_owned(), "".to_owned()))
        .unwrap();
    let _ = db
        .create_story(Story::new("".to_owned(), "".to_owned()), &epic_id)
        .unwrap();

    let page = StoryDetail {
        epic_id,
        story_id: "999".to_owned(),
    };
    assert_eq!(page.draw_page(&db).is_err(), true);
}

#[test]
fn story_detail_handle_input_should_return_the_correct_actions() {
    let mut db = JiraDatabase {
        database: MockDB::new(),
    };

    let epic_id = db
        .create_epic(Epic::new("".to_owned(), "".to_owned()))
        .unwrap();
    let story_id = db
        .create_story(Story::new("".to_owned(), "".to_owned()), &epic_id)
        .unwrap();

    let page = StoryDetail {
        epic_id: epic_id.to_owned(),
        story_id: story_id.clone(),
    };

    let p = "p";
    let u = "u";
    let d = "d";
    let some_number = "1";
    let junk_input = "j983f2j";

    assert_eq!(
        page.handle_input(&db, p).unwrap(),
        Some(Action::NavigateToPreviousPage)
    );
    assert_eq!(
        page.handle_input(&db, u).unwrap(),
        Some(Action::UpdateStoryStatus {
            story_id: story_id.clone()
        })
    );
    assert_eq!(
        page.handle_input(&db, d).unwrap(),
        Some(Action::DeleteStory { epic_id, story_id })
    );
    assert_eq!(page.handle_input(&db, some_number).unwrap(), None);
    assert_eq!(page.handle_input(&db, junk_input).unwrap(), None);
}

#[test]
fn epic_detail_input_fails_once_the_epic_is_gone() {
    let mut db = JiraDatabase::new(MockDB::new());
    let epic_id = db.create_epic(Epic::new("".to_owned(), "".to_owned())).unwrap();
    let page = EpicDetail { epic_id: epic_id.clone() };

    assert_eq!(db.delete_epic(&epic_id), Ok(()));

    assert_eq!(page.handle_input(&db, "p"), Err(DbError::NotFound));
    assert_eq!(page.draw_page(&db), Err(DbError::NotFound));
}

#[test]
fn epic_detail_does_not_navigate_to_a_story_of_another_epic() {
    let mut db = JiraDatabase::new(MockDB::new());
    let owner = db.create_epic(Epic::new("".to_owned(), "".to_owned())).unwrap();
    let other = db.create_epic(Epic::new("".to_owned(), "".to_owned())).unwrap();
    let story_id = db.create_story(Story::new("".to_owned(), "".to_owned()), &owner).unwrap();

    let page = EpicDetail { epic_id: other };
    assert_eq!(page.handle_input(&db, &story_id), Ok(None));
}

#[test]
fn status_is_shown_in_capitals() {
    assert_eq!(Status::Open.to_string(), "OPEN");
    assert_eq!(Status::InProgress.to_string(), "IN PROGRESS");
    assert_eq!(Status::Resolved.to_string(), "RESOLVED");
    assert_eq!(Status::Closed.to_string(), "CLOSED");
}

#[test]
fn rows_are_made_of_padded_columns() {
    assert_eq!(
        list_row("abc123", "First epic", Status::Open, 15),
        " abc123     | First epic                     | OPEN            "
    );
    assert_eq!(
        list_row("abc123", "First story", Status::InProgress, 16),
        " abc123     | First story                    | IN PROGRESS      "
    );
    assert_eq!(
        detail_row("abc123", "First epic", "What it is about", Status::Closed),
        " ab... | First epic    | What it is about             | CLOSED        "
    );
    assert_eq!(same_text("q", "q"), true);
    assert_eq!(same_text("q", "c"), false);
}

fn sample_state() -> DBState {
    let mut state = DBState::new("0".to_owned());
    state.add_epic("e1".to_owned(), Epic::new("First".to_owned(), "About".to_owned()));
    state.add_epic("e2".to_owned(), Epic::new("Second".to_owned(), "".to_owned()));
    let e1 = "e1".to_owned();
    let e2 = "e2".to_owned();
    assert_eq!(state.add_story("s1".to_owned(), Story::new("One".to_owned(), "".to_owned()), &e1), Ok(()));
    assert_eq!(state.add_story("s2".to_owned(), Story::new("Two".to_owned(), "".to_owned()), &e2), Ok(()));
    assert_eq!(state.add_story("s3".to_owned(), Story::new("Three".to_owned(), "".to_owned()), &e1), Ok(()));
    assert_eq!(state.set_story_status(&"s3".to_owned(), Status::Resolved), Ok(()));
    state
}

#[test]
fn home_lines_list_every_epic() {
    let lines = home_lines(&sample_state());
    let expected: Vec<String> = vec![
        "----------------------------- EPICS -----------------------------".to_owned(),
        "     id     |               name               |      status     ".to_owned(),
        "".to_owned(),
        " e1         | First                          | OPEN            ".to_owned(),
        " e2         | Second                         | OPEN            ".to_owned(),
        "".to_owned(),
        "".to_owned(),
        "[q] quit | [c] create epic | [:id:] navigate to epic".to_owned(),
    ];
    assert_eq!(lines, expected);
}

#[test]
fn epic_lines_list_the_stories_of_the_epic_only() {
    let lines = epic_lines(&sample_state(), &"e1".to_owned());
    let expected: Vec<String> = vec![
        "------------------------------ EPIC ------------------------------".to_owned(),
        "  id  |     name     |         description         |    status    ".to_owned(),
        " e1    | First         | About                        | OPEN          ".to_owned(),
        "".to_owned(),
        "---------------------------- STORIES ----------------------------".to_owned(),
        "     id     |               name               |      status      ".to_owned(),
        " s1         | One                            | OPEN             ".to_owned(),
        " s3         | Three                          | RESOLVED         ".to_owned(),
        "".to_owned(),
        "".to_owned(),
        "[p] previous | [u] update epic | [d] delete epic | [c] create story | [:id:] navigate to story".to_owned(),
    ];
    assert_eq!(lines, Ok(expected));
    assert_eq!(epic_lines(&sample_state(), &"e3".to_owned()), Err(DbError::NotFound));
}

#[test]
fn story_lines_show_the_story() {
    let lines = story_lines(&sample_state(), &"s3".to_owned());
    let expected: Vec<String> = vec![
        "------------------------------ STORY ------------------------------".to_owned(),
        "  id  |     name     |         description         |    status    ".to_owned(),
        " s3    | Three         |                              | RESOLVED      ".to_owned(),
        "".to_owned(),
        "".to_owned(),
        "[p] previous | [u] update story | [d] delete story".to_owned(),
    ];
    assert_eq!(lines, Ok(expected));
    assert_eq!(story_lines(&sample_state(), &"e1".to_owned()), Err(DbError::NotFound));
}
