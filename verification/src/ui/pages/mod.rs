//! The three pages: the listing of all epics, the detail of one epic and the
//! detail of one story. A page reads the repository and never changes it: it
//! gives the lines to show, and the action that a line of input asks for.

use crate::db::{Database, JiraDatabase};
use crate::models::{
    action_view, ids_view, status_label, Action, ActionView, DBState, EpicView, StateView, Status,
    StoryView,
};
use crate::state::{contains_id, DbError};
use vstd::prelude::*;

pub mod page_helpers;

use page_helpers::{column_text, get_column_string};

verus! {

/// Whether two texts are the same.
pub fn same_text(a: &str, b: &str) -> (same: bool)
    ensures
        same == (a@ == b@),
{
    a.to_owned() == b.to_owned()
}

/// A row of a listing: the id in ten columns, the name in thirty, the status
/// in `status_width`.
pub open spec fn list_row_text(
    id: Seq<char>,
    name: Seq<char>,
    status: Status,
    status_width: usize,
) -> Seq<char> {
    " "@ + column_text(id, 10) + " | "@ + column_text(name, 30) + " | "@ + column_text(
        status_label(status),
        status_width,
    ) + " "@
}

/// The row of a detail page: the id in five columns, the name in thirteen,
/// the description in twenty-eight, the status in thirteen.
pub open spec fn detail_row_text(
    id: Seq<char>,
    name: Seq<char>,
    description: Seq<char>,
    status: Status,
) -> Seq<char> {
    " "@ + column_text(id, 5) + " | "@ + column_text(name, 13) + " | "@ + column_text(
        description,
        28,
    ) + " | "@ + column_text(status_label(status), 13) + " "@
}

/// A row of a listing.
pub fn list_row(id: &str, name: &str, status: Status, status_width: usize) -> (row: String)
    ensures
        row@ == list_row_text(id@, name@, status, status_width),
{
    let mut row = " ".to_owned();
    row.append(get_column_string(id, 10).as_str());
    row.append(" | ");
    row.append(get_column_string(name, 30).as_str());
    row.append(" | ");
    row.append(get_column_string(status.to_string().as_str(), status_width).as_str());
    row.append(" ");
    row
}

/// The row of a detail page.
pub fn detail_row(id: &str, name: &str, description: &str, status: Status) -> (row: String)
    ensures
        row@ == detail_row_text(id@, name@, description@, status),
{
    let mut row = " ".to_owned();
    row.append(get_column_string(id, 5).as_str());
    row.append(" | ");
    row.append(get_column_string(name, 13).as_str());
    row.append(" | ");
    row.append(get_column_string(description, 28).as_str());
    row.append(" | ");
    row.append(get_column_string(status.to_string().as_str(), 13).as_str());
    row.append(" ");
    row
}

/// Whether `keys` lists every id of `ids` once.
pub open spec fn is_listing(keys: Seq<Seq<char>>, ids: Set<Seq<char>>) -> bool {
    keys.no_duplicates() && keys.to_set() == ids
}

/// The rows of the epics under `keys`, in that order.
pub open spec fn epic_rows(epics: Map<Seq<char>, EpicView>, keys: Seq<Seq<char>>) -> Seq<
    Seq<char>,
>
    decreases keys.len(),
{
    if keys.len() == 0 {
        Seq::empty()
    } else {
        let id = keys.last();
        epic_rows(epics, keys.drop_last()).push(
            list_row_text(id, epics[id].name, epics[id].status, 15),
        )
    }
}

/// The rows of those stories under `keys` that `listed` holds, in the order
/// of `keys`.
pub open spec fn story_rows(
    stories: Map<Seq<char>, StoryView>,
    keys: Seq<Seq<char>>,
    listed: Seq<Seq<char>>,
) -> Seq<Seq<char>>
    decreases keys.len(),
{
    if keys.len() == 0 {
        Seq::empty()
    } else {
        let id = keys.last();
        let rest = story_rows(stories, keys.drop_last(), listed);
        if listed.contains(id) {
            rest.push(list_row_text(id, stories[id].name, stories[id].status, 16))
        } else {
            rest
        }
    }
}

/// The listing of all epics, with the epics in the order of `keys`.
pub open spec fn home_text(epics: Map<Seq<char>, EpicView>, keys: Seq<Seq<char>>) -> Seq<
    Seq<char>,
> {
    seq![
        "----------------------------- EPICS -----------------------------"@,
        "     id     |               name               |      status     "@,
        Seq::empty(),
    ] + epic_rows(epics, keys) + seq![
        Seq::empty(),
        Seq::empty(),
        "[q] quit | [c] create epic | [:id:] navigate to epic"@,
    ]
}

/// The detail of the epic `epic_id`, with those of the stories under `keys`
/// that the epic lists, in the order of `keys`.
pub open spec fn epic_text(state: StateView, epic_id: Seq<char>, keys: Seq<Seq<char>>) -> Seq<
    Seq<char>,
> {
    let epic = state.epics[epic_id];
    seq![
        "------------------------------ EPIC ------------------------------"@,
        "  id  |     name     |         description         |    status    "@,
        detail_row_text(epic_id, epic.name, epic.description, epic.status),
        Seq::empty(),
        "---------------------------- STORIES ----------------------------"@,
        "     id     |               name               |      status      "@,
    ] + story_rows(state.stories, keys, epic.stories) + seq![
        Seq::empty(),
        Seq::empty(),
        "[p] previous | [u] update epic | [d] delete epic | [c] create story | [:id:] navigate to story"@,
    ]
}

/// The detail of the story `story_id`.
pub open spec fn story_text(state: StateView, story_id: Seq<char>) -> Seq<Seq<char>> {
    let story = state.stories[story_id];
    seq![
        "------------------------------ STORY ------------------------------"@,
        "  id  |     name     |         description         |    status    "@,
        detail_row_text(story_id, story.name, story.description, story.status),
        Seq::empty(),
        Seq::empty(),
        "[p] previous | [u] update story | [d] delete story"@,
    ]
}

/// The lines of the listing of all epics of `db_state`, in the order of its
/// table.
pub fn home_lines(db_state: &DBState) -> (lines: Vec<String>)
    ensures
        ids_view(lines@) == home_text(db_state@.epics, db_state.epics.keys()),
        is_listing(db_state.epics.keys(), db_state@.epics.dom()),
{
    let mut lines: Vec<String> = Vec::new();
    lines.push("----------------------------- EPICS -----------------------------".to_owned());
    lines.push("     id     |               name               |      status     ".to_owned());
    lines.push(String::new());
    let ghost head = ids_view(lines@);
    let ghost epics = db_state@.epics;
    let ghost keys = db_state.epics.keys();
    let n = db_state.epics.len();
    let mut i: usize = 0;
    assert(db_state@.epics.dom() =~= db_state.epics@.dom());
    assert(keys.take(0) =~= Seq::<Seq<char>>::empty());
    assert(ids_view(lines@) =~= head + epic_rows(epics, keys.take(0)));
    while i < n
        invariant
            i <= n,
            n == keys.len(),
            keys == db_state.epics.keys(),
            epics == db_state@.epics,
            ids_view(lines@) == head + epic_rows(epics, keys.take(i as int)),
        decreases n - i,
    {
        let ghost before = ids_view(lines@);
        let id = db_state.epics.key_at(i);
        let epic = db_state.epics.value_at(i);
        let row = list_row(id.as_str(), epic.name.as_str(), epic.status, 15);
        lines.push(row);
        proof {
            let next = keys.take(i + 1);
            assert(next.drop_last() =~= keys.take(i as int));
            assert(next.last() == keys[i as int]);
            assert(ids_view(lines@) =~= before.push(row@));
            assert(ids_view(lines@) =~= head + epic_rows(epics, next));
        }
        i += 1;
    }
    let ghost body = ids_view(lines@);
    lines.push(String::new());
    lines.push(String::new());
    lines.push("[q] quit | [c] create epic | [:id:] navigate to epic".to_owned());
    proof {
        assert(keys.take(n as int) =~= keys);
        assert(head =~= seq![
            "----------------------------- EPICS -----------------------------"@,
            "     id     |               name               |      status     "@,
            Seq::empty(),
        ]);
        assert(ids_view(lines@) =~= body + seq![
            Seq::empty(),
            Seq::empty(),
            "[q] quit | [c] create epic | [:id:] navigate to epic"@,
        ]);
    }
    lines
}

/// The lines of the detail of the epic `epic_id` of `db_state`, with its
/// stories in the order of the table of stories; `NotFound` without that
/// epic.
pub fn epic_lines(db_state: &DBState, epic_id: &String) -> (r: Result<Vec<String>, DbError>)
    ensures
        match r {
            Ok(lines) => db_state@.epics.contains_key(epic_id@) && ids_view(lines@) == epic_text(
                db_state@,
                epic_id@,
                db_state.stories.keys(),
            ),
            Err(e) => e == DbError::NotFound && !db_state@.epics.contains_key(epic_id@),
        },
        is_listing(db_state.stories.keys(), db_state@.stories.dom()),
{
    let n = db_state.stories.len();
    assert(db_state@.stories.dom() =~= db_state.stories@.dom());
    let epic = match db_state.epics.get(epic_id) {
        Some(epic) => epic,
        None => {
            return Err(DbError::NotFound);
        },
    };
    let mut lines: Vec<String> = Vec::new();
    lines.push("------------------------------ EPIC ------------------------------".to_owned());
    lines.push("  id  |     name     |         description         |    status    ".to_owned());
    lines.push(
        detail_row(
            epic_id.as_str(),
            epic.name.as_str(),
            epic.description.as_str(),
            epic.status,
        ),
    );
    lines.push(String::new());
    lines.push("---------------------------- STORIES ----------------------------".to_owned());
    lines.push("     id     |               name               |      status      ".to_owned());
    let ghost head = ids_view(lines@);
    let ghost stories = db_state@.stories;
    let ghost keys = db_state.stories.keys();
    let ghost listed = ids_view(epic.stories@);
    let mut i: usize = 0;
    assert(keys.take(0) =~= Seq::<Seq<char>>::empty());
    assert(ids_view(lines@) =~= head + story_rows(stories, keys.take(0), listed));
    while i < n
        invariant
            i <= n,
            n == keys.len(),
            keys == db_state.stories.keys(),
            stories == db_state@.stories,
            listed == ids_view(epic.stories@),
            ids_view(lines@) == head + story_rows(stories, keys.take(i as int), listed),
        decreases n - i,
    {
        let ghost before = ids_view(lines@);
        let id = db_state.stories.key_at(i);
        proof {
            let next = keys.take(i + 1);
            assert(next.drop_last() =~= keys.take(i as int));
            assert(next.last() == keys[i as int]);
        }
        if contains_id(&epic.stories, id) {
            let story = db_state.stories.value_at(i);
            let row = list_row(id.as_str(), story.name.as_str(), story.status, 16);
            lines.push(row);
            proof {
                assert(ids_view(lines@) =~= before.push(row@));
                assert(ids_view(lines@) =~= head + story_rows(stories, keys.take(i + 1), listed));
            }
        }
        i += 1;
    }
    let ghost body = ids_view(lines@);
    lines.push(String::new());
    lines.push(String::new());
    lines.push(
        "[p] previous | [u] update epic | [d] delete epic | [c] create story | [:id:] navigate to story".to_owned(),
    );
    proof {
        let e = db_state@.epics[epic_id@];
        assert(keys.take(n as int) =~= keys);
        assert(head =~= seq![
            "------------------------------ EPIC ------------------------------"@,
            "  id  |     name     |         description         |    status    "@,
            detail_row_text(epic_id@, e.name, e.description, e.status),
            Seq::empty(),
            "---------------------------- STORIES ----------------------------"@,
            "     id     |               name               |      status      "@,
        ]);
        assert(ids_view(lines@) =~= body + seq![
            Seq::empty(),
            Seq::empty(),
            "[p] previous | [u] update epic | [d] delete epic | [c] create story | [:id:] navigate to story"@,
        ]);
    }
    Ok(lines)
}

/// The lines of the detail of the story `story_id` of `db_state`; `NotFound`
/// without that story.
pub fn story_lines(db_state: &DBState, story_id: &String) -> (r: Result<Vec<String>, DbError>)
    ensures
        match r {
            Ok(lines) => db_state@.stories.contains_key(story_id@) && ids_view(lines@)
                == story_text(db_state@, story_id@),
            Err(e) => e == DbError::NotFound && !db_state@.stories.contains_key(story_id@),
        },
{
    let story = match db_state.stories.get(story_id) {
        Some(story) => story,
        None => {
            return Err(DbError::NotFound);
        },
    };
    let mut lines: Vec<String> = Vec::new();
    lines.push("------------------------------ STORY ------------------------------".to_owned());
    lines.push("  id  |     name     |         description         |    status    ".to_owned());
    lines.push(
        detail_row(
            story_id.as_str(),
            story.name.as_str(),
            story.description.as_str(),
            story.status,
        ),
    );
    lines.push(String::new());
    lines.push(String::new());
    lines.push("[p] previous | [u] update story | [d] delete story".to_owned());
    assert(ids_view(lines@) =~= story_text(db_state@, story_id@));
    Ok(lines)
}

/// What the listing of all epics makes of a line of input.
pub open spec fn home_action(state: StateView, input: Seq<char>) -> Option<ActionView> {
    if input == "q"@ {
        Some(ActionView::Exit)
    } else if input == "c"@ {
        Some(ActionView::CreateEpic)
    } else if state.epics.contains_key(input) {
        Some(ActionView::NavigateToEpicDetail { epic_id: input })
    } else {
        None
    }
}

/// What the detail of the epic `epic_id` makes of a line of input, given the
/// ids that the epic lists.
pub open spec fn epic_action(epic_id: Seq<char>, listed: Seq<Seq<char>>, input: Seq<char>) -> Option<
    ActionView,
> {
    if input == "p"@ {
        Some(ActionView::NavigateToPreviousPage)
    } else if input == "u"@ {
        Some(ActionView::UpdateEpicStatus { epic_id })
    } else if input == "d"@ {
        Some(ActionView::DeleteEpic { epic_id })
    } else if input == "c"@ {
        Some(ActionView::CreateStory { epic_id })
    } else if listed.contains(input) {
        Some(ActionView::NavigateToStoryDetail { epic_id, story_id: input })
    } else {
        None
    }
}

/// What the detail of the story `story_id` of the epic `epic_id` makes of a
/// line of input.
pub open spec fn story_action(epic_id: Seq<char>, story_id: Seq<char>, input: Seq<char>) -> Option<
    ActionView,
> {
    if input == "p"@ {
        Some(ActionView::NavigateToPreviousPage)
    } else if input == "u"@ {
        Some(ActionView::UpdateStoryStatus { story_id })
    } else if input == "d"@ {
        Some(ActionView::DeleteStory { epic_id, story_id })
    } else {
        None
    }
}

/// A view of the repository: what to show, and what a line of input asks
/// for.
pub trait Page<D: Database> {
    /// Whether the ids that the page is bound to still resolve in `state`, to
    /// show it.
    spec fn shown_in(&self, state: StateView) -> bool;

    /// Whether `lines` is what the page shows of `state`, for some order of
    /// the table that it lists.
    spec fn shows(&self, state: StateView, lines: Seq<Seq<char>>) -> bool;

    /// Whether the ids that the page is bound to still resolve in `state`, to
    /// take input.
    spec fn takes_input_in(&self, state: StateView) -> bool;

    /// The action that `input` asks for on `state`.
    spec fn action(&self, state: StateView, input: Seq<char>) -> Option<ActionView>;

    /// The lines that show the page, or `NotFound` where its ids no longer
    /// resolve.
    fn draw_page(&self, db: &JiraDatabase<D>) -> (r: Result<Vec<String>, DbError>)
        ensures
            match r {
                Ok(lines) => self.shown_in(db.state()) && self.shows(
                    db.state(),
                    ids_view(lines@),
                ),
                Err(DbError::NotFound) => !self.shown_in(db.state()),
                Err(_) => !db.infallible(),
            },
    ;

    /// The action that `input` asks for, if any, or `NotFound` where the
    /// page's ids no longer resolve.
    fn handle_input(&self, db: &JiraDatabase<D>, input: &str) -> (r: Result<
        Option<Action>,
        DbError,
    >)
        ensures
            match r {
                Ok(action) => self.takes_input_in(db.state()) && action_view(action)
                    == self.action(db.state(), input@),
                Err(DbError::NotFound) => !self.takes_input_in(db.state()),
                Err(_) => !db.infallible(),
            },
    ;
}

/// The listing of all epics.
pub struct HomePage {}

impl<D: Database> Page<D> for HomePage {
    open spec fn shown_in(&self, state: StateView) -> bool {
        true
    }

    open spec fn shows(&self, state: StateView, lines: Seq<Seq<char>>) -> bool {
        exists|keys: Seq<Seq<char>>| #[trigger]
            is_listing(keys, state.epics.dom()) && lines == home_text(state.epics, keys)
    }

    open spec fn takes_input_in(&self, state: StateView) -> bool {
        true
    }

    open spec fn action(&self, state: StateView, input: Seq<char>) -> Option<ActionView> {
        home_action(state, input)
    }

    fn draw_page(&self, db: &JiraDatabase<D>) -> (r: Result<Vec<String>, DbError>) {
        let db_state = db.read_db()?;
        Ok(home_lines(&db_state))
    }

    fn handle_input(&self, db: &JiraDatabase<D>, input: &str) -> (r: Result<
        Option<Action>,
        DbError,
    >) {
        let db_state = db.read_db()?;
        if same_text(input, "q") {
            Ok(Some(Action::Exit))
        } else if same_text(input, "c") {
            Ok(Some(Action::CreateEpic))
        } else {
            let epic_id = input.to_owned();
            if db_state.epics.contains_key(&epic_id) {
                Ok(Some(Action::NavigateToEpicDetail { epic_id }))
            } else {
                Ok(None)
            }
        }
    }
}

/// The detail of one epic.
pub struct EpicDetail {
    pub epic_id: String,
}

impl<D: Database> Page<D> for EpicDetail {
    open spec fn shown_in(&self, state: StateView) -> bool {
        state.epics.contains_key(self.epic_id@)
    }

    open spec fn shows(&self, state: StateView, lines: Seq<Seq<char>>) -> bool {
        exists|keys: Seq<Seq<char>>| #[trigger]
            is_listing(keys, state.stories.dom()) && lines == epic_text(
                state,
                self.epic_id@,
                keys,
            )
    }

    open spec fn takes_input_in(&self, state: StateView) -> bool {
        state.epics.contains_key(self.epic_id@)
    }

    open spec fn action(&self, state: StateView, input: Seq<char>) -> Option<ActionView> {
        epic_action(self.epic_id@, state.epics[self.epic_id@].stories, input)
    }

    fn draw_page(&self, db: &JiraDatabase<D>) -> (r: Result<Vec<String>, DbError>) {
        let db_state = db.read_db()?;
        epic_lines(&db_state, &self.epic_id)
    }

    fn handle_input(&self, db: &JiraDatabase<D>, input: &str) -> (r: Result<
        Option<Action>,
        DbError,
    >) {
        let epic = db.get_epic(&self.epic_id)?;
        if same_text(input, "p") {
            Ok(Some(Action::NavigateToPreviousPage))
        } else if same_text(input, "u") {
            Ok(Some(Action::UpdateEpicStatus { epic_id: self.epic_id.clone() }))
        } else if same_text(input, "d") {
            Ok(Some(Action::DeleteEpic { epic_id: self.epic_id.clone() }))
        } else if same_text(input, "c") {
            Ok(Some(Action::CreateStory { epic_id: self.epic_id.clone() }))
        } else {
            let story_id = input.to_owned();
            if contains_id(&epic.stories, &story_id) {
                Ok(Some(Action::NavigateToStoryDetail { epic_id: self.epic_id.clone(), story_id }))
            } else {
                Ok(None)
            }
        }
    }
}

/// The detail of one story of one epic.
pub struct StoryDetail {
    pub epic_id: String,
    pub story_id: String,
}

impl<D: Database> Page<D> for StoryDetail {
    open spec fn shown_in(&self, state: StateView) -> bool {
        state.stories.contains_key(self.story_id@)
    }

    open spec fn shows(&self, state: StateView, lines: Seq<Seq<char>>) -> bool {
        lines == story_text(state, self.story_id@)
    }

    open spec fn takes_input_in(&self, state: StateView) -> bool {
        true
    }

    open spec fn action(&self, state: StateView, input: Seq<char>) -> Option<ActionView> {
        story_action(self.epic_id@, self.story_id@, input)
    }

    fn draw_page(&self, db: &JiraDatabase<D>) -> (r: Result<Vec<String>, DbError>) {
        let db_state = db.read_db()?;
        story_lines(&db_state, &self.story_id)
    }

    fn handle_input(&self, db: &JiraDatabase<D>, input: &str) -> (r: Result<
        Option<Action>,
        DbError,
    >)
        ensures
            r is Ok,
    {
        if same_text(input, "p") {
            Ok(Some(Action::NavigateToPreviousPage))
        } else if same_text(input, "u") {
            Ok(Some(Action::UpdateStoryStatus { story_id: self.story_id.clone() }))
        } else if same_text(input, "d") {
            Ok(Some(
                Action::DeleteStory {
                    epic_id: self.epic_id.clone(),
                    story_id: self.story_id.clone(),
                },
            ))
        } else {
            Ok(None)
        }
    }
}

} // verus!
