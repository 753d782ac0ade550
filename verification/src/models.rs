//! The entities of the tracker and their mathematical views.

use crate::table::{Record, Table};
use vstd::prelude::*;

verus! {

/// Where a work item stands.
#[derive(Debug, PartialEq, Eq, Clone, Copy, Structural)]
pub enum Status {
    InProgress,
    Closed,
    Open,
    Resolved,
}

/// The text that a status is shown as.
pub open spec fn status_label(status: Status) -> Seq<char> {
    match status {
        Status::Open => "OPEN"@,
        Status::InProgress => "IN PROGRESS"@,
        Status::Resolved => "RESOLVED"@,
        Status::Closed => "CLOSED"@,
    }
}

impl Status {
    /// The text that this status is shown as.
    pub fn to_string(&self) -> (text: String)
        ensures
            text@ == status_label(*self),
    {
        match self {
            Status::Open => "OPEN".to_owned(),
            Status::InProgress => "IN PROGRESS".to_owned(),
            Status::Resolved => "RESOLVED".to_owned(),
            Status::Closed => "CLOSED".to_owned(),
        }
    }
}

/// The ids that a vector of strings stands for.
pub open spec fn ids_view(ids: Seq<String>) -> Seq<Seq<char>> {
    Seq::new(ids.len(), |i: int| ids[i]@)
}

/// A copy of a vector of ids.
pub fn clone_ids(ids: &Vec<String>) -> (copy: Vec<String>)
    ensures
        ids_view(copy@) == ids_view(ids@),
{
    let mut copy: Vec<String> = Vec::new();
    let mut i: usize = 0;
    while i < ids.len()
        invariant
            i <= ids@.len(),
            copy@.len() == i,
            forall|j: int| 0 <= j < i ==> (#[trigger] copy@[j])@ == ids@[j]@,
        decreases ids@.len() - i,
    {
        copy.push(ids[i].clone());
        i += 1;
    }
    assert(ids_view(copy@) =~= ids_view(ids@));
    copy
}

/// What a story is, as plain values.
pub struct StoryView {
    pub name: Seq<char>,
    pub description: Seq<char>,
    pub status: Status,
}

/// A leaf work item. It belongs to the one epic whose list holds its id.
#[derive(Debug, PartialEq)]
pub struct Story {
    pub name: String,
    pub description: String,
    pub status: Status,
}

impl View for Story {
    type V = StoryView;

    open spec fn view(&self) -> StoryView {
        StoryView { name: self.name@, description: self.description@, status: self.status }
    }
}

impl Story {
    /// An open story with the given name and description.
    pub fn new(name: String, description: String) -> (story: Self)
        ensures
            story@ == (StoryView { name: name@, description: description@, status: Status::Open }),
    {
        Self { name, description, status: Status::Open }
    }
}

impl Record for Story {
    fn duplicate(&self) -> (copy: Self) {
        Story {
            name: self.name.clone(),
            description: self.description.clone(),
            status: self.status,
        }
    }
}

impl Clone for Story {
    fn clone(&self) -> (copy: Self)
        ensures
            copy@ == self@,
    {
        self.duplicate()
    }
}

/// What an epic is, as plain values.
pub struct EpicView {
    pub name: Seq<char>,
    pub description: Seq<char>,
    pub status: Status,
    pub stories: Seq<Seq<char>>,
}

/// A top-level work item. It owns its stories by reference: `stories` lists
/// their ids, in the order in which they were attached.
#[derive(Debug, PartialEq)]
pub struct Epic {
    pub name: String,
    pub description: String,
    pub status: Status,
    pub stories: Vec<String>,
}

impl View for Epic {
    type V = EpicView;

    open spec fn view(&self) -> EpicView {
        EpicView {
            name: self.name@,
            description: self.description@,
            status: self.status,
            stories: ids_view(self.stories@),
        }
    }
}

/// The epic that a name and a description start out as.
pub open spec fn fresh_epic(name: Seq<char>, description: Seq<char>) -> EpicView {
    EpicView { name, description, status: Status::Open, stories: Seq::empty() }
}

/// The story that a name and a description start out as.
pub open spec fn fresh_story(name: Seq<char>, description: Seq<char>) -> StoryView {
    StoryView { name, description, status: Status::Open }
}

impl Epic {
    /// An open epic with the given name and description and no stories.
    pub fn new(name: String, description: String) -> (epic: Self)
        ensures
            epic@ == fresh_epic(name@, description@),
    {
        let epic = Self { name, description, status: Status::Open, stories: Vec::new() };
        assert(epic@.stories =~= Seq::empty());
        epic
    }
}

impl Record for Epic {
    fn duplicate(&self) -> (copy: Self) {
        Epic {
            name: self.name.clone(),
            description: self.description.clone(),
            status: self.status,
            stories: clone_ids(&self.stories),
        }
    }
}

impl Clone for Epic {
    fn clone(&self) -> (copy: Self)
        ensures
            copy@ == self@,
    {
        self.duplicate()
    }
}

/// The whole state as plain values: both tables, and the id that the last
/// change was about.
pub struct StateView {
    pub epics: Map<Seq<char>, EpicView>,
    pub stories: Map<Seq<char>, StoryView>,
    pub last_item_id: Seq<char>,
}

/// The whole state: every epic, every story, and the id that the last change
/// was about.
#[derive(Debug)]
pub struct DBState {
    pub epics: Table<Epic>,
    pub stories: Table<Story>,
    pub last_item_id: String,
}

impl View for DBState {
    type V = StateView;

    open spec fn view(&self) -> StateView {
        StateView {
            epics: self.epics.model(),
            stories: self.stories.model(),
            last_item_id: self.last_item_id@,
        }
    }
}

impl Record for DBState {
    fn duplicate(&self) -> (copy: Self) {
        DBState {
            epics: self.epics.duplicate(),
            stories: self.stories.duplicate(),
            last_item_id: self.last_item_id.clone(),
        }
    }
}

impl Clone for DBState {
    fn clone(&self) -> (copy: Self)
        ensures
            copy@ == self@,
            copy.epics.keys() == self.epics.keys(),
            copy.stories.keys() == self.stories.keys(),
    {
        DBState {
            epics: self.epics.duplicate(),
            stories: self.stories.duplicate(),
            last_item_id: self.last_item_id.clone(),
        }
    }
}

/// What a page asks the navigation to do, as plain values.
pub enum ActionView {
    NavigateToEpicDetail { epic_id: Seq<char> },
    NavigateToStoryDetail { epic_id: Seq<char>, story_id: Seq<char> },
    NavigateToPreviousPage,
    CreateEpic,
    UpdateEpicStatus { epic_id: Seq<char> },
    DeleteEpic { epic_id: Seq<char> },
    CreateStory { epic_id: Seq<char> },
    UpdateStoryStatus { story_id: Seq<char> },
    DeleteStory { epic_id: Seq<char>, story_id: Seq<char> },
    Exit,
}

/// What a page asks the navigation to do.
#[derive(Debug, PartialEq, Eq)]
pub enum Action {
    NavigateToEpicDetail { epic_id: String },
    NavigateToStoryDetail { epic_id: String, story_id: String },
    NavigateToPreviousPage,
    CreateEpic,
    UpdateEpicStatus { epic_id: String },
    DeleteEpic { epic_id: String },
    CreateStory { epic_id: String },
    UpdateStoryStatus { story_id: String },
    DeleteStory { epic_id: String, story_id: String },
    Exit,
}

impl View for Action {
    type V = ActionView;

    open spec fn view(&self) -> ActionView {
        match self {
            Action::NavigateToEpicDetail { epic_id } => ActionView::NavigateToEpicDetail {
                epic_id: epic_id@,
            },
            Action::NavigateToStoryDetail { epic_id, story_id } => {
                ActionView::NavigateToStoryDetail { epic_id: epic_id@, story_id: story_id@ }
            },
            Action::NavigateToPreviousPage => ActionView::NavigateToPreviousPage,
            Action::CreateEpic => ActionView::CreateEpic,
            Action::UpdateEpicStatus { epic_id } => ActionView::UpdateEpicStatus {
                epic_id: epic_id@,
            },
            Action::DeleteEpic { epic_id } => ActionView::DeleteEpic { epic_id: epic_id@ },
            Action::CreateStory { epic_id } => ActionView::CreateStory { epic_id: epic_id@ },
            Action::UpdateStoryStatus { story_id } => ActionView::UpdateStoryStatus {
                story_id: story_id@,
            },
            Action::DeleteStory { epic_id, story_id } => ActionView::DeleteStory {
                epic_id: epic_id@,
                story_id: story_id@,
            },
            Action::Exit => ActionView::Exit,
        }
    }
}

/// The view of an action that may be absent.
pub open spec fn action_view(action: Option<Action>) -> Option<ActionView> {
    match action {
        Some(a) => Some(a@),
        None => None,
    }
}

} // verus!
