//! The changes and lookups that the repository makes on a state, each as a
//! function on the state alone.

use crate::models::{
    fresh_epic, fresh_story, ids_view, DBState, Epic, EpicView, StateView, Status, Story,
    StoryView,
};
use crate::integrity::{
    lemma_add_epic_keeps_consistent, lemma_add_story_keeps_consistent,
    lemma_remove_epic_keeps_consistent, lemma_remove_story_keeps_consistent,
    lemma_status_keeps_consistent,
};
use crate::table::{without, Record, Table};
use vstd::prelude::*;

verus! {

/// Why a repository call failed.
#[derive(Debug, PartialEq, Eq, Clone, Copy, Structural)]
pub enum DbError {
    /// An id names no epic or story, or no story of the epic asked for.
    NotFound,
    /// The backend could not be read or written.
    IOFailure,
    /// What the backend holds is not a state.
    FormatFailure,
}

impl StateView {
    /// The state after an epic was created under `id`.
    pub open spec fn add_epic(self, id: Seq<char>, name: Seq<char>, description: Seq<char>) -> Self {
        StateView {
            epics: self.epics.insert(id, fresh_epic(name, description)),
            stories: self.stories,
            last_item_id: id,
        }
    }

    /// The epic `epic_id` with `story_id` attached at the end of its list.
    pub open spec fn epic_with_story(self, epic_id: Seq<char>, story_id: Seq<char>) -> EpicView {
        let epic = self.epics[epic_id];
        EpicView {
            name: epic.name,
            description: epic.description,
            status: epic.status,
            stories: epic.stories.push(story_id),
        }
    }

    /// The state after a story was created under `id` in the epic `epic_id`.
    pub open spec fn add_story(
        self,
        id: Seq<char>,
        name: Seq<char>,
        description: Seq<char>,
        epic_id: Seq<char>,
    ) -> Self {
        StateView {
            epics: self.epics.insert(epic_id, self.epic_with_story(epic_id, id)),
            stories: self.stories.insert(id, fresh_story(name, description)),
            last_item_id: id,
        }
    }

    /// The state after the epic `epic_id` was deleted with all its stories.
    pub open spec fn remove_epic(self, epic_id: Seq<char>) -> Self {
        StateView {
            epics: self.epics.remove(epic_id),
            stories: self.stories.remove_keys(self.epics[epic_id].stories.to_set()),
            last_item_id: epic_id,
        }
    }

    /// The epic `epic_id` with every occurrence of `story_id` taken off its
    /// list.
    pub open spec fn epic_without_story(self, epic_id: Seq<char>, story_id: Seq<char>) -> EpicView {
        let epic = self.epics[epic_id];
        EpicView {
            name: epic.name,
            description: epic.description,
            status: epic.status,
            stories: without(epic.stories, story_id),
        }
    }

    /// The state after the story `story_id` was deleted from the epic
    /// `epic_id`.
    pub open spec fn remove_story(self, epic_id: Seq<char>, story_id: Seq<char>) -> Self {
        StateView {
            epics: self.epics.insert(epic_id, self.epic_without_story(epic_id, story_id)),
            stories: self.stories.remove(story_id),
            last_item_id: story_id,
        }
    }

    /// The state after the epic `epic_id` got the status `status`.
    pub open spec fn set_epic_status(self, epic_id: Seq<char>, status: Status) -> Self {
        let epic = self.epics[epic_id];
        StateView {
            epics: self.epics.insert(
                epic_id,
                EpicView {
                    name: epic.name,
                    description: epic.description,
                    status,
                    stories: epic.stories,
                },
            ),
            stories: self.stories,
            last_item_id: self.last_item_id,
        }
    }

    /// The state after the story `story_id` got the status `status`.
    pub open spec fn set_story_status(self, story_id: Seq<char>, status: Status) -> Self {
        let story = self.stories[story_id];
        StateView {
            epics: self.epics,
            stories: self.stories.insert(
                story_id,
                StoryView { name: story.name, description: story.description, status },
            ),
            last_item_id: self.last_item_id,
        }
    }

    /// Whether `story_id` can be looked up through the epic `epic_id`: the
    /// epic exists, lists the story, and the story exists.
    pub open spec fn has_epic_story(self, epic_id: Seq<char>, story_id: Seq<char>) -> bool {
        &&& self.epics.contains_key(epic_id)
        &&& self.epics[epic_id].stories.contains(story_id)
        &&& self.stories.contains_key(story_id)
    }
}

/// Whether `id` is among `ids`.
pub fn contains_id(ids: &Vec<String>, id: &String) -> (found: bool)
    ensures
        found == ids_view(ids@).contains(id@),
{
    let mut i: usize = 0;
    while i < ids.len()
        invariant
            i <= ids@.len(),
            forall|j: int| 0 <= j < i ==> ids_view(ids@)[j] != id@,
        decreases ids@.len() - i,
    {
        if ids[i] == *id {
            assert(ids_view(ids@)[i as int] == id@);
            return true;
        }
        i += 1;
    }
    false
}

/// The ids of `ids` other than `id`, in their order.
pub fn ids_without(ids: &Vec<String>, id: &String) -> (kept: Vec<String>)
    ensures
        ids_view(kept@) == without(ids_view(ids@), id@),
{
    let mut kept: Vec<String> = Vec::new();
    let mut i: usize = 0;
    assert(ids_view(ids@).take(0) =~= Seq::<Seq<char>>::empty());
    assert(ids_view(kept@) =~= Seq::<Seq<char>>::empty());
    while i < ids.len()
        invariant
            i <= ids@.len(),
            ids_view(kept@) == without(ids_view(ids@).take(i as int), id@),
        decreases ids@.len() - i,
    {
        let ghost all = ids_view(ids@);
        let ghost before = ids_view(kept@);
        proof {
            let next = all.take(i + 1);
            assert(next.drop_last() =~= all.take(i as int));
            assert(next.last() == ids@[i as int]@);
        }
        if ids[i] != *id {
            kept.push(ids[i].clone());
            assert(ids_view(kept@) =~= before.push(ids@[i as int]@));
        }
        i += 1;
    }
    assert(ids_view(ids@).take(ids@.len() as int) =~= ids_view(ids@));
    kept
}

impl DBState {
    /// A state without epics or stories, with `last_item_id` as given.
    pub fn new(last_item_id: String) -> (state: Self)
        ensures
            state@ == (StateView {
                epics: Map::empty(),
                stories: Map::empty(),
                last_item_id: last_item_id@,
            }),
            state.epics.keys() == Seq::<Seq<char>>::empty(),
            state.stories.keys() == Seq::<Seq<char>>::empty(),
            state@.consistent(),
    {
        let state = DBState {
            epics: Table::new(),
            stories: Table::new(),
            last_item_id,
        };
        assert(state@.epics =~= Map::empty());
        assert(state@.stories =~= Map::empty());
        state
    }

    /// Stores a new open epic without stories under `id`, with the name and
    /// description of `epic`, and records `id` as the last item.
    pub fn add_epic(&mut self, id: String, epic: Epic)
        ensures
            final(self)@ == old(self)@.add_epic(id@, epic@.name, epic@.description),
            old(self)@.consistent() ==> final(self)@.consistent(),
    {
        let created = Epic::new(epic.name, epic.description);
        self.last_item_id = id.clone();
        self.epics.insert(id, created);
        assert(self@.epics =~= old(self)@.epics.insert(id@, created@));
        proof {
            if old(self)@.consistent() {
                lemma_add_epic_keeps_consistent(old(self)@, id@, epic@.name, epic@.description);
            }
        }
    }

    /// Stores a new open story under `id`, with the name and description of
    /// `story`, attaches it to the epic `epic_id` and records `id` as the last
    /// item. Without that epic nothing changes.
    pub fn add_story(&mut self, id: String, story: Story, epic_id: &String) -> (r: Result<
        (),
        DbError,
    >)
        ensures
            match r {
                Ok(_) => old(self)@.epics.contains_key(epic_id@) && final(self)@ == old(
                    self,
                )@.add_story(id@, story@.name, story@.description, epic_id@),
                Err(e) => e == DbError::NotFound && !old(self)@.epics.contains_key(epic_id@)
                    && *final(self) == *old(self),
            },
            old(self)@.consistent() && !old(self)@.stories.contains_key(id@)
                ==> final(self)@.consistent(),
    {
        let created = Story::new(story.name, story.description);
        let mut epic = match self.epics.get(epic_id) {
            Some(epic) => epic.duplicate(),
            None => {
                return Err(DbError::NotFound);
            },
        };
        let ghost listed = ids_view(epic.stories@);
        self.last_item_id = id.clone();
        epic.stories.push(id.clone());
        assert(ids_view(epic.stories@) =~= listed.push(id@));
        self.stories.insert(id, created);
        self.epics.insert(epic_id.clone(), epic);
        assert(self@.stories =~= old(self)@.stories.insert(id@, created@));
        assert(self@.epics =~= old(self)@.epics.insert(
            epic_id@,
            old(self)@.epic_with_story(epic_id@, id@),
        ));
        proof {
            if old(self)@.consistent() && !old(self)@.stories.contains_key(id@) {
                lemma_add_story_keeps_consistent(
                    old(self)@,
                    id@,
                    story@.name,
                    story@.description,
                    epic_id@,
                );
            }
        }
        Ok(())
    }

    /// Deletes the epic `epic_id` and every story on its list, and records
    /// `epic_id` as the last item. Without that epic nothing changes.
    pub fn remove_epic(&mut self, epic_id: &String) -> (r: Result<(), DbError>)
        ensures
            match r {
                Ok(_) => old(self)@.epics.contains_key(epic_id@) && final(self)@ == old(
                    self,
                )@.remove_epic(epic_id@),
                Err(e) => e == DbError::NotFound && !old(self)@.epics.contains_key(epic_id@)
                    && final(self)@ == old(self)@,
            },
            old(self)@.consistent() ==> final(self)@.consistent(),
    {
        let epic = match self.epics.remove(epic_id) {
            Some(epic) => epic,
            None => {
                assert(self@.epics =~= old(self)@.epics);
                return Err(DbError::NotFound);
            },
        };
        assert(self@.epics =~= old(self)@.epics.remove(epic_id@));
        let ghost listed = ids_view(epic.stories@);
        let ghost before = self.stories@;
        let mut i: usize = 0;
        while i < epic.stories.len()
            invariant
                i <= epic.stories@.len(),
                listed == ids_view(epic.stories@),
                self.epics@ == old(self).epics@.remove(epic_id@),
                self.stories@ =~= before.remove_keys(listed.take(i as int).to_set()),
            decreases epic.stories@.len() - i,
        {
            let ghost done = listed.take(i as int).to_set();
            self.stories.remove(&epic.stories[i]);
            proof {
                let next = listed.take(i + 1).to_set();
                assert(listed.take(i + 1) =~= listed.take(i as int).push(listed[i as int]));
                assert forall|k: Seq<char>| next.contains(k) <==> (done.contains(k) || k
                    == listed[i as int]) by {
                    let a = listed.take(i as int);
                    let b = listed.take(i + 1);
                    if a.contains(k) {
                        let j = choose|j: int| 0 <= j < a.len() && a[j] == k;
                        assert(b[j] == k);
                    }
                    if b.contains(k) {
                        let j = choose|j: int| 0 <= j < b.len() && b[j] == k;
                        if j < i {
                            assert(a[j] == k);
                        }
                    }
                    assert(b[i as int] == listed[i as int]);
                }
                assert(self.stories@ =~= before.remove_keys(next));
            }
            i += 1;
        }
        self.last_item_id = epic_id.clone();
        proof {
            assert(listed.take(listed.len() as int) =~= listed);
            assert(self@.stories =~= old(self)@.stories.remove_keys(
                old(self)@.epics[epic_id@].stories.to_set(),
            ));
            if old(self)@.consistent() {
                lemma_remove_epic_keeps_consistent(old(self)@, epic_id@);
            }
        }
        Ok(())
    }

    /// Deletes the story `story_id`, takes it off the list of the epic
    /// `epic_id` and records `story_id` as the last item. The story must exist
    /// and so must the epic; that the epic lists the story is not asked.
    /// Without either nothing changes.
    pub fn remove_story(&mut self, epic_id: &String, story_id: &String) -> (r: Result<
        (),
        DbError,
    >)
        ensures
            match r {
                Ok(_) => old(self)@.stories.contains_key(story_id@) && old(
                    self,
                )@.epics.contains_key(epic_id@) && final(self)@ == old(self)@.remove_story(
                    epic_id@,
                    story_id@,
                ),
                Err(e) => e == DbError::NotFound && !(old(self)@.stories.contains_key(story_id@)
                    && old(self)@.epics.contains_key(epic_id@)) && *final(self) == *old(self),
            },
            old(self)@.consistent() && (old(self)@.epics.contains_key(epic_id@) ==> old(
                self,
            )@.epics[epic_id@].stories.contains(story_id@)) ==> final(self)@.consistent(),
    {
        if !self.stories.contains_key(story_id) {
            return Err(DbError::NotFound);
        }
        let epic = match self.epics.get(epic_id) {
            Some(epic) => Epic {
                name: epic.name.clone(),
                description: epic.description.clone(),
                status: epic.status,
                stories: ids_without(&epic.stories, story_id),
            },
            None => {
                return Err(DbError::NotFound);
            },
        };
        self.epics.insert(epic_id.clone(), epic);
        self.stories.remove(story_id);
        self.last_item_id = story_id.clone();
        assert(self@.stories =~= old(self)@.stories.remove(story_id@));
        assert(self@.epics =~= old(self)@.epics.insert(
            epic_id@,
            old(self)@.epic_without_story(epic_id@, story_id@),
        ));
        proof {
            if old(self)@.consistent() && old(self)@.epics[epic_id@].stories.contains(story_id@) {
                lemma_remove_story_keeps_consistent(old(self)@, epic_id@, story_id@);
            }
        }
        Ok(())
    }

    /// Gives the epic `epic_id` the status `status`. Without that epic nothing
    /// changes.
    pub fn set_epic_status(&mut self, epic_id: &String, status: Status) -> (r: Result<
        (),
        DbError,
    >)
        ensures
            match r {
                Ok(_) => old(self)@.epics.contains_key(epic_id@) && final(self)@ == old(
                    self,
                )@.set_epic_status(epic_id@, status),
                Err(e) => e == DbError::NotFound && !old(self)@.epics.contains_key(epic_id@)
                    && *final(self) == *old(self),
            },
            old(self)@.consistent() ==> final(self)@.consistent(),
    {
        let mut epic = match self.epics.get(epic_id) {
            Some(epic) => epic.duplicate(),
            None => {
                return Err(DbError::NotFound);
            },
        };
        epic.status = status;
        self.epics.insert(epic_id.clone(), epic);
        assert(self@.epics =~= old(self)@.set_epic_status(epic_id@, status).epics);
        proof {
            if old(self)@.consistent() {
                lemma_status_keeps_consistent(old(self)@, epic_id@, status);
            }
        }
        Ok(())
    }

    /// Gives the story `story_id` the status `status`. Without that story
    /// nothing changes.
    pub fn set_story_status(&mut self, story_id: &String, status: Status) -> (r: Result<
        (),
        DbError,
    >)
        ensures
            match r {
                Ok(_) => old(self)@.stories.contains_key(story_id@) && final(self)@ == old(
                    self,
                )@.set_story_status(story_id@, status),
                Err(e) => e == DbError::NotFound && !old(self)@.stories.contains_key(story_id@)
                    && *final(self) == *old(self),
            },
            old(self)@.consistent() ==> final(self)@.consistent(),
    {
        let mut story = match self.stories.get(story_id) {
            Some(story) => story.duplicate(),
            None => {
                return Err(DbError::NotFound);
            },
        };
        story.status = status;
        self.stories.insert(story_id.clone(), story);
        assert(self@.stories =~= old(self)@.set_story_status(story_id@, status).stories);
        proof {
            if old(self)@.consistent() {
                lemma_status_keeps_consistent(old(self)@, story_id@, status);
            }
        }
        Ok(())
    }

    /// A copy of the epic `epic_id`.
    pub fn epic(&self, epic_id: &String) -> (r: Result<Epic, DbError>)
        ensures
            match r {
                Ok(epic) => self@.epics.contains_key(epic_id@) && epic@ == self@.epics[epic_id@],
                Err(e) => e == DbError::NotFound && !self@.epics.contains_key(epic_id@),
            },
    {
        match self.epics.get(epic_id) {
            Some(epic) => Ok(epic.duplicate()),
            None => Err(DbError::NotFound),
        }
    }

    /// A copy of the story `story_id`, looked up through the epic `epic_id`:
    /// a story that the epic does not list is not found, wherever else it may
    /// be.
    pub fn epic_story(&self, epic_id: &String, story_id: &String) -> (r: Result<Story, DbError>)
        ensures
            match r {
                Ok(story) => self@.has_epic_story(epic_id@, story_id@) && story@
                    == self@.stories[story_id@],
                Err(e) => e == DbError::NotFound && !self@.has_epic_story(epic_id@, story_id@),
            },
    {
        let epic = match self.epics.get(epic_id) {
            Some(epic) => epic,
            None => {
                return Err(DbError::NotFound);
            },
        };
        if !contains_id(&epic.stories, story_id) {
            return Err(DbError::NotFound);
        }
        match self.stories.get(story_id) {
            Some(story) => Ok(story.duplicate()),
            None => Err(DbError::NotFound),
        }
    }
}

} // verus!
