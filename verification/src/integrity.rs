//! What holds of the changes to a state, whatever the state: what a created
//! epic looks like, what a deletion takes away and what it leaves, and that
//! the references between epics and stories stay sound.

use crate::models::{fresh_epic, fresh_story, EpicView, StateView, Status};
use crate::table::{lemma_without_at, lemma_without_contains};
use vstd::prelude::*;

verus! {

/// After an epic was created under `id`, the state holds under `id` an open
/// epic with the given name and description and without stories, `id` is
/// the last item, and every other epic and every story is as before.
pub proof fn lemma_created_epic(
    s: StateView,
    id: Seq<char>,
    name: Seq<char>,
    description: Seq<char>,
)
    ensures
        s.add_epic(id, name, description).epics.contains_key(id),
        s.add_epic(id, name, description).epics[id] == fresh_epic(name, description),
        s.add_epic(id, name, description).epics[id].stories.len() == 0,
        s.add_epic(id, name, description).last_item_id == id,
        s.add_epic(id, name, description).stories == s.stories,
        forall|other: Seq<char>|
            other != id ==> (#[trigger] s.add_epic(id, name, description).epics.contains_key(other)
                <==> s.epics.contains_key(other)) && s.add_epic(
                id,
                name,
                description,
            ).epics[other] == s.epics[other],
{
}

/// After a story was created under `id` in an existing epic, the state
/// holds under `id` an open story with the given name and description, the
/// epic lists `id` last, after what it listed before, and `id` is the last
/// item.
pub proof fn lemma_created_story(
    s: StateView,
    id: Seq<char>,
    name: Seq<char>,
    description: Seq<char>,
    epic_id: Seq<char>,
)
    requires
        s.epics.contains_key(epic_id),
    ensures
        s.add_story(id, name, description, epic_id).stories.contains_key(id),
        s.add_story(id, name, description, epic_id).stories[id] == fresh_story(name, description),
        s.add_story(id, name, description, epic_id).epics.contains_key(epic_id),
        s.add_story(id, name, description, epic_id).epics[epic_id].stories
            == s.epics[epic_id].stories.push(id),
        s.add_story(id, name, description, epic_id).has_epic_story(epic_id, id),
        s.add_story(id, name, description, epic_id).last_item_id == id,
{
    let t = s.add_story(id, name, description, epic_id);
    let listed = t.epics[epic_id].stories;
    assert(listed[listed.len() - 1] == id);
}

/// After an epic was deleted, it is gone, every story that it listed is gone,
/// its id is the last item, and every other epic, and every story that it did
/// not list, is as before.
pub proof fn lemma_deleted_epic(s: StateView, epic_id: Seq<char>)
    requires
        s.epics.contains_key(epic_id),
    ensures
        !s.remove_epic(epic_id).epics.contains_key(epic_id),
        forall|i: int|
            0 <= i < s.epics[epic_id].stories.len() ==> !s.remove_epic(
                epic_id,
            ).stories.contains_key(#[trigger] s.epics[epic_id].stories[i]),
        s.remove_epic(epic_id).last_item_id == epic_id,
        forall|other: Seq<char>|
            other != epic_id && s.epics.contains_key(other) ==> #[trigger] s.remove_epic(
                epic_id,
            ).epics.contains_key(other) && s.remove_epic(epic_id).epics[other] == s.epics[other],
        forall|story_id: Seq<char>|
            s.stories.contains_key(story_id) && !s.epics[epic_id].stories.contains(story_id)
                ==> #[trigger] s.remove_epic(epic_id).stories.contains_key(story_id)
                && s.remove_epic(epic_id).stories[story_id] == s.stories[story_id],
{
    let listed = s.epics[epic_id].stories;
    assert forall|i: int| 0 <= i < listed.len() implies !s.remove_epic(
        epic_id,
    ).stories.contains_key(#[trigger] listed[i]) by {
        assert(listed.contains(listed[i]));
    }
}

/// After a story was deleted from an epic, the epic is still there and no
/// longer lists the story, the story is gone, and its id is the last item.
/// Whatever else the epic listed it still lists, every other epic is as
/// before, and so is every other story.
pub proof fn lemma_deleted_story(s: StateView, epic_id: Seq<char>, story_id: Seq<char>)
    requires
        s.epics.contains_key(epic_id),
        s.stories.contains_key(story_id),
    ensures
        s.remove_story(epic_id, story_id).epics.contains_key(epic_id),
        !s.remove_story(epic_id, story_id).epics[epic_id].stories.contains(story_id),
        !s.remove_story(epic_id, story_id).stories.contains_key(story_id),
        !s.remove_story(epic_id, story_id).has_epic_story(epic_id, story_id),
        s.remove_story(epic_id, story_id).last_item_id == story_id,
        s.remove_story(epic_id, story_id).epics.dom() == s.epics.dom(),
        forall|other: Seq<char>|
            other != story_id ==> (#[trigger] s.remove_story(
                epic_id,
                story_id,
            ).epics[epic_id].stories.contains(other) <==> s.epics[epic_id].stories.contains(
                other,
            )),
        forall|other: Seq<char>|
            other != epic_id ==> #[trigger] s.remove_story(epic_id, story_id).epics[other]
                == s.epics[other],
        forall|other: Seq<char>|
            other != story_id && s.stories.contains_key(other) ==> #[trigger] s.remove_story(
                epic_id,
                story_id,
            ).stories.contains_key(other) && s.remove_story(epic_id, story_id).stories[other]
                == s.stories[other],
{
    let t = s.remove_story(epic_id, story_id);
    let listed = s.epics[epic_id].stories;
    lemma_without_contains(listed, story_id, story_id);
    assert(t.epics.dom() =~= s.epics.dom());
    assert forall|other: Seq<char>| other != story_id implies (
    #[trigger] t.epics[epic_id].stories.contains(other) <==> listed.contains(other)) by {
        lemma_without_contains(listed, story_id, other);
    }
}

/// A story that exists but that the epic does not list cannot be looked up
/// through that epic.
pub proof fn lemma_lookup_stays_in_epic(s: StateView, epic_id: Seq<char>, story_id: Seq<char>)
    requires
        s.stories.contains_key(story_id),
        !s.epics.contains_key(epic_id) || !s.epics[epic_id].stories.contains(story_id),
    ensures
        !s.has_epic_story(epic_id, story_id),
{
}

impl StateView {
    /// Every id that an epic lists is the id of a story.
    pub open spec fn lists_stories_only(self) -> bool {
        forall|e: Seq<char>, i: int|
            self.epics.contains_key(e) && 0 <= i < self.epics[e].stories.len()
                ==> self.stories.contains_key(#[trigger] self.epics[e].stories[i])
    }

    /// No id is listed twice, by one epic or by two.
    pub open spec fn lists_once(self) -> bool {
        forall|e1: Seq<char>, i1: int, e2: Seq<char>, i2: int|
            #![trigger self.epics[e1].stories[i1], self.epics[e2].stories[i2]]
            self.epics.contains_key(e1) && 0 <= i1 < self.epics[e1].stories.len()
                && self.epics.contains_key(e2) && 0 <= i2 < self.epics[e2].stories.len()
                && self.epics[e1].stories[i1] == self.epics[e2].stories[i2] ==> e1 == e2 && i1
                == i2
    }

    /// The references between epics and stories are sound: what an epic
    /// lists exists, and belongs to that epic alone.
    pub open spec fn consistent(self) -> bool {
        self.lists_stories_only() && self.lists_once()
    }
}

/// A state without epics is consistent.
pub proof fn lemma_empty_is_consistent(s: StateView)
    requires
        s.epics == Map::<Seq<char>, EpicView>::empty(),
    ensures
        s.consistent(),
{
}

/// Creating an epic keeps a consistent state consistent.
pub proof fn lemma_add_epic_keeps_consistent(
    s: StateView,
    id: Seq<char>,
    name: Seq<char>,
    description: Seq<char>,
)
    requires
        s.consistent(),
    ensures
        s.add_epic(id, name, description).consistent(),
{
    let t = s.add_epic(id, name, description);
    assert forall|e: Seq<char>, i: int|
        t.epics.contains_key(e) && 0 <= i < t.epics[e].stories.len() implies t.stories.contains_key(
        #[trigger] t.epics[e].stories[i],
    ) by {
        assert(e != id);
        assert(s.stories.contains_key(s.epics[e].stories[i]));
    }
    assert forall|e1: Seq<char>, i1: int, e2: Seq<char>, i2: int|
        #![trigger t.epics[e1].stories[i1], t.epics[e2].stories[i2]]
        t.epics.contains_key(e1) && 0 <= i1 < t.epics[e1].stories.len() && t.epics.contains_key(e2)
            && 0 <= i2 < t.epics[e2].stories.len() && t.epics[e1].stories[i1]
            == t.epics[e2].stories[i2] implies e1 == e2 && i1 == i2 by {
        assert(e1 != id && e2 != id);
        assert(s.epics[e1].stories[i1] == s.epics[e2].stories[i2]);
    }
}

/// Creating a story under an id that no story has yet keeps a consistent
/// state consistent.
pub proof fn lemma_add_story_keeps_consistent(
    s: StateView,
    id: Seq<char>,
    name: Seq<char>,
    description: Seq<char>,
    epic_id: Seq<char>,
)
    requires
        s.consistent(),
        s.epics.contains_key(epic_id),
        !s.stories.contains_key(id),
    ensures
        s.add_story(id, name, description, epic_id).consistent(),
{
    let t = s.add_story(id, name, description, epic_id);
    let n = s.epics[epic_id].stories.len() as int;
    assert forall|e: Seq<char>, i: int|
        t.epics.contains_key(e) && 0 <= i < t.epics[e].stories.len() implies t.stories.contains_key(
        #[trigger] t.epics[e].stories[i],
    ) by {
        if e != epic_id || i < n {
            assert(s.stories.contains_key(s.epics[e].stories[i]));
        }
    }
    assert forall|e1: Seq<char>, i1: int, e2: Seq<char>, i2: int|
        #![trigger t.epics[e1].stories[i1], t.epics[e2].stories[i2]]
        t.epics.contains_key(e1) && 0 <= i1 < t.epics[e1].stories.len() && t.epics.contains_key(e2)
            && 0 <= i2 < t.epics[e2].stories.len() && t.epics[e1].stories[i1]
            == t.epics[e2].stories[i2] implies e1 == e2 && i1 == i2 by {
        let new1 = e1 == epic_id && i1 == n;
        let new2 = e2 == epic_id && i2 == n;
        if !new1 {
            assert(s.stories.contains_key(s.epics[e1].stories[i1]));
        }
        if !new2 {
            assert(s.stories.contains_key(s.epics[e2].stories[i2]));
        }
        if !new1 && !new2 {
            assert(s.epics[e1].stories[i1] == s.epics[e2].stories[i2]);
        }
    }
}

/// Deleting an epic keeps a consistent state consistent.
pub proof fn lemma_remove_epic_keeps_consistent(s: StateView, epic_id: Seq<char>)
    requires
        s.consistent(),
        s.epics.contains_key(epic_id),
    ensures
        s.remove_epic(epic_id).consistent(),
{
    let t = s.remove_epic(epic_id);
    let listed = s.epics[epic_id].stories;
    assert forall|e: Seq<char>, i: int|
        t.epics.contains_key(e) && 0 <= i < t.epics[e].stories.len() implies t.stories.contains_key(
        #[trigger] t.epics[e].stories[i],
    ) by {
        let r = s.epics[e].stories[i];
        assert(s.stories.contains_key(r));
        if listed.contains(r) {
            let j = choose|j: int| 0 <= j < listed.len() && listed[j] == r;
            assert(s.epics[epic_id].stories[j] == s.epics[e].stories[i]);
        }
    }
    assert forall|e1: Seq<char>, i1: int, e2: Seq<char>, i2: int|
        #![trigger t.epics[e1].stories[i1], t.epics[e2].stories[i2]]
        t.epics.contains_key(e1) && 0 <= i1 < t.epics[e1].stories.len() && t.epics.contains_key(e2)
            && 0 <= i2 < t.epics[e2].stories.len() && t.epics[e1].stories[i1]
            == t.epics[e2].stories[i2] implies e1 == e2 && i1 == i2 by {
        assert(s.epics[e1].stories[i1] == s.epics[e2].stories[i2]);
    }
}

/// Deleting a story from the epic that lists it keeps a consistent state
/// consistent.
pub proof fn lemma_remove_story_keeps_consistent(
    s: StateView,
    epic_id: Seq<char>,
    story_id: Seq<char>,
)
    requires
        s.consistent(),
        s.epics.contains_key(epic_id),
        s.epics[epic_id].stories.contains(story_id),
    ensures
        s.remove_story(epic_id, story_id).consistent(),
{
    let t = s.remove_story(epic_id, story_id);
    let listed = s.epics[epic_id].stories;
    let n = choose|n: int| 0 <= n < listed.len() && listed[n] == story_id;
    assert forall|i: int| 0 <= i < listed.len() && i != n implies listed[i] != story_id by {
        if listed[i] == story_id {
            assert(s.epics[epic_id].stories[i] == s.epics[epic_id].stories[n]);
        }
    }
    lemma_without_at(listed, story_id, n);
    let kept = t.epics[epic_id].stories;
    assert(kept == listed.remove(n));
    assert forall|e: Seq<char>, i: int|
        t.epics.contains_key(e) && 0 <= i < t.epics[e].stories.len() implies t.stories.contains_key(
        #[trigger] t.epics[e].stories[i],
    ) by {
        if e == epic_id {
            let i0 = if i < n { i } else { i + 1 };
            assert(kept[i] == listed[i0]);
            assert(s.stories.contains_key(s.epics[epic_id].stories[i0]));
        } else {
            assert(s.stories.contains_key(s.epics[e].stories[i]));
            if s.epics[e].stories[i] == story_id {
                assert(s.epics[e].stories[i] == s.epics[epic_id].stories[n]);
            }
        }
    }
    assert forall|e1: Seq<char>, i1: int, e2: Seq<char>, i2: int|
        #![trigger t.epics[e1].stories[i1], t.epics[e2].stories[i2]]
        t.epics.contains_key(e1) && 0 <= i1 < t.epics[e1].stories.len() && t.epics.contains_key(e2)
            && 0 <= i2 < t.epics[e2].stories.len() && t.epics[e1].stories[i1]
            == t.epics[e2].stories[i2] implies e1 == e2 && i1 == i2 by {
        let j1 = if e1 == epic_id && i1 >= n { i1 + 1 } else { i1 };
        let j2 = if e2 == epic_id && i2 >= n { i2 + 1 } else { i2 };
        assert(t.epics[e1].stories[i1] == s.epics[e1].stories[j1]);
        assert(t.epics[e2].stories[i2] == s.epics[e2].stories[j2]);
        assert(s.epics[e1].stories[j1] == s.epics[e2].stories[j2]);
    }
}

/// A change of status keeps a consistent state consistent.
pub proof fn lemma_status_keeps_consistent(s: StateView, id: Seq<char>, status: Status)
    requires
        s.consistent(),
    ensures
        s.epics.contains_key(id) ==> s.set_epic_status(id, status).consistent(),
        s.stories.contains_key(id) ==> s.set_story_status(id, status).consistent(),
{
    if s.epics.contains_key(id) {
        let t = s.set_epic_status(id, status);
        assert forall|e: Seq<char>, i: int|
            t.epics.contains_key(e) && 0 <= i < t.epics[e].stories.len()
                implies t.stories.contains_key(#[trigger] t.epics[e].stories[i]) by {
            assert(s.stories.contains_key(s.epics[e].stories[i]));
        }
        assert forall|e1: Seq<char>, i1: int, e2: Seq<char>, i2: int|
            #![trigger t.epics[e1].stories[i1], t.epics[e2].stories[i2]]
            t.epics.contains_key(e1) && 0 <= i1 < t.epics[e1].stories.len()
                && t.epics.contains_key(e2) && 0 <= i2 < t.epics[e2].stories.len()
                && t.epics[e1].stories[i1] == t.epics[e2].stories[i2] implies e1 == e2 && i1
            == i2 by {
            assert(s.epics[e1].stories[i1] == s.epics[e2].stories[i2]);
        }
    }
    if s.stories.contains_key(id) {
        let t = s.set_story_status(id, status);
        assert forall|e: Seq<char>, i: int|
            t.epics.contains_key(e) && 0 <= i < t.epics[e].stories.len()
                implies t.stories.contains_key(#[trigger] t.epics[e].stories[i]) by {
            assert(s.stories.contains_key(s.epics[e].stories[i]));
        }
    }
}

} // verus!
