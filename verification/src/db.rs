//! The repository: every operation loads the whole state from the backend,
//! and every change writes the whole state back.

use crate::models::{DBState, Epic, StateView, Status, Story};
use crate::state::DbError;
use crate::table::Record;
use vstd::prelude::*;

verus! {

/// Why a backend could not load or persist.
#[derive(Debug, PartialEq, Eq, Clone, Copy, Structural)]
pub enum StorageError {
    /// The backend could not be read or written.
    IOFailure,
    /// What the backend holds is not a state.
    FormatFailure,
}

impl StorageError {
    /// The repository error that stands for this failure.
    pub open spec fn as_db_error(self) -> DbError {
        match self {
            StorageError::IOFailure => DbError::IOFailure,
            StorageError::FormatFailure => DbError::FormatFailure,
        }
    }

    /// The repository error that stands for this failure.
    pub fn to_db_error(self) -> (e: DbError)
        ensures
            e == self.as_db_error(),
            e != DbError::NotFound,
    {
        match self {
            StorageError::IOFailure => DbError::IOFailure,
            StorageError::FormatFailure => DbError::FormatFailure,
        }
    }
}

/// A place that holds one state: it can hand out a copy of it and replace it.
pub trait Database {
    /// The state that the backend holds.
    spec fn state(&self) -> StateView;

    /// Whether loading and persisting never fail on this backend.
    spec fn infallible(&self) -> bool;

    /// Loads the state that the backend holds.
    fn read_db(&self) -> (r: Result<DBState, StorageError>)
        ensures
            r matches Ok(loaded) ==> loaded@ == self.state(),
            self.infallible() ==> r is Ok,
    ;

    /// Replaces the state that the backend holds. After a failure the backend
    /// may hold anything.
    fn write_db(&mut self, db_state: &DBState) -> (r: Result<(), StorageError>)
        ensures
            r is Ok ==> final(self).state() == db_state@,
            old(self).infallible() ==> r is Ok,
            final(self).infallible() == old(self).infallible(),
    ;
}

/// The length of a generated id.
pub const ID_LENGTH: usize = 6;

/// Whether `c` is one of the characters that generated ids are made of.
pub open spec fn is_id_char(c: char) -> bool {
    ||| 'a' <= c <= 'z'
    ||| 'A' <= c <= 'Z'
    ||| '0' <= c <= '9'
    ||| c == '_'
    ||| c == '-'
}

/// Whether `id` has the shape of a generated id.
pub open spec fn is_generated_id(id: Seq<char>) -> bool {
    &&& id.len() == ID_LENGTH
    &&& forall|i: int| 0 <= i < id.len() ==> is_id_char(#[trigger] id[i])
}

/// A new random id of `size` characters. Calls `nanoid::format` with
/// `nanoid::rngs::default` as the source of bytes and `nanoid::alphabet::SAFE`
/// as the alphabet: that alphabet has 64 characters, letters, digits, `_` and
/// `-`, and for an alphabet of such a length `format` asks for `size` bytes and
/// gives one character of the alphabet for each. Which characters come
/// out is left open. The generator takes its seed from the operating system
/// and panics where that fails.
#[verifier::external_body]
fn random_id(size: usize) -> (id: String)
    requires
        size <= isize::MAX,
    ensures
        id@.len() == size,
        forall|i: int| 0 <= i < id@.len() ==> is_id_char(#[trigger] id@[i]),
{
    nanoid::format(nanoid::rngs::default, &nanoid::alphabet::SAFE, size)
}

/// The repository over a backend.
pub struct JiraDatabase<D: Database> {
    pub database: D,
}

impl<D: Database> JiraDatabase<D> {
    /// A repository over `database`.
    pub fn new(database: D) -> (db: Self)
        ensures
            db.database == database,
    {
        Self { database }
    }

    /// The state that the backend holds.
    pub open spec fn state(&self) -> StateView {
        self.database.state()
    }

    /// Whether the backend never fails.
    pub open spec fn infallible(&self) -> bool {
        self.database.infallible()
    }

    /// Loads the state from the backend.
    pub fn read_db(&self) -> (r: Result<DBState, DbError>)
        ensures
            match r {
                Ok(loaded) => loaded@ == self.state(),
                Err(e) => e != DbError::NotFound && !self.infallible(),
            },
    {
        match self.database.read_db() {
            Ok(loaded) => Ok(loaded),
            Err(e) => Err(e.to_db_error()),
        }
    }

    fn persist(&mut self, db_state: &DBState) -> (r: Result<(), DbError>)
        ensures
            match r {
                Ok(_) => final(self).state() == db_state@,
                Err(e) => e != DbError::NotFound && !old(self).infallible(),
            },
            final(self).infallible() == old(self).infallible(),
    {
        match self.database.write_db(db_state) {
            Ok(_) => Ok(()),
            Err(e) => Err(e.to_db_error()),
        }
    }

    /// Creates an open epic without stories, with the name and description of
    /// `epic`, under a new id, which it returns and records as the last item.
    /// Fails only where the backend does.
    pub fn create_epic(&mut self, epic: Epic) -> (r: Result<String, DbError>)
        ensures
            match r {
                Ok(id) => is_generated_id(id@) && final(self).state() == old(self).state().add_epic(
                    id@,
                    epic@.name,
                    epic@.description,
                ),
                Err(e) => e != DbError::NotFound && !old(self).infallible(),
            },
            r is Ok && old(self).state().consistent() ==> final(self).state().consistent(),
            final(self).infallible() == old(self).infallible(),
    {
        let mut db_state = self.read_db()?;
        let id = random_id(ID_LENGTH);
        db_state.add_epic(id.clone(), epic);
        self.persist(&db_state)?;
        Ok(id)
    }

    /// Creates an open story with the name and description of `story` in the
    /// epic `epic_id`, under a new id, which it returns and records as the
    /// last item. Without that epic it fails with `NotFound` and the backend
    /// keeps its state.
    pub fn create_story(&mut self, story: Story, epic_id: &String) -> (r: Result<String, DbError>)
        ensures
            match r {
                Ok(id) => is_generated_id(id@) && old(self).state().epics.contains_key(epic_id@)
                    && final(self).state() == old(self).state().add_story(
                    id@,
                    story@.name,
                    story@.description,
                    epic_id@,
                ),
                Err(DbError::NotFound) => !old(self).state().epics.contains_key(epic_id@)
                    && final(self).state() == old(self).state(),
                Err(_) => !old(self).infallible(),
            },
            !old(self).state().epics.contains_key(epic_id@) ==> r is Err && final(self).state()
                == old(self).state(),
            r matches Ok(id) && old(self).state().consistent() && !old(
                self,
            ).state().stories.contains_key(id@) ==> final(self).state().consistent(),
            final(self).infallible() == old(self).infallible(),
    {
        let mut db_state = self.read_db()?;
        if !db_state.epics.contains_key(epic_id) {
            return Err(DbError::NotFound);
        }
        let id = random_id(ID_LENGTH);
        db_state.add_story(id.clone(), story, epic_id)?;
        self.persist(&db_state)?;
        Ok(id)
    }

    /// Deletes the epic `epic_id` with every story on its list and records
    /// `epic_id` as the last item. Without that epic it fails with `NotFound`
    /// and the backend keeps its state.
    pub fn delete_epic(&mut self, epic_id: &String) -> (r: Result<(), DbError>)
        ensures
            match r {
                Ok(_) => old(self).state().epics.contains_key(epic_id@) && final(self).state()
                    == old(self).state().remove_epic(epic_id@),
                Err(DbError::NotFound) => !old(self).state().epics.contains_key(epic_id@)
                    && final(self).state() == old(self).state(),
                Err(_) => !old(self).infallible(),
            },
            !old(self).state().epics.contains_key(epic_id@) ==> r is Err && final(self).state()
                == old(self).state(),
            r is Ok && old(self).state().consistent() ==> final(self).state().consistent(),
            final(self).infallible() == old(self).infallible(),
    {
        let mut db_state = self.read_db()?;
        db_state.remove_epic(epic_id)?;
        self.persist(&db_state)?;
        Ok(())
    }

    /// Deletes the story `story_id`, takes it off the list of the epic
    /// `epic_id` and records `story_id` as the last item. Without the story or
    /// without the epic it fails with `NotFound` and the backend keeps its
    /// state; that the epic lists the story is not asked.
    pub fn delete_story(&mut self, epic_id: &String, story_id: &String) -> (r: Result<
        (),
        DbError,
    >)
        ensures
            match r {
                Ok(_) => old(self).state().stories.contains_key(story_id@) && old(
                    self,
                ).state().epics.contains_key(epic_id@) && final(self).state() == old(
                    self,
                ).state().remove_story(epic_id@, story_id@),
                Err(DbError::NotFound) => !(old(self).state().stories.contains_key(story_id@)
                    && old(self).state().epics.contains_key(epic_id@)) && final(self).state()
                    == old(self).state(),
                Err(_) => !old(self).infallible(),
            },
            !(old(self).state().stories.contains_key(story_id@) && old(
                self,
            ).state().epics.contains_key(epic_id@)) ==> r is Err && final(self).state() == old(
                self,
            ).state(),
            r is Ok && old(self).state().consistent() && old(
                self,
            ).state().epics[epic_id@].stories.contains(story_id@)
                ==> final(self).state().consistent(),
            final(self).infallible() == old(self).infallible(),
    {
        let mut db_state = self.read_db()?;
        db_state.remove_story(epic_id, story_id)?;
        self.persist(&db_state)?;
        Ok(())
    }

    /// Gives the epic `epic_id` the status `status`. Without that epic it
    /// fails with `NotFound` and the backend keeps its state.
    pub fn update_epic_status(&mut self, epic_id: &String, status: Status) -> (r: Result<
        (),
        DbError,
    >)
        ensures
            match r {
                Ok(_) => old(self).state().epics.contains_key(epic_id@) && final(self).state()
                    == old(self).state().set_epic_status(epic_id@, status),
                Err(DbError::NotFound) => !old(self).state().epics.contains_key(epic_id@)
                    && final(self).state() == old(self).state(),
                Err(_) => !old(self).infallible(),
            },
            !old(self).state().epics.contains_key(epic_id@) ==> r is Err && final(self).state()
                == old(self).state(),
            r is Ok && old(self).state().consistent() ==> final(self).state().consistent(),
            final(self).infallible() == old(self).infallible(),
    {
        let mut db_state = self.read_db()?;
        db_state.set_epic_status(epic_id, status)?;
        self.persist(&db_state)?;
        Ok(())
    }

    /// Gives the story `story_id` the status `status`. Without that story it
    /// fails with `NotFound` and the backend keeps its state.
    pub fn update_story_status(&mut self, story_id: &String, status: Status) -> (r: Result<
        (),
        DbError,
    >)
        ensures
            match r {
                Ok(_) => old(self).state().stories.contains_key(story_id@) && final(self).state()
                    == old(self).state().set_story_status(story_id@, status),
                Err(DbError::NotFound) => !old(self).state().stories.contains_key(story_id@)
                    && final(self).state() == old(self).state(),
                Err(_) => !old(self).infallible(),
            },
            !old(self).state().stories.contains_key(story_id@) ==> r is Err && final(self).state()
                == old(self).state(),
            r is Ok && old(self).state().consistent() ==> final(self).state().consistent(),
            final(self).infallible() == old(self).infallible(),
    {
        let mut db_state = self.read_db()?;
        db_state.set_story_status(story_id, status)?;
        self.persist(&db_state)?;
        Ok(())
    }

    /// A copy of the epic `epic_id`; `NotFound` without that epic.
    pub fn get_epic(&self, epic_id: &String) -> (r: Result<Epic, DbError>)
        ensures
            match r {
                Ok(epic) => self.state().epics.contains_key(epic_id@) && epic@
                    == self.state().epics[epic_id@],
                Err(DbError::NotFound) => !self.state().epics.contains_key(epic_id@),
                Err(_) => !self.infallible(),
            },
            !self.state().epics.contains_key(epic_id@) ==> r is Err,
    {
        let db_state = self.read_db()?;
        db_state.epic(epic_id)
    }

    /// A copy of the story `story_id`, looked up through the epic `epic_id`;
    /// `NotFound` without that epic, or where the epic does not list the
    /// story, wherever else the story may be.
    pub fn get_epic_story(&self, epic_id: &String, story_id: &String) -> (r: Result<
        Story,
        DbError,
    >)
        ensures
            match r {
                Ok(story) => self.state().has_epic_story(epic_id@, story_id@) && story@
                    == self.state().stories[story_id@],
                Err(DbError::NotFound) => !self.state().has_epic_story(epic_id@, story_id@),
                Err(_) => !self.infallible(),
            },
            !self.state().has_epic_story(epic_id@, story_id@) ==> r is Err,
    {
        let db_state = self.read_db()?;
        db_state.epic_story(epic_id, story_id)
    }
}

/// A backend that keeps the state in memory and never fails.
pub struct MockDB {
    last_written_state: DBState,
}

impl MockDB {
    /// The state that a new in-memory backend holds: nothing, with `"0"` as
    /// the last item.
    pub open spec fn new_state() -> StateView {
        StateView { epics: Map::empty(), stories: Map::empty(), last_item_id: "0"@ }
    }

    /// A backend that holds the empty state, with `"0"` as the last item.
    pub fn new() -> (mock: Self)
        ensures
            mock.state() == Self::new_state(),
            mock.state().consistent(),
    {
        Self { last_written_state: DBState::new("0".to_owned()) }
    }
}

impl Database for MockDB {
    closed spec fn state(&self) -> StateView {
        self.last_written_state@
    }

    open spec fn infallible(&self) -> bool {
        true
    }

    fn read_db(&self) -> (r: Result<DBState, StorageError>) {
        Ok(self.last_written_state.duplicate())
    }

    fn write_db(&mut self, db_state: &DBState) -> (r: Result<(), StorageError>) {
        self.last_written_state = db_state.duplicate();
        Ok(())
    }
}

} // verus!

verus! {

/// A repository over an in-memory backend that holds one epic with one
/// story, both with empty name and description, and the ids of the two.
pub fn arrange_test() -> (r: (JiraDatabase<MockDB>, String, String))
    ensures
        is_generated_id(r.1@),
        is_generated_id(r.2@),
        r.0.state() == MockDB::new_state().add_epic(r.1@, Seq::empty(), Seq::empty()).add_story(
            r.2@,
            Seq::empty(),
            Seq::empty(),
            r.1@,
        ),
{
    let mock = MockDB::new();
    let mut db = JiraDatabase { database: mock };
    let epic = Epic::new("".to_owned(), "".to_owned());
    let story = Story::new("".to_owned(), "".to_owned());
    proof {
        reveal_strlit("");
        assert(""@ =~= Seq::<char>::empty());
    }
    let result = db.create_epic(epic);
    let epic_id = result.unwrap();
    let result = db.create_story(story, &epic_id);
    let story_id = result.unwrap();
    (db, epic_id, story_id)
}

} // verus!
