use crate::error::DbError;
use crate::model::{DBState, DbModel, Epic, Status, Story};
use vstd::prelude::*;

verus! {

/// Where snapshots are kept: the whole state is read and written at once.
pub trait Database {
    /// The snapshot held, for a backend whose reads and writes never fail; `None` for one
    /// that makes no promise (a file can vanish or hold anything).
    open spec fn stored(&self) -> Option<DbModel> {
        None
    }

    /// The snapshot held.
    fn read_db(&self) -> (r: Result<DBState, DbError>)
        ensures
            self.stored() matches Some(m) ==> r matches Ok(s) && s@ == m,
    ;

    /// Replaces the snapshot held with `db_state`.
    fn write_db(&mut self, db_state: &DBState) -> (r: Result<(), DbError>)
        ensures
            old(self).stored() is Some ==> r is Ok && final(self).stored() == Some(db_state@),
    ;
}

/// The store's operations: each reads the snapshot, applies one change that keeps the
/// snapshot's invariants, and writes it back. Nothing is written when a step fails.
pub struct JiraDatabase<D: Database> {
    pub database: D,
}

impl<D: Database> JiraDatabase<D> {
    /// A store over the backend `database`, which it keeps for its whole life.
    pub fn new(database: D) -> (r: Self)
        ensures
            r.database == database,
    {
        Self { database }
    }

    /// The current snapshot, as the backend returns it.
    pub fn read_db(&self) -> (r: Result<DBState, DbError>)
        ensures
            self.database.stored() matches Some(m) ==> r matches Ok(s) && s@ == m,
    {
        self.database.read_db()
    }

    /// Creates an epic and returns its identifier, one above the counter that was read.
    pub fn create_epic(&mut self, epic: Epic) -> (r: Result<u32, DbError>)
        ensures
            r matches Ok(id) ==> id >= 1,
            old(self).database.stored() matches Some(m) ==> match r {
                Ok(id) => {
                    &&& m.last_item_id < u32::MAX
                    &&& id == m.next_id()
                    &&& final(self).database.stored() == Some(m.epic_created(epic@))
                },
                Err(e) => {
                    &&& m.last_item_id == u32::MAX
                    &&& e == DbError::IdsExhausted
                    &&& final(self).database.stored() == Some(m)
                },
            },
            old(self).database.stored() matches Some(m) && m.wf()
                ==> final(self).database.stored()->Some_0.wf(),
    {
        let mut parsed = match self.database.read_db() {
            Ok(s) => s,
            Err(e) => return Err(e),
        };
        let new_id = match parsed.create_epic(epic) {
            Ok(id) => id,
            Err(e) => return Err(e),
        };
        match self.database.write_db(&parsed) {
            Ok(()) => Ok(new_id),
            Err(e) => Err(e),
        }
    }

    /// Creates a story under epic `epic_id` and returns its identifier.
    pub fn create_story(&mut self, story: Story, epic_id: u32) -> (r: Result<u32, DbError>)
        ensures
            r matches Ok(id) ==> id >= 1,
            old(self).database.stored() matches Some(m) ==> match r {
                Ok(id) => {
                    &&& m.epics.contains_key(epic_id)
                    &&& m.last_item_id < u32::MAX
                    &&& id == m.next_id()
                    &&& final(self).database.stored() == Some(m.story_created(story, epic_id))
                },
                Err(e) => {
                    &&& final(self).database.stored() == Some(m)
                    &&& !m.epics.contains_key(epic_id) ==> e == DbError::EpicNotFound
                    &&& m.epics.contains_key(epic_id) ==> e == DbError::IdsExhausted
                        && m.last_item_id == u32::MAX
                },
            },
            old(self).database.stored() matches Some(m) && m.wf()
                ==> final(self).database.stored()->Some_0.wf(),
    {
        let mut parsed = match self.database.read_db() {
            Ok(s) => s,
            Err(e) => return Err(e),
        };
        let new_id = match parsed.create_story(story, epic_id) {
            Ok(id) => id,
            Err(e) => return Err(e),
        };
        match self.database.write_db(&parsed) {
            Ok(()) => Ok(new_id),
            Err(e) => Err(e),
        }
    }

    /// Deletes epic `epic_id` and the stories it owns.
    pub fn delete_epic(&mut self, epic_id: u32) -> (r: Result<(), DbError>)
        ensures
            old(self).database.stored() matches Some(m) ==> match r {
                Ok(_) => {
                    &&& m.epics.contains_key(epic_id)
                    &&& final(self).database.stored() == Some(m.epic_deleted(epic_id))
                },
                Err(e) => {
                    &&& !m.epics.contains_key(epic_id)
                    &&& e == DbError::EpicNotFound
                    &&& final(self).database.stored() == Some(m)
                },
            },
            old(self).database.stored() matches Some(m) && m.wf()
                ==> final(self).database.stored()->Some_0.wf(),
    {
        let mut parsed = match self.database.read_db() {
            Ok(s) => s,
            Err(e) => return Err(e),
        };
        match parsed.delete_epic(epic_id) {
            Ok(()) => {},
            Err(e) => return Err(e),
        }
        self.database.write_db(&parsed)
    }

    /// Deletes story `story_id` of epic `epic_id`.
    pub fn delete_story(&mut self, epic_id: u32, story_id: u32) -> (r: Result<(), DbError>)
        ensures
            old(self).database.stored() matches Some(m) ==> match r {
                Ok(_) => {
                    &&& m.epics.contains_key(epic_id)
                    &&& m.epics[epic_id].stories.contains(story_id)
                    &&& final(self).database.stored() == Some(m.story_deleted(epic_id, story_id))
                },
                Err(e) => {
                    &&& final(self).database.stored() == Some(m)
                    &&& !m.epics.contains_key(epic_id) ==> e == DbError::EpicNotFound
                    &&& m.epics.contains_key(epic_id) ==> e == DbError::StoryNotInEpic
                        && !m.epics[epic_id].stories.contains(story_id)
                },
            },
            old(self).database.stored() matches Some(m) && m.wf()
                ==> final(self).database.stored()->Some_0.wf(),
    {
        let mut parsed = match self.database.read_db() {
            Ok(s) => s,
            Err(e) => return Err(e),
        };
        match parsed.delete_story(epic_id, story_id) {
            Ok(()) => {},
            Err(e) => return Err(e),
        }
        self.database.write_db(&parsed)
    }

    /// Sets the status of epic `epic_id`.
    pub fn update_epic_status(&mut self, epic_id: u32, status: Status) -> (r: Result<(), DbError>)
        ensures
            old(self).database.stored() matches Some(m) ==> match r {
                Ok(_) => {
                    &&& m.epics.contains_key(epic_id)
                    &&& final(self).database.stored() == Some(m.epic_status_set(epic_id, status))
                },
                Err(e) => {
                    &&& !m.epics.contains_key(epic_id)
                    &&& e == DbError::EpicNotFound
                    &&& final(self).database.stored() == Some(m)
                },
            },
            old(self).database.stored() matches Some(m) && m.wf()
                ==> final(self).database.stored()->Some_0.wf(),
    {
        let mut parsed = match self.database.read_db() {
            Ok(s) => s,
            Err(e) => return Err(e),
        };
        match parsed.update_epic_status(epic_id, status) {
            Ok(()) => {},
            Err(e) => return Err(e),
        }
        self.database.write_db(&parsed)
    }

    /// Sets the status of story `story_id`.
    pub fn update_story_status(&mut self, story_id: u32, status: Status) -> (r: Result<
        (),
        DbError,
    >)
        ensures
            old(self).database.stored() matches Some(m) ==> match r {
                Ok(_) => {
                    &&& m.stories.contains_key(story_id)
                    &&& final(self).database.stored() == Some(m.story_status_set(story_id, status))
                },
                Err(e) => {
                    &&& !m.stories.contains_key(story_id)
                    &&& e == DbError::StoryNotFound
                    &&& final(self).database.stored() == Some(m)
                },
            },
            old(self).database.stored() matches Some(m) && m.wf()
                ==> final(self).database.stored()->Some_0.wf(),
    {
        let mut parsed = match self.database.read_db() {
            Ok(s) => s,
            Err(e) => return Err(e),
        };
        match parsed.update_story_status(story_id, status) {
            Ok(()) => {},
            Err(e) => return Err(e),
        }
        self.database.write_db(&parsed)
    }
}

/// An in-memory backend that keeps the last snapshot written, starting from the empty one.
pub struct MockDB {
    pub last_written_state: DBState,
}

impl MockDB {
    /// A backend holding the empty snapshot.
    pub fn new() -> (r: Self)
        ensures
            r.last_written_state@ == DbModel::empty(),
    {
        Self { last_written_state: DBState::new() }
    }
}

impl Database for MockDB {
    open spec fn stored(&self) -> Option<DbModel> {
        Some(self.last_written_state@)
    }

    fn read_db(&self) -> (r: Result<DBState, DbError>)
        ensures
            r matches Ok(s) && s@ == self.last_written_state@,
    {
        Ok(self.last_written_state.clone())
    }

    fn write_db(&mut self, db_state: &DBState) -> (r: Result<(), DbError>)
        ensures
            r is Ok,
            final(self).last_written_state@ == db_state@,
    {
        self.last_written_state = db_state.clone();
        Ok(())
    }
}

} // verus!
