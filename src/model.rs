use std::collections::HashMap;
use vstd::prelude::*;

verus! {

/// Workflow state shared by epics and stories.
#[derive(Clone, Copy, Debug, PartialEq, Eq, Structural)]
pub enum Status {
    Open,
    InProgress,
    Resolved,
    Closed,
}

/// A work item owned by exactly one epic.
#[derive(Clone, Debug, PartialEq, Eq)]
pub struct Story {
    pub name: String,
    pub description: String,
    pub status: Status,
}

/// A top-level work item; `stories` lists the identifiers of the stories it owns.
#[derive(Clone, Debug, PartialEq, Eq)]
pub struct Epic {
    pub name: String,
    pub description: String,
    pub status: Status,
    pub stories: Vec<u32>,
}

/// Mathematical value of an epic: its membership list as a sequence.
pub struct EpicModel {
    pub name: String,
    pub description: String,
    pub status: Status,
    pub stories: Seq<u32>,
}

impl View for Epic {
    type V = EpicModel;

    open spec fn view(&self) -> EpicModel {
        EpicModel {
            name: self.name,
            description: self.description,
            status: self.status,
            stories: self.stories@,
        }
    }
}

impl Epic {
    /// A fresh epic: open, owning no stories.
    pub fn new(name: String, description: String) -> (r: Self)
        ensures
            r.name == name,
            r.description == description,
            r.status == Status::Open,
            r.stories@ == Seq::<u32>::empty(),
    {
        Self { name, description, status: Status::Open, stories: Vec::new() }
    }
}

impl Story {
    /// A fresh story in the open state.
    pub fn new(name: String, description: String) -> (r: Self)
        ensures
            r.name == name,
            r.description == description,
            r.status == Status::Open,
    {
        Self { name, description, status: Status::Open }
    }
}

/// The whole persisted state: the identifier counter and both entity tables.
#[derive(Debug, PartialEq, Eq)]
pub struct DBState {
    pub last_item_id: u32,
    pub epics: HashMap<u32, Epic>,
    pub stories: HashMap<u32, Story>,
}

/// Mathematical value of a snapshot.
pub struct DbModel {
    pub last_item_id: u32,
    pub epics: Map<u32, EpicModel>,
    pub stories: Map<u32, Story>,
}

impl View for DBState {
    type V = DbModel;

    open spec fn view(&self) -> DbModel {
        DbModel {
            last_item_id: self.last_item_id,
            epics: self.epics@.map_values(|e: Epic| e@),
            stories: self.stories@,
        }
    }
}

impl DbModel {
    /// The empty snapshot.
    pub open spec fn empty() -> DbModel {
        DbModel { last_item_id: 0, epics: Map::empty(), stories: Map::empty() }
    }

    /// Every identifier in use is at most the counter.
    pub open spec fn ids_bounded(self) -> bool {
        &&& forall|k: u32| #[trigger] self.epics.contains_key(k) ==> k <= self.last_item_id
        &&& forall|k: u32| #[trigger] self.stories.contains_key(k) ==> k <= self.last_item_id
    }

    /// Every listed story exists, and no epic lists a story twice.
    pub open spec fn lists_valid(self) -> bool {
        forall|e: u32| #[trigger] self.epics.contains_key(e) ==> {
            let l = self.epics[e].stories;
            &&& forall|i: int| 0 <= i < l.len() ==> self.stories.contains_key(#[trigger] l[i])
            &&& forall|i: int, j: int| 0 <= i < j < l.len() ==> l[i] != l[j]
        }
    }

    /// No story identifier is listed by two different epics.
    pub open spec fn owners_unique(self) -> bool {
        forall|e1: u32, e2: u32, s: u32|
            self.epics.contains_key(e1) && self.epics.contains_key(e2) && e1 != e2
                && #[trigger] self.epics[e1].stories.contains(s) ==> !#[trigger] self.epics[e2].stories.contains(s)
    }

    /// Every stored story is listed by some epic.
    pub open spec fn stories_owned(self) -> bool {
        forall|s: u32| #[trigger] self.stories.contains_key(s) ==> exists|e: u32|
            self.epics.contains_key(e) && #[trigger] self.epics[e].stories.contains(s)
    }

    /// The invariant of a snapshot at rest.
    pub open spec fn wf(self) -> bool {
        &&& self.ids_bounded()
        &&& self.lists_valid()
        &&& self.owners_unique()
        &&& self.stories_owned()
    }
}

impl DBState {
    /// The empty snapshot: counter at zero, no epics, no stories.
    pub fn new() -> (r: Self)
        ensures
            r@ == DbModel::empty(),
            r@.wf(),
    {
        let r = DBState { last_item_id: 0, epics: HashMap::new(), stories: HashMap::new() };
        assert(r@.epics =~= Map::<u32, EpicModel>::empty());
        r
    }
}

impl Clone for DBState {
    fn clone(&self) -> (r: Self)
        ensures
            r@ == self@,
    {
        DBState {
            last_item_id: self.last_item_id,
            epics: self.epics.clone(),
            stories: self.stories.clone(),
        }
    }
}

} // verus!
