use crate::error::DbError;
use crate::model::{DBState, DbModel, Epic, EpicModel, Status, Story};
use vstd::prelude::*;

verus! {

/// Position of the first occurrence of `x` in `l`.
pub open spec fn first_index(l: Seq<u32>, x: u32) -> int
    recommends
        l.contains(x),
{
    choose|i: int| 0 <= i < l.len() && l[i] == x && forall|j: int| 0 <= j < i ==> l[j] != x
}

/// `m` without the entries whose keys `ids` lists.
pub open spec fn drop_listed(m: Map<u32, Story>, ids: Seq<u32>) -> Map<u32, Story> {
    Map::new(|k: u32| m.contains_key(k) && !ids.contains(k), |k: u32| m[k])
}

impl DbModel {
    /// The identifier that the next create hands out.
    pub open spec fn next_id(self) -> u32 {
        (self.last_item_id + 1) as u32
    }

    /// `create_epic`: the epic is stored under a fresh identifier with no stories.
    pub open spec fn epic_created(self, epic: EpicModel) -> DbModel {
        DbModel {
            last_item_id: self.next_id(),
            epics: self.epics.insert(
                self.next_id(),
                EpicModel {
                    name: epic.name,
                    description: epic.description,
                    status: epic.status,
                    stories: Seq::empty(),
                },
            ),
            stories: self.stories,
        }
    }

    /// `create_story`: the story is stored under a fresh identifier that the epic then lists.
    pub open spec fn story_created(self, story: Story, epic_id: u32) -> DbModel {
        let e = self.epics[epic_id];
        DbModel {
            last_item_id: self.next_id(),
            epics: self.epics.insert(
                epic_id,
                EpicModel {
                    name: e.name,
                    description: e.description,
                    status: e.status,
                    stories: e.stories.push(self.next_id()),
                },
            ),
            stories: self.stories.insert(self.next_id(), story),
        }
    }

    /// `delete_epic`: the epic goes, and every story it lists goes with it.
    pub open spec fn epic_deleted(self, epic_id: u32) -> DbModel {
        DbModel {
            last_item_id: self.last_item_id,
            epics: self.epics.remove(epic_id),
            stories: drop_listed(self.stories, self.epics[epic_id].stories),
        }
    }

    /// `delete_story`: the story leaves the epic's list and the story table.
    pub open spec fn story_deleted(self, epic_id: u32, story_id: u32) -> DbModel {
        let e = self.epics[epic_id];
        DbModel {
            last_item_id: self.last_item_id,
            epics: self.epics.insert(
                epic_id,
                EpicModel {
                    name: e.name,
                    description: e.description,
                    status: e.status,
                    stories: e.stories.remove(first_index(e.stories, story_id)),
                },
            ),
            stories: self.stories.remove(story_id),
        }
    }

    /// `update_epic_status`: only the epic's status changes.
    pub open spec fn epic_status_set(self, epic_id: u32, status: Status) -> DbModel {
        let e = self.epics[epic_id];
        DbModel {
            last_item_id: self.last_item_id,
            epics: self.epics.insert(
                epic_id,
                EpicModel {
                    name: e.name,
                    description: e.description,
                    status: status,
                    stories: e.stories,
                },
            ),
            stories: self.stories,
        }
    }

    /// `update_story_status`: only the story's status changes.
    pub open spec fn story_status_set(self, story_id: u32, status: Status) -> DbModel {
        let s = self.stories[story_id];
        DbModel {
            last_item_id: self.last_item_id,
            epics: self.epics,
            stories: self.stories.insert(
                story_id,
                Story { name: s.name, description: s.description, status: status },
            ),
        }
    }
}

/// Creating an epic keeps a well-formed snapshot well-formed.
pub proof fn lemma_epic_created_wf(s: DbModel, epic: EpicModel)
    requires
        s.wf(),
        s.last_item_id < u32::MAX,
    ensures
        s.epic_created(epic).wf(),
{
    let t = s.epic_created(epic);
    let n = s.next_id();
    assert forall|st: u32| #[trigger] t.stories.contains_key(st) implies exists|e: u32|
        t.epics.contains_key(e) && #[trigger] t.epics[e].stories.contains(st) by {
        let e = choose|e: u32| s.epics.contains_key(e) && #[trigger] s.epics[e].stories.contains(st);
        assert(e != n);
        assert(t.epics.contains_key(e) && t.epics[e].stories.contains(st));
    }
}

/// Creating a story under an existing epic keeps a well-formed snapshot well-formed.
pub proof fn lemma_story_created_wf(s: DbModel, story: Story, epic_id: u32)
    requires
        s.wf(),
        s.epics.contains_key(epic_id),
        s.last_item_id < u32::MAX,
    ensures
        s.story_created(story, epic_id).wf(),
{
    let t = s.story_created(story, epic_id);
    let n = s.next_id();
    let l0 = s.epics[epic_id].stories;
    let l1 = t.epics[epic_id].stories;
    assert(l1 == l0.push(n));
    assert(!s.stories.contains_key(n));
    assert forall|e: u32, st: u32| s.epics.contains_key(e) && #[trigger] s.epics[e].stories.contains(st)
        implies st != n by {
        let i = choose|i: int| 0 <= i < s.epics[e].stories.len() && s.epics[e].stories[i] == st;
        assert(s.stories.contains_key(s.epics[e].stories[i]));
    }
    assert(!l0.contains(n));
    assert forall|st: u32| #[trigger] l1.contains(st) <==> (l0.contains(st) || st == n) by {
        if l1.contains(st) && st != n {
            let i = choose|i: int| 0 <= i < l1.len() && l1[i] == st;
            assert(l0[i] == st);
        }
        if l0.contains(st) {
            let i = choose|i: int| 0 <= i < l0.len() && l0[i] == st;
            assert(l1[i] == st);
        }
        if st == n {
            assert(l1[l0.len() as int] == st);
        }
    }
    assert(t.lists_valid()) by {
        assert forall|e: u32| #[trigger] t.epics.contains_key(e) implies {
            let l = t.epics[e].stories;
            &&& forall|i: int| 0 <= i < l.len() ==> t.stories.contains_key(#[trigger] l[i])
            &&& forall|i: int, j: int| 0 <= i < j < l.len() ==> l[i] != l[j]
        } by {
            if e == epic_id {
                assert forall|i: int, j: int| 0 <= i < j < l1.len() implies l1[i] != l1[j] by {
                    if j == l0.len() {
                        assert(l0.contains(l0[i]));
                    }
                }
            }
        }
    }
    assert(t.owners_unique());
    assert forall|st: u32| #[trigger] t.stories.contains_key(st) implies exists|e: u32|
        t.epics.contains_key(e) && #[trigger] t.epics[e].stories.contains(st) by {
        if st == n {
            assert(t.epics.contains_key(epic_id) && t.epics[epic_id].stories.contains(st));
        } else {
            let e = choose|e: u32| s.epics.contains_key(e) && #[trigger] s.epics[e].stories.contains(st);
            assert(t.epics.contains_key(e) && t.epics[e].stories.contains(st));
        }
    }
}

/// Deleting an existing epic keeps a well-formed snapshot well-formed.
pub proof fn lemma_epic_deleted_wf(s: DbModel, epic_id: u32)
    requires
        s.wf(),
        s.epics.contains_key(epic_id),
    ensures
        s.epic_deleted(epic_id).wf(),
{
    let t = s.epic_deleted(epic_id);
    let l0 = s.epics[epic_id].stories;
    assert(t.lists_valid()) by {
        assert forall|e: u32| #[trigger] t.epics.contains_key(e) implies {
            let l = t.epics[e].stories;
            &&& forall|i: int| 0 <= i < l.len() ==> t.stories.contains_key(#[trigger] l[i])
            &&& forall|i: int, j: int| 0 <= i < j < l.len() ==> l[i] != l[j]
        } by {
            let l = t.epics[e].stories;
            assert forall|i: int| 0 <= i < l.len() implies t.stories.contains_key(#[trigger] l[i]) by {
                assert(l.contains(l[i]));
                assert(s.stories.contains_key(l[i]));
            }
        }
    }
    assert forall|st: u32| #[trigger] t.stories.contains_key(st) implies exists|e: u32|
        t.epics.contains_key(e) && #[trigger] t.epics[e].stories.contains(st) by {
        let e = choose|e: u32| s.epics.contains_key(e) && #[trigger] s.epics[e].stories.contains(st);
        assert(e != epic_id);
        assert(t.epics.contains_key(e) && t.epics[e].stories.contains(st));
    }
}

/// In a list without repeats, `first_index` is the one position that holds `x`.
pub proof fn lemma_first_index_unique(l: Seq<u32>, x: u32, i: int)
    requires
        0 <= i < l.len(),
        l[i] == x,
        forall|a: int, b: int| 0 <= a < b < l.len() ==> l[a] != l[b],
    ensures
        first_index(l, x) == i,
{
    assert(0 <= i < l.len() && l[i] == x && forall|j: int| 0 <= j < i ==> l[j] != x);
    let c = first_index(l, x);
    assert(0 <= c < l.len() && l[c] == x);
}

/// Deleting a story that its epic lists keeps a well-formed snapshot well-formed.
pub proof fn lemma_story_deleted_wf(s: DbModel, epic_id: u32, story_id: u32)
    requires
        s.wf(),
        s.epics.contains_key(epic_id),
        s.epics[epic_id].stories.contains(story_id),
    ensures
        s.story_deleted(epic_id, story_id).wf(),
{
    let t = s.story_deleted(epic_id, story_id);
    let l0 = s.epics[epic_id].stories;
    let k = choose|k: int| 0 <= k < l0.len() && l0[k] == story_id;
    lemma_first_index_unique(l0, story_id, k);
    let l1 = l0.remove(k);
    assert(t.epics[epic_id].stories == l1);
    assert forall|st: u32| #[trigger] l1.contains(st) <==> (l0.contains(st) && st != story_id) by {
        if l1.contains(st) {
            let i = choose|i: int| 0 <= i < l1.len() && l1[i] == st;
            if i < k {
                assert(l0[i] == st);
            } else {
                assert(l0[i + 1] == st);
            }
        }
        if l0.contains(st) && st != story_id {
            let i = choose|i: int| 0 <= i < l0.len() && l0[i] == st;
            if i < k {
                assert(l1[i] == st);
            } else {
                assert(i != k);
                assert(l1[i - 1] == st);
            }
        }
    }
    assert(t.lists_valid()) by {
        assert forall|e: u32| #[trigger] t.epics.contains_key(e) implies {
            let l = t.epics[e].stories;
            &&& forall|i: int| 0 <= i < l.len() ==> t.stories.contains_key(#[trigger] l[i])
            &&& forall|i: int, j: int| 0 <= i < j < l.len() ==> l[i] != l[j]
        } by {
            let l = t.epics[e].stories;
            assert forall|i: int| 0 <= i < l.len() implies t.stories.contains_key(#[trigger] l[i]) by {
                assert(l.contains(l[i]));
                if e != epic_id {
                    assert(s.epics[e].stories.contains(l[i]));
                }
            }
            if e == epic_id {
                assert forall|i: int, j: int| 0 <= i < j < l.len() implies l[i] != l[j] by {
                    let i0 = if i < k { i } else { i + 1 };
                    let j0 = if j < k { j } else { j + 1 };
                    assert(l[i] == l0[i0] && l[j] == l0[j0]);
                }
            }
        }
    }
    assert(t.owners_unique());
    assert forall|st: u32| #[trigger] t.stories.contains_key(st) implies exists|e: u32|
        t.epics.contains_key(e) && #[trigger] t.epics[e].stories.contains(st) by {
        let e = choose|e: u32| s.epics.contains_key(e) && #[trigger] s.epics[e].stories.contains(st);
        assert(t.epics.contains_key(e) && t.epics[e].stories.contains(st));
    }
}

/// Setting an epic's status keeps a well-formed snapshot well-formed.
pub proof fn lemma_epic_status_set_wf(s: DbModel, epic_id: u32, status: Status)
    requires
        s.wf(),
        s.epics.contains_key(epic_id),
    ensures
        s.epic_status_set(epic_id, status).wf(),
{
    let t = s.epic_status_set(epic_id, status);
    assert forall|st: u32| #[trigger] t.stories.contains_key(st) implies exists|e: u32|
        t.epics.contains_key(e) && #[trigger] t.epics[e].stories.contains(st) by {
        let e = choose|e: u32| s.epics.contains_key(e) && #[trigger] s.epics[e].stories.contains(st);
        assert(t.epics.contains_key(e) && t.epics[e].stories.contains(st));
    }
}

/// Setting a story's status keeps a well-formed snapshot well-formed.
pub proof fn lemma_story_status_set_wf(s: DbModel, story_id: u32, status: Status)
    requires
        s.wf(),
        s.stories.contains_key(story_id),
    ensures
        s.story_status_set(story_id, status).wf(),
{
    let t = s.story_status_set(story_id, status);
    assert forall|st: u32| #[trigger] t.stories.contains_key(st) implies exists|e: u32|
        t.epics.contains_key(e) && #[trigger] t.epics[e].stories.contains(st) by {
        let e = choose|e: u32| s.epics.contains_key(e) && #[trigger] s.epics[e].stories.contains(st);
        assert(t.epics.contains_key(e) && t.epics[e].stories.contains(st));
    }
}

impl DBState {
    /// Stores `epic` under a fresh identifier, with an empty story list, and returns that
    /// identifier.
    pub fn create_epic(&mut self, epic: Epic) -> (r: Result<u32, DbError>)
        ensures
            old(self)@.wf() ==> final(self)@.wf(),
            match r {
                Ok(id) => {
                    &&& old(self)@.last_item_id < u32::MAX
                    &&& id == old(self)@.next_id()
                    &&& final(self)@ == old(self)@.epic_created(epic@)
                },
                Err(e) => {
                    &&& old(self)@.last_item_id == u32::MAX
                    &&& e == DbError::IdsExhausted
                    &&& final(self)@ == old(self)@
                },
            },
    {
        if self.last_item_id == u32::MAX {
            return Err(DbError::IdsExhausted);
        }
        let new_id = self.last_item_id + 1;
        let stored = Epic {
            name: epic.name,
            description: epic.description,
            status: epic.status,
            stories: Vec::new(),
        };
        self.last_item_id = new_id;
        self.epics.insert(new_id, stored);
        assert(self@.epics =~= old(self)@.epic_created(epic@).epics);
        proof {
            if old(self)@.wf() {
                lemma_epic_created_wf(old(self)@, epic@);
            }
        }
        Ok(new_id)
    }

    /// Stores `story` under a fresh identifier and appends it to the list of epic `epic_id`.
    pub fn create_story(&mut self, story: Story, epic_id: u32) -> (r: Result<u32, DbError>)
        ensures
            old(self)@.wf() ==> final(self)@.wf(),
            match r {
                Ok(id) => {
                    &&& old(self)@.epics.contains_key(epic_id)
                    &&& old(self)@.last_item_id < u32::MAX
                    &&& id == old(self)@.next_id()
                    &&& final(self)@ == old(self)@.story_created(story, epic_id)
                },
                Err(e) => {
                    &&& final(self)@ == old(self)@
                    &&& !old(self)@.epics.contains_key(epic_id) ==> e == DbError::EpicNotFound
                    &&& old(self)@.epics.contains_key(epic_id) ==> e == DbError::IdsExhausted
                        && old(self)@.last_item_id == u32::MAX
                },
            },
    {
        let mut epic = match self.epics.remove(&epic_id) {
            Some(e) => e,
            None => {
                assert(self.epics@ =~= old(self).epics@);
                return Err(DbError::EpicNotFound);
            },
        };
        if self.last_item_id == u32::MAX {
            self.epics.insert(epic_id, epic);
            assert(self.epics@ =~= old(self).epics@);
            return Err(DbError::IdsExhausted);
        }
        let new_id = self.last_item_id + 1;
        self.last_item_id = new_id;
        epic.stories.push(new_id);
        self.epics.insert(epic_id, epic);
        self.stories.insert(new_id, story);
        assert(self@.epics =~= old(self)@.story_created(story, epic_id).epics);
        proof {
            if old(self)@.wf() {
                lemma_story_created_wf(old(self)@, story, epic_id);
            }
        }
        Ok(new_id)
    }

    /// Removes epic `epic_id` together with every story it lists.
    pub fn delete_epic(&mut self, epic_id: u32) -> (r: Result<(), DbError>)
        ensures
            old(self)@.wf() ==> final(self)@.wf(),
            match r {
                Ok(_) => {
                    &&& old(self)@.epics.contains_key(epic_id)
                    &&& final(self)@ == old(self)@.epic_deleted(epic_id)
                },
                Err(e) => {
                    &&& !old(self)@.epics.contains_key(epic_id)
                    &&& e == DbError::EpicNotFound
                    &&& final(self)@ == old(self)@
                },
            },
    {
        let epic = match self.epics.remove(&epic_id) {
            Some(e) => e,
            None => {
                assert(self.epics@ =~= old(self).epics@);
                return Err(DbError::EpicNotFound);
            },
        };
        let ghost ids = epic.stories@;
        let mut i: usize = 0;
        assert(self.stories@ =~= drop_listed(old(self).stories@, ids.take(0)));
        while i < epic.stories.len()
            invariant
                0 <= i <= epic.stories.len(),
                ids == epic.stories@,
                old(self)@.epics.contains_key(epic_id),
                ids == old(self)@.epics[epic_id].stories,
                self.last_item_id == old(self).last_item_id,
                self.epics@ == old(self).epics@.remove(epic_id),
                self.stories@ == drop_listed(old(self).stories@, ids.take(i as int)),
            decreases epic.stories.len() - i,
        {
            let sid = epic.stories[i];
            self.stories.remove(&sid);
            let ghost prev = ids.take(i as int);
            assert(ids.take(i + 1) =~= prev.push(sid));
            assert forall|k: u32| ids.take(i + 1).contains(k) == (prev.contains(k) || k == sid) by {
                if prev.contains(k) {
                    let j = choose|j: int| 0 <= j < prev.len() && prev[j] == k;
                    assert(ids.take(i + 1)[j] == k);
                }
                if k == sid {
                    assert(ids.take(i + 1)[i as int] == k);
                }
                let cur = ids.take(i + 1);
                if cur.contains(k) && k != sid {
                    let j = choose|j: int| 0 <= j < cur.len() && cur[j] == k;
                    assert(prev[j] == k);
                }
            }
            assert(self.stories@ =~= drop_listed(old(self).stories@, ids.take(i + 1)));
            i += 1;
        }
        assert(ids.take(i as int) =~= ids);
        assert(self@.epics =~= old(self)@.epic_deleted(epic_id).epics);
        proof {
            if old(self)@.wf() {
                lemma_epic_deleted_wf(old(self)@, epic_id);
            }
        }
        Ok(())
    }
    /// Removes story `story_id` from the list of epic `epic_id` and from the story table.
    pub fn delete_story(&mut self, epic_id: u32, story_id: u32) -> (r: Result<(), DbError>)
        ensures
            old(self)@.wf() ==> final(self)@.wf(),
            match r {
                Ok(_) => {
                    &&& old(self)@.epics.contains_key(epic_id)
                    &&& old(self)@.epics[epic_id].stories.contains(story_id)
                    &&& final(self)@ == old(self)@.story_deleted(epic_id, story_id)
                },
                Err(e) => {
                    &&& final(self)@ == old(self)@
                    &&& !old(self)@.epics.contains_key(epic_id) ==> e == DbError::EpicNotFound
                    &&& old(self)@.epics.contains_key(epic_id) ==> e == DbError::StoryNotInEpic
                        && !old(self)@.epics[epic_id].stories.contains(story_id)
                },
            },
    {
        let mut epic = match self.epics.remove(&epic_id) {
            Some(e) => e,
            None => {
                assert(self.epics@ =~= old(self).epics@);
                return Err(DbError::EpicNotFound);
            },
        };
        let ghost l = epic.stories@;
        let mut i: usize = 0;
        while i < epic.stories.len() && epic.stories[i] != story_id
            invariant
                0 <= i <= epic.stories.len(),
                l == epic.stories@,
                forall|j: int| 0 <= j < i ==> l[j] != story_id,
            decreases epic.stories.len() - i,
        {
            i += 1;
        }
        if i == epic.stories.len() {
            self.epics.insert(epic_id, epic);
            assert(self.epics@ =~= old(self).epics@);
            assert(!l.contains(story_id));
            return Err(DbError::StoryNotInEpic);
        }
        proof {
            let c = first_index(l, story_id);
            assert(0 <= i < l.len() && l[i as int] == story_id && forall|j: int|
                0 <= j < i ==> l[j] != story_id);
            assert(0 <= c < l.len() && l[c] == story_id && forall|j: int|
                0 <= j < c ==> l[j] != story_id);
            assert(c == i);
        }
        epic.stories.remove(i);
        self.epics.insert(epic_id, epic);
        self.stories.remove(&story_id);
        assert(self@.epics =~= old(self)@.story_deleted(epic_id, story_id).epics);
        proof {
            if old(self)@.wf() {
                lemma_story_deleted_wf(old(self)@, epic_id, story_id);
            }
        }
        Ok(())
    }

    /// Sets the status of epic `epic_id`.
    pub fn update_epic_status(&mut self, epic_id: u32, status: Status) -> (r: Result<(), DbError>)
        ensures
            old(self)@.wf() ==> final(self)@.wf(),
            match r {
                Ok(_) => {
                    &&& old(self)@.epics.contains_key(epic_id)
                    &&& final(self)@ == old(self)@.epic_status_set(epic_id, status)
                },
                Err(e) => {
                    &&& !old(self)@.epics.contains_key(epic_id)
                    &&& e == DbError::EpicNotFound
                    &&& final(self)@ == old(self)@
                },
            },
    {
        let mut epic = match self.epics.remove(&epic_id) {
            Some(e) => e,
            None => {
                assert(self.epics@ =~= old(self).epics@);
                return Err(DbError::EpicNotFound);
            },
        };
        epic.status = status;
        self.epics.insert(epic_id, epic);
        assert(self@.epics =~= old(self)@.epic_status_set(epic_id, status).epics);
        proof {
            if old(self)@.wf() {
                lemma_epic_status_set_wf(old(self)@, epic_id, status);
            }
        }
        Ok(())
    }

    /// Sets the status of story `story_id`.
    pub fn update_story_status(&mut self, story_id: u32, status: Status) -> (r: Result<(), DbError>)
        ensures
            old(self)@.wf() ==> final(self)@.wf(),
            match r {
                Ok(_) => {
                    &&& old(self)@.stories.contains_key(story_id)
                    &&& final(self)@ == old(self)@.story_status_set(story_id, status)
                },
                Err(e) => {
                    &&& !old(self)@.stories.contains_key(story_id)
                    &&& e == DbError::StoryNotFound
                    &&& final(self)@ == old(self)@
                },
            },
    {
        let mut story = match self.stories.remove(&story_id) {
            Some(s) => s,
            None => {
                assert(self.stories@ =~= old(self).stories@);
                return Err(DbError::StoryNotFound);
            },
        };
        story.status = status;
        self.stories.insert(story_id, story);
        assert(self@.stories =~= old(self)@.story_status_set(story_id, status).stories);
        proof {
            if old(self)@.wf() {
                lemma_story_status_set_wf(old(self)@, story_id, status);
            }
        }
        Ok(())
    }
}

} // verus!
