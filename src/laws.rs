use crate::model::{DbModel, EpicModel, Status, Story};
use crate::snapshot::{
    lemma_epic_created_wf, lemma_epic_deleted_wf, lemma_epic_status_set_wf, lemma_story_created_wf,
    lemma_story_deleted_wf, lemma_story_status_set_wf,
};
use vstd::prelude::*;

verus! {

/// One store operation with its arguments.
pub enum Op {
    CreateEpic(EpicModel),
    CreateStory(Story, u32),
    DeleteEpic(u32),
    DeleteStory(u32, u32),
    UpdateEpicStatus(u32, Status),
    UpdateStoryStatus(u32, Status),
}

/// Whether `op` succeeds on `s`.
pub open spec fn succeeds(s: DbModel, op: Op) -> bool {
    match op {
        Op::CreateEpic(_) => s.last_item_id < u32::MAX,
        Op::CreateStory(_, e) => s.epics.contains_key(e) && s.last_item_id < u32::MAX,
        Op::DeleteEpic(e) => s.epics.contains_key(e),
        Op::DeleteStory(e, st) => s.epics.contains_key(e) && s.epics[e].stories.contains(st),
        Op::UpdateEpicStatus(e, _) => s.epics.contains_key(e),
        Op::UpdateStoryStatus(st, _) => s.stories.contains_key(st),
    }
}

/// Whether `op` is a create that succeeds on `s`, so that it hands out `s.next_id()`.
pub open spec fn assigns_id(s: DbModel, op: Op) -> bool {
    succeeds(s, op) && (op is CreateEpic || op is CreateStory)
}

/// The snapshot after `op`; a failing operation leaves the snapshot as it was.
pub open spec fn apply(s: DbModel, op: Op) -> DbModel {
    if !succeeds(s, op) {
        s
    } else {
        match op {
            Op::CreateEpic(epic) => s.epic_created(epic),
            Op::CreateStory(story, e) => s.story_created(story, e),
            Op::DeleteEpic(e) => s.epic_deleted(e),
            Op::DeleteStory(e, st) => s.story_deleted(e, st),
            Op::UpdateEpicStatus(e, status) => s.epic_status_set(e, status),
            Op::UpdateStoryStatus(st, status) => s.story_status_set(st, status),
        }
    }
}

/// The snapshot after the operations `ops`, in order.
pub open spec fn run(s: DbModel, ops: Seq<Op>) -> DbModel
    decreases ops.len(),
{
    if ops.len() == 0 {
        s
    } else {
        run(apply(s, ops[0]), ops.drop_first())
    }
}

/// Every operation keeps a well-formed snapshot well-formed.
pub proof fn lemma_apply_wf(s: DbModel, op: Op)
    requires
        s.wf(),
    ensures
        apply(s, op).wf(),
{
    if succeeds(s, op) {
        match op {
            Op::CreateEpic(epic) => lemma_epic_created_wf(s, epic),
            Op::CreateStory(story, e) => lemma_story_created_wf(s, story, e),
            Op::DeleteEpic(e) => lemma_epic_deleted_wf(s, e),
            Op::DeleteStory(e, st) => lemma_story_deleted_wf(s, e, st),
            Op::UpdateEpicStatus(e, status) => lemma_epic_status_set_wf(s, e, status),
            Op::UpdateStoryStatus(st, status) => lemma_story_status_set_wf(s, st, status),
        }
    }
}

/// Every snapshot reachable from the empty one by any operations is well-formed: in
/// particular no story identifier is listed by two epics, and every listed story exists.
pub proof fn lemma_reachable_wf(ops: Seq<Op>)
    ensures
        run(DbModel::empty(), ops).wf(),
{
    lemma_run_wf(DbModel::empty(), ops);
}

/// Any operations keep a well-formed snapshot well-formed.
pub proof fn lemma_run_wf(s: DbModel, ops: Seq<Op>)
    requires
        s.wf(),
    ensures
        run(s, ops).wf(),
    decreases ops.len(),
{
    if ops.len() > 0 {
        lemma_apply_wf(s, ops[0]);
        lemma_run_wf(apply(s, ops[0]), ops.drop_first());
    }
}

/// The identifier counter never goes down.
pub proof fn lemma_counter_never_decreases(s: DbModel, ops: Seq<Op>)
    ensures
        run(s, ops).last_item_id >= s.last_item_id,
    decreases ops.len(),
{
    if ops.len() > 0 {
        lemma_counter_never_decreases(apply(s, ops[0]), ops.drop_first());
    }
}

/// A create hands out an identifier above every identifier in use in a well-formed
/// snapshot, and leaves the counter at that identifier.
pub proof fn lemma_fresh_id(s: DbModel, op: Op)
    requires
        s.wf(),
        assigns_id(s, op),
    ensures
        s.next_id() > s.last_item_id,
        forall|k: u32| s.epics.contains_key(k) ==> k < s.next_id(),
        forall|k: u32| s.stories.contains_key(k) ==> k < s.next_id(),
        apply(s, op).last_item_id == s.next_id(),
{
}

/// Identifiers are handed out in increasing order: after a create `first` on `s`, any
/// operations `ops`, and a further create `second`, the second identifier is larger.
pub proof fn lemma_ids_increase(s: DbModel, first: Op, ops: Seq<Op>, second: Op)
    requires
        assigns_id(s, first),
        assigns_id(run(apply(s, first), ops), second),
    ensures
        run(apply(s, first), ops).next_id() > s.next_id(),
{
    lemma_counter_never_decreases(apply(s, first), ops);
}

/// Deleting an epic removes the epic and every story it listed.
pub proof fn lemma_cascade(s: DbModel, epic_id: u32)
    requires
        s.epics.contains_key(epic_id),
    ensures
        !apply(s, Op::DeleteEpic(epic_id)).epics.contains_key(epic_id),
        forall|st: u32| #[trigger] s.epics[epic_id].stories.contains(st)
            ==> !apply(s, Op::DeleteEpic(epic_id)).stories.contains_key(st),
{
}

} // verus!
