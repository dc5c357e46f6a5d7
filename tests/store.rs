use jira_db::db::{Database, JiraDatabase, MockDB};
use jira_db::error::DbError;
use jira_db::model::{DBState, Epic, Status, Story};

fn epic(name: &str) -> Epic {
    Epic::new(name.to_owned(), format!("{} description", name))
}

fn story(name: &str) -> Story {
    Story::new(name.to_owned(), format!("{} description", name))
}

fn mock_store() -> JiraDatabase<MockDB> {
    JiraDatabase::new(MockDB::new())
}

#[test]
fn epic_new_is_open_and_empty() {
    let e = Epic::new("e".to_owned(), "d".to_owned());
    assert_eq!(e.name, "e");
    assert_eq!(e.description, "d");
    assert_eq!(e.status, Status::Open);
    assert!(e.stories.is_empty());
}

#[test]
fn story_new_is_open() {
    let s = Story::new("s".to_owned(), "d".to_owned());
    assert_eq!(s.name, "s");
    assert_eq!(s.description, "d");
    assert_eq!(s.status, Status::Open);
}

#[test]
fn new_snapshot_is_empty() {
    let s = DBState::new();
    assert_eq!(s.last_item_id, 0);
    assert!(s.epics.is_empty());
    assert!(s.stories.is_empty());
}

#[test]
fn create_epic_should_work() {
    let mut db = mock_store();
    let e = epic("epic 1");
    let result = db.create_epic(e.clone());
    assert_eq!(result, Ok(1));
    let state = db.read_db().unwrap();
    assert_eq!(state.last_item_id, 1);
    assert_eq!(state.epics.get(&1), Some(&e));
}

#[test]
fn create_epic_drops_listed_stories() {
    let mut db = mock_store();
    let mut e = epic("epic 1");
    e.stories = vec![7, 8];
    let id = db.create_epic(e).unwrap();
    let state = db.read_db().unwrap();
    assert!(state.epics.get(&id).unwrap().stories.is_empty());
}

#[test]
fn create_story_should_error_if_invalid_epic_id() {
    let mut db = mock_store();
    db.create_epic(epic("epic 1")).unwrap();
    let before = db.read_db().unwrap();
    let result = db.create_story(story("story 1"), 999);
    assert_eq!(result, Err(DbError::EpicNotFound));
    assert_eq!(db.read_db().unwrap(), before);
}

#[test]
fn create_story_should_work() {
    let mut db = mock_store();
    let epic_id = db.create_epic(epic("epic 1")).unwrap();
    let s = story("story 1");
    let story_id = db.create_story(s.clone(), epic_id).unwrap();
    assert_eq!(story_id, 2);
    let state = db.read_db().unwrap();
    assert_eq!(state.last_item_id, 2);
    assert_eq!(state.stories.get(&story_id), Some(&s));
    assert_eq!(state.epics.get(&epic_id).unwrap().stories, vec![story_id]);
}

#[test]
fn delete_epic_should_error_if_invalid_epic_id() {
    let mut db = mock_store();
    assert_eq!(db.delete_epic(999), Err(DbError::EpicNotFound));
}

#[test]
fn delete_epic_removes_owned_stories() {
    let mut db = mock_store();
    let e1 = db.create_epic(epic("epic 1")).unwrap();
    let e2 = db.create_epic(epic("epic 2")).unwrap();
    let s1 = db.create_story(story("s1"), e1).unwrap();
    let s2 = db.create_story(story("s2"), e1).unwrap();
    let s3 = db.create_story(story("s3"), e2).unwrap();
    assert_eq!(db.delete_epic(e1), Ok(()));
    let state = db.read_db().unwrap();
    assert!(!state.epics.contains_key(&e1));
    assert!(!state.stories.contains_key(&s1));
    assert!(!state.stories.contains_key(&s2));
    assert!(state.stories.contains_key(&s3));
    assert_eq!(state.epics.get(&e2).unwrap().stories, vec![s3]);
    assert_eq!(state.last_item_id, 5);
}

#[test]
fn delete_story_should_error_if_invalid_epic_id() {
    let mut db = mock_store();
    let e = db.create_epic(epic("epic 1")).unwrap();
    let s = db.create_story(story("s"), e).unwrap();
    assert_eq!(db.delete_story(999, s), Err(DbError::EpicNotFound));
}

#[test]
fn delete_story_should_error_if_story_not_in_epic() {
    let mut db = mock_store();
    let e1 = db.create_epic(epic("epic 1")).unwrap();
    let e2 = db.create_epic(epic("epic 2")).unwrap();
    let s = db.create_story(story("s"), e2).unwrap();
    let before = db.read_db().unwrap();
    assert_eq!(db.delete_story(e1, s), Err(DbError::StoryNotInEpic));
    assert_eq!(db.delete_story(e1, 999), Err(DbError::StoryNotInEpic));
    assert_eq!(db.read_db().unwrap(), before);
}

#[test]
fn delete_story_keeps_other_stories_in_order() {
    let mut db = mock_store();
    let e = db.create_epic(epic("epic 1")).unwrap();
    let a = db.create_story(story("a"), e).unwrap();
    let b = db.create_story(story("b"), e).unwrap();
    let c = db.create_story(story("c"), e).unwrap();
    assert_eq!(db.delete_story(e, b), Ok(()));
    let state = db.read_db().unwrap();
    assert_eq!(state.epics.get(&e).unwrap().stories, vec![a, c]);
    assert!(!state.stories.contains_key(&b));
    assert_eq!(state.stories.len(), 2);
}

#[test]
fn update_epic_status_should_error_if_invalid_epic_id() {
    let mut db = mock_store();
    assert_eq!(db.update_epic_status(999, Status::Closed), Err(DbError::EpicNotFound));
}

#[test]
fn update_epic_status_should_work() {
    let mut db = mock_store();
    let e = db.create_epic(epic("epic 1")).unwrap();
    assert_eq!(db.update_epic_status(e, Status::InProgress), Ok(()));
    let state = db.read_db().unwrap();
    assert_eq!(state.epics.get(&e).unwrap().status, Status::InProgress);
}

#[test]
fn update_story_status_should_error_if_invalid_story_id() {
    let mut db = mock_store();
    assert_eq!(db.update_story_status(999, Status::Closed), Err(DbError::StoryNotFound));
}

#[test]
fn update_story_status_should_work() {
    let mut db = mock_store();
    let e = db.create_epic(epic("epic 1")).unwrap();
    let s = db.create_story(story("s"), e).unwrap();
    assert_eq!(db.update_story_status(s, Status::Resolved), Ok(()));
    let state = db.read_db().unwrap();
    assert_eq!(state.stories.get(&s).unwrap().status, Status::Resolved);
    assert_eq!(state.stories.get(&s).unwrap().name, "s");
}

#[test]
fn example_scenario() {
    let mut db = mock_store();
    let e1 = db.create_epic(epic("E1")).unwrap();
    assert_eq!(e1, 1);
    assert_eq!(db.read_db().unwrap().last_item_id, 1);

    let s1 = story("S1");
    let story_id = db.create_story(s1.clone(), 1).unwrap();
    assert_eq!(story_id, 2);
    let state = db.read_db().unwrap();
    assert_eq!(state.epics.get(&1).unwrap().stories, vec![2]);
    assert_eq!(state.stories.get(&2), Some(&s1));

    db.delete_story(1, 2).unwrap();
    let state = db.read_db().unwrap();
    assert!(state.epics.get(&1).unwrap().stories.is_empty());
    assert!(state.stories.is_empty());

    db.update_epic_status(1, Status::Closed).unwrap();
    let state = db.read_db().unwrap();
    assert_eq!(state.epics.get(&1).unwrap().status, Status::Closed);
}

#[test]
fn ids_increase_and_are_never_reused() {
    let mut db = mock_store();
    let mut last = 0;
    let e = db.create_epic(epic("a")).unwrap();
    assert!(e > last);
    last = e;
    let s = db.create_story(story("s"), e).unwrap();
    assert!(s > last);
    last = s;
    db.delete_story(e, s).unwrap();
    db.delete_epic(e).unwrap();
    let e2 = db.create_epic(epic("b")).unwrap();
    assert!(e2 > last);
    assert_eq!(e2, 3);
}

#[test]
fn create_fails_when_ids_are_exhausted() {
    let mut state = DBState::new();
    state.last_item_id = u32::MAX;
    assert_eq!(state.create_epic(epic("e")), Err(DbError::IdsExhausted));
    assert!(state.epics.is_empty());
    assert_eq!(state.last_item_id, u32::MAX);

    let mut state = DBState::new();
    state.last_item_id = u32::MAX - 1;
    assert_eq!(state.create_epic(epic("e")), Ok(u32::MAX));
    assert_eq!(state.create_story(story("s"), u32::MAX), Err(DbError::IdsExhausted));
    assert_eq!(state.create_story(story("s"), 5), Err(DbError::EpicNotFound));
    assert!(state.stories.is_empty());
}

#[test]
fn mock_read_returns_a_copy() {
    let mut mock = MockDB::new();
    let mut copy = mock.read_db().unwrap();
    copy.create_epic(epic("e")).unwrap();
    assert_eq!(mock.read_db().unwrap(), DBState::new());
    assert_eq!(mock.write_db(&copy), Ok(()));
    assert_eq!(mock.read_db().unwrap(), copy);
}

#[test]
fn snapshot_clone_is_equal() {
    let mut state = DBState::new();
    let e = state.create_epic(epic("e")).unwrap();
    state.create_story(story("s"), e).unwrap();
    assert_eq!(state.clone(), state);
}
