//! The cache-aside store and the persistence gateway, exercised
//! directly: expiry, invalidation, the key convention, and the
//! ownership-scoped predicates.

use routine_core::cache::{cache_key_string, CacheKey, CacheStore, CacheValue};
use routine_core::models::{PersistenceError, User};
use routine_core::store::PersistenceGateway;

fn sample_user(id: i32, email: &str) -> User {
    User {
        id,
        name: String::from("Sample"),
        email: String::from(email),
        passwd: String::from("0123456789abcdef"),
        verification_status_id: 1,
        status_id: 1,
        created_at: 1_000,
        updated_at: 1_000,
    }
}

fn unwrap_user(v: CacheValue) -> User {
    match v {
        CacheValue::UserData(u) => u,
        _ => panic!("a user record was expected"),
    }
}

#[test]
fn entry_served_until_ttl_elapses_then_dropped() {
    let mut cache = CacheStore::new();
    let key = CacheKey::UserData(1);
    let now = 10_000i64;
    cache.put(CacheKey::UserData(1), CacheValue::UserData(sample_user(1, "a@b.co")), 100, now);
    // served repeatedly inside the window
    for t in [now, now + 1, now + 99, now + 100] {
        let got = unwrap_user(cache.get(&key, t).expect("hit inside the window"));
        assert_eq!(got.id, 1);
        assert_eq!(got.email.as_str(), "a@b.co");
    }
    // one second past the expiration: a miss, and the entry is gone
    assert!(cache.get(&key, now + 101).is_none());
    assert!(cache.get(&key, now).is_none());
}

#[test]
fn put_supersedes_and_resets_ttl() {
    let mut cache = CacheStore::new();
    let key = CacheKey::UserData(1);
    cache.put(CacheKey::UserData(1), CacheValue::UserData(sample_user(1, "a@b.co")), 100, 0);
    cache.put(CacheKey::UserData(1), CacheValue::UserData(sample_user(1, "c@d.co")), 100, 90);
    let got = unwrap_user(cache.get(&key, 150).expect("ttl was reset by the second put"));
    assert_eq!(got.email.as_str(), "c@d.co");
}

#[test]
fn invalidate_is_idempotent_and_final() {
    let mut cache = CacheStore::new();
    let key = CacheKey::UserData(5);
    cache.invalidate(&key); // deleting an absent key is no error
    cache.put(CacheKey::UserData(5), CacheValue::UserData(sample_user(5, "a@b.co")), 100, 0);
    cache.invalidate(&key);
    assert!(cache.get(&key, 0).is_none());
    cache.invalidate(&key);
    assert!(cache.get(&key, 0).is_none());
}

#[test]
fn unreachable_cache_misses_and_loses_writes_without_failing() {
    let mut cache = CacheStore::new();
    cache.put(CacheKey::UserData(1), CacheValue::UserData(sample_user(1, "a@b.co")), 100, 0);
    cache.set_available(false);
    // a stored entry is unreachable, a write is lost, and neither faults
    assert!(cache.get(&CacheKey::UserData(1), 0).is_none());
    cache.put(CacheKey::UserData(2), CacheValue::UserData(sample_user(2, "x@y.co")), 100, 0);
    cache.set_available(true);
    assert!(cache.get(&CacheKey::UserData(1), 0).is_some());
    assert!(cache.get(&CacheKey::UserData(2), 0).is_none());
}

#[test]
fn empty_cached_list_is_a_miss() {
    let mut cache = CacheStore::new();
    cache.put_user_boards(1, &Vec::new(), 0);
    assert!(cache.get_user_boards(1, 0).is_none());
}

#[test]
fn email_index_and_record_expire_independently() {
    let mut cache = CacheStore::new();
    let user = sample_user(1, "a@b.co");
    let email = String::from("a@b.co");
    // the record gets a short override; the index keeps its default
    cache.put_user_data(user, Some(10), 0);
    let resolved = cache.get_user_data_by_email(&email, 5).expect("fresh index and record");
    assert_eq!(resolved.id, 1);
    // past the record's expiry the index still resolves, but the record
    // it points to is gone: a miss, the documented inconsistency
    assert!(cache.check_email(&email, 11).is_some());
    assert!(cache.get_user_data_by_email(&email, 11).is_none());
}

#[test]
fn key_names_follow_the_wire_convention() {
    assert_eq!(cache_key_string(&CacheKey::UserData(7)).as_str(), "user:7:data");
    assert_eq!(
        cache_key_string(&CacheKey::UserEmailIndex(String::from("a@b.co"))).as_str(),
        "user_email:a@b.co:id"
    );
    assert_eq!(cache_key_string(&CacheKey::UserBoards(12)).as_str(), "user:12:boards");
    assert_eq!(cache_key_string(&CacheKey::BoardTasks(3)).as_str(), "board:3:tasks");
    assert_eq!(cache_key_string(&CacheKey::UserData(-4)).as_str(), "user:-4:data");
}

#[test]
fn duplicate_email_is_a_conflict() {
    let mut store = PersistenceGateway::new();
    store
        .insert_user(String::from("A"), String::from("a@b.co"), String::from("h1"), 100)
        .expect("first insert");
    let second = store.insert_user(
        String::from("B"),
        String::from("a@b.co"),
        String::from("h2"),
        200,
    );
    assert_eq!(second.unwrap_err(), PersistenceError::Conflict);
}

#[test]
fn unhealthy_store_reports_unavailable() {
    let mut store = PersistenceGateway::new();
    store.set_healthy(false);
    assert_eq!(
        store.find_active_user_by_email(&String::from("a@b.co")).unwrap_err(),
        PersistenceError::Unavailable
    );
    assert_eq!(
        store.boards_for_owner(1).unwrap_err(),
        PersistenceError::Unavailable
    );
}

#[test]
fn foreign_board_and_absent_board_fail_identically() {
    let mut store = PersistenceGateway::new();
    let board_of_b = store
        .insert_board(2, String::from("theirs"), String::from(""), 100)
        .expect("insert");
    let foreign = store.find_board(board_of_b, 1).unwrap_err();
    let absent = store.find_board(9_999, 1).unwrap_err();
    assert_eq!(foreign, PersistenceError::NotFound);
    assert_eq!(foreign, absent);
    // the same collapse on mutation
    assert_eq!(
        store
            .update_board(board_of_b, 1, String::from("x"), String::from("y"))
            .unwrap_err(),
        store
            .update_board(9_999, 1, String::from("x"), String::from("y"))
            .unwrap_err()
    );
    assert_eq!(
        store.soft_delete_board(board_of_b, 1).unwrap_err(),
        store.soft_delete_board(9_999, 1).unwrap_err()
    );
}

#[test]
fn soft_deleted_board_vanishes_from_scoped_reads() {
    let mut store = PersistenceGateway::new();
    let id = store
        .insert_board(1, String::from("b"), String::from(""), 100)
        .expect("insert");
    assert_eq!(store.boards_for_owner(1).expect("list").len(), 1);
    store.soft_delete_board(id, 1).expect("delete");
    assert_eq!(store.boards_for_owner(1).expect("list").len(), 0);
    assert_eq!(store.find_board(id, 1).unwrap_err(), PersistenceError::NotFound);
}

#[test]
fn task_status_change_moves_the_workflow_timestamp_atomically() {
    let mut store = PersistenceGateway::new();
    let board = store
        .insert_board(1, String::from("b"), String::from(""), 100)
        .expect("board");
    let task = store
        .insert_task(board, String::from("t"), String::from(""), 200)
        .expect("task");
    // same status: the timestamp stays
    assert!(store
        .update_task(task, board, 1, String::from("t2"), String::from(""), 0, 300)
        .expect("update"));
    let rows = store.tasks_for_board(board, 1).expect("rows");
    assert_eq!(rows[0].status_id, 0);
    assert_eq!(rows[0].last_status_change_time, 200);
    // status 0 -> 2: the timestamp moves in the same write
    assert!(store
        .update_task(task, board, 1, String::from("t2"), String::from(""), 2, 400)
        .expect("update"));
    let rows = store.tasks_for_board(board, 1).expect("rows");
    assert_eq!(rows[0].status_id, 2);
    assert_eq!(rows[0].last_status_change_time, 400);
}

#[test]
fn soft_deleted_task_vanishes_and_keeps_deletion_time() {
    let mut store = PersistenceGateway::new();
    let board = store
        .insert_board(1, String::from("b"), String::from(""), 100)
        .expect("board");
    let task = store
        .insert_task(board, String::from("t"), String::from(""), 200)
        .expect("task");
    assert!(store.soft_delete_task(task, board, 1, 300).expect("delete"));
    assert!(store.tasks_for_board(board, 1).expect("rows").is_empty());
    assert_eq!(
        store.find_task(task, board, 1).unwrap_err(),
        PersistenceError::NotFound
    );
}
