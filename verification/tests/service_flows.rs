//! End-to-end flows through the handlers: account lifecycle, login,
//! the cache-aside read paths, and invalidation on every write.

use routine_core::boards_managing::{
    handle_change_board, handle_create_board, handle_delete_board, handle_user_boards,
};
use routine_core::cache::CacheStore;
use routine_core::models::{
    ChangeEmailBody, ChangeForgottenPasswordBody, ChangePasswordBody, ChangeUsernameBody,
    CreateBoardBody, CreateTaskBody, CreateUserBody, DeleteBoardBody, DeleteTaskBody,
    GetTasksBody, RequestError, UpdateBoardBody, UpdateTaskBody, UserCredentials,
};
use routine_core::store::PersistenceGateway;
use routine_core::tasks_managing::{
    handle_board_tasks, handle_change_task, handle_create_task, handle_delete_task, handle_task,
};
use routine_core::token::check_jwt;
use routine_core::users_managing::{
    handle_authorization, handle_change_email, handle_change_password, handle_change_username,
    handle_create_user, handle_email_verification, handle_forgot_password, handle_get_user,
    handle_logout, handle_user_verification,
};

const PASSWORD: &str = "correct.horse.battery";
const EMAIL: &str = "someone@example.com";

fn secret() -> Vec<u8> {
    b"a-process-wide-signing-key".to_vec()
}

/// Creates and activates one account; returns its id.
fn activated_user(store: &mut PersistenceGateway, now: i64) -> i32 {
    let (_, mail) = handle_create_user(
        store,
        CreateUserBody {
            name: String::from("Someone"),
            email: String::from(EMAIL),
            password: String::from(PASSWORD),
        },
        now,
    )
    .expect("account created");
    handle_user_verification(store, mail.user_id, &mail.token).expect("activated");
    mail.user_id
}

#[test]
fn account_creation_rejects_bad_inputs() {
    let mut store = PersistenceGateway::new();
    let bad_password = handle_create_user(
        &mut store,
        CreateUserBody {
            name: String::from("S"),
            email: String::from(EMAIL),
            password: String::from("short"),
        },
        0,
    );
    assert_eq!(bad_password.unwrap_err(), RequestError::BadRequest);
    let bad_email = handle_create_user(
        &mut store,
        CreateUserBody {
            name: String::from("S"),
            email: String::from("not-an-address"),
            password: String::from(PASSWORD),
        },
        0,
    );
    assert_eq!(bad_email.unwrap_err(), RequestError::BadRequest);
}

#[test]
fn activation_link_is_single_use_and_tamper_evident() {
    let mut store = PersistenceGateway::new();
    let (_, mail) = handle_create_user(
        &mut store,
        CreateUserBody {
            name: String::from("Someone"),
            email: String::from(EMAIL),
            password: String::from(PASSWORD),
        },
        100,
    )
    .expect("account created");
    // a wrong token is refused
    let wrong = String::from("0000");
    assert_eq!(
        handle_user_verification(&mut store, mail.user_id, &wrong).unwrap_err(),
        RequestError::BadRequest
    );
    // the genuine token activates
    handle_user_verification(&mut store, mail.user_id, &mail.token).expect("activated");
    // replay finds no idle row: refused, a no-op
    assert_eq!(
        handle_user_verification(&mut store, mail.user_id, &mail.token).unwrap_err(),
        RequestError::BadRequest
    );
}

#[test]
fn login_issues_a_valid_session_token() {
    let mut store = PersistenceGateway::new();
    let mut cache = CacheStore::new();
    let key = secret();
    let user_id = activated_user(&mut store, 100);
    let now = 5_000i64;
    let token = handle_authorization(
        &store,
        &mut cache,
        UserCredentials { email: String::from(EMAIL), password: String::from(PASSWORD) },
        &key,
        now,
    )
    .expect("login succeeds");
    let claims = check_jwt(token.as_str(), &key).expect("token is genuine");
    assert_eq!(claims.user_id, user_id);
    assert_eq!(claims.iat, now);
    // wrong password: denied
    assert_eq!(
        handle_authorization(
            &store,
            &mut cache,
            UserCredentials { email: String::from(EMAIL), password: String::from("wrong.password.x") },
            &key,
            now,
        )
        .unwrap_err(),
        RequestError::BadRequest
    );
    // unknown address: the same denial
    assert_eq!(
        handle_authorization(
            &store,
            &mut cache,
            UserCredentials { email: String::from("no@such.org"), password: String::from(PASSWORD) },
            &key,
            now,
        )
        .unwrap_err(),
        RequestError::BadRequest
    );
}

#[test]
fn login_works_from_cache_after_first_login() {
    let mut store = PersistenceGateway::new();
    let mut cache = CacheStore::new();
    let key = secret();
    activated_user(&mut store, 100);
    let creds = || UserCredentials {
        email: String::from(EMAIL),
        password: String::from(PASSWORD),
    };
    handle_authorization(&store, &mut cache, creds(), &key, 5_000).expect("first login");
    // the record is cached now: a second login succeeds with the store down
    store.set_healthy(false);
    handle_authorization(&store, &mut cache, creds(), &key, 5_100).expect("login from cache");
}

#[test]
fn board_list_read_path_and_second_read_from_cache() {
    let mut store = PersistenceGateway::new();
    let mut cache = CacheStore::new();
    let user_id = 1;
    let now = 1_000i64;
    // creating "Sprint 1" invalidates the owner's board-list key
    handle_create_board(
        &mut store,
        &mut cache,
        user_id,
        CreateBoardBody { title: String::from("Sprint 1"), description: String::from("d") },
        now,
    )
    .expect("created");
    // the next read misses, queries the store, returns the board,
    // and repopulates the cache
    let boards = handle_user_boards(&store, &mut cache, user_id, now + 1).expect("read");
    assert_eq!(boards.len(), 1);
    assert_eq!(boards[0].title.as_str(), "Sprint 1");
    // a second immediate read is served entirely from the cache:
    // with the store down it still answers the same list
    store.set_healthy(false);
    let again = handle_user_boards(&store, &mut cache, user_id, now + 2).expect("cache hit");
    assert_eq!(again.len(), 1);
    assert_eq!(again[0].title.as_str(), "Sprint 1");
}

#[test]
fn every_board_mutation_invalidates_the_list() {
    let mut store = PersistenceGateway::new();
    let mut cache = CacheStore::new();
    let user_id = 1;
    handle_create_board(
        &mut store,
        &mut cache,
        user_id,
        CreateBoardBody { title: String::from("A"), description: String::from("") },
        100,
    )
    .expect("created");
    let boards = handle_user_boards(&store, &mut cache, user_id, 101).expect("read");
    let board_id = boards[0].id;
    // update: the next read must reflect the new title immediately
    handle_change_board(
        &mut store,
        &mut cache,
        user_id,
        UpdateBoardBody { id: board_id, title: String::from("B"), description: String::from("") },
    )
    .expect("updated");
    let boards = handle_user_boards(&store, &mut cache, user_id, 103).expect("read");
    assert_eq!(boards[0].title.as_str(), "B");
    // delete: the next read no longer lists it
    handle_delete_board(&mut store, &mut cache, user_id, DeleteBoardBody { id: board_id })
        .expect("deleted");
    let boards = handle_user_boards(&store, &mut cache, user_id, 104).expect("read");
    assert!(boards.is_empty());
}

#[test]
fn foreign_board_mutations_fail_like_absent_ones() {
    let mut store = PersistenceGateway::new();
    let mut cache = CacheStore::new();
    handle_create_board(
        &mut store,
        &mut cache,
        2,
        CreateBoardBody { title: String::from("theirs"), description: String::from("") },
        100,
    )
    .expect("created");
    let theirs = handle_user_boards(&store, &mut cache, 2, 101).expect("read")[0].id;
    let foreign = handle_change_board(
        &mut store,
        &mut cache,
        1,
        UpdateBoardBody { id: theirs, title: String::from("x"), description: String::from("") },
    )
    .unwrap_err();
    let absent = handle_change_board(
        &mut store,
        &mut cache,
        1,
        UpdateBoardBody { id: 9_999, title: String::from("x"), description: String::from("") },
    )
    .unwrap_err();
    assert_eq!(foreign, RequestError::BadRequest);
    assert_eq!(foreign, absent);
    assert_eq!(
        handle_delete_board(&mut store, &mut cache, 1, DeleteBoardBody { id: theirs })
            .unwrap_err(),
        handle_delete_board(&mut store, &mut cache, 1, DeleteBoardBody { id: 9_999 })
            .unwrap_err()
    );
}

#[test]
fn task_status_change_updates_timestamp_and_invalidates_list() {
    let mut store = PersistenceGateway::new();
    let mut cache = CacheStore::new();
    let user_id = 1;
    handle_create_board(
        &mut store,
        &mut cache,
        user_id,
        CreateBoardBody { title: String::from("b"), description: String::from("") },
        100,
    )
    .expect("board");
    let board_id = handle_user_boards(&store, &mut cache, user_id, 101).expect("read")[0].id;
    handle_create_task(
        &mut store,
        &mut cache,
        user_id,
        CreateTaskBody { board_id, title: String::from("t"), description: String::from("") },
        200,
    )
    .expect("task");
    // populate the task-list cache
    let tasks = handle_board_tasks(
        &store,
        &mut cache,
        user_id,
        GetTasksBody { board_id },
        201,
    )
    .expect("read");
    assert_eq!(tasks.len(), 1);
    let task_id = tasks[0].id;
    assert_eq!(tasks[0].status_id, 0);
    // status 0 -> 2 at time 300
    handle_change_task(
        &mut store,
        &mut cache,
        user_id,
        UpdateTaskBody {
            id: task_id,
            board_id,
            title: String::from("t"),
            description: String::from(""),
            status_id: 2,
        },
        300,
    )
    .expect("updated");
    // the list key was invalidated: the next read reflects the change,
    // with the timestamp moved by the same write
    let tasks = handle_board_tasks(
        &store,
        &mut cache,
        user_id,
        GetTasksBody { board_id },
        301,
    )
    .expect("read");
    assert_eq!(tasks[0].status_id, 2);
    assert_eq!(tasks[0].last_status_change_time, 300);
}

#[test]
fn single_task_read_and_deletion() {
    let mut store = PersistenceGateway::new();
    let mut cache = CacheStore::new();
    let user_id = 1;
    handle_create_board(
        &mut store,
        &mut cache,
        user_id,
        CreateBoardBody { title: String::from("b"), description: String::from("") },
        100,
    )
    .expect("board");
    let board_id = handle_user_boards(&store, &mut cache, user_id, 101).expect("read")[0].id;
    handle_create_task(
        &mut store,
        &mut cache,
        user_id,
        CreateTaskBody { board_id, title: String::from("t"), description: String::from("") },
        200,
    )
    .expect("task");
    let task_id = handle_board_tasks(&store, &mut cache, user_id, GetTasksBody { board_id }, 201)
        .expect("read")[0]
        .id;
    let task = handle_task(&store, &mut cache, user_id, board_id, task_id, 202).expect("one task");
    assert_eq!(task.id, task_id);
    assert_eq!(task.title.as_str(), "t");
    // another user cannot see it
    assert_eq!(
        handle_task(&store, &mut cache, 2, board_id, task_id, 203).unwrap_err(),
        RequestError::BadRequest
    );
    handle_delete_task(
        &mut store,
        &mut cache,
        user_id,
        DeleteTaskBody { id: task_id, board_id },
        300,
    )
    .expect("deleted");
    let tasks = handle_board_tasks(&store, &mut cache, user_id, GetTasksBody { board_id }, 301)
        .expect("read");
    assert!(tasks.is_empty());
}

#[test]
fn profile_read_repopulates_after_rename() {
    let mut store = PersistenceGateway::new();
    let mut cache = CacheStore::new();
    let user_id = activated_user(&mut store, 100);
    let profile = handle_get_user(&store, &mut cache, user_id, 200).expect("profile");
    assert_eq!(profile.name.as_str(), "Someone");
    // renaming drops the cached record
    handle_change_username(
        &mut store,
        &mut cache,
        user_id,
        ChangeUsernameBody { new_name: String::from("Renamed") },
    )
    .expect("renamed");
    // next read misses, hits the store, and sees the new name
    let profile = handle_get_user(&store, &mut cache, user_id, 201).expect("profile");
    assert_eq!(profile.name.as_str(), "Renamed");
    // and it is cached again: the store can go down
    store.set_healthy(false);
    let profile = handle_get_user(&store, &mut cache, user_id, 202).expect("profile from cache");
    assert_eq!(profile.name.as_str(), "Renamed");
}

#[test]
fn password_change_against_store_and_relogin() {
    let mut store = PersistenceGateway::new();
    let mut cache = CacheStore::new();
    let key = secret();
    let user_id = activated_user(&mut store, 100);
    // no cached record: the old password is checked against the store
    handle_change_password(
        &mut store,
        &mut cache,
        user_id,
        ChangePasswordBody {
            old_password: String::from(PASSWORD),
            new_password: String::from("my.new.password1"),
        },
        200,
    )
    .expect("changed");
    // the old password no longer logs in; the new one does
    assert!(handle_authorization(
        &store,
        &mut cache,
        UserCredentials { email: String::from(EMAIL), password: String::from(PASSWORD) },
        &key,
        300,
    )
    .is_err());
    handle_authorization(
        &store,
        &mut cache,
        UserCredentials { email: String::from(EMAIL), password: String::from("my.new.password1") },
        &key,
        301,
    )
    .expect("new password logs in");
    // a wrong current password is refused
    assert_eq!(
        handle_change_password(
            &mut store,
            &mut cache,
            user_id,
            ChangePasswordBody {
                old_password: String::from("not.the.password"),
                new_password: String::from("whatever.else1"),
            },
            400,
        )
        .unwrap_err(),
        RequestError::BadRequest
    );
}

#[test]
fn temporary_password_flow() {
    let mut store = PersistenceGateway::new();
    let mut cache = CacheStore::new();
    let key = secret();
    activated_user(&mut store, 100);
    let generated = String::from("temporary.pass1");
    handle_forgot_password(
        &store,
        &mut cache,
        ChangeForgottenPasswordBody { email: String::from(EMAIL) },
        &generated,
        1_000,
    )
    .expect("temporary password issued");
    // the store still holds the old password; the cache carries the
    // temporary one, so login with it succeeds through the cache path
    handle_authorization(
        &store,
        &mut cache,
        UserCredentials { email: String::from(EMAIL), password: generated.clone() },
        &key,
        1_100,
    )
    .expect("temporary password logs in");
    // the cached (temporary) record now vouches for the old password:
    // changing the password goes through the cached check
    handle_change_password(
        &mut store,
        &mut cache,
        1,
        ChangePasswordBody {
            old_password: generated.clone(),
            new_password: String::from("settled.pass1"),
        },
        1_200,
    )
    .expect("password settled from the temporary one");
    handle_authorization(
        &store,
        &mut cache,
        UserCredentials { email: String::from(EMAIL), password: String::from("settled.pass1") },
        &key,
        1_300,
    )
    .expect("settled password logs in");
    // an unknown address is refused
    assert_eq!(
        handle_forgot_password(
            &store,
            &mut cache,
            ChangeForgottenPasswordBody { email: String::from("no@such.org") },
            &generated,
            1_200,
        )
        .unwrap_err(),
        RequestError::BadRequest
    );
}

#[test]
fn email_change_flow_with_verification_link() {
    let mut store = PersistenceGateway::new();
    let mut cache = CacheStore::new();
    let key = secret();
    let user_id = activated_user(&mut store, 100);
    let mail = handle_change_email(
        &mut store,
        &mut cache,
        user_id,
        ChangeEmailBody { new_email: String::from("new@example.org") },
    )
    .expect("change started")
    .1;
    assert_eq!(mail.to.as_str(), "new@example.org");
    // the link carries the base64 address and the capability token
    handle_email_verification(&mut store, &mut cache, &mail.encoded_email, user_id, &mail.token)
        .expect("change finished");
    // replay: the pending status flipped, so the link is now a no-op
    assert_eq!(
        handle_email_verification(
            &mut store,
            &mut cache,
            &mail.encoded_email,
            user_id,
            &mail.token
        )
        .unwrap_err(),
        RequestError::BadRequest
    );
    // the new address logs in, the old one does not
    handle_authorization(
        &store,
        &mut cache,
        UserCredentials {
            email: String::from("new@example.org"),
            password: String::from(PASSWORD),
        },
        &key,
        500,
    )
    .expect("new address logs in");
    assert!(handle_authorization(
        &store,
        &mut cache,
        UserCredentials { email: String::from(EMAIL), password: String::from(PASSWORD) },
        &key,
        501,
    )
    .is_err());
}

#[test]
fn logout_clears_cached_profile_but_not_the_token() {
    let mut store = PersistenceGateway::new();
    let mut cache = CacheStore::new();
    let key = secret();
    let user_id = activated_user(&mut store, 100);
    let token = handle_authorization(
        &store,
        &mut cache,
        UserCredentials { email: String::from(EMAIL), password: String::from(PASSWORD) },
        &key,
        1_000,
    )
    .expect("login");
    let resp = handle_logout(&mut cache, user_id);
    assert_eq!(resp.status, 200);
    // the cached profile is gone; the store must answer again
    store.set_healthy(false);
    assert!(handle_get_user(&store, &mut cache, user_id, 1_001).is_err());
    // the token itself stays valid for its full lifetime: a known,
    // kept limitation of the stateless scheme
    assert!(check_jwt(token.as_str(), &key).is_ok());
}

#[test]
fn cache_outage_never_becomes_a_request_fault() {
    let mut store = PersistenceGateway::new();
    let mut cache = CacheStore::new();
    let user_id = 1;
    handle_create_board(
        &mut store,
        &mut cache,
        user_id,
        CreateBoardBody { title: String::from("still there"), description: String::from("") },
        100,
    )
    .expect("created");
    cache.set_available(false);
    // reads fall back to the store of record and still succeed
    let boards = handle_user_boards(&store, &mut cache, user_id, 200).expect("read without cache");
    assert_eq!(boards.len(), 1);
    assert_eq!(boards[0].title.as_str(), "still there");
}

#[test]
fn store_outage_is_the_fatal_error() {
    let mut store = PersistenceGateway::new();
    let mut cache = CacheStore::new();
    store.set_healthy(false);
    assert_eq!(
        handle_user_boards(&store, &mut cache, 1, 100).unwrap_err(),
        RequestError::ServerFault
    );
}

#[test]
fn email_change_to_a_taken_address_is_refused() {
    let mut store = PersistenceGateway::new();
    let mut cache = CacheStore::new();
    let user_id = activated_user(&mut store, 100);
    // a second account occupies the target address
    let (_, other) = handle_create_user(
        &mut store,
        CreateUserBody {
            name: String::from("Other"),
            email: String::from("taken@example.org"),
            password: String::from(PASSWORD),
        },
        200,
    )
    .expect("second account");
    assert_ne!(other.user_id, user_id);
    assert_eq!(
        handle_change_email(
            &mut store,
            &mut cache,
            user_id,
            ChangeEmailBody { new_email: String::from("taken@example.org") },
        )
        .unwrap_err(),
        RequestError::BadRequest
    );
}

#[test]
fn foreign_board_task_list_is_refused() {
    let mut store = PersistenceGateway::new();
    let mut cache = CacheStore::new();
    handle_create_board(
        &mut store,
        &mut cache,
        2,
        CreateBoardBody { title: String::from("theirs"), description: String::from("") },
        100,
    )
    .expect("created");
    let theirs = handle_user_boards(&store, &mut cache, 2, 101).expect("read")[0].id;
    assert_eq!(
        handle_board_tasks(&store, &mut cache, 1, GetTasksBody { board_id: theirs }, 102)
            .unwrap_err(),
        RequestError::BadRequest
    );
    assert_eq!(
        handle_board_tasks(&store, &mut cache, 1, GetTasksBody { board_id: 9_999 }, 102)
            .unwrap_err(),
        RequestError::BadRequest
    );
}

#[test]
fn login_survives_a_cache_outage() {
    let mut store = PersistenceGateway::new();
    let mut cache = CacheStore::new();
    let key = secret();
    activated_user(&mut store, 100);
    cache.set_available(false);
    handle_authorization(
        &store,
        &mut cache,
        UserCredentials { email: String::from(EMAIL), password: String::from(PASSWORD) },
        &key,
        5_000,
    )
    .expect("login straight from the store");
}
