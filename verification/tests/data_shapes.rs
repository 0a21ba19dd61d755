//! The row-completion conversions and the small carrier types.

use routine_core::models::{StoredBoard, StoredTask, StoredUser, UserWebData};
use routine_core::token::JWToken;

#[test]
fn stored_user_completes_with_default_timestamps() {
    let row = StoredUser {
        id: 4,
        name: Some(String::from("N")),
        email: Some(String::from("n@x.co")),
        passwd: Some(String::from("h")),
        verification_status_id: Some(1),
        status_id: Some(1),
        created_at: None,
        updated_at: Some(7_000),
    };
    let user = row.get_user();
    assert_eq!(user.id, 4);
    assert_eq!(user.name.as_str(), "N");
    assert_eq!(user.created_at, 946_684_800);
    assert_eq!(user.updated_at, 7_000);
}

#[test]
fn stored_board_completes_with_placeholders() {
    let row = StoredBoard { id: 2, title: None, description: None, creation_time: None };
    let board = row.get_board();
    assert_eq!(board.id, 2);
    assert_eq!(board.title.as_str(), "Unnamed board");
    assert_eq!(board.description.as_str(), "");
    assert_eq!(board.creation_time, 946_684_800);
}

#[test]
fn stored_task_completes_with_placeholders() {
    let row = StoredTask {
        id: 3,
        title: None,
        description: Some(String::from("d")),
        board_id: None,
        status_id: None,
        last_status_change_time: None,
    };
    let task = row.get_task();
    assert_eq!(task.id, 3);
    assert_eq!(task.title.as_str(), "Unnamed task");
    assert_eq!(task.description.as_str(), "d");
    assert_eq!(task.board_id, 0);
    assert_eq!(task.status_id, 0);
    assert_eq!(task.last_status_change_time, 946_684_800);
}

#[test]
fn web_data_accessors_and_claims() {
    let data = UserWebData { user_id: 9, token: String::from("tok") };
    assert_eq!(data.id(), 9);
    assert_eq!(data.token().as_str(), "tok");
    let claims = JWToken::new(9, 77);
    assert_eq!(claims.user_id, 9);
    assert_eq!(claims.iat, 77);
}
