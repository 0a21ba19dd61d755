//! The data shapes of the service: user, board and task records as the
//! store of record holds them, the cached shapes handed to clients, the
//! request bodies, and the error taxonomy.

use vstd::prelude::*;

verus! {

/// Timestamp substituted when a row carries no time value.
pub const DEFAULT_TIMESTAMP: i64 = 946_684_800;

/// The uniform body of a plain service reply.
#[derive(Debug)]
pub struct ServerResponse {
    pub status: i32,
    pub message: String,
}

/// Errors of the store of record, as the gateway reports them.
///
/// `NotFound` is the single signal for "no row matched the scoped
/// predicate": it covers both a record that does not exist and one the
/// requester does not own, so no existence information leaks.
#[derive(Clone, Copy, PartialEq, Eq, Structural, Debug)]
pub enum PersistenceError {
    NotFound,
    Conflict,
    Unavailable,
}

/// What a denied or failed request surfaces to the caller: only the
/// coarse kind; finer taxonomy stays in logs and tests.
#[derive(Clone, Copy, PartialEq, Eq, Structural, Debug)]
pub enum RequestError {
    BadRequest,
    Unauthorized,
    ServerFault,
}

/// A full user record.
#[derive(Debug)]
pub struct User {
    pub id: i32,
    pub name: String,
    pub email: String,
    pub passwd: String,
    pub verification_status_id: i32,
    pub status_id: i32,
    pub created_at: i64,
    pub updated_at: i64,
}

impl Clone for User {
    fn clone(&self) -> (res: Self)
        ensures
            res == *self,
    {
        User {
            id: self.id,
            name: self.name.clone(),
            email: self.email.clone(),
            passwd: self.passwd.clone(),
            verification_status_id: self.verification_status_id,
            status_id: self.status_id,
            created_at: self.created_at,
            updated_at: self.updated_at,
        }
    }
}

/// The public face of a user record.
#[derive(Debug)]
pub struct Profile {
    pub id: i32,
    pub name: String,
    pub email: String,
}

/// Login request body.
pub struct UserCredentials {
    pub email: String,
    pub password: String,
}

/// A user row as the store hands it over, column by column.
pub struct StoredUser {
    pub id: i32,
    pub name: Option<String>,
    pub email: Option<String>,
    pub passwd: Option<String>,
    pub verification_status_id: Option<i32>,
    pub status_id: Option<i32>,
    pub created_at: Option<i64>,
    pub updated_at: Option<i64>,
}

impl StoredUser {
    /// Completes a row into a full user record; missing timestamps fall
    /// back to `DEFAULT_TIMESTAMP`.
    pub fn get_user(&self) -> (r: User)
        requires
            self.name is Some,
            self.email is Some,
            self.passwd is Some,
            self.verification_status_id is Some,
            self.status_id is Some,
        ensures
            r.id == self.id,
            r.name == self.name->0,
            r.email == self.email->0,
            r.passwd == self.passwd->0,
            r.verification_status_id == self.verification_status_id->0,
            r.status_id == self.status_id->0,
            r.created_at == if self.created_at is Some {
                self.created_at->0
            } else {
                DEFAULT_TIMESTAMP
            },
            r.updated_at == if self.updated_at is Some {
                self.updated_at->0
            } else {
                DEFAULT_TIMESTAMP
            },
    {
        User {
            id: self.id,
            name: self.name.as_ref().unwrap().clone(),
            email: self.email.as_ref().unwrap().clone(),
            passwd: self.passwd.as_ref().unwrap().clone(),
            verification_status_id: *self.verification_status_id.as_ref().unwrap(),
            status_id: *self.status_id.as_ref().unwrap(),
            created_at: match &self.created_at {
                Some(t) => *t,
                None => DEFAULT_TIMESTAMP,
            },
            updated_at: match &self.updated_at {
                Some(t) => *t,
                None => DEFAULT_TIMESTAMP,
            },
        }
    }
}

/// Body of the account-creation request.
pub struct CreateUserBody {
    pub name: String,
    pub email: String,
    pub password: String,
}

/// Body of the password-change request.
pub struct ChangePasswordBody {
    pub old_password: String,
    pub new_password: String,
}

/// Body of the forgotten-password request.
pub struct ChangeForgottenPasswordBody {
    pub email: String,
}

/// Body of the email-change request.
pub struct ChangeEmailBody {
    pub new_email: String,
}

/// Body of the username-change request.
pub struct ChangeUsernameBody {
    pub new_name: String,
}

/// The cached shape of a board.
#[derive(Debug)]
pub struct Board {
    pub id: i32,
    pub title: String,
    pub description: String,
    pub creation_time: i64,
}

impl Clone for Board {
    fn clone(&self) -> (res: Self)
        ensures
            res == *self,
    {
        Board {
            id: self.id,
            title: self.title.clone(),
            description: self.description.clone(),
            creation_time: self.creation_time,
        }
    }
}

/// A board row as the store hands it over, column by column.
pub struct StoredBoard {
    pub id: i32,
    pub title: Option<String>,
    pub description: Option<String>,
    pub creation_time: Option<i64>,
}

impl StoredBoard {
    /// Completes a row into the cached board shape, with placeholder
    /// values for missing columns.
    pub fn get_board(&self) -> (r: Board)
        ensures
            r.id == self.id,
            self.title matches Some(t) ==> r.title == t,
            self.title is None ==> r.title@ == "Unnamed board"@,
            self.description matches Some(d) ==> r.description == d,
            self.description is None ==> r.description@ == ""@,
            r.creation_time == if self.creation_time is Some {
                self.creation_time->0
            } else {
                DEFAULT_TIMESTAMP
            },
    {
        Board {
            id: self.id,
            title: match &self.title {
                Some(t) => t.clone(),
                None => "Unnamed board".to_owned(),
            },
            description: match &self.description {
                Some(d) => d.clone(),
                None => "".to_owned(),
            },
            creation_time: match &self.creation_time {
                Some(t) => *t,
                None => DEFAULT_TIMESTAMP,
            },
        }
    }
}

/// A full board row of the store of record.
#[derive(Debug)]
pub struct BoardRecord {
    pub id: i32,
    pub owner_id: i32,
    pub title: String,
    pub description: String,
    pub status_id: i32,
    pub creation_time: i64,
}

impl Clone for BoardRecord {
    fn clone(&self) -> (res: Self)
        ensures
            res == *self,
    {
        BoardRecord {
            id: self.id,
            owner_id: self.owner_id,
            title: self.title.clone(),
            description: self.description.clone(),
            status_id: self.status_id,
            creation_time: self.creation_time,
        }
    }
}

impl BoardRecord {
    /// The cached shape of this row: the ownership and lifecycle columns
    /// stay behind the gateway.
    pub fn to_board(&self) -> (r: Board)
        ensures
            r.id == self.id,
            r.title == self.title,
            r.description == self.description,
            r.creation_time == self.creation_time,
    {
        Board {
            id: self.id,
            title: self.title.clone(),
            description: self.description.clone(),
            creation_time: self.creation_time,
        }
    }
}

/// Body of the board-creation request.
pub struct CreateBoardBody {
    pub title: String,
    pub description: String,
}

/// Body of the board-update request.
pub struct UpdateBoardBody {
    pub id: i32,
    pub title: String,
    pub description: String,
}

/// Body of the board-deletion request.
pub struct DeleteBoardBody {
    pub id: i32,
}

/// The cached shape of a task.
#[derive(Debug)]
pub struct Task {
    pub id: i32,
    pub title: String,
    pub description: String,
    pub board_id: i32,
    pub status_id: i32,
    pub last_status_change_time: i64,
}

impl Clone for Task {
    fn clone(&self) -> (res: Self)
        ensures
            res == *self,
    {
        Task {
            id: self.id,
            title: self.title.clone(),
            description: self.description.clone(),
            board_id: self.board_id,
            status_id: self.status_id,
            last_status_change_time: self.last_status_change_time,
        }
    }
}

/// A task row as the store hands it over, column by column.
pub struct StoredTask {
    pub id: i32,
    pub title: Option<String>,
    pub description: Option<String>,
    pub board_id: Option<i32>,
    pub status_id: Option<i32>,
    pub last_status_change_time: Option<i64>,
}

impl StoredTask {
    /// Completes a row into the cached task shape, with placeholder
    /// values for missing columns.
    pub fn get_task(&self) -> (r: Task)
        ensures
            r.id == self.id,
            self.title matches Some(t) ==> r.title == t,
            self.title is None ==> r.title@ == "Unnamed task"@,
            self.description matches Some(d) ==> r.description == d,
            self.description is None ==> r.description@ == ""@,
            r.board_id == if self.board_id is Some {
                self.board_id->0
            } else {
                0
            },
            r.status_id == if self.status_id is Some {
                self.status_id->0
            } else {
                0
            },
            r.last_status_change_time == if self.last_status_change_time is Some {
                self.last_status_change_time->0
            } else {
                DEFAULT_TIMESTAMP
            },
    {
        Task {
            id: self.id,
            title: match &self.title {
                Some(t) => t.clone(),
                None => "Unnamed task".to_owned(),
            },
            description: match &self.description {
                Some(d) => d.clone(),
                None => "".to_owned(),
            },
            board_id: match &self.board_id {
                Some(b) => *b,
                None => 0,
            },
            status_id: match &self.status_id {
                Some(s) => *s,
                None => 0,
            },
            last_status_change_time: match &self.last_status_change_time {
                Some(t) => *t,
                None => DEFAULT_TIMESTAMP,
            },
        }
    }
}

/// A full task row of the store of record.
#[derive(Debug)]
pub struct TaskRecord {
    pub id: i32,
    pub board_id: i32,
    pub title: String,
    pub description: String,
    pub status_id: i32,
    pub last_status_change_time: i64,
    pub creation_time: i64,
}

impl Clone for TaskRecord {
    fn clone(&self) -> (res: Self)
        ensures
            res == *self,
    {
        TaskRecord {
            id: self.id,
            board_id: self.board_id,
            title: self.title.clone(),
            description: self.description.clone(),
            status_id: self.status_id,
            last_status_change_time: self.last_status_change_time,
            creation_time: self.creation_time,
        }
    }
}

impl TaskRecord {
    /// The cached shape of this row.
    pub fn to_task(&self) -> (r: Task)
        ensures
            r.id == self.id,
            r.title == self.title,
            r.description == self.description,
            r.board_id == self.board_id,
            r.status_id == self.status_id,
            r.last_status_change_time == self.last_status_change_time,
    {
        Task {
            id: self.id,
            title: self.title.clone(),
            description: self.description.clone(),
            board_id: self.board_id,
            status_id: self.status_id,
            last_status_change_time: self.last_status_change_time,
        }
    }
}

/// Body of the task-list request.
pub struct GetTasksBody {
    pub board_id: i32,
}

/// Body of the task-creation request.
pub struct CreateTaskBody {
    pub board_id: i32,
    pub title: String,
    pub description: String,
}

/// Body of the task-update request.
pub struct UpdateTaskBody {
    pub id: i32,
    pub board_id: i32,
    pub title: String,
    pub description: String,
    pub status_id: i32,
}

/// Body of the task-deletion request.
pub struct DeleteTaskBody {
    pub id: i32,
    pub board_id: i32,
}

/// A subject id together with the bearer token it presented.
pub struct UserWebData {
    pub user_id: i32,
    pub token: String,
}

impl UserWebData {
    pub fn id(&self) -> (r: i32)
        ensures
            r == self.user_id,
    {
        self.user_id
    }

    pub fn token(&self) -> (r: String)
        ensures
            r == self.token,
    {
        self.token.clone()
    }
}

} // verus!
