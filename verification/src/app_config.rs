//! Service-wide configuration values: token lifetimes, cache expirations,
//! and the row-status codes of the store of record.

use vstd::prelude::*;

verus! {

/// Base address put into the verification links that are mailed out.
pub const SERVICE_URL: &'static str = "http://127.0.0.1:5000";

/// Seconds a session token stays acceptable after it was issued.
pub const TOKEN_LIFETIME: i64 = 86_400;

/// Age (seconds) past which an accepted token is transparently reissued.
pub const TOKEN_UPDATE_LIFETIME_THRESHOLD: i64 = 64_800;

/// Default expiration of cached board and task lists, in seconds.
pub const STORED_DATA_EXPIRATION_TIME: i64 = 86_400;

/// Default expiration of cached user records, in seconds.
pub const USER_DATA_EXPIRATION_TIME: i64 = 259_200;

/// Expiration override used when a temporary password is cached.
pub const TEMP_PASSWORD_EXPIRATION_TIME: i64 = 43_200;

/// User row status: created but not yet activated by its verification link.
pub const USER_STATUS_IDLE: i32 = 0;

/// User row status: activated, visible to every scoped query.
pub const USER_STATUS_ACTIVE: i32 = 1;

/// Verification status: account created, activation pending.
pub const VERIFICATION_CREATED: i32 = 0;

/// Verification status: nothing pending.
pub const VERIFICATION_VERIFIED: i32 = 1;

/// Verification status: a temporary password was issued.
pub const VERIFICATION_TEMP_PASSWORD: i32 = 3;

/// Verification status: an email change awaits its verification link.
pub const VERIFICATION_EMAIL_PENDING: i32 = 4;

/// Board row status: live.
pub const BOARD_STATUS_ACTIVE: i32 = 0;

/// Board row status: soft-deleted; excluded from every scoped query.
pub const BOARD_STATUS_DELETED: i32 = 1;

/// First live task workflow status.
pub const TASK_STATUS_OPEN: i32 = 0;

/// Task row status: soft-deleted; excluded from every scoped query.
pub const TASK_STATUS_DELETED: i32 = 4;

} // verus!
