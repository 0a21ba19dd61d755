//! The gateway to the store of record: entity-scoped reads and writes
//! with ownership-and-lifecycle predicates baked into every operation.
//!
//! A row that does not exist and a row the requester does not own give
//! the same answer, `NotFound`: no existence information leaks. Soft
//! deletion is a status transition, never a row removal, and a task's
//! `last_status_change_time` moves in the same write that changes its
//! workflow status.
//!
//! The gateway can be unhealthy: every operation then fails with
//! `Unavailable`, the one error that is fatal to a request.

use vstd::prelude::*;

use crate::app_config::{
    BOARD_STATUS_ACTIVE, BOARD_STATUS_DELETED, TASK_STATUS_DELETED, TASK_STATUS_OPEN,
    USER_STATUS_ACTIVE, USER_STATUS_IDLE, VERIFICATION_CREATED, VERIFICATION_EMAIL_PENDING,
    VERIFICATION_VERIFIED,
};
use crate::models::{BoardRecord, PersistenceError, TaskRecord, User};

verus! {

/// A user row matching an id under a lifecycle status.
pub open spec fn user_match(u: User, user_id: i32, status_id: i32) -> bool {
    u.id == user_id && u.status_id == status_id
}

/// The live boards of one owner, in stored order.
pub open spec fn spec_owner_boards(boards: Seq<BoardRecord>, owner_id: i32) -> Seq<BoardRecord> {
    boards.filter(
        |b: BoardRecord| b.owner_id == owner_id && b.status_id == BOARD_STATUS_ACTIVE,
    )
}

/// Whether some board row with this id belongs to this owner,
/// whatever its status.
pub open spec fn spec_board_owned(boards: Seq<BoardRecord>, board_id: i32, owner_id: i32) -> bool {
    exists|j: int| 0 <= j < boards.len() && boards[j].id == board_id && boards[j].owner_id
        == owner_id
}

/// Whether some live board row with this id belongs to this owner.
pub open spec fn spec_board_visible(boards: Seq<BoardRecord>, board_id: i32, owner_id: i32) -> bool {
    exists|j: int| 0 <= j < boards.len() && boards[j].id == board_id && boards[j].owner_id
        == owner_id && boards[j].status_id == BOARD_STATUS_ACTIVE
}

/// The undeleted tasks of one board, in stored order.
pub open spec fn spec_board_tasks(tasks: Seq<TaskRecord>, board_id: i32) -> Seq<TaskRecord> {
    tasks.filter(|t: TaskRecord| t.board_id == board_id && t.status_id != TASK_STATUS_DELETED)
}

/// A user row after activation: live, with nothing pending.
pub open spec fn spec_activated(u: User) -> User {
    User { status_id: USER_STATUS_ACTIVE, verification_status_id: VERIFICATION_VERIFIED, ..u }
}


/// A user row with its name replaced.
pub open spec fn spec_renamed(u: User, name: String) -> User {
    User { name, ..u }
}

/// A user row with its password hash replaced.
pub open spec fn spec_repassworded(u: User, passwd: String) -> User {
    User { passwd, ..u }
}

/// A user row with its password hash replaced and nothing left pending.
pub open spec fn spec_repassworded_verified(u: User, passwd: String) -> User {
    User { passwd, verification_status_id: VERIFICATION_VERIFIED, ..u }
}

/// A user row awaiting verification of a new email address.
pub open spec fn spec_email_pending(u: User) -> User {
    User { verification_status_id: VERIFICATION_EMAIL_PENDING, ..u }
}

/// A user row with its email address replaced and nothing left pending.
pub open spec fn spec_email_set(u: User, email: String) -> User {
    User { email, verification_status_id: VERIFICATION_VERIFIED, ..u }
}

/// A board row with its title and description replaced.
pub open spec fn spec_board_retitled(b: BoardRecord, title: String, description: String) -> BoardRecord {
    BoardRecord { title, description, ..b }
}

/// A board row after soft deletion.
pub open spec fn spec_board_deleted(b: BoardRecord) -> BoardRecord {
    BoardRecord { status_id: BOARD_STATUS_DELETED, ..b }
}

/// A task row after an update: the workflow timestamp moves exactly
/// when the status changes, in the same write.
pub open spec fn spec_task_updated(
    t: TaskRecord,
    title: String,
    description: String,
    status_id: i32,
    now: i64,
) -> TaskRecord {
    TaskRecord {
        title,
        description,
        status_id,
        last_status_change_time: if t.status_id == status_id {
            t.last_status_change_time
        } else {
            now
        },
        ..t
    }
}

/// A task row after soft deletion, its workflow timestamp moved in the
/// same write.
pub open spec fn spec_task_deleted(t: TaskRecord, now: i64) -> TaskRecord {
    TaskRecord { status_id: TASK_STATUS_DELETED, last_status_change_time: now, ..t }
}

proof fn lemma_user_update_wf(prev: Seq<User>, next_id: int, i: int, row: User)
    requires
        0 <= i < prev.len(),
        row.id == prev[i].id,
        row.email@ == prev[i].email@,
        forall|a: int, b: int| 0 <= a < b < prev.len() ==> prev[a].id != prev[b].id,
        forall|a: int, b: int| 0 <= a < b < prev.len() ==> prev[a].email@ != prev[b].email@,
        forall|a: int| 0 <= a < prev.len() ==> (#[trigger] prev[a]).id < next_id,
    ensures
        forall|a: int, b: int|
            0 <= a < b < prev.update(i, row).len() ==> prev.update(i, row)[a].id != prev.update(
                i,
                row,
            )[b].id,
        forall|a: int, b: int|
            0 <= a < b < prev.update(i, row).len() ==> prev.update(i, row)[a].email@ != prev.update(
                i,
                row,
            )[b].email@,
        forall|a: int|
            0 <= a < prev.update(i, row).len() ==> (#[trigger] prev.update(i, row)[a]).id < next_id,
{
    let us = prev.update(i, row);
    assert forall|a: int, b: int| 0 <= a < b < us.len() implies us[a].id != us[b].id by {
        assert(prev[a].id != prev[b].id);
    }
    assert forall|a: int, b: int| 0 <= a < b < us.len() implies us[a].email@ != us[b].email@ by {
        assert(prev[a].email@ != prev[b].email@);
    }
    assert forall|a: int| 0 <= a < us.len() implies (#[trigger] us[a]).id < next_id by {
        assert(prev[a].id < next_id);
    }
}

proof fn lemma_user_email_update_wf(prev: Seq<User>, next_id: int, i: int, row: User)
    requires
        0 <= i < prev.len(),
        row.id == prev[i].id,
        forall|a: int| 0 <= a < prev.len() ==> (#[trigger] prev[a]).email@ != row.email@,
        forall|a: int, b: int| 0 <= a < b < prev.len() ==> prev[a].id != prev[b].id,
        forall|a: int, b: int| 0 <= a < b < prev.len() ==> prev[a].email@ != prev[b].email@,
        forall|a: int| 0 <= a < prev.len() ==> (#[trigger] prev[a]).id < next_id,
    ensures
        forall|a: int, b: int|
            0 <= a < b < prev.update(i, row).len() ==> prev.update(i, row)[a].id != prev.update(
                i,
                row,
            )[b].id,
        forall|a: int, b: int|
            0 <= a < b < prev.update(i, row).len() ==> prev.update(i, row)[a].email@ != prev.update(
                i,
                row,
            )[b].email@,
        forall|a: int|
            0 <= a < prev.update(i, row).len() ==> (#[trigger] prev.update(i, row)[a]).id < next_id,
{
    let us = prev.update(i, row);
    assert forall|a: int, b: int| 0 <= a < b < us.len() implies us[a].id != us[b].id by {
        assert(prev[a].id != prev[b].id);
    }
    assert forall|a: int, b: int| 0 <= a < b < us.len() implies us[a].email@ != us[b].email@ by {
        if a != i && b != i {
            assert(prev[a].email@ != prev[b].email@);
        } else if a == i {
            assert(prev[b].email@ != row.email@);
        } else {
            assert(prev[a].email@ != row.email@);
        }
    }
    assert forall|a: int| 0 <= a < us.len() implies (#[trigger] us[a]).id < next_id by {
        assert(prev[a].id < next_id);
    }
}

proof fn lemma_board_update_wf(prev: Seq<BoardRecord>, next_id: int, i: int, row: BoardRecord)
    requires
        0 <= i < prev.len(),
        row.id == prev[i].id,
        forall|a: int, b: int| 0 <= a < b < prev.len() ==> prev[a].id != prev[b].id,
        forall|a: int| 0 <= a < prev.len() ==> (#[trigger] prev[a]).id < next_id,
    ensures
        forall|a: int, b: int|
            0 <= a < b < prev.update(i, row).len() ==> prev.update(i, row)[a].id != prev.update(
                i,
                row,
            )[b].id,
        forall|a: int|
            0 <= a < prev.update(i, row).len() ==> (#[trigger] prev.update(i, row)[a]).id < next_id,
{
    let us = prev.update(i, row);
    assert forall|a: int, b: int| 0 <= a < b < us.len() implies us[a].id != us[b].id by {
        assert(prev[a].id != prev[b].id);
    }
    assert forall|a: int| 0 <= a < us.len() implies (#[trigger] us[a]).id < next_id by {
        assert(prev[a].id < next_id);
    }
}

proof fn lemma_task_update_wf(prev: Seq<TaskRecord>, next_id: int, i: int, row: TaskRecord)
    requires
        0 <= i < prev.len(),
        row.id == prev[i].id,
        forall|a: int, b: int| 0 <= a < b < prev.len() ==> prev[a].id != prev[b].id,
        forall|a: int| 0 <= a < prev.len() ==> (#[trigger] prev[a]).id < next_id,
    ensures
        forall|a: int, b: int|
            0 <= a < b < prev.update(i, row).len() ==> prev.update(i, row)[a].id != prev.update(
                i,
                row,
            )[b].id,
        forall|a: int|
            0 <= a < prev.update(i, row).len() ==> (#[trigger] prev.update(i, row)[a]).id < next_id,
{
    let us = prev.update(i, row);
    assert forall|a: int, b: int| 0 <= a < b < us.len() implies us[a].id != us[b].id by {
        assert(prev[a].id != prev[b].id);
    }
    assert forall|a: int| 0 <= a < us.len() implies (#[trigger] us[a]).id < next_id by {
        assert(prev[a].id < next_id);
    }
}

proof fn lemma_owner_boards_step(boards: Seq<BoardRecord>, owner_id: i32, i: int)
    requires
        0 <= i < boards.len(),
    ensures
        spec_owner_boards(boards.take(i + 1), owner_id) == if boards[i].owner_id == owner_id
            && boards[i].status_id == BOARD_STATUS_ACTIVE {
            spec_owner_boards(boards.take(i), owner_id).push(boards[i])
        } else {
            spec_owner_boards(boards.take(i), owner_id)
        },
{
    reveal(Seq::filter);
    assert(boards.take(i + 1).drop_last() =~= boards.take(i));
    assert(boards.take(i + 1).last() == boards[i]);
}

proof fn lemma_board_tasks_step(tasks: Seq<TaskRecord>, board_id: i32, i: int)
    requires
        0 <= i < tasks.len(),
    ensures
        spec_board_tasks(tasks.take(i + 1), board_id) == if tasks[i].board_id == board_id
            && tasks[i].status_id != TASK_STATUS_DELETED {
            spec_board_tasks(tasks.take(i), board_id).push(tasks[i])
        } else {
            spec_board_tasks(tasks.take(i), board_id)
        },
{
    reveal(Seq::filter);
    assert(tasks.take(i + 1).drop_last() =~= tasks.take(i));
    assert(tasks.take(i + 1).last() == tasks[i]);
}



/// Ownership scoping: a board whose rows never pair this id with this
/// owner is exactly as invisible as a board id that does not exist at
/// all — a request against either fails the same way.
pub proof fn lemma_ownership_scoping(boards: Seq<BoardRecord>, board_id: i32, owner_id: i32)
    requires
        forall|j: int|
            0 <= j < boards.len() ==> ((#[trigger] boards[j]).id == board_id ==> boards[j].owner_id
                != owner_id),
    ensures
        !spec_board_visible(boards, board_id, owner_id),
        !spec_board_owned(boards, board_id, owner_id),
{
}

/// A live task row matching an id on a board.
pub open spec fn task_live_match(t: TaskRecord, task_id: i32, board_id: i32) -> bool {
    t.id == task_id && t.board_id == board_id && t.status_id != TASK_STATUS_DELETED
}

/// A user row awaiting email-change verification.
pub open spec fn user_email_pending_match(u: User, user_id: i32) -> bool {
    u.id == user_id && u.status_id == USER_STATUS_ACTIVE && u.verification_status_id
        == VERIFICATION_EMAIL_PENDING
}

/// The gateway over the users, boards and tasks of the service.
pub struct PersistenceGateway {
    healthy: bool,
    next_user_id: i32,
    next_board_id: i32,
    next_task_id: i32,
    users: Vec<User>,
    boards: Vec<BoardRecord>,
    tasks: Vec<TaskRecord>,
}

impl PersistenceGateway {
    /// The user rows, in stored order.
    pub closed spec fn users(&self) -> Seq<User> {
        self.users@
    }

    /// The board rows, in stored order.
    pub closed spec fn boards(&self) -> Seq<BoardRecord> {
        self.boards@
    }

    /// The task rows, in stored order.
    pub closed spec fn tasks(&self) -> Seq<TaskRecord> {
        self.tasks@
    }

    /// Whether the backend answers at all.
    pub closed spec fn is_healthy(&self) -> bool {
        self.healthy
    }

    /// Internal consistency: ids are unique and below their counters,
    /// and no two user rows share an email address.
    pub closed spec fn wf(&self) -> bool {
        &&& forall|i: int, j: int|
            0 <= i < j < self.users@.len() ==> self.users@[i].id != self.users@[j].id
        &&& forall|i: int, j: int|
            0 <= i < j < self.users@.len() ==> self.users@[i].email@ != self.users@[j].email@
        &&& forall|i: int| 0 <= i < self.users@.len() ==> (#[trigger] self.users@[i]).id
            < self.next_user_id
        &&& forall|i: int, j: int|
            0 <= i < j < self.boards@.len() ==> self.boards@[i].id != self.boards@[j].id
        &&& forall|i: int| 0 <= i < self.boards@.len() ==> (#[trigger] self.boards@[i]).id
            < self.next_board_id
        &&& forall|i: int, j: int|
            0 <= i < j < self.tasks@.len() ==> self.tasks@[i].id != self.tasks@[j].id
        &&& forall|i: int| 0 <= i < self.tasks@.len() ==> (#[trigger] self.tasks@[i]).id
            < self.next_task_id
    }

    /// Consequences of internal consistency that callers may rely on:
    /// ids are unique per table, and no two user rows share an email.
    pub proof fn lemma_rows_unique(&self)
        requires
            self.wf(),
        ensures
            forall|i: int, j: int|
                0 <= i < j < self.users().len() ==> self.users()[i].id != self.users()[j].id,
            forall|i: int, j: int|
                0 <= i < j < self.users().len() ==> self.users()[i].email@
                    != self.users()[j].email@,
            forall|i: int, j: int|
                0 <= i < j < self.boards().len() ==> self.boards()[i].id != self.boards()[j].id,
            forall|i: int, j: int|
                0 <= i < j < self.tasks().len() ==> self.tasks()[i].id != self.tasks()[j].id,
    {
    }

    /// A fresh, healthy, empty store.
    pub fn new() -> (r: Self)
        ensures
            r.wf(),
            r.is_healthy(),
            r.users() == Seq::<User>::empty(),
            r.boards() == Seq::<BoardRecord>::empty(),
            r.tasks() == Seq::<TaskRecord>::empty(),
    {
        let r = PersistenceGateway {
            healthy: true,
            next_user_id: 1,
            next_board_id: 1,
            next_task_id: 1,
            users: Vec::new(),
            boards: Vec::new(),
            tasks: Vec::new(),
        };
        proof {
            assert(r.users() =~= Seq::<User>::empty());
            assert(r.boards() =~= Seq::<BoardRecord>::empty());
            assert(r.tasks() =~= Seq::<TaskRecord>::empty());
        }
        r
    }

    /// Makes the backend healthy or unhealthy; the rows are kept.
    pub fn set_healthy(&mut self, healthy: bool)
        requires
            old(self).wf(),
        ensures
            final(self).wf(),
            final(self).is_healthy() == healthy,
            final(self).users() == old(self).users(),
            final(self).boards() == old(self).boards(),
            final(self).tasks() == old(self).tasks(),
    {
        self.healthy = healthy;
    }

    /// Whether any row, of any status, carries this email address.
    pub fn user_exists_by_email(&self, email: &String) -> (r: Result<bool, PersistenceError>)
        requires
            self.wf(),
        ensures
            self.is_healthy() ==> (r matches Ok(b) && b == exists|i: int|
                0 <= i < self.users().len() && (#[trigger] self.users()[i]).email@ == email@),
            !self.is_healthy() ==> r == Err::<bool, PersistenceError>(
                PersistenceError::Unavailable,
            ),
    {
        if !self.healthy {
            return Err(PersistenceError::Unavailable);
        }
        let n = self.users.len();
        let mut i: usize = 0;
        #[verifier::loop_isolation(false)]
        while i < n
            invariant
                n == self.users@.len(),
                i <= n,
                forall|k: int| 0 <= k < i ==> (#[trigger] self.users@[k]).email@ != email@,
            decreases n - i,
        {
            if self.users[i].email.eq(email) {
                proof {
                    assert(self.users()[i as int].email@ == email@);
                }
                return Ok(true);
            }
            i = i + 1;
        }
        Ok(false)
    }

    /// The live user carrying this email address, if one does.
    pub fn find_active_user_by_email(&self, email: &String) -> (r: Result<User, PersistenceError>)
        requires
            self.wf(),
        ensures
            self.is_healthy() ==> {
                &&& (r is Ok <==> exists|i: int|
                    0 <= i < self.users().len() && (#[trigger] self.users()[i]).email@ == email@
                        && self.users()[i].status_id == USER_STATUS_ACTIVE)
                &&& (r matches Ok(u) ==> exists|i: int|
                    0 <= i < self.users().len() && (#[trigger] self.users()[i]) == u && u.email@
                        == email@ && u.status_id == USER_STATUS_ACTIVE)
                &&& (r matches Err(e) ==> e == PersistenceError::NotFound)
            },
            !self.is_healthy() ==> r == Err::<User, PersistenceError>(
                PersistenceError::Unavailable,
            ),
    {
        if !self.healthy {
            return Err(PersistenceError::Unavailable);
        }
        let n = self.users.len();
        let mut i: usize = 0;
        #[verifier::loop_isolation(false)]
        while i < n
            invariant
                n == self.users@.len(),
                i <= n,
                forall|k: int|
                    0 <= k < i ==> !((#[trigger] self.users@[k]).email@ == email@
                        && self.users@[k].status_id == USER_STATUS_ACTIVE),
            decreases n - i,
        {
            if self.users[i].email.eq(email) && self.users[i].status_id == USER_STATUS_ACTIVE {
                proof {
                    assert(self.users()[i as int].email@ == email@);
                    assert(self.users()[i as int].status_id == USER_STATUS_ACTIVE);
                }
                return Ok(self.users[i].clone());
            }
            i = i + 1;
        }
        Err(PersistenceError::NotFound)
    }

    /// The user row with this id under this lifecycle status.
    pub fn find_user_with_status(&self, user_id: i32, status_id: i32) -> (r: Result<
        User,
        PersistenceError,
    >)
        requires
            self.wf(),
        ensures
            self.is_healthy() ==> {
                &&& (r is Ok <==> exists|i: int|
                    0 <= i < self.users().len() && user_match(
                        #[trigger] self.users()[i],
                        user_id,
                        status_id,
                    ))
                &&& (r matches Ok(u) ==> exists|i: int|
                    0 <= i < self.users().len() && (#[trigger] self.users()[i]) == u && user_match(
                        u,
                        user_id,
                        status_id,
                    ))
                &&& (r matches Err(e) ==> e == PersistenceError::NotFound)
            },
            !self.is_healthy() ==> r == Err::<User, PersistenceError>(
                PersistenceError::Unavailable,
            ),
    {
        if !self.healthy {
            return Err(PersistenceError::Unavailable);
        }
        let n = self.users.len();
        let mut i: usize = 0;
        #[verifier::loop_isolation(false)]
        while i < n
            invariant
                n == self.users@.len(),
                i <= n,
                forall|k: int|
                    0 <= k < i ==> !user_match(#[trigger] self.users@[k], user_id, status_id),
            decreases n - i,
        {
            if self.users[i].id == user_id && self.users[i].status_id == status_id {
                proof {
                    assert(user_match(self.users()[i as int], user_id, status_id));
                }
                return Ok(self.users[i].clone());
            }
            i = i + 1;
        }
        Err(PersistenceError::NotFound)
    }

    /// Creates a user row: idle, activation pending, timestamps set to
    /// `now`. Fails with `Conflict` when any row already carries the
    /// email address.
    pub fn insert_user(&mut self, name: String, email: String, passwd: String, now: i64) -> (r:
        Result<User, PersistenceError>)
        requires
            old(self).wf(),
            old(self).can_assign_user_id(),
        ensures
            final(self).wf(),
            final(self).is_healthy() == old(self).is_healthy(),
            final(self).boards() == old(self).boards(),
            final(self).tasks() == old(self).tasks(),
            old(self).is_healthy() ==> {
                &&& (r is Ok <==> !exists|i: int|
                    0 <= i < old(self).users().len() && (#[trigger] old(self).users()[i]).email@
                        == email@)
                &&& (r matches Ok(u) ==> u == (User {
                    id: u.id,
                    name: name,
                    email: email,
                    passwd: passwd,
                    verification_status_id: VERIFICATION_CREATED,
                    status_id: USER_STATUS_IDLE,
                    created_at: now,
                    updated_at: now,
                }) && final(self).users() == old(self).users().push(u) && (forall|j: int|
                    0 <= j < old(self).users().len() ==> (#[trigger] old(self).users()[j]).id
                        != u.id))
                &&& (r matches Err(e) ==> e == PersistenceError::Conflict && final(self).users()
                    == old(self).users())
            },
            !old(self).is_healthy() ==> r == Err::<User, PersistenceError>(
                PersistenceError::Unavailable,
            ) && final(self).users() == old(self).users(),
    {
        if !self.healthy {
            return Err(PersistenceError::Unavailable);
        }
        match self.user_exists_by_email(&email) {
            Ok(true) => Err(PersistenceError::Conflict),
            _ => {
                let user = User {
                    id: self.next_user_id,
                    name,
                    email,
                    passwd,
                    verification_status_id: VERIFICATION_CREATED,
                    status_id: USER_STATUS_IDLE,
                    created_at: now,
                    updated_at: now,
                };
                let copy = user.clone();
                self.users.push(user);
                self.next_user_id = self.next_user_id + 1;
                Ok(copy)
            },
        }
    }

    /// Whether a fresh user id can still be assigned.
    pub closed spec fn can_assign_user_id(&self) -> bool {
        self.next_user_id < i32::MAX
    }

    /// Whether a fresh board id can still be assigned.
    pub closed spec fn can_assign_board_id(&self) -> bool {
        self.next_board_id < i32::MAX
    }

    /// Whether a fresh task id can still be assigned.
    pub closed spec fn can_assign_task_id(&self) -> bool {
        self.next_task_id < i32::MAX
    }

    /// Whether a fresh user id can still be assigned.
    pub fn has_user_id_headroom(&self) -> (r: bool)
        ensures
            r == self.can_assign_user_id(),
    {
        self.next_user_id < i32::MAX
    }

    /// Whether a fresh board id can still be assigned.
    pub fn has_board_id_headroom(&self) -> (r: bool)
        ensures
            r == self.can_assign_board_id(),
    {
        self.next_board_id < i32::MAX
    }

    /// Whether a fresh task id can still be assigned.
    pub fn has_task_id_headroom(&self) -> (r: bool)
        ensures
            r == self.can_assign_task_id(),
    {
        self.next_task_id < i32::MAX
    }

    /// Activates the idle user with this id: the account goes live with
    /// nothing pending. Replay finds no idle row and fails `NotFound`.
    pub fn activate_user(&mut self, user_id: i32) -> (r: Result<(), PersistenceError>)
        requires
            old(self).wf(),
        ensures
            final(self).wf(),
            final(self).is_healthy() == old(self).is_healthy(),
            final(self).boards() == old(self).boards(),
            final(self).tasks() == old(self).tasks(),
            old(self).is_healthy() ==> {
                &&& (r is Ok <==> exists|i: int|
                    0 <= i < old(self).users().len() && user_match(
                        #[trigger] old(self).users()[i],
                        user_id,
                        USER_STATUS_IDLE,
                    ))
                &&& (r is Ok ==> exists|i: int|
                    0 <= i < old(self).users().len() && user_match(
                        #[trigger] old(self).users()[i],
                        user_id,
                        USER_STATUS_IDLE,
                    ) && final(self).users() == old(self).users().update(
                        i,
                        spec_activated(old(self).users()[i]),
                    ))
                &&& (r matches Err(e) ==> e == PersistenceError::NotFound && final(self).users()
                    == old(self).users())
            },
            !old(self).is_healthy() ==> r == Err::<(), PersistenceError>(
                PersistenceError::Unavailable,
            ) && final(self).users() == old(self).users(),
    {
        if !self.healthy {
            return Err(PersistenceError::Unavailable);
        }
        let n = self.users.len();
        let mut i: usize = 0;
        #[verifier::loop_isolation(false)]
        while i < n
            invariant
                *self == *old(self),
                n == self.users@.len(),
                i <= n,
                forall|k: int|
                    0 <= k < i ==> !user_match(
                        #[trigger] self.users@[k],
                        user_id,
                        USER_STATUS_IDLE,
                    ),
            decreases n - i,
        {
            if self.users[i].id == user_id && self.users[i].status_id == USER_STATUS_IDLE {
                let mut row = self.users[i].clone();
                row.status_id = USER_STATUS_ACTIVE;
                row.verification_status_id = VERIFICATION_VERIFIED;
                proof {
                    assert(row == spec_activated(self.users@[i as int]));
                }
                self.users.set(i, row);
                proof {
                    let us = self.users@;
                    let prev = old(self).users@;
                    assert(us == prev.update(i as int, spec_activated(prev[i as int])));
                    assert forall|a: int, b: int| 0 <= a < b < us.len() implies us[a].id != us[b].id by {
                        assert(old(self).users@[a].id != old(self).users@[b].id);
                        assert(us[a].id == prev[a].id && us[b].id == prev[b].id);
                    }
                    assert forall|a: int, b: int|
                        0 <= a < b < us.len() implies us[a].email@ != us[b].email@ by {
                        assert(old(self).users@[a].email@ != old(self).users@[b].email@);
                        assert(us[a].email@ == prev[a].email@ && us[b].email@ == prev[b].email@);
                    }
                    assert forall|a: int|
                        0 <= a < us.len() implies (#[trigger] us[a]).id < self.next_user_id by {
                        assert(old(self).users@[a].id < old(self).next_user_id);
                        assert(us[a].id == prev[a].id);
                    }
                    assert(user_match(old(self).users()[i as int], user_id, USER_STATUS_IDLE));
                    assert(final(self).users() == old(self).users().update(
                        i as int,
                        spec_activated(old(self).users()[i as int]),
                    ));
                }
                return Ok(());
            }
            i = i + 1;
        }
        Err(PersistenceError::NotFound)
    }

    /// Renames the live user with this id; renaming an absent or
    /// inactive user changes no row and is still a success, as a scoped
    /// update that matched nothing.
    pub fn update_user_name(&mut self, user_id: i32, new_name: String) -> (r: Result<
        (),
        PersistenceError,
    >)
        requires
            old(self).wf(),
        ensures
            final(self).wf(),
            final(self).is_healthy() == old(self).is_healthy(),
            final(self).boards() == old(self).boards(),
            final(self).tasks() == old(self).tasks(),
            old(self).is_healthy() ==> {
                &&& r is Ok
                &&& (exists|i: int|
                    0 <= i < old(self).users().len() && user_match(
                        #[trigger] old(self).users()[i],
                        user_id,
                        USER_STATUS_ACTIVE,
                    )) ==> exists|i: int|
                    0 <= i < old(self).users().len() && user_match(
                        #[trigger] old(self).users()[i],
                        user_id,
                        USER_STATUS_ACTIVE,
                    ) && final(self).users() == old(self).users().update(
                        i,
                        spec_renamed(old(self).users()[i], new_name),
                    )
                &&& (!exists|i: int|
                    0 <= i < old(self).users().len() && user_match(
                        #[trigger] old(self).users()[i],
                        user_id,
                        USER_STATUS_ACTIVE,
                    )) ==> final(self).users() == old(self).users()
            },
            !old(self).is_healthy() ==> r == Err::<(), PersistenceError>(
                PersistenceError::Unavailable,
            ) && final(self).users() == old(self).users(),
    {
        if !self.healthy {
            return Err(PersistenceError::Unavailable);
        }
        let n = self.users.len();
        let mut i: usize = 0;
        #[verifier::loop_isolation(false)]
        while i < n
            invariant
                *self == *old(self),
                n == self.users@.len(),
                i <= n,
                forall|k: int|
                    0 <= k < i ==> !user_match(
                        #[trigger] self.users@[k],
                        user_id,
                        USER_STATUS_ACTIVE,
                    ),
            decreases n - i,
        {
            if self.users[i].id == user_id && self.users[i].status_id == USER_STATUS_ACTIVE {
                let mut row = self.users[i].clone();
                row.name = new_name;
                proof {
                    assert(row == spec_renamed(old(self).users()[i as int], row.name));
                    assert(user_match(old(self).users()[i as int], user_id, USER_STATUS_ACTIVE));
                    lemma_user_update_wf(
                        old(self).users@,
                        old(self).next_user_id as int,
                        i as int,
                        row,
                    );
                }
                self.users.set(i, row);
                return Ok(());
            }
            i = i + 1;
        }
        Ok(())
    }

    /// Replaces the password hash of the live user with this id, only
    /// when the stored hash equals `old_passwd`. Returns whether a row
    /// was changed.
    pub fn update_user_passwd_checked(
        &mut self,
        user_id: i32,
        old_passwd: &String,
        new_passwd: String,
    ) -> (r: Result<bool, PersistenceError>)
        requires
            old(self).wf(),
        ensures
            final(self).wf(),
            final(self).is_healthy() == old(self).is_healthy(),
            final(self).boards() == old(self).boards(),
            final(self).tasks() == old(self).tasks(),
            old(self).is_healthy() ==> {
                &&& (r matches Ok(changed) && changed == exists|i: int|
                    0 <= i < old(self).users().len() && user_match(
                        #[trigger] old(self).users()[i],
                        user_id,
                        USER_STATUS_ACTIVE,
                    ) && old(self).users()[i].passwd@ == old_passwd@)
                &&& (r matches Ok(changed) && changed ==> exists|i: int|
                    0 <= i < old(self).users().len() && user_match(
                        #[trigger] old(self).users()[i],
                        user_id,
                        USER_STATUS_ACTIVE,
                    ) && old(self).users()[i].passwd@ == old_passwd@ && final(self).users() == old(
                        self,
                    ).users().update(i, spec_repassworded(old(self).users()[i], new_passwd)))
                &&& (r matches Ok(changed) && !changed ==> final(self).users() == old(
                    self,
                ).users())
            },
            !old(self).is_healthy() ==> r == Err::<bool, PersistenceError>(
                PersistenceError::Unavailable,
            ) && final(self).users() == old(self).users(),
    {
        if !self.healthy {
            return Err(PersistenceError::Unavailable);
        }
        let n = self.users.len();
        let mut i: usize = 0;
        #[verifier::loop_isolation(false)]
        while i < n
            invariant
                *self == *old(self),
                n == self.users@.len(),
                i <= n,
                forall|k: int|
                    0 <= k < i ==> !(user_match(
                        #[trigger] self.users@[k],
                        user_id,
                        USER_STATUS_ACTIVE,
                    ) && self.users@[k].passwd@ == old_passwd@),
            decreases n - i,
        {
            if self.users[i].id == user_id && self.users[i].status_id == USER_STATUS_ACTIVE
                && self.users[i].passwd.eq(old_passwd) {
                let mut row = self.users[i].clone();
                row.passwd = new_passwd;
                proof {
                    assert(row == spec_repassworded(old(self).users()[i as int], row.passwd));
                    assert(user_match(old(self).users()[i as int], user_id, USER_STATUS_ACTIVE)
                        && old(self).users()[i as int].passwd@ == old_passwd@);
                    lemma_user_update_wf(
                        old(self).users@,
                        old(self).next_user_id as int,
                        i as int,
                        row,
                    );
                }
                self.users.set(i, row);
                return Ok(true);
            }
            i = i + 1;
        }
        Ok(false)
    }

    /// Replaces the password hash of the live user with this id and
    /// marks the account verified; used once the old hash was already
    /// checked against a cached record. Returns whether a row changed.
    pub fn update_user_passwd_verified(&mut self, user_id: i32, new_passwd: String) -> (r: Result<
        bool,
        PersistenceError,
    >)
        requires
            old(self).wf(),
        ensures
            final(self).wf(),
            final(self).is_healthy() == old(self).is_healthy(),
            final(self).boards() == old(self).boards(),
            final(self).tasks() == old(self).tasks(),
            old(self).is_healthy() ==> {
                &&& (r matches Ok(changed) && changed == exists|i: int|
                    0 <= i < old(self).users().len() && user_match(
                        #[trigger] old(self).users()[i],
                        user_id,
                        USER_STATUS_ACTIVE,
                    ))
                &&& (r matches Ok(changed) && changed ==> exists|i: int|
                    0 <= i < old(self).users().len() && user_match(
                        #[trigger] old(self).users()[i],
                        user_id,
                        USER_STATUS_ACTIVE,
                    ) && final(self).users() == old(self).users().update(
                        i,
                        spec_repassworded_verified(old(self).users()[i], new_passwd),
                    ))
                &&& (r matches Ok(changed) && !changed ==> final(self).users() == old(
                    self,
                ).users())
            },
            !old(self).is_healthy() ==> r == Err::<bool, PersistenceError>(
                PersistenceError::Unavailable,
            ) && final(self).users() == old(self).users(),
    {
        if !self.healthy {
            return Err(PersistenceError::Unavailable);
        }
        let n = self.users.len();
        let mut i: usize = 0;
        #[verifier::loop_isolation(false)]
        while i < n
            invariant
                *self == *old(self),
                n == self.users@.len(),
                i <= n,
                forall|k: int|
                    0 <= k < i ==> !user_match(
                        #[trigger] self.users@[k],
                        user_id,
                        USER_STATUS_ACTIVE,
                    ),
            decreases n - i,
        {
            if self.users[i].id == user_id && self.users[i].status_id == USER_STATUS_ACTIVE {
                let mut row = self.users[i].clone();
                row.passwd = new_passwd;
                row.verification_status_id = VERIFICATION_VERIFIED;
                proof {
                    assert(row == spec_repassworded_verified(
                        old(self).users()[i as int],
                        row.passwd,
                    ));
                    assert(user_match(old(self).users()[i as int], user_id, USER_STATUS_ACTIVE));
                    lemma_user_update_wf(
                        old(self).users@,
                        old(self).next_user_id as int,
                        i as int,
                        row,
                    );
                }
                self.users.set(i, row);
                return Ok(true);
            }
            i = i + 1;
        }
        Ok(false)
    }

    /// Marks the live user with this id as awaiting verification of a
    /// new email address, and returns the updated row.
    pub fn mark_email_change_pending(&mut self, user_id: i32) -> (r: Result<
        User,
        PersistenceError,
    >)
        requires
            old(self).wf(),
        ensures
            final(self).wf(),
            final(self).is_healthy() == old(self).is_healthy(),
            final(self).boards() == old(self).boards(),
            final(self).tasks() == old(self).tasks(),
            old(self).is_healthy() ==> {
                &&& (r is Ok <==> exists|i: int|
                    0 <= i < old(self).users().len() && user_match(
                        #[trigger] old(self).users()[i],
                        user_id,
                        USER_STATUS_ACTIVE,
                    ))
                &&& (r matches Ok(u) ==> exists|i: int|
                    0 <= i < old(self).users().len() && user_match(
                        #[trigger] old(self).users()[i],
                        user_id,
                        USER_STATUS_ACTIVE,
                    ) && u == spec_email_pending(old(self).users()[i]) && final(self).users()
                        == old(self).users().update(i, u))
                &&& (r matches Err(e) ==> e == PersistenceError::NotFound && final(self).users()
                    == old(self).users())
            },
            !old(self).is_healthy() ==> r == Err::<User, PersistenceError>(
                PersistenceError::Unavailable,
            ) && final(self).users() == old(self).users(),
    {
        if !self.healthy {
            return Err(PersistenceError::Unavailable);
        }
        let n = self.users.len();
        let mut i: usize = 0;
        #[verifier::loop_isolation(false)]
        while i < n
            invariant
                *self == *old(self),
                n == self.users@.len(),
                i <= n,
                forall|k: int|
                    0 <= k < i ==> !user_match(
                        #[trigger] self.users@[k],
                        user_id,
                        USER_STATUS_ACTIVE,
                    ),
            decreases n - i,
        {
            if self.users[i].id == user_id && self.users[i].status_id == USER_STATUS_ACTIVE {
                let mut row = self.users[i].clone();
                row.verification_status_id = VERIFICATION_EMAIL_PENDING;
                let copy = row.clone();
                proof {
                    assert(row == spec_email_pending(old(self).users()[i as int]));
                    assert(user_match(old(self).users()[i as int], user_id, USER_STATUS_ACTIVE));
                    lemma_user_update_wf(
                        old(self).users@,
                        old(self).next_user_id as int,
                        i as int,
                        row,
                    );
                }
                self.users.set(i, row);
                return Ok(copy);
            }
            i = i + 1;
        }
        Err(PersistenceError::NotFound)
    }

    /// The live user with this id whose email change awaits its
    /// verification link.
    pub fn find_email_pending_user(&self, user_id: i32) -> (r: Result<User, PersistenceError>)
        requires
            self.wf(),
        ensures
            self.is_healthy() ==> {
                &&& (r is Ok <==> exists|i: int|
                    0 <= i < self.users().len() && user_email_pending_match(
                        #[trigger] self.users()[i],
                        user_id,
                    ))
                &&& (r matches Ok(u) ==> exists|i: int|
                    0 <= i < self.users().len() && (#[trigger] self.users()[i]) == u
                        && user_email_pending_match(u, user_id))
                &&& (r matches Err(e) ==> e == PersistenceError::NotFound)
            },
            !self.is_healthy() ==> r == Err::<User, PersistenceError>(
                PersistenceError::Unavailable,
            ),
    {
        if !self.healthy {
            return Err(PersistenceError::Unavailable);
        }
        let n = self.users.len();
        let mut i: usize = 0;
        #[verifier::loop_isolation(false)]
        while i < n
            invariant
                n == self.users@.len(),
                i <= n,
                forall|k: int|
                    0 <= k < i ==> !user_email_pending_match(#[trigger] self.users@[k], user_id),
            decreases n - i,
        {
            if self.users[i].id == user_id && self.users[i].status_id == USER_STATUS_ACTIVE
                && self.users[i].verification_status_id == VERIFICATION_EMAIL_PENDING {
                proof {
                    assert(user_email_pending_match(self.users()[i as int], user_id));
                }
                return Ok(self.users[i].clone());
            }
            i = i + 1;
        }
        Err(PersistenceError::NotFound)
    }

    /// Sets the new email address of the user whose change was pending,
    /// and marks the account verified. Fails with `Conflict` when any
    /// row already carries the address, `NotFound` when no change was
    /// pending for this id.
    pub fn set_user_email(&mut self, user_id: i32, new_email: String) -> (r: Result<
        (),
        PersistenceError,
    >)
        requires
            old(self).wf(),
        ensures
            final(self).wf(),
            final(self).is_healthy() == old(self).is_healthy(),
            final(self).boards() == old(self).boards(),
            final(self).tasks() == old(self).tasks(),
            old(self).is_healthy() ==> {
                &&& ((exists|i: int|
                    0 <= i < old(self).users().len() && (#[trigger] old(self).users()[i]).email@
                        == new_email@) ==> r == Err::<(), PersistenceError>(
                    PersistenceError::Conflict,
                ) && final(self).users() == old(self).users())
                &&& ((!exists|i: int|
                    0 <= i < old(self).users().len() && (#[trigger] old(self).users()[i]).email@
                        == new_email@) ==> {
                    &&& (r is Ok <==> exists|i: int|
                        0 <= i < old(self).users().len() && user_email_pending_match(
                            #[trigger] old(self).users()[i],
                            user_id,
                        ))
                    &&& (r is Ok ==> exists|i: int|
                        0 <= i < old(self).users().len() && user_email_pending_match(
                            #[trigger] old(self).users()[i],
                            user_id,
                        ) && final(self).users() == old(self).users().update(
                            i,
                            spec_email_set(old(self).users()[i], new_email),
                        ))
                    &&& (r matches Err(e) ==> e == PersistenceError::NotFound && final(self).users() == old(self).users())
                })
            },
            !old(self).is_healthy() ==> r == Err::<(), PersistenceError>(
                PersistenceError::Unavailable,
            ) && final(self).users() == old(self).users(),
    {
        if !self.healthy {
            return Err(PersistenceError::Unavailable);
        }
        match self.user_exists_by_email(&new_email) {
            Ok(true) => {
                return Err(PersistenceError::Conflict);
            },
            _ => {},
        }
        let n = self.users.len();
        let mut i: usize = 0;
        #[verifier::loop_isolation(false)]
        while i < n
            invariant
                *self == *old(self),
                n == self.users@.len(),
                i <= n,
                forall|k: int|
                    0 <= k < i ==> !user_email_pending_match(#[trigger] self.users@[k], user_id),
            decreases n - i,
        {
            if self.users[i].id == user_id && self.users[i].status_id == USER_STATUS_ACTIVE
                && self.users[i].verification_status_id == VERIFICATION_EMAIL_PENDING {
                let mut row = self.users[i].clone();
                row.email = new_email;
                row.verification_status_id = VERIFICATION_VERIFIED;
                proof {
                    assert(row == spec_email_set(old(self).users()[i as int], row.email));
                    assert(user_email_pending_match(old(self).users()[i as int], user_id));
                    lemma_user_email_update_wf(
                        old(self).users@,
                        old(self).next_user_id as int,
                        i as int,
                        row,
                    );
                }
                self.users.set(i, row);
                return Ok(());
            }
            i = i + 1;
        }
        Err(PersistenceError::NotFound)
    }

    /// The live boards of one owner, in stored order. Rows are appended
    /// at creation, so stored order is creation order.
    pub fn boards_for_owner(&self, owner_id: i32) -> (r: Result<Vec<BoardRecord>, PersistenceError>)
        requires
            self.wf(),
        ensures
            self.is_healthy() ==> (r matches Ok(v) && v@ == spec_owner_boards(
                self.boards(),
                owner_id,
            )),
            !self.is_healthy() ==> r == Err::<Vec<BoardRecord>, PersistenceError>(
                PersistenceError::Unavailable,
            ),
    {
        if !self.healthy {
            return Err(PersistenceError::Unavailable);
        }
        let n = self.boards.len();
        let mut out: Vec<BoardRecord> = Vec::new();
        proof {
            reveal(Seq::filter);
            assert(out@ =~= spec_owner_boards(self.boards@.take(0), owner_id));
        }
        let mut i: usize = 0;
        #[verifier::loop_isolation(false)]
        while i < n
            invariant
                n == self.boards@.len(),
                i <= n,
                out@ == spec_owner_boards(self.boards@.take(i as int), owner_id),
            decreases n - i,
        {
            proof {
                lemma_owner_boards_step(self.boards@, owner_id, i as int);
            }
            if self.boards[i].owner_id == owner_id && self.boards[i].status_id
                == BOARD_STATUS_ACTIVE {
                out.push(self.boards[i].clone());
            }
            i = i + 1;
        }
        proof {
            assert(self.boards@.take(n as int) =~= self.boards@);
        }
        Ok(out)
    }

    /// Creates a live board owned by `owner_id` and returns its id,
    /// which no earlier board carries.
    pub fn insert_board(&mut self, owner_id: i32, title: String, description: String, now: i64) -> (r:
        Result<i32, PersistenceError>)
        requires
            old(self).wf(),
            old(self).can_assign_board_id(),
        ensures
            final(self).wf(),
            final(self).is_healthy() == old(self).is_healthy(),
            final(self).users() == old(self).users(),
            final(self).tasks() == old(self).tasks(),
            old(self).is_healthy() ==> (r matches Ok(id) && final(self).boards() == old(
                self,
            ).boards().push(
                BoardRecord {
                    id,
                    owner_id,
                    title,
                    description,
                    status_id: BOARD_STATUS_ACTIVE,
                    creation_time: now,
                },
            ) && (forall|j: int|
                0 <= j < old(self).boards().len() ==> (#[trigger] old(self).boards()[j]).id != id)),
            !old(self).is_healthy() ==> r == Err::<i32, PersistenceError>(
                PersistenceError::Unavailable,
            ) && final(self).boards() == old(self).boards(),
    {
        if !self.healthy {
            return Err(PersistenceError::Unavailable);
        }
        let id = self.next_board_id;
        let record = BoardRecord {
            id,
            owner_id,
            title,
            description,
            status_id: BOARD_STATUS_ACTIVE,
            creation_time: now,
        };
        self.boards.push(record);
        self.next_board_id = self.next_board_id + 1;
        Ok(id)
    }

    /// The live board with this id and owner. A board that does not
    /// exist and a board of another owner fail the same way.
    pub fn find_board(&self, board_id: i32, owner_id: i32) -> (r: Result<
        BoardRecord,
        PersistenceError,
    >)
        requires
            self.wf(),
        ensures
            self.is_healthy() ==> {
                &&& (r is Ok <==> spec_board_visible(self.boards(), board_id, owner_id))
                &&& (r matches Ok(b) ==> exists|i: int|
                    0 <= i < self.boards().len() && (#[trigger] self.boards()[i]) == b && b.id
                        == board_id && b.owner_id == owner_id && b.status_id
                        == BOARD_STATUS_ACTIVE)
                &&& (r matches Err(e) ==> e == PersistenceError::NotFound)
            },
            !self.is_healthy() ==> r == Err::<BoardRecord, PersistenceError>(
                PersistenceError::Unavailable,
            ),
    {
        if !self.healthy {
            return Err(PersistenceError::Unavailable);
        }
        let n = self.boards.len();
        let mut i: usize = 0;
        #[verifier::loop_isolation(false)]
        while i < n
            invariant
                n == self.boards@.len(),
                i <= n,
                forall|k: int|
                    0 <= k < i ==> !((#[trigger] self.boards@[k]).id == board_id
                        && self.boards@[k].owner_id == owner_id && self.boards@[k].status_id
                        == BOARD_STATUS_ACTIVE),
            decreases n - i,
        {
            if self.boards[i].id == board_id && self.boards[i].owner_id == owner_id
                && self.boards[i].status_id == BOARD_STATUS_ACTIVE {
                proof {
                    assert(self.boards()[i as int].id == board_id && self.boards()[i as int].owner_id == owner_id && self.boards()[i as int].status_id
                        == BOARD_STATUS_ACTIVE);
                }
                return Ok(self.boards[i].clone());
            }
            i = i + 1;
        }
        Err(PersistenceError::NotFound)
    }

    /// Retitles the live board with this id and owner.
    pub fn update_board(
        &mut self,
        board_id: i32,
        owner_id: i32,
        title: String,
        description: String,
    ) -> (r: Result<(), PersistenceError>)
        requires
            old(self).wf(),
        ensures
            final(self).wf(),
            final(self).is_healthy() == old(self).is_healthy(),
            final(self).users() == old(self).users(),
            final(self).tasks() == old(self).tasks(),
            old(self).is_healthy() ==> {
                &&& (r is Ok <==> spec_board_visible(old(self).boards(), board_id, owner_id))
                &&& (r is Ok ==> exists|i: int|
                    0 <= i < old(self).boards().len() && (#[trigger] old(self).boards()[i]).id
                        == board_id && old(self).boards()[i].owner_id == owner_id && old(
                        self,
                    ).boards()[i].status_id == BOARD_STATUS_ACTIVE && final(self).boards() == old(
                        self,
                    ).boards().update(
                        i,
                        spec_board_retitled(old(self).boards()[i], title, description),
                    ))
                &&& (r matches Err(e) ==> e == PersistenceError::NotFound && final(self).boards()
                    == old(self).boards())
            },
            !old(self).is_healthy() ==> r == Err::<(), PersistenceError>(
                PersistenceError::Unavailable,
            ) && final(self).boards() == old(self).boards(),
    {
        if !self.healthy {
            return Err(PersistenceError::Unavailable);
        }
        let n = self.boards.len();
        let mut i: usize = 0;
        #[verifier::loop_isolation(false)]
        while i < n
            invariant
                *self == *old(self),
                n == self.boards@.len(),
                i <= n,
                forall|k: int|
                    0 <= k < i ==> !((#[trigger] self.boards@[k]).id == board_id
                        && self.boards@[k].owner_id == owner_id && self.boards@[k].status_id
                        == BOARD_STATUS_ACTIVE),
            decreases n - i,
        {
            if self.boards[i].id == board_id && self.boards[i].owner_id == owner_id
                && self.boards[i].status_id == BOARD_STATUS_ACTIVE {
                let mut row = self.boards[i].clone();
                row.title = title;
                row.description = description;
                proof {
                    assert(row == spec_board_retitled(
                        old(self).boards()[i as int],
                        row.title,
                        row.description,
                    ));
                    assert(old(self).boards()[i as int].id == board_id && old(self).boards()[i as int].owner_id == owner_id && old(self).boards()[i as int].status_id
                        == BOARD_STATUS_ACTIVE);
                    lemma_board_update_wf(
                        old(self).boards@,
                        old(self).next_board_id as int,
                        i as int,
                        row,
                    );
                }
                self.boards.set(i, row);
                return Ok(());
            }
            i = i + 1;
        }
        Err(PersistenceError::NotFound)
    }

    /// Soft-deletes the live board with this id and owner: a status
    /// transition that hides it from every later scoped read.
    pub fn soft_delete_board(&mut self, board_id: i32, owner_id: i32) -> (r: Result<
        (),
        PersistenceError,
    >)
        requires
            old(self).wf(),
        ensures
            final(self).wf(),
            final(self).is_healthy() == old(self).is_healthy(),
            final(self).users() == old(self).users(),
            final(self).tasks() == old(self).tasks(),
            old(self).is_healthy() ==> {
                &&& (r is Ok <==> spec_board_visible(old(self).boards(), board_id, owner_id))
                &&& (r is Ok ==> exists|i: int|
                    0 <= i < old(self).boards().len() && (#[trigger] old(self).boards()[i]).id
                        == board_id && old(self).boards()[i].owner_id == owner_id && old(
                        self,
                    ).boards()[i].status_id == BOARD_STATUS_ACTIVE && final(self).boards() == old(
                        self,
                    ).boards().update(i, spec_board_deleted(old(self).boards()[i])))
                &&& (r matches Err(e) ==> e == PersistenceError::NotFound && final(self).boards()
                    == old(self).boards())
            },
            !old(self).is_healthy() ==> r == Err::<(), PersistenceError>(
                PersistenceError::Unavailable,
            ) && final(self).boards() == old(self).boards(),
    {
        if !self.healthy {
            return Err(PersistenceError::Unavailable);
        }
        let n = self.boards.len();
        let mut i: usize = 0;
        #[verifier::loop_isolation(false)]
        while i < n
            invariant
                *self == *old(self),
                n == self.boards@.len(),
                i <= n,
                forall|k: int|
                    0 <= k < i ==> !((#[trigger] self.boards@[k]).id == board_id
                        && self.boards@[k].owner_id == owner_id && self.boards@[k].status_id
                        == BOARD_STATUS_ACTIVE),
            decreases n - i,
        {
            if self.boards[i].id == board_id && self.boards[i].owner_id == owner_id
                && self.boards[i].status_id == BOARD_STATUS_ACTIVE {
                let mut row = self.boards[i].clone();
                row.status_id = BOARD_STATUS_DELETED;
                proof {
                    assert(row == spec_board_deleted(old(self).boards()[i as int]));
                    assert(old(self).boards()[i as int].id == board_id && old(self).boards()[i as int].owner_id == owner_id && old(self).boards()[i as int].status_id
                        == BOARD_STATUS_ACTIVE);
                    lemma_board_update_wf(
                        old(self).boards@,
                        old(self).next_board_id as int,
                        i as int,
                        row,
                    );
                }
                self.boards.set(i, row);
                return Ok(());
            }
            i = i + 1;
        }
        Err(PersistenceError::NotFound)
    }

    /// The undeleted tasks of a board, when some board row with this id
    /// belongs to the owner; an unowned or absent board yields nothing.
    pub fn tasks_for_board(&self, board_id: i32, owner_id: i32) -> (r: Result<
        Vec<TaskRecord>,
        PersistenceError,
    >)
        requires
            self.wf(),
        ensures
            self.is_healthy() ==> (r matches Ok(v) && v@ == if spec_board_owned(
                self.boards(),
                board_id,
                owner_id,
            ) {
                spec_board_tasks(self.tasks(), board_id)
            } else {
                Seq::<TaskRecord>::empty()
            }),
            !self.is_healthy() ==> r == Err::<Vec<TaskRecord>, PersistenceError>(
                PersistenceError::Unavailable,
            ),
    {
        if !self.healthy {
            return Err(PersistenceError::Unavailable);
        }
        let nb = self.boards.len();
        let mut owned = false;
        let mut i: usize = 0;
        #[verifier::loop_isolation(false)]
        while i < nb && !owned
            invariant
                nb == self.boards@.len(),
                i <= nb,
                !owned ==> forall|k: int|
                    0 <= k < i ==> !((#[trigger] self.boards@[k]).id == board_id
                        && self.boards@[k].owner_id == owner_id),
                owned ==> spec_board_owned(self.boards(), board_id, owner_id),
            decreases nb - i + (if owned { 0int } else { 1int }),
        {
            if self.boards[i].id == board_id && self.boards[i].owner_id == owner_id {
                proof {
                    assert(self.boards()[i as int].id == board_id && self.boards()[i as int].owner_id == owner_id);
                }
                owned = true;
            } else {
                i = i + 1;
            }
        }
        if !owned {
            let empty: Vec<TaskRecord> = Vec::new();
            proof {
                assert(empty@ =~= Seq::<TaskRecord>::empty());
            }
            return Ok(empty);
        }
        let n = self.tasks.len();
        let mut out: Vec<TaskRecord> = Vec::new();
        proof {
            reveal(Seq::filter);
            assert(out@ =~= spec_board_tasks(self.tasks@.take(0), board_id));
        }
        let mut i: usize = 0;
        #[verifier::loop_isolation(false)]
        while i < n
            invariant
                n == self.tasks@.len(),
                i <= n,
                out@ == spec_board_tasks(self.tasks@.take(i as int), board_id),
            decreases n - i,
        {
            proof {
                lemma_board_tasks_step(self.tasks@, board_id, i as int);
            }
            if self.tasks[i].board_id == board_id && self.tasks[i].status_id
                != TASK_STATUS_DELETED {
                out.push(self.tasks[i].clone());
            }
            i = i + 1;
        }
        proof {
            assert(self.tasks@.take(n as int) =~= self.tasks@);
        }
        Ok(out)
    }

    /// Creates an open task on a board and returns its id, which no
    /// earlier task carries. The board is not checked here: callers
    /// establish visibility through the scoped reads first.
    pub fn insert_task(&mut self, board_id: i32, title: String, description: String, now: i64) -> (r:
        Result<i32, PersistenceError>)
        requires
            old(self).wf(),
            old(self).can_assign_task_id(),
        ensures
            final(self).wf(),
            final(self).is_healthy() == old(self).is_healthy(),
            final(self).users() == old(self).users(),
            final(self).boards() == old(self).boards(),
            old(self).is_healthy() ==> (r matches Ok(id) && final(self).tasks() == old(
                self,
            ).tasks().push(
                TaskRecord {
                    id,
                    board_id,
                    title,
                    description,
                    status_id: TASK_STATUS_OPEN,
                    last_status_change_time: now,
                    creation_time: now,
                },
            ) && (forall|j: int|
                0 <= j < old(self).tasks().len() ==> (#[trigger] old(self).tasks()[j]).id != id)),
            !old(self).is_healthy() ==> r == Err::<i32, PersistenceError>(
                PersistenceError::Unavailable,
            ) && final(self).tasks() == old(self).tasks(),
    {
        if !self.healthy {
            return Err(PersistenceError::Unavailable);
        }
        let id = self.next_task_id;
        let record = TaskRecord {
            id,
            board_id,
            title,
            description,
            status_id: TASK_STATUS_OPEN,
            last_status_change_time: now,
            creation_time: now,
        };
        self.tasks.push(record);
        self.next_task_id = self.next_task_id + 1;
        Ok(id)
    }

    /// The undeleted task with this id on this board of this owner. An
    /// absent task and an unowned one fail the same way.
    pub fn find_task(&self, task_id: i32, board_id: i32, owner_id: i32) -> (r: Result<
        TaskRecord,
        PersistenceError,
    >)
        requires
            self.wf(),
        ensures
            self.is_healthy() ==> {
                &&& (r is Ok <==> spec_board_owned(self.boards(), board_id, owner_id) && exists|
                    i: int,
                |
                    0 <= i < self.tasks().len() && task_live_match(
                        #[trigger] self.tasks()[i],
                        task_id,
                        board_id,
                    ))
                &&& (r matches Ok(tk) ==> exists|i: int|
                    0 <= i < self.tasks().len() && (#[trigger] self.tasks()[i]) == tk
                        && task_live_match(tk, task_id, board_id))
                &&& (r matches Err(e) ==> e == PersistenceError::NotFound)
            },
            !self.is_healthy() ==> r == Err::<TaskRecord, PersistenceError>(
                PersistenceError::Unavailable,
            ),
    {
        if !self.healthy {
            return Err(PersistenceError::Unavailable);
        }
        let nb = self.boards.len();
        let mut owned = false;
        let mut i: usize = 0;
        #[verifier::loop_isolation(false)]
        while i < nb && !owned
            invariant
                nb == self.boards@.len(),
                i <= nb,
                !owned ==> forall|k: int|
                    0 <= k < i ==> !((#[trigger] self.boards@[k]).id == board_id
                        && self.boards@[k].owner_id == owner_id),
                owned ==> spec_board_owned(self.boards(), board_id, owner_id),
            decreases nb - i + (if owned { 0int } else { 1int }),
        {
            if self.boards[i].id == board_id && self.boards[i].owner_id == owner_id {
                proof {
                    assert(self.boards()[i as int].id == board_id && self.boards()[i as int].owner_id == owner_id);
                }
                owned = true;
            } else {
                i = i + 1;
            }
        }
        if !owned {
            return Err(PersistenceError::NotFound);
        }
        let n = self.tasks.len();
        let mut i: usize = 0;
        #[verifier::loop_isolation(false)]
        while i < n
            invariant
                n == self.tasks@.len(),
                i <= n,
                forall|k: int|
                    0 <= k < i ==> !task_live_match(#[trigger] self.tasks@[k], task_id, board_id),
            decreases n - i,
        {
            if self.tasks[i].id == task_id && self.tasks[i].board_id == board_id && self.tasks[i].status_id != TASK_STATUS_DELETED {
                proof {
                    assert(task_live_match(self.tasks()[i as int], task_id, board_id));
                }
                return Ok(self.tasks[i].clone());
            }
            i = i + 1;
        }
        Err(PersistenceError::NotFound)
    }

    /// Updates the undeleted task with this id on a live board of this
    /// owner; the workflow timestamp moves in the same write exactly
    /// when the status changes. Returns whether a row changed: an
    /// update that matched nothing is still a success.
    pub fn update_task(
        &mut self,
        task_id: i32,
        board_id: i32,
        owner_id: i32,
        title: String,
        description: String,
        status_id: i32,
        now: i64,
    ) -> (r: Result<bool, PersistenceError>)
        requires
            old(self).wf(),
        ensures
            final(self).wf(),
            final(self).is_healthy() == old(self).is_healthy(),
            final(self).users() == old(self).users(),
            final(self).boards() == old(self).boards(),
            old(self).is_healthy() ==> {
                &&& (r matches Ok(changed) && changed == (spec_board_visible(
                    old(self).boards(),
                    board_id,
                    owner_id,
                ) && exists|i: int|
                    0 <= i < old(self).tasks().len() && task_live_match(
                        #[trigger] old(self).tasks()[i],
                        task_id,
                        board_id,
                    )))
                &&& (r matches Ok(changed) && changed ==> exists|i: int|
                    0 <= i < old(self).tasks().len() && task_live_match(
                        #[trigger] old(self).tasks()[i],
                        task_id,
                        board_id,
                    ) && final(self).tasks() == old(self).tasks().update(
                        i,
                        spec_task_updated(old(self).tasks()[i], title, description, status_id, now),
                    ))
                &&& (r matches Ok(changed) && !changed ==> final(self).tasks() == old(
                    self,
                ).tasks())
            },
            !old(self).is_healthy() ==> r == Err::<bool, PersistenceError>(
                PersistenceError::Unavailable,
            ) && final(self).tasks() == old(self).tasks(),
    {
        if !self.healthy {
            return Err(PersistenceError::Unavailable);
        }
        let nb = self.boards.len();
        let mut visible = false;
        let mut i: usize = 0;
        #[verifier::loop_isolation(false)]
        while i < nb && !visible
            invariant
                *self == *old(self),
                nb == self.boards@.len(),
                i <= nb,
                !visible ==> forall|k: int|
                    0 <= k < i ==> !((#[trigger] self.boards@[k]).id == board_id
                        && self.boards@[k].owner_id == owner_id && self.boards@[k].status_id
                        == BOARD_STATUS_ACTIVE),
                visible ==> spec_board_visible(self.boards(), board_id, owner_id),
            decreases nb - i + (if visible { 0int } else { 1int }),
        {
            if self.boards[i].id == board_id && self.boards[i].owner_id == owner_id && self.boards[i].status_id == BOARD_STATUS_ACTIVE {
                proof {
                    assert(self.boards()[i as int].id == board_id && self.boards()[i as int].owner_id == owner_id && self.boards()[i as int].status_id
                        == BOARD_STATUS_ACTIVE);
                }
                visible = true;
            } else {
                i = i + 1;
            }
        }
        if !visible {
            return Ok(false);
        }
        let n = self.tasks.len();
        let mut i: usize = 0;
        #[verifier::loop_isolation(false)]
        while i < n
            invariant
                *self == *old(self),
                n == self.tasks@.len(),
                i <= n,
                forall|k: int|
                    0 <= k < i ==> !task_live_match(#[trigger] self.tasks@[k], task_id, board_id),
            decreases n - i,
        {
            if self.tasks[i].id == task_id && self.tasks[i].board_id == board_id && self.tasks[i].status_id != TASK_STATUS_DELETED {
                let mut row = self.tasks[i].clone();
                row.title = title;
                row.description = description;
                if row.status_id != status_id {
                    row.status_id = status_id;
                    row.last_status_change_time = now;
                }
                proof {
                    assert(row == spec_task_updated(
                        old(self).tasks()[i as int],
                        row.title,
                        row.description,
                        status_id,
                        now,
                    ));
                    assert(task_live_match(old(self).tasks()[i as int], task_id, board_id));
                    lemma_task_update_wf(
                        old(self).tasks@,
                        old(self).next_task_id as int,
                        i as int,
                        row,
                    );
                }
                self.tasks.set(i, row);
                return Ok(true);
            }
            i = i + 1;
        }
        Ok(false)
    }

    /// Soft-deletes the undeleted task with this id on a live board of
    /// this owner, moving the workflow timestamp in the same write.
    /// Returns whether a row changed.
    pub fn soft_delete_task(&mut self, task_id: i32, board_id: i32, owner_id: i32, now: i64) -> (r:
        Result<bool, PersistenceError>)
        requires
            old(self).wf(),
        ensures
            final(self).wf(),
            final(self).is_healthy() == old(self).is_healthy(),
            final(self).users() == old(self).users(),
            final(self).boards() == old(self).boards(),
            old(self).is_healthy() ==> {
                &&& (r matches Ok(changed) && changed == (spec_board_visible(
                    old(self).boards(),
                    board_id,
                    owner_id,
                ) && exists|i: int|
                    0 <= i < old(self).tasks().len() && task_live_match(
                        #[trigger] old(self).tasks()[i],
                        task_id,
                        board_id,
                    )))
                &&& (r matches Ok(changed) && changed ==> exists|i: int|
                    0 <= i < old(self).tasks().len() && task_live_match(
                        #[trigger] old(self).tasks()[i],
                        task_id,
                        board_id,
                    ) && final(self).tasks() == old(self).tasks().update(
                        i,
                        spec_task_deleted(old(self).tasks()[i], now),
                    ))
                &&& (r matches Ok(changed) && !changed ==> final(self).tasks() == old(
                    self,
                ).tasks())
            },
            !old(self).is_healthy() ==> r == Err::<bool, PersistenceError>(
                PersistenceError::Unavailable,
            ) && final(self).tasks() == old(self).tasks(),
    {
        if !self.healthy {
            return Err(PersistenceError::Unavailable);
        }
        let nb = self.boards.len();
        let mut visible = false;
        let mut i: usize = 0;
        #[verifier::loop_isolation(false)]
        while i < nb && !visible
            invariant
                *self == *old(self),
                nb == self.boards@.len(),
                i <= nb,
                !visible ==> forall|k: int|
                    0 <= k < i ==> !((#[trigger] self.boards@[k]).id == board_id
                        && self.boards@[k].owner_id == owner_id && self.boards@[k].status_id
                        == BOARD_STATUS_ACTIVE),
                visible ==> spec_board_visible(self.boards(), board_id, owner_id),
            decreases nb - i + (if visible { 0int } else { 1int }),
        {
            if self.boards[i].id == board_id && self.boards[i].owner_id == owner_id && self.boards[i].status_id == BOARD_STATUS_ACTIVE {
                proof {
                    assert(self.boards()[i as int].id == board_id && self.boards()[i as int].owner_id == owner_id && self.boards()[i as int].status_id
                        == BOARD_STATUS_ACTIVE);
                }
                visible = true;
            } else {
                i = i + 1;
            }
        }
        if !visible {
            return Ok(false);
        }
        let n = self.tasks.len();
        let mut i: usize = 0;
        #[verifier::loop_isolation(false)]
        while i < n
            invariant
                *self == *old(self),
                n == self.tasks@.len(),
                i <= n,
                forall|k: int|
                    0 <= k < i ==> !task_live_match(#[trigger] self.tasks@[k], task_id, board_id),
            decreases n - i,
        {
            if self.tasks[i].id == task_id && self.tasks[i].board_id == board_id && self.tasks[i].status_id != TASK_STATUS_DELETED {
                let mut row = self.tasks[i].clone();
                row.status_id = TASK_STATUS_DELETED;
                row.last_status_change_time = now;
                proof {
                    assert(row == spec_task_deleted(old(self).tasks()[i as int], now));
                    assert(task_live_match(old(self).tasks()[i as int], task_id, board_id));
                    lemma_task_update_wf(
                        old(self).tasks@,
                        old(self).next_task_id as int,
                        i as int,
                        row,
                    );
                }
                self.tasks.set(i, row);
                return Ok(true);
            }
            i = i + 1;
        }
        Ok(false)
    }
}

} // verus!
