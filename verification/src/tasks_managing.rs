//! Task handlers: the cache-aside read of a board's task list, a single
//! task lookup, and the mutations that invalidate the list.
//!
//! Every read is gated by board ownership; every mutation writes the
//! store of record first and invalidates the board's task-list key only
//! when that write succeeded.

use vstd::prelude::*;

use crate::app_config::STORED_DATA_EXPIRATION_TIME;
use crate::cache::{
    lemma_after_read_stable, spec_after_read, spec_boards_hit, spec_cache_get, spec_hit_boards,
    spec_hit_tasks, spec_tasks_hit, CacheStore, KeyModel, ValueModel,
};
use crate::models::{
    CreateTaskBody, DeleteTaskBody, GetTasksBody, PersistenceError, RequestError, ServerResponse,
    Task, TaskRecord, UpdateTaskBody,
};
use crate::store::{
    spec_board_owned, spec_board_tasks, spec_board_visible, spec_task_deleted, spec_task_updated,
    task_live_match, PersistenceGateway,
};

verus! {

/// The cached shape of one task row.
pub open spec fn spec_to_task(t: TaskRecord) -> Task {
    Task {
        id: t.id,
        title: t.title,
        description: t.description,
        board_id: t.board_id,
        status_id: t.status_id,
        last_status_change_time: t.last_status_change_time,
    }
}

/// The cached shapes of a run of task rows.
pub open spec fn spec_tasks_of(rs: Seq<TaskRecord>) -> Seq<Task> {
    rs.map_values(|t: TaskRecord| spec_to_task(t))
}

/// Turns gateway rows into their cached shapes.
fn tasks_of_records(records: &Vec<TaskRecord>) -> (r: Vec<Task>)
    ensures
        r@ == spec_tasks_of(records@),
{
    let n = records.len();
    let mut out: Vec<Task> = Vec::new();
    proof {
        assert(out@ =~= spec_tasks_of(records@.take(0)));
    }
    let mut i: usize = 0;
    #[verifier::loop_isolation(false)]
    while i < n
        invariant
            n == records@.len(),
            i <= n,
            out@ == spec_tasks_of(records@.take(i as int)),
        decreases n - i,
    {
        out.push(records[i].to_task());
        proof {
            assert(out@ =~= spec_tasks_of(records@.take(i + 1)));
        }
        i = i + 1;
    }
    proof {
        assert(records@.take(n as int) =~= records@);
    }
    out
}

/// The task list of one board, for its owner: rejected when no live
/// board of the requester carries the id; otherwise served from the
/// cache when a fresh, non-empty list is there, else read from the
/// store, written back, and returned.
pub fn handle_board_tasks(
    store: &PersistenceGateway,
    cache: &mut CacheStore,
    user_id: i32,
    request_data: GetTasksBody,
    now: i64,
) -> (r: Result<Vec<Task>, RequestError>)
    requires
        store.wf(),
        old(cache).wf(),
        0 <= now <= i64::MAX - STORED_DATA_EXPIRATION_TIME,
    ensures
        final(cache).wf(),
        final(cache).is_available() == old(cache).is_available(),
        ({
            let board_id = request_data.board_id;
            let hit = spec_cache_get(
                old(cache).contents(),
                old(cache).is_available(),
                KeyModel::BoardTasks(board_id as int),
                now as int,
            );
            let missed = spec_after_read(
                old(cache).contents(),
                old(cache).is_available(),
                KeyModel::BoardTasks(board_id as int),
                now as int,
            );
            &&& (store.is_healthy() && !spec_board_visible(store.boards(), board_id, user_id))
                ==> (r == Err::<Vec<Task>, RequestError>(RequestError::BadRequest) && final(cache).contents() == old(cache).contents())
            &&& (store.is_healthy() && spec_board_visible(store.boards(), board_id, user_id)
                && spec_tasks_hit(hit)) ==> (r matches Ok(v) && v@ == spec_hit_tasks(hit)
                && final(cache).contents() == old(cache).contents())
            &&& (store.is_healthy() && spec_board_visible(store.boards(), board_id, user_id)
                && !spec_tasks_hit(hit)) ==> (r matches Ok(v) && v@ == spec_tasks_of(
                spec_board_tasks(store.tasks(), board_id),
            ) && final(cache).contents() == if old(cache).is_available() {
                missed.insert(
                    KeyModel::BoardTasks(board_id as int),
                    (ValueModel::Tasks(v@), now + STORED_DATA_EXPIRATION_TIME),
                )
            } else {
                missed
            })
            &&& !store.is_healthy() ==> (r == Err::<Vec<Task>, RequestError>(
                RequestError::ServerFault,
            ) && final(cache).contents() == old(cache).contents())
        }),
{
    let GetTasksBody { board_id } = request_data;
    match store.find_board(board_id, user_id) {
        Err(PersistenceError::NotFound) => {
            return Err(RequestError::BadRequest);
        },
        Err(_) => {
            return Err(RequestError::ServerFault);
        },
        Ok(_) => {},
    }
    proof {
        let j = choose|j: int|
            0 <= j < store.boards().len() && store.boards()[j].id == board_id && store.boards()[j].owner_id == user_id && store.boards()[j].status_id
                == crate::app_config::BOARD_STATUS_ACTIVE;
        assert(store.boards()[j].id == board_id && store.boards()[j].owner_id == user_id);
    }
    if let Some(list) = cache.get_board_tasks(board_id, now) {
        return Ok(list);
    }
    match store.tasks_for_board(board_id, user_id) {
        Ok(records) => {
            let tasks = tasks_of_records(&records);
            cache.put_board_tasks(board_id, &tasks, now);
            Ok(tasks)
        },
        Err(_) => Err(RequestError::ServerFault),
    }
}

/// One task of one board of the requester. The cached board list and
/// task list answer first: when the requester's cached boards contain
/// the board and its cached tasks contain the task, that copy is
/// served. Otherwise the scoped store read decides.
pub fn handle_task(
    store: &PersistenceGateway,
    cache: &mut CacheStore,
    user_id: i32,
    board_id: i32,
    task_id: i32,
    now: i64,
) -> (r: Result<Task, RequestError>)
    requires
        store.wf(),
        old(cache).wf(),
        0 <= now <= i64::MAX - STORED_DATA_EXPIRATION_TIME,
    ensures
        final(cache).wf(),
        final(cache).is_available() == old(cache).is_available(),
        r matches Ok(t) ==> t.id == task_id,
        forall|k: KeyModel| #[trigger]
            final(cache).contents().contains_key(k) ==> old(cache).contents().contains_key(k)
                && final(cache).contents()[k] == old(cache).contents()[k],
        forall|k: KeyModel|
            spec_cache_get(final(cache).contents(), final(cache).is_available(), k, now as int)
                == #[trigger] spec_cache_get(
                old(cache).contents(),
                old(cache).is_available(),
                k,
                now as int,
            ),
        ({
            let bhit = spec_cache_get(
                old(cache).contents(),
                old(cache).is_available(),
                KeyModel::UserBoards(user_id as int),
                now as int,
            );
            let thit = spec_cache_get(
                old(cache).contents(),
                old(cache).is_available(),
                KeyModel::BoardTasks(board_id as int),
                now as int,
            );
            let cache_path = spec_boards_hit(bhit) && (exists|i: int|
                0 <= i < spec_hit_boards(bhit).len() && (#[trigger] spec_hit_boards(bhit)[i]).id
                    == board_id) && spec_tasks_hit(thit) && (exists|i: int|
                0 <= i < spec_hit_tasks(thit).len() && (#[trigger] spec_hit_tasks(thit)[i]).id
                    == task_id);
            &&& cache_path ==> (r matches Ok(t) && spec_hit_tasks(thit).contains(t) && t.id
                == task_id)
            &&& (!cache_path && store.is_healthy()) ==> {
                let visible = spec_board_owned(store.boards(), board_id, user_id) && exists|i: int|
                    0 <= i < store.tasks().len() && task_live_match(
                        #[trigger] store.tasks()[i],
                        task_id,
                        board_id,
                    );
                &&& (visible ==> (r matches Ok(t) && exists|i: int|
                    0 <= i < store.tasks().len() && task_live_match(
                        #[trigger] store.tasks()[i],
                        task_id,
                        board_id,
                    ) && t == spec_to_task(store.tasks()[i])))
                &&& (!visible ==> r == Err::<Task, RequestError>(RequestError::BadRequest))
            }
            &&& (!cache_path && !store.is_healthy()) ==> r == Err::<Task, RequestError>(
                RequestError::ServerFault,
            )
        }),
{
    let cached_boards = cache.get_user_boards(user_id, now);
    proof {
        lemma_after_read_stable(
            old(cache).contents(),
            old(cache).is_available(),
            KeyModel::UserBoards(user_id as int),
            now as int,
        );
    }
    if let Some(boards) = cached_boards {
        let mut found_board = false;
        let nb = boards.len();
        let mut i: usize = 0;
        #[verifier::loop_isolation(false)]
        while i < nb && !found_board
            invariant
                nb == boards@.len(),
                i <= nb,
                !found_board ==> forall|k: int|
                    0 <= k < i ==> (#[trigger] boards@[k]).id != board_id,
                found_board ==> exists|k: int|
                    0 <= k < boards@.len() && (#[trigger] boards@[k]).id == board_id,
            decreases nb - i + (if found_board { 0int } else { 1int }),
        {
            if boards[i].id == board_id {
                found_board = true;
            } else {
                i = i + 1;
            }
        }
        if found_board {
            let cached_tasks = cache.get_board_tasks(board_id, now);
            proof {
                lemma_after_read_stable(
                    spec_after_read(
                        old(cache).contents(),
                        old(cache).is_available(),
                        KeyModel::UserBoards(user_id as int),
                        now as int,
                    ),
                    old(cache).is_available(),
                    KeyModel::BoardTasks(board_id as int),
                    now as int,
                );
            }
            if let Some(tasks) = cached_tasks {
                let nt = tasks.len();
                let mut j: usize = 0;
                #[verifier::loop_isolation(false)]
                while j < nt
                    invariant
                        nt == tasks@.len(),
                        j <= nt,
                        forall|k: int| 0 <= k < j ==> (#[trigger] tasks@[k]).id != task_id,
                    decreases nt - j,
                {
                    if tasks[j].id == task_id {
                        let t = tasks[j].clone();
                        proof {
                            let bh = spec_cache_get(
                                old(cache).contents(),
                                old(cache).is_available(),
                                KeyModel::UserBoards(user_id as int),
                                now as int,
                            );
                            let th = spec_cache_get(
                                old(cache).contents(),
                                old(cache).is_available(),
                                KeyModel::BoardTasks(board_id as int),
                                now as int,
                            );
                            assert(spec_hit_boards(bh) == boards@);
                            assert(spec_hit_tasks(th) == tasks@);
                            let k = choose|k: int|
                                0 <= k < boards@.len() && (#[trigger] boards@[k]).id == board_id;
                            assert((spec_hit_boards(bh)[k]).id == board_id);
                            assert((spec_hit_tasks(th)[j as int]).id == task_id);
                            assert(tasks@.contains(tasks@[j as int]));
                            assert(spec_hit_tasks(th).contains(t));
                        }
                        return Ok(t);
                    }
                    j = j + 1;
                }
            }
        }
    }
    match store.find_task(task_id, board_id, user_id) {
        Ok(record) => {
            let task = record.to_task();
            Ok(task)
        },
        Err(PersistenceError::NotFound) => Err(RequestError::BadRequest),
        Err(_) => Err(RequestError::ServerFault),
    }
}

/// Creates a task on a live board of the requester and invalidates the
/// board's task-list key. A board of another owner fails exactly as an
/// absent one.
pub fn handle_create_task(
    store: &mut PersistenceGateway,
    cache: &mut CacheStore,
    user_id: i32,
    task_data: CreateTaskBody,
    now: i64,
) -> (r: Result<ServerResponse, RequestError>)
    requires
        old(store).wf(),
        old(store).can_assign_task_id(),
        old(cache).wf(),
    ensures
        final(store).wf(),
        final(cache).wf(),
        final(store).is_healthy() == old(store).is_healthy(),
        final(cache).is_available() == old(cache).is_available(),
        final(store).users() == old(store).users(),
        final(store).boards() == old(store).boards(),
        old(store).is_healthy() ==> {
            &&& (r is Ok <==> spec_board_visible(old(store).boards(), task_data.board_id, user_id))
            &&& (r matches Ok(resp) ==> resp.status == 200 && resp.message@ == "Task created"@
                && (exists|id: i32|
                final(store).tasks() == old(store).tasks().push(
                    TaskRecord {
                        id,
                        board_id: task_data.board_id,
                        title: task_data.title,
                        description: task_data.description,
                        status_id: crate::app_config::TASK_STATUS_OPEN,
                        last_status_change_time: now,
                        creation_time: now,
                    },
                ) && (forall|j: int|
                    0 <= j < old(store).tasks().len() ==> (#[trigger] old(store).tasks()[j]).id
                        != id)) && final(cache).contents() == if old(cache).is_available() {
                old(cache).contents().remove(KeyModel::BoardTasks(task_data.board_id as int))
            } else {
                old(cache).contents()
            })
            &&& (r matches Err(e) ==> e == RequestError::BadRequest && final(store).tasks() == old(store).tasks() && final(cache).contents() == old(cache).contents())
        },
        !old(store).is_healthy() ==> (r == Err::<ServerResponse, RequestError>(
            RequestError::ServerFault,
        ) && final(store).tasks() == old(store).tasks() && final(cache).contents() == old(cache).contents()),
{
    let CreateTaskBody { board_id, title, description } = task_data;
    match store.find_board(board_id, user_id) {
        Err(PersistenceError::NotFound) => {
            return Err(RequestError::BadRequest);
        },
        Err(_) => {
            return Err(RequestError::ServerFault);
        },
        Ok(_) => {},
    }
    match store.insert_task(board_id, title, description, now) {
        Ok(_) => {
            cache.drop_board_tasks(board_id);
            proof {
                reveal_strlit("Task created");
            }
            Ok(ServerResponse { status: 200, message: "Task created".to_owned() })
        },
        Err(_) => Err(RequestError::ServerFault),
    }
}

/// Updates a task on a live board of the requester and invalidates the
/// board's task-list key. The task's workflow timestamp moves in the
/// same write exactly when its status changes.
pub fn handle_change_task(
    store: &mut PersistenceGateway,
    cache: &mut CacheStore,
    user_id: i32,
    task_data: UpdateTaskBody,
    now: i64,
) -> (r: Result<ServerResponse, RequestError>)
    requires
        old(store).wf(),
        old(cache).wf(),
    ensures
        final(store).wf(),
        final(cache).wf(),
        final(store).is_healthy() == old(store).is_healthy(),
        final(cache).is_available() == old(cache).is_available(),
        final(store).users() == old(store).users(),
        final(store).boards() == old(store).boards(),
        old(store).is_healthy() ==> {
            &&& (r is Ok <==> spec_board_owned(old(store).boards(), task_data.board_id, user_id)
                && exists|i: int|
                0 <= i < old(store).tasks().len() && task_live_match(
                    #[trigger] old(store).tasks()[i],
                    task_data.id,
                    task_data.board_id,
                ))
            &&& (r matches Ok(resp) ==> resp.status == 200 && resp.message@ == "Task updated"@
                && final(cache).contents() == if old(cache).is_available() {
                old(cache).contents().remove(KeyModel::BoardTasks(task_data.board_id as int))
            } else {
                old(cache).contents()
            })
            &&& (r is Ok && spec_board_visible(old(store).boards(), task_data.board_id, user_id))
                ==> exists|i: int|
                0 <= i < old(store).tasks().len() && task_live_match(
                    #[trigger] old(store).tasks()[i],
                    task_data.id,
                    task_data.board_id,
                ) && final(store).tasks() == old(store).tasks().update(
                    i,
                    spec_task_updated(
                        old(store).tasks()[i],
                        task_data.title,
                        task_data.description,
                        task_data.status_id,
                        now,
                    ),
                )
            &&& (r is Ok && !spec_board_visible(old(store).boards(), task_data.board_id, user_id))
                ==> final(store).tasks() == old(store).tasks()
            &&& (r matches Err(e) ==> e == RequestError::BadRequest && final(store).tasks() == old(store).tasks() && final(cache).contents() == old(cache).contents())
        },
        !old(store).is_healthy() ==> (r == Err::<ServerResponse, RequestError>(
            RequestError::ServerFault,
        ) && final(store).tasks() == old(store).tasks() && final(cache).contents() == old(cache).contents()),
{
    let UpdateTaskBody { id, board_id, title, description, status_id } = task_data;
    match store.find_task(id, board_id, user_id) {
        Err(PersistenceError::NotFound) => {
            return Err(RequestError::BadRequest);
        },
        Err(_) => {
            return Err(RequestError::ServerFault);
        },
        Ok(_) => {},
    }
    match store.update_task(id, board_id, user_id, title, description, status_id, now) {
        Ok(_) => {
            cache.drop_board_tasks(board_id);
            proof {
                reveal_strlit("Task updated");
            }
            Ok(ServerResponse { status: 200, message: "Task updated".to_owned() })
        },
        Err(_) => Err(RequestError::ServerFault),
    }
}

/// Soft-deletes a task on a live board of the requester and invalidates
/// the board's task-list key; the workflow timestamp moves in the same
/// write.
pub fn handle_delete_task(
    store: &mut PersistenceGateway,
    cache: &mut CacheStore,
    user_id: i32,
    task_data: DeleteTaskBody,
    now: i64,
) -> (r: Result<ServerResponse, RequestError>)
    requires
        old(store).wf(),
        old(cache).wf(),
    ensures
        final(store).wf(),
        final(cache).wf(),
        final(store).is_healthy() == old(store).is_healthy(),
        final(cache).is_available() == old(cache).is_available(),
        final(store).users() == old(store).users(),
        final(store).boards() == old(store).boards(),
        old(store).is_healthy() ==> {
            &&& (r is Ok <==> spec_board_owned(old(store).boards(), task_data.board_id, user_id)
                && exists|i: int|
                0 <= i < old(store).tasks().len() && task_live_match(
                    #[trigger] old(store).tasks()[i],
                    task_data.id,
                    task_data.board_id,
                ))
            &&& (r matches Ok(resp) ==> resp.status == 200 && resp.message@ == "Task deleted"@
                && final(cache).contents() == if old(cache).is_available() {
                old(cache).contents().remove(KeyModel::BoardTasks(task_data.board_id as int))
            } else {
                old(cache).contents()
            })
            &&& (r is Ok && spec_board_visible(old(store).boards(), task_data.board_id, user_id))
                ==> exists|i: int|
                0 <= i < old(store).tasks().len() && task_live_match(
                    #[trigger] old(store).tasks()[i],
                    task_data.id,
                    task_data.board_id,
                ) && final(store).tasks() == old(store).tasks().update(
                    i,
                    spec_task_deleted(old(store).tasks()[i], now),
                )
            &&& (r is Ok && !spec_board_visible(old(store).boards(), task_data.board_id, user_id))
                ==> final(store).tasks() == old(store).tasks()
            &&& (r matches Err(e) ==> e == RequestError::BadRequest && final(store).tasks() == old(store).tasks() && final(cache).contents() == old(cache).contents())
        },
        !old(store).is_healthy() ==> (r == Err::<ServerResponse, RequestError>(
            RequestError::ServerFault,
        ) && final(store).tasks() == old(store).tasks() && final(cache).contents() == old(cache).contents()),
{
    let DeleteTaskBody { id, board_id } = task_data;
    match store.find_task(id, board_id, user_id) {
        Err(PersistenceError::NotFound) => {
            return Err(RequestError::BadRequest);
        },
        Err(_) => {
            return Err(RequestError::ServerFault);
        },
        Ok(_) => {},
    }
    match store.soft_delete_task(id, board_id, user_id, now) {
        Ok(_) => {
            cache.drop_board_tasks(board_id);
            proof {
                reveal_strlit("Task deleted");
            }
            Ok(ServerResponse { status: 200, message: "Task deleted".to_owned() })
        },
        Err(_) => Err(RequestError::ServerFault),
    }
}

} // verus!
