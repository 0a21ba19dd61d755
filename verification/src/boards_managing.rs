//! Board handlers: the cache-aside read of a user's board list and the
//! mutations that invalidate it.
//!
//! Every mutation writes the store of record first and invalidates the
//! owner's board-list key only when that write succeeded; a failed write
//! leaves the cache alone, since it may still reflect the pre-write
//! state. A concurrent reader may see the stale list in the window
//! between the write and the invalidation; that staleness is bounded and
//! accepted.

use vstd::prelude::*;

use crate::app_config::STORED_DATA_EXPIRATION_TIME;
use crate::cache::{
    spec_after_read, spec_boards_hit, spec_cache_get, spec_hit_boards, CacheStore, KeyModel,
    ValueModel,
};
use crate::models::{
    Board, BoardRecord, CreateBoardBody, DeleteBoardBody, PersistenceError, RequestError,
    ServerResponse, UpdateBoardBody,
};
use crate::store::{
    spec_board_deleted, spec_board_retitled, spec_board_visible, spec_owner_boards,
    PersistenceGateway,
};

verus! {

/// The cached shape of one board row.
pub open spec fn spec_to_board(b: BoardRecord) -> Board {
    Board { id: b.id, title: b.title, description: b.description, creation_time: b.creation_time }
}

/// The cached shapes of a run of board rows.
pub open spec fn spec_boards_of(rs: Seq<BoardRecord>) -> Seq<Board> {
    rs.map_values(|b: BoardRecord| spec_to_board(b))
}

/// Turns gateway rows into their cached shapes.
fn boards_of_records(records: &Vec<BoardRecord>) -> (r: Vec<Board>)
    ensures
        r@ == spec_boards_of(records@),
{
    let n = records.len();
    let mut out: Vec<Board> = Vec::new();
    proof {
        assert(out@ =~= spec_boards_of(records@.take(0)));
    }
    let mut i: usize = 0;
    #[verifier::loop_isolation(false)]
    while i < n
        invariant
            n == records@.len(),
            i <= n,
            out@ == spec_boards_of(records@.take(i as int)),
        decreases n - i,
    {
        out.push(records[i].to_board());
        proof {
            assert(out@ =~= spec_boards_of(records@.take(i + 1)));
        }
        i = i + 1;
    }
    proof {
        assert(records@.take(n as int) =~= records@);
    }
    out
}

/// The board list of one user: served from the cache when a fresh,
/// non-empty list is there; otherwise read from the store of record —
/// in stored order, which is creation order — written back to the
/// cache, and returned.
pub fn handle_user_boards(
    store: &PersistenceGateway,
    cache: &mut CacheStore,
    user_id: i32,
    now: i64,
) -> (r: Result<Vec<Board>, RequestError>)
    requires
        store.wf(),
        old(cache).wf(),
        0 <= now <= i64::MAX - STORED_DATA_EXPIRATION_TIME,
    ensures
        final(cache).wf(),
        final(cache).is_available() == old(cache).is_available(),
        ({
            let hit = spec_cache_get(
                old(cache).contents(),
                old(cache).is_available(),
                KeyModel::UserBoards(user_id as int),
                now as int,
            );
            let missed = spec_after_read(
                old(cache).contents(),
                old(cache).is_available(),
                KeyModel::UserBoards(user_id as int),
                now as int,
            );
            &&& spec_boards_hit(hit) ==> (r matches Ok(v) && v@ == spec_hit_boards(hit) && final(cache).contents() == old(cache).contents())
            &&& (!spec_boards_hit(hit) && store.is_healthy()) ==> (r matches Ok(v) && v@
                == spec_boards_of(spec_owner_boards(store.boards(), user_id)) && final(cache).contents() == if old(cache).is_available() {
                missed.insert(
                    KeyModel::UserBoards(user_id as int),
                    (ValueModel::Boards(v@), now + STORED_DATA_EXPIRATION_TIME),
                )
            } else {
                missed
            })
            &&& (!spec_boards_hit(hit) && !store.is_healthy()) ==> (r == Err::<
                Vec<Board>,
                RequestError,
            >(RequestError::ServerFault) && final(cache).contents() == missed)
        }),
{
    if let Some(list) = cache.get_user_boards(user_id, now) {
        return Ok(list);
    }
    match store.boards_for_owner(user_id) {
        Ok(records) => {
            let boards = boards_of_records(&records);
            cache.put_user_boards(user_id, &boards, now);
            Ok(boards)
        },
        Err(_) => Err(RequestError::ServerFault),
    }
}

/// Creates a board owned by the requester and invalidates the owner's
/// board-list key, so the next read repopulates from the store.
pub fn handle_create_board(
    store: &mut PersistenceGateway,
    cache: &mut CacheStore,
    user_id: i32,
    board_data: CreateBoardBody,
    now: i64,
) -> (r: Result<ServerResponse, RequestError>)
    requires
        old(store).wf(),
        old(store).can_assign_board_id(),
        old(cache).wf(),
    ensures
        final(store).wf(),
        final(cache).wf(),
        final(store).is_healthy() == old(store).is_healthy(),
        final(cache).is_available() == old(cache).is_available(),
        final(store).users() == old(store).users(),
        final(store).tasks() == old(store).tasks(),
        old(store).is_healthy() ==> (r matches Ok(resp) && resp.status == 200 && resp.message@
            == "Board created"@ && (exists|id: i32|
            final(store).boards() == old(store).boards().push(
                BoardRecord {
                    id,
                    owner_id: user_id,
                    title: board_data.title,
                    description: board_data.description,
                    status_id: crate::app_config::BOARD_STATUS_ACTIVE,
                    creation_time: now,
                },
            ) && (forall|j: int|
                0 <= j < old(store).boards().len() ==> (#[trigger] old(store).boards()[j]).id
                    != id)) && final(cache).contents() == if old(cache).is_available() {
            old(cache).contents().remove(KeyModel::UserBoards(user_id as int))
        } else {
            old(cache).contents()
        }),
        !old(store).is_healthy() ==> (r == Err::<ServerResponse, RequestError>(
            RequestError::ServerFault,
        ) && final(store).boards() == old(store).boards() && final(cache).contents() == old(cache).contents()),
{
    let CreateBoardBody { title, description } = board_data;
    match store.insert_board(user_id, title, description, now) {
        Ok(_) => {
            cache.drop_user_boards(user_id);
            proof {
                reveal_strlit("Board created");
            }
            Ok(ServerResponse { status: 200, message: "Board created".to_owned() })
        },
        Err(_) => Err(RequestError::ServerFault),
    }
}

/// Retitles a board of the requester and invalidates the owner's
/// board-list key. A board of another owner fails exactly as an absent
/// one, and the cache is left alone.
pub fn handle_change_board(
    store: &mut PersistenceGateway,
    cache: &mut CacheStore,
    user_id: i32,
    board_data: UpdateBoardBody,
) -> (r: Result<ServerResponse, RequestError>)
    requires
        old(store).wf(),
        old(cache).wf(),
    ensures
        final(store).wf(),
        final(cache).wf(),
        final(store).is_healthy() == old(store).is_healthy(),
        final(cache).is_available() == old(cache).is_available(),
        final(store).users() == old(store).users(),
        final(store).tasks() == old(store).tasks(),
        old(store).is_healthy() ==> {
            &&& (r is Ok <==> spec_board_visible(old(store).boards(), board_data.id, user_id))
            &&& (r matches Ok(resp) ==> resp.status == 200 && resp.message@ == "Board updated"@
                && (exists|i: int|
                0 <= i < old(store).boards().len() && (#[trigger] old(store).boards()[i]).id
                    == board_data.id && old(store).boards()[i].owner_id == user_id && old(store).boards()[i].status_id == crate::app_config::BOARD_STATUS_ACTIVE && final(store).boards() == old(store).boards().update(
                    i,
                    spec_board_retitled(
                        old(store).boards()[i],
                        board_data.title,
                        board_data.description,
                    ),
                )) && final(cache).contents() == if old(cache).is_available() {
                old(cache).contents().remove(KeyModel::UserBoards(user_id as int))
            } else {
                old(cache).contents()
            })
            &&& (r matches Err(e) ==> e == RequestError::BadRequest && final(store).boards()
                == old(store).boards() && final(cache).contents() == old(cache).contents())
        },
        !old(store).is_healthy() ==> (r == Err::<ServerResponse, RequestError>(
            RequestError::ServerFault,
        ) && final(store).boards() == old(store).boards() && final(cache).contents() == old(cache).contents()),
{
    let UpdateBoardBody { id, title, description } = board_data;
    match store.update_board(id, user_id, title, description) {
        Ok(()) => {
            cache.drop_user_boards(user_id);
            proof {
                reveal_strlit("Board updated");
            }
            Ok(ServerResponse { status: 200, message: "Board updated".to_owned() })
        },
        Err(PersistenceError::NotFound) => Err(RequestError::BadRequest),
        Err(_) => Err(RequestError::ServerFault),
    }
}

/// Soft-deletes a board of the requester and invalidates the owner's
/// board-list key. A board of another owner fails exactly as an absent
/// one.
pub fn handle_delete_board(
    store: &mut PersistenceGateway,
    cache: &mut CacheStore,
    user_id: i32,
    board_data: DeleteBoardBody,
) -> (r: Result<ServerResponse, RequestError>)
    requires
        old(store).wf(),
        old(cache).wf(),
    ensures
        final(store).wf(),
        final(cache).wf(),
        final(store).is_healthy() == old(store).is_healthy(),
        final(cache).is_available() == old(cache).is_available(),
        final(store).users() == old(store).users(),
        final(store).tasks() == old(store).tasks(),
        old(store).is_healthy() ==> {
            &&& (r is Ok <==> spec_board_visible(old(store).boards(), board_data.id, user_id))
            &&& (r matches Ok(resp) ==> resp.status == 200 && resp.message@ == "Board deleted"@
                && (exists|i: int|
                0 <= i < old(store).boards().len() && (#[trigger] old(store).boards()[i]).id
                    == board_data.id && old(store).boards()[i].owner_id == user_id && old(store).boards()[i].status_id == crate::app_config::BOARD_STATUS_ACTIVE && final(store).boards() == old(store).boards().update(
                    i,
                    spec_board_deleted(old(store).boards()[i]),
                )) && final(cache).contents() == if old(cache).is_available() {
                old(cache).contents().remove(KeyModel::UserBoards(user_id as int))
            } else {
                old(cache).contents()
            })
            &&& (r matches Err(e) ==> e == RequestError::BadRequest && final(store).boards()
                == old(store).boards() && final(cache).contents() == old(cache).contents())
        },
        !old(store).is_healthy() ==> (r == Err::<ServerResponse, RequestError>(
            RequestError::ServerFault,
        ) && final(store).boards() == old(store).boards() && final(cache).contents() == old(cache).contents()),
{
    let DeleteBoardBody { id } = board_data;
    match store.soft_delete_board(id, user_id) {
        Ok(()) => {
            cache.drop_user_boards(user_id);
            proof {
                reveal_strlit("Board deleted");
            }
            Ok(ServerResponse { status: 200, message: "Board deleted".to_owned() })
        },
        Err(PersistenceError::NotFound) => Err(RequestError::BadRequest),
        Err(_) => Err(RequestError::ServerFault),
    }
}

} // verus!
