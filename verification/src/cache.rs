//! The cache-aside store: get/put/invalidate over keyed entries, each
//! carrying its own expiration. All expiry logic lives here; every read
//! past an entry's expiration is a miss that also drops the entry.
//!
//! The store models a remote cache that can become unavailable: while it
//! is unavailable every read misses and every write is lost, and no
//! operation fails — cache faults never become request faults.

use vstd::prelude::*;
use vstd::pervasive::VecAdditionalExecFns;

use crate::app_config::{STORED_DATA_EXPIRATION_TIME, USER_DATA_EXPIRATION_TIME};
use crate::models::{Board, Task, User};
use crate::numfmt::{i32_to_dec, spec_dec_i64};

verus! {

/// A cache key: one entity, one list, or the email index.
pub enum CacheKey {
    /// `user:<id>:data` — one user record.
    UserData(i32),
    /// `user_email:<email>:id` — the id a mail address resolves to.
    UserEmailIndex(String),
    /// `user:<id>:boards` — the board list of one user.
    UserBoards(i32),
    /// `board:<id>:tasks` — the task list of one board.
    BoardTasks(i32),
}

/// The mathematical form of a cache key.
pub enum KeyModel {
    UserData(int),
    UserEmailIndex(Seq<char>),
    UserBoards(int),
    BoardTasks(int),
}

/// A cached value.
pub enum CacheValue {
    UserData(User),
    UserId(i32),
    Boards(Vec<Board>),
    Tasks(Vec<Task>),
}

/// The mathematical form of a cached value.
pub enum ValueModel {
    UserData(User),
    UserId(int),
    Boards(Seq<Board>),
    Tasks(Seq<Task>),
}

/// The key a cache record is stored under, as a mathematical value.
pub open spec fn key_model(k: CacheKey) -> KeyModel {
    match k {
        CacheKey::UserData(id) => KeyModel::UserData(id as int),
        CacheKey::UserEmailIndex(e) => KeyModel::UserEmailIndex(e@),
        CacheKey::UserBoards(id) => KeyModel::UserBoards(id as int),
        CacheKey::BoardTasks(id) => KeyModel::BoardTasks(id as int),
    }
}

/// The mathematical form of a cached value.
pub open spec fn value_model(v: CacheValue) -> ValueModel {
    match v {
        CacheValue::UserData(u) => ValueModel::UserData(u),
        CacheValue::UserId(id) => ValueModel::UserId(id as int),
        CacheValue::Boards(bs) => ValueModel::Boards(bs@),
        CacheValue::Tasks(ts) => ValueModel::Tasks(ts@),
    }
}

/// A key only ever stores the kind of value it names, and a user record
/// sits only under the key of its own id.
pub open spec fn typed(k: KeyModel, v: ValueModel) -> bool {
    match k {
        KeyModel::UserData(id) => match v {
            ValueModel::UserData(u) => u.id as int == id,
            _ => false,
        },
        KeyModel::UserEmailIndex(_) => v is UserId,
        KeyModel::UserBoards(_) => v is Boards,
        KeyModel::BoardTasks(_) => v is Tasks,
    }
}

impl Clone for CacheValue {
    fn clone(&self) -> (res: Self)
        ensures
            value_model(res) == value_model(*self),
    {
        match self {
            CacheValue::UserData(u) => CacheValue::UserData(u.clone()),
            CacheValue::UserId(id) => CacheValue::UserId(*id),
            CacheValue::Boards(bs) => {
                let copy = bs.clone();
                proof {
                    assert(copy@ =~= bs@);
                }
                CacheValue::Boards(copy)
            },
            CacheValue::Tasks(ts) => {
                let copy = ts.clone();
                proof {
                    assert(copy@ =~= ts@);
                }
                CacheValue::Tasks(copy)
            },
        }
    }
}

/// One stored entry: a key, its value, and the moment past which the
/// value is never trusted again.
pub struct CacheRecord {
    pub key: CacheKey,
    pub value: CacheValue,
    pub expires_at: i64,
}

/// The key of a record, in mathematical form.
pub open spec fn rec_key(r: CacheRecord) -> KeyModel {
    key_model(r.key)
}

/// The value and expiration of a record, in mathematical form.
pub open spec fn rec_val(r: CacheRecord) -> (ValueModel, int) {
    (value_model(r.value), r.expires_at as int)
}

/// The map a run of records denotes: later records win.
pub open spec fn map_of(s: Seq<CacheRecord>) -> Map<KeyModel, (ValueModel, int)>
    decreases s.len(),
{
    if s.len() == 0 {
        Map::empty()
    } else {
        map_of(s.drop_last()).insert(rec_key(s.last()), rec_val(s.last()))
    }
}

/// No two records share a key.
pub open spec fn nodup(s: Seq<CacheRecord>) -> bool {
    forall|i: int, j: int| 0 <= i < j < s.len() ==> rec_key(s[i]) != rec_key(s[j])
}

/// Every record holds the kind of value its key names.
pub open spec fn all_typed(s: Seq<CacheRecord>) -> bool {
    forall|i: int| 0 <= i < s.len() ==> typed(rec_key(#[trigger] s[i]), value_model(s[i].value))
}

/// What a read of `k` at `now` returns from a cache with contents `m`:
/// the stored value when the cache is reachable, the key is present and
/// the entry has not expired; nothing otherwise.
pub open spec fn spec_cache_get(
    m: Map<KeyModel, (ValueModel, int)>,
    available: bool,
    k: KeyModel,
    now: int,
) -> Option<ValueModel> {
    if available && m.contains_key(k) && now <= m[k].1 {
        Some(m[k].0)
    } else {
        None
    }
}

/// The contents of a cache after one read of `k` at `now`: unchanged,
/// except that a read past an entry's expiration drops the entry.
pub open spec fn spec_after_read(
    m: Map<KeyModel, (ValueModel, int)>,
    available: bool,
    k: KeyModel,
    now: int,
) -> Map<KeyModel, (ValueModel, int)> {
    if available && m.contains_key(k) && now > m[k].1 {
        m.remove(k)
    } else {
        m
    }
}


/// Whether a cache read produced a usable list of boards: present,
/// of the right kind, and non-empty.
pub open spec fn spec_boards_hit(o: Option<ValueModel>) -> bool {
    match o {
        Some(ValueModel::Boards(bs)) => bs.len() > 0,
        _ => false,
    }
}

/// The board list a cache read produced.
pub open spec fn spec_hit_boards(o: Option<ValueModel>) -> Seq<Board> {
    match o {
        Some(ValueModel::Boards(bs)) => bs,
        _ => Seq::empty(),
    }
}

/// Whether a cache read produced a usable list of tasks: present,
/// of the right kind, and non-empty.
pub open spec fn spec_tasks_hit(o: Option<ValueModel>) -> bool {
    match o {
        Some(ValueModel::Tasks(ts)) => ts.len() > 0,
        _ => false,
    }
}

/// The task list a cache read produced.
pub open spec fn spec_hit_tasks(o: Option<ValueModel>) -> Seq<Task> {
    match o {
        Some(ValueModel::Tasks(ts)) => ts,
        _ => Seq::empty(),
    }
}

proof fn lemma_map_of_contains(s: Seq<CacheRecord>, k: KeyModel)
    ensures
        map_of(s).contains_key(k) <==> exists|i: int| 0 <= i < s.len() && rec_key(s[i]) == k,
    decreases s.len(),
{
    if s.len() > 0 {
        lemma_map_of_contains(s.drop_last(), k);
        if map_of(s).contains_key(k) {
            if rec_key(s.last()) == k {
                assert(rec_key(s[s.len() - 1]) == k);
            } else {
                let i = choose|i: int| 0 <= i < s.drop_last().len() && rec_key(
                    s.drop_last()[i],
                ) == k;
                assert(rec_key(s[i]) == k);
            }
        }
        if exists|i: int| 0 <= i < s.len() && rec_key(s[i]) == k {
            let i = choose|i: int| 0 <= i < s.len() && rec_key(s[i]) == k;
            if i < s.len() - 1 {
                assert(rec_key(s.drop_last()[i]) == k);
            }
        }
    }
}

proof fn lemma_map_of_value(s: Seq<CacheRecord>, i: int)
    requires
        nodup(s),
        0 <= i < s.len(),
    ensures
        map_of(s).contains_key(rec_key(s[i])),
        map_of(s)[rec_key(s[i])] == rec_val(s[i]),
    decreases s.len(),
{
    if i == s.len() - 1 {
    } else {
        assert(nodup(s.drop_last()));
        assert(s.drop_last()[i] == s[i]);
        lemma_map_of_value(s.drop_last(), i);
        assert(rec_key(s[i]) != rec_key(s[s.len() - 1]));
    }
}

proof fn lemma_map_of_typed(s: Seq<CacheRecord>, k: KeyModel)
    requires
        nodup(s),
        all_typed(s),
        map_of(s).contains_key(k),
    ensures
        typed(k, map_of(s)[k].0),
{
    lemma_map_of_contains(s, k);
    let i = choose|i: int| 0 <= i < s.len() && rec_key(s[i]) == k;
    lemma_map_of_value(s, i);
}

proof fn lemma_map_of_update(s: Seq<CacheRecord>, i: int, r: CacheRecord)
    requires
        nodup(s),
        0 <= i < s.len(),
        rec_key(r) == rec_key(s[i]),
    ensures
        map_of(s.update(i, r)) == map_of(s).insert(rec_key(r), rec_val(r)),
    decreases s.len(),
{
    let s2 = s.update(i, r);
    if i == s.len() - 1 {
        assert(s2.drop_last() =~= s.drop_last());
        assert(s2.last() == r);
        assert(map_of(s2) == map_of(s.drop_last()).insert(rec_key(r), rec_val(r)));
        assert(map_of(s.drop_last()).insert(rec_key(s.last()), rec_val(s.last())).insert(
            rec_key(r),
            rec_val(r),
        ) =~= map_of(s.drop_last()).insert(rec_key(r), rec_val(r)));
    } else {
        assert(nodup(s.drop_last()));
        assert(s.drop_last()[i] == s[i]);
        lemma_map_of_update(s.drop_last(), i, r);
        assert(s2.drop_last() =~= s.drop_last().update(i, r));
        assert(s2.last() == s.last());
        assert(rec_key(s[i]) != rec_key(s[s.len() - 1]));
        assert(map_of(s2) == map_of(s.drop_last()).insert(rec_key(r), rec_val(r)).insert(
            rec_key(s.last()),
            rec_val(s.last()),
        ));
        assert(map_of(s.drop_last()).insert(rec_key(r), rec_val(r)).insert(
            rec_key(s.last()),
            rec_val(s.last()),
        ) =~= map_of(s).insert(rec_key(r), rec_val(r)));
    }
}

proof fn lemma_map_of_remove(s: Seq<CacheRecord>, i: int)
    requires
        nodup(s),
        0 <= i < s.len(),
    ensures
        map_of(s.remove(i)) == map_of(s).remove(rec_key(s[i])),
    decreases s.len(),
{
    let s2 = s.remove(i);
    if i == s.len() - 1 {
        assert(s2 =~= s.drop_last());
        lemma_map_of_contains(s.drop_last(), rec_key(s[i]));
        assert(forall|j: int|
            0 <= j < s.drop_last().len() ==> rec_key(#[trigger] s.drop_last()[j]) != rec_key(
                s[i],
            ));
        assert(!map_of(s.drop_last()).contains_key(rec_key(s[i])));
        assert(map_of(s.drop_last()).insert(rec_key(s.last()), rec_val(s.last())).remove(
            rec_key(s[i]),
        ) =~= map_of(s.drop_last()));
    } else {
        assert(nodup(s.drop_last()));
        assert(s.drop_last()[i] == s[i]);
        lemma_map_of_remove(s.drop_last(), i);
        assert(s2.drop_last() =~= s.drop_last().remove(i));
        assert(s2.last() == s.last());
        assert(rec_key(s[i]) != rec_key(s[s.len() - 1]));
        assert(map_of(s2) == map_of(s.drop_last()).remove(rec_key(s[i])).insert(
            rec_key(s.last()),
            rec_val(s.last()),
        ));
        assert(map_of(s.drop_last()).remove(rec_key(s[i])).insert(
            rec_key(s.last()),
            rec_val(s.last()),
        ) =~= map_of(s).remove(rec_key(s[i])));
    }
}

proof fn lemma_map_of_push(s: Seq<CacheRecord>, r: CacheRecord)
    ensures
        map_of(s.push(r)) == map_of(s).insert(rec_key(r), rec_val(r)),
{
    assert(s.push(r).drop_last() =~= s);
    assert(s.push(r).last() == r);
}

/// Compares two keys.
fn key_eq(a: &CacheKey, b: &CacheKey) -> (r: bool)
    ensures
        r == (key_model(*a) == key_model(*b)),
{
    match (a, b) {
        (CacheKey::UserData(x), CacheKey::UserData(y)) => {
            proof {
                assert((*x == *y) == (key_model(*a) == key_model(*b)));
            }
            *x == *y
        },
        (CacheKey::UserEmailIndex(e1), CacheKey::UserEmailIndex(e2)) => {
            let r = e1.eq(e2);
            proof {
                assert(r == (key_model(*a) == key_model(*b)));
            }
            r
        },
        (CacheKey::UserBoards(x), CacheKey::UserBoards(y)) => {
            proof {
                assert((*x == *y) == (key_model(*a) == key_model(*b)));
            }
            *x == *y
        },
        (CacheKey::BoardTasks(x), CacheKey::BoardTasks(y)) => {
            proof {
                assert((*x == *y) == (key_model(*a) == key_model(*b)));
            }
            *x == *y
        },
        _ => {
            proof {
                assert(key_model(*a) != key_model(*b));
            }
            false
        },
    }
}

/// The cache-aside store.
pub struct CacheStore {
    available: bool,
    entries: Vec<CacheRecord>,
}

impl CacheStore {
    /// The stored entries: each present key with its value and its
    /// expiration time.
    pub closed spec fn contents(&self) -> Map<KeyModel, (ValueModel, int)> {
        map_of(self.entries@)
    }

    /// Whether the cache is reachable.
    pub closed spec fn is_available(&self) -> bool {
        self.available
    }

    /// Internal consistency: one record per key, each of the kind its
    /// key names.
    pub closed spec fn wf(&self) -> bool {
        nodup(self.entries@) && all_typed(self.entries@)
    }

    /// A fresh, reachable, empty cache.
    pub fn new() -> (r: Self)
        ensures
            r.wf(),
            r.is_available(),
            r.contents() == Map::<KeyModel, (ValueModel, int)>::empty(),
    {
        CacheStore { available: true, entries: Vec::new() }
    }

    /// Makes the cache reachable or unreachable; what it stores is kept.
    pub fn set_available(&mut self, available: bool)
        requires
            old(self).wf(),
        ensures
            final(self).wf(),
            final(self).is_available() == available,
            final(self).contents() == old(self).contents(),
    {
        self.available = available;
    }

    fn find(&self, key: &CacheKey) -> (r: Option<usize>)
        requires
            self.wf(),
        ensures
            r matches Some(i) ==> i < self.entries@.len() && rec_key(self.entries@[i as int])
                == key_model(*key),
            r is None ==> forall|i: int|
                0 <= i < self.entries@.len() ==> rec_key(#[trigger] self.entries@[i])
                    != key_model(*key),
    {
        let n = self.entries.len();
        let mut i: usize = 0;
        while i < n
            invariant
                n == self.entries@.len(),
                i <= n,
                forall|k: int|
                    0 <= k < i ==> rec_key(#[trigger] self.entries@[k]) != key_model(*key),
            decreases n - i,
        {
            if key_eq(&self.entries[i].key, key) {
                return Some(i);
            }
            i = i + 1;
        }
        None
    }

    /// Reads `key` at time `now`. A hit returns the stored value; a read
    /// past the entry's expiration is a miss that also drops the entry;
    /// an unreachable cache always misses.
    pub fn get(&mut self, key: &CacheKey, now: i64) -> (r: Option<CacheValue>)
        requires
            old(self).wf(),
        ensures
            final(self).wf(),
            final(self).is_available() == old(self).is_available(),
            r matches Some(v) ==> Some(value_model(v)) == spec_cache_get(
                old(self).contents(),
                old(self).is_available(),
                key_model(*key),
                now as int,
            ),
            r is None <==> spec_cache_get(
                old(self).contents(),
                old(self).is_available(),
                key_model(*key),
                now as int,
            ) is None,
            final(self).contents() == if old(self).is_available()
                && old(self).contents().contains_key(key_model(*key)) && now as int > old(
                self,
            ).contents()[key_model(*key)].1 {
                old(self).contents().remove(key_model(*key))
            } else {
                old(self).contents()
            },
    {
        if !self.available {
            return None;
        }
        proof {
            lemma_map_of_contains(self.entries@, key_model(*key));
        }
        match self.find(key) {
            None => None,
            Some(i) => {
                proof {
                    lemma_map_of_value(self.entries@, i as int);
                }
                if self.entries[i].expires_at < now {
                    proof {
                        lemma_map_of_remove(self.entries@, i as int);
                        assert(nodup(self.entries@.remove(i as int)));
                        assert(all_typed(self.entries@.remove(i as int)));
                    }
                    let _ = self.entries.remove(i);
                    None
                } else {
                    Some(self.entries[i].value.clone())
                }
            },
        }
    }

    /// Writes `key` with `value`, superseding any prior entry and
    /// resetting its time to live. Lost while the cache is unreachable.
    pub fn put(&mut self, key: CacheKey, value: CacheValue, ttl: i64, now: i64)
        requires
            old(self).wf(),
            typed(key_model(key), value_model(value)),
            0 <= ttl,
            now <= i64::MAX - ttl,
        ensures
            final(self).wf(),
            final(self).is_available() == old(self).is_available(),
            final(self).contents() == if old(self).is_available() {
                old(self).contents().insert(
                    key_model(key),
                    (value_model(value), now as int + ttl as int),
                )
            } else {
                old(self).contents()
            },
    {
        if !self.available {
            return ;
        }
        let expires_at = now + ttl;
        let found = self.find(&key);
        let rec = CacheRecord { key, value, expires_at };
        match found {
            Some(i) => {
                proof {
                    lemma_map_of_update(self.entries@, i as int, rec);
                    assert(nodup(self.entries@.update(i as int, rec)));
                    assert(all_typed(self.entries@.update(i as int, rec)));
                }
                self.entries.set(i, rec);
            },
            None => {
                proof {
                    lemma_map_of_push(self.entries@, rec);
                    assert(nodup(self.entries@.push(rec)));
                    assert(all_typed(self.entries@.push(rec)));
                }
                self.entries.push(rec);
            },
        }
    }

    /// Deletes `key`. Idempotent: deleting an absent key changes
    /// nothing and is no error. Lost while the cache is unreachable.
    pub fn invalidate(&mut self, key: &CacheKey)
        requires
            old(self).wf(),
        ensures
            final(self).wf(),
            final(self).is_available() == old(self).is_available(),
            final(self).contents() == if old(self).is_available() {
                old(self).contents().remove(key_model(*key))
            } else {
                old(self).contents()
            },
    {
        if !self.available {
            return ;
        }
        proof {
            lemma_map_of_contains(self.entries@, key_model(*key));
        }
        match self.find(key) {
            None => {
                proof {
                    assert(!old(self).contents().contains_key(key_model(*key)));
                    assert(old(self).contents().remove(key_model(*key)) =~= old(
                        self,
                    ).contents());
                }
            },
            Some(i) => {
                proof {
                    lemma_map_of_remove(self.entries@, i as int);
                    assert(nodup(self.entries@.remove(i as int)));
                    assert(all_typed(self.entries@.remove(i as int)));
                }
                let _ = self.entries.remove(i);
            },
        }
    }

    /// Every present key holds the kind of value it names.
    pub proof fn lemma_typed(&self)
        requires
            self.wf(),
        ensures
            forall|k: KeyModel| #[trigger]
                self.contents().contains_key(k) ==> typed(k, self.contents()[k].0),
    {
        assert forall|k: KeyModel| #[trigger] self.contents().contains_key(k) implies typed(
            k,
            self.contents()[k].0,
        ) by {
            lemma_map_of_typed(self.entries@, k);
        }
    }
}

/// The time to live of a cached user record: the caller's override or
/// the default.
pub open spec fn spec_user_ttl(lifetime: Option<i64>) -> int {
    match lifetime {
        Some(l) => l as int,
        None => USER_DATA_EXPIRATION_TIME as int,
    }
}

impl CacheStore {
    /// Stores the id that a mail address resolves to, under the
    /// `user_email:<email>:id` key.
    pub fn set_email_userid_map(&mut self, email: &String, user_id: i32, now: i64)
        requires
            old(self).wf(),
            now <= i64::MAX - USER_DATA_EXPIRATION_TIME,
            now >= 0,
        ensures
            final(self).wf(),
            final(self).is_available() == old(self).is_available(),
            final(self).contents() == if old(self).is_available() {
                old(self).contents().insert(
                    KeyModel::UserEmailIndex(email@),
                    (ValueModel::UserId(user_id as int), now + USER_DATA_EXPIRATION_TIME),
                )
            } else {
                old(self).contents()
            },
    {
        self.put(
            CacheKey::UserEmailIndex(email.clone()),
            CacheValue::UserId(user_id),
            USER_DATA_EXPIRATION_TIME,
            now,
        );
    }

    /// Resolves a mail address through the index.
    pub fn check_email(&mut self, email: &String, now: i64) -> (r: Option<i32>)
        requires
            old(self).wf(),
        ensures
            final(self).wf(),
            final(self).is_available() == old(self).is_available(),
            r matches Some(uid) ==> spec_cache_get(
                old(self).contents(),
                old(self).is_available(),
                KeyModel::UserEmailIndex(email@),
                now as int,
            ) == Some(ValueModel::UserId(uid as int)),
            r is None <==> spec_cache_get(
                old(self).contents(),
                old(self).is_available(),
                KeyModel::UserEmailIndex(email@),
                now as int,
            ) is None,
            final(self).contents() == spec_after_read(
                old(self).contents(),
                old(self).is_available(),
                KeyModel::UserEmailIndex(email@),
                now as int,
            ),
    {
        proof {
            self.lemma_typed();
        }
        let key = CacheKey::UserEmailIndex(email.clone());
        match self.get(&key, now) {
            Some(CacheValue::UserId(uid)) => Some(uid),
            Some(_) => None,
            None => None,
        }
    }

    /// Caches a user record under `user:<id>:data` — with the caller's
    /// time to live, or the default — and refreshes the email index.
    pub fn put_user_data(&mut self, user: User, lifetime: Option<i64>, now: i64)
        requires
            old(self).wf(),
            now >= 0,
            lifetime matches Some(l) ==> 0 <= l && now <= i64::MAX - l,
            now <= i64::MAX - USER_DATA_EXPIRATION_TIME,
        ensures
            final(self).wf(),
            final(self).is_available() == old(self).is_available(),
            final(self).contents() == if old(self).is_available() {
                old(self).contents().insert(
                    KeyModel::UserData(user.id as int),
                    (ValueModel::UserData(user), now + spec_user_ttl(lifetime)),
                ).insert(
                    KeyModel::UserEmailIndex(user.email@),
                    (ValueModel::UserId(user.id as int), now + USER_DATA_EXPIRATION_TIME),
                )
            } else {
                old(self).contents()
            },
    {
        let email = user.email.clone();
        let user_id = user.id;
        let ttl = match lifetime {
            Some(l) => l,
            None => USER_DATA_EXPIRATION_TIME,
        };
        self.put(CacheKey::UserData(user_id), CacheValue::UserData(user), ttl, now);
        self.set_email_userid_map(&email, user_id, now);
    }

    /// Reads the cached record of one user.
    pub fn get_user_data_by_id(&mut self, user_id: i32, now: i64) -> (r: Option<User>)
        requires
            old(self).wf(),
        ensures
            final(self).wf(),
            final(self).is_available() == old(self).is_available(),
            r matches Some(u) ==> spec_cache_get(
                old(self).contents(),
                old(self).is_available(),
                KeyModel::UserData(user_id as int),
                now as int,
            ) == Some(ValueModel::UserData(u)) && u.id == user_id,
            r is None <==> spec_cache_get(
                old(self).contents(),
                old(self).is_available(),
                KeyModel::UserData(user_id as int),
                now as int,
            ) is None,
            final(self).contents() == spec_after_read(
                old(self).contents(),
                old(self).is_available(),
                KeyModel::UserData(user_id as int),
                now as int,
            ),
    {
        proof {
            self.lemma_typed();
        }
        match self.get(&CacheKey::UserData(user_id), now) {
            Some(CacheValue::UserData(u)) => Some(u),
            Some(_) => None,
            None => None,
        }
    }

    /// Reads the cached record of the user a mail address resolves to:
    /// the index entry, then the record it points to. The two entries
    /// expire independently; an index pointing to an expired or absent
    /// record is a miss.
    pub fn get_user_data_by_email(&mut self, email: &String, now: i64) -> (r: Option<User>)
        requires
            old(self).wf(),
        ensures
            final(self).wf(),
            final(self).is_available() == old(self).is_available(),
            r matches Some(u) ==> exists|uid: int|
                #![trigger spec_cache_get(old(self).contents(), old(self).is_available(), KeyModel::UserData(uid), now as int)]
                spec_cache_get(
                    old(self).contents(),
                    old(self).is_available(),
                    KeyModel::UserEmailIndex(email@),
                    now as int,
                ) == Some(ValueModel::UserId(uid)) && spec_cache_get(
                    old(self).contents(),
                    old(self).is_available(),
                    KeyModel::UserData(uid),
                    now as int,
                ) == Some(ValueModel::UserData(u)) && u.id as int == uid,
            r is None <==> !(exists|uid: int|
                #![trigger spec_cache_get(old(self).contents(), old(self).is_available(), KeyModel::UserData(uid), now as int)]
                spec_cache_get(
                    old(self).contents(),
                    old(self).is_available(),
                    KeyModel::UserEmailIndex(email@),
                    now as int,
                ) == Some(ValueModel::UserId(uid)) && spec_cache_get(
                    old(self).contents(),
                    old(self).is_available(),
                    KeyModel::UserData(uid),
                    now as int,
                ) is Some),
            forall|k: KeyModel| #[trigger]
                final(self).contents().contains_key(k) ==> old(self).contents().contains_key(k)
                    && final(self).contents()[k] == old(self).contents()[k],
            forall|k: KeyModel|
                #![trigger spec_cache_get(old(self).contents(), old(self).is_available(), k, now as int)]
                spec_cache_get(
                    final(self).contents(),
                    final(self).is_available(),
                    k,
                    now as int,
                ) == spec_cache_get(
                    old(self).contents(),
                    old(self).is_available(),
                    k,
                    now as int,
                ),
    {
        let uid = match self.check_email(email, now) {
            None => {
                return None;
            },
            Some(uid) => uid,
        };
        let r = self.get_user_data_by_id(uid, now);
        proof {
            if r is None {
                assert forall|uid2: int|
                    !(spec_cache_get(
                        old(self).contents(),
                        old(self).is_available(),
                        KeyModel::UserEmailIndex(email@),
                        now as int,
                    ) == Some(ValueModel::UserId(uid2)) && #[trigger] spec_cache_get(
                        old(self).contents(),
                        old(self).is_available(),
                        KeyModel::UserData(uid2),
                        now as int,
                    ) is Some) by {
                }
            }
        }
        r
    }

    /// Drops the cached record of one user; the email index is kept.
    pub fn drop_user_data(&mut self, user_id: i32)
        requires
            old(self).wf(),
        ensures
            final(self).wf(),
            final(self).is_available() == old(self).is_available(),
            final(self).contents() == if old(self).is_available() {
                old(self).contents().remove(KeyModel::UserData(user_id as int))
            } else {
                old(self).contents()
            },
    {
        self.invalidate(&CacheKey::UserData(user_id));
    }

    /// Caches the board list of one user under `user:<id>:boards`.
    pub fn put_user_boards(&mut self, user_id: i32, boards: &Vec<Board>, now: i64)
        requires
            old(self).wf(),
            now >= 0,
            now <= i64::MAX - STORED_DATA_EXPIRATION_TIME,
        ensures
            final(self).wf(),
            final(self).is_available() == old(self).is_available(),
            final(self).contents() == if old(self).is_available() {
                old(self).contents().insert(
                    KeyModel::UserBoards(user_id as int),
                    (ValueModel::Boards(boards@), now + STORED_DATA_EXPIRATION_TIME),
                )
            } else {
                old(self).contents()
            },
    {
        let copy = boards.clone();
        proof {
            assert(copy@ =~= boards@);
        }
        self.put(
            CacheKey::UserBoards(user_id),
            CacheValue::Boards(copy),
            STORED_DATA_EXPIRATION_TIME,
            now,
        );
    }

    /// Reads the cached board list of one user. Only a fresh, non-empty
    /// list counts as a hit: an empty cached list is indistinguishable
    /// from a miss and always falls back to the store of record.
    pub fn get_user_boards(&mut self, user_id: i32, now: i64) -> (r: Option<Vec<Board>>)
        requires
            old(self).wf(),
        ensures
            final(self).wf(),
            final(self).is_available() == old(self).is_available(),
            r matches Some(v) ==> spec_cache_get(
                old(self).contents(),
                old(self).is_available(),
                KeyModel::UserBoards(user_id as int),
                now as int,
            ) == Some(ValueModel::Boards(v@)) && v@.len() > 0,
            r is None <==> !(spec_cache_get(
                old(self).contents(),
                old(self).is_available(),
                KeyModel::UserBoards(user_id as int),
                now as int,
            ) matches Some(ValueModel::Boards(bs)) && bs.len() > 0),
            final(self).contents() == spec_after_read(
                old(self).contents(),
                old(self).is_available(),
                KeyModel::UserBoards(user_id as int),
                now as int,
            ),
    {
        proof {
            self.lemma_typed();
        }
        match self.get(&CacheKey::UserBoards(user_id), now) {
            Some(CacheValue::Boards(v)) => {
                if v.len() > 0 {
                    Some(v)
                } else {
                    None
                }
            },
            Some(_) => None,
            None => None,
        }
    }

    /// Drops the cached board list of one user.
    pub fn drop_user_boards(&mut self, user_id: i32)
        requires
            old(self).wf(),
        ensures
            final(self).wf(),
            final(self).is_available() == old(self).is_available(),
            final(self).contents() == if old(self).is_available() {
                old(self).contents().remove(KeyModel::UserBoards(user_id as int))
            } else {
                old(self).contents()
            },
    {
        self.invalidate(&CacheKey::UserBoards(user_id));
    }

    /// Caches the task list of one board under `board:<id>:tasks`.
    pub fn put_board_tasks(&mut self, board_id: i32, tasks: &Vec<Task>, now: i64)
        requires
            old(self).wf(),
            now >= 0,
            now <= i64::MAX - STORED_DATA_EXPIRATION_TIME,
        ensures
            final(self).wf(),
            final(self).is_available() == old(self).is_available(),
            final(self).contents() == if old(self).is_available() {
                old(self).contents().insert(
                    KeyModel::BoardTasks(board_id as int),
                    (ValueModel::Tasks(tasks@), now + STORED_DATA_EXPIRATION_TIME),
                )
            } else {
                old(self).contents()
            },
    {
        let copy = tasks.clone();
        proof {
            assert(copy@ =~= tasks@);
        }
        self.put(
            CacheKey::BoardTasks(board_id),
            CacheValue::Tasks(copy),
            STORED_DATA_EXPIRATION_TIME,
            now,
        );
    }

    /// Reads the cached task list of one board; only a fresh, non-empty
    /// list counts as a hit.
    pub fn get_board_tasks(&mut self, board_id: i32, now: i64) -> (r: Option<Vec<Task>>)
        requires
            old(self).wf(),
        ensures
            final(self).wf(),
            final(self).is_available() == old(self).is_available(),
            r matches Some(v) ==> spec_cache_get(
                old(self).contents(),
                old(self).is_available(),
                KeyModel::BoardTasks(board_id as int),
                now as int,
            ) == Some(ValueModel::Tasks(v@)) && v@.len() > 0,
            r is None <==> !(spec_cache_get(
                old(self).contents(),
                old(self).is_available(),
                KeyModel::BoardTasks(board_id as int),
                now as int,
            ) matches Some(ValueModel::Tasks(ts)) && ts.len() > 0),
            final(self).contents() == spec_after_read(
                old(self).contents(),
                old(self).is_available(),
                KeyModel::BoardTasks(board_id as int),
                now as int,
            ),
    {
        proof {
            self.lemma_typed();
        }
        match self.get(&CacheKey::BoardTasks(board_id), now) {
            Some(CacheValue::Tasks(v)) => {
                if v.len() > 0 {
                    Some(v)
                } else {
                    None
                }
            },
            Some(_) => None,
            None => None,
        }
    }

    /// Drops the cached task list of one board.
    pub fn drop_board_tasks(&mut self, board_id: i32)
        requires
            old(self).wf(),
        ensures
            final(self).wf(),
            final(self).is_available() == old(self).is_available(),
            final(self).contents() == if old(self).is_available() {
                old(self).contents().remove(KeyModel::BoardTasks(board_id as int))
            } else {
                old(self).contents()
            },
    {
        self.invalidate(&CacheKey::BoardTasks(board_id));
    }
}

/// A fresh entry is served back until its time to live elapses or it is
/// invalidated, and never after: the cache-aside idempotence of
/// `put`/`get`/`invalidate`, stated over the cache contents.
pub proof fn lemma_cache_aside_idempotence(
    m: Map<KeyModel, (ValueModel, int)>,
    k: KeyModel,
    v: ValueModel,
    expires_at: int,
    t: int,
)
    ensures
        t <= expires_at ==> spec_cache_get(m.insert(k, (v, expires_at)), true, k, t) == Some(v),
        t > expires_at ==> spec_cache_get(m.insert(k, (v, expires_at)), true, k, t) is None,
        spec_cache_get(m.insert(k, (v, expires_at)).remove(k), true, k, t) is None,
        spec_cache_get(m, false, k, t) is None,
{
}

/// A read changes nothing that a read can see: dropping an entry whose
/// expiration has passed leaves every lookup at the same moment with
/// the same answer.
pub proof fn lemma_after_read_stable(
    m: Map<KeyModel, (ValueModel, int)>,
    available: bool,
    k1: KeyModel,
    now: int,
)
    ensures
        forall|k: KeyModel|
            spec_cache_get(spec_after_read(m, available, k1, now), available, k, now)
                == #[trigger] spec_cache_get(m, available, k, now),
{
    assert forall|k: KeyModel|
        spec_cache_get(spec_after_read(m, available, k1, now), available, k, now)
            == #[trigger] spec_cache_get(m, available, k, now) by {
        if available && m.contains_key(k1) && now > m[k1].1 {
            if k == k1 {
                assert(spec_cache_get(m, available, k, now) is None);
            }
        }
    }
}

/// Invalidation makes the next read of the key a miss: reading a key
/// just removed from the contents returns nothing, at any time.
pub proof fn lemma_invalidate_then_miss(
    m: Map<KeyModel, (ValueModel, int)>,
    k: KeyModel,
    t: int,
    available: bool,
)
    ensures
        spec_cache_get(m.remove(k), available, k, t) is None,
{
}

/// The cache key convention, rendered: `user:<id>:data`,
/// `user_email:<email>:id`, `user:<id>:boards`, `board:<id>:tasks`.
pub open spec fn spec_key_chars(k: KeyModel) -> Seq<char> {
    match k {
        KeyModel::UserData(id) => "user:"@ + spec_dec_i64(id) + ":data"@,
        KeyModel::UserEmailIndex(e) => "user_email:"@ + e + ":id"@,
        KeyModel::UserBoards(id) => "user:"@ + spec_dec_i64(id) + ":boards"@,
        KeyModel::BoardTasks(id) => "board:"@ + spec_dec_i64(id) + ":tasks"@,
    }
}

/// Renders the name a key has on the wire, byte for byte as tooling
/// expects it.
pub fn cache_key_string(key: &CacheKey) -> (r: String)
    ensures
        r@ == spec_key_chars(key_model(*key)),
{
    match key {
        CacheKey::UserData(id) => {
            let mut s = "user:".to_owned();
            let digits = i32_to_dec(*id);
            s.append(digits.as_str());
            s.append(":data");
            proof {
                assert(s@ =~= spec_key_chars(key_model(*key)));
            }
            s
        },
        CacheKey::UserEmailIndex(e) => {
            let mut s = "user_email:".to_owned();
            s.append(e.as_str());
            s.append(":id");
            proof {
                assert(s@ =~= spec_key_chars(key_model(*key)));
            }
            s
        },
        CacheKey::UserBoards(id) => {
            let mut s = "user:".to_owned();
            let digits = i32_to_dec(*id);
            s.append(digits.as_str());
            s.append(":boards");
            proof {
                assert(s@ =~= spec_key_chars(key_model(*key)));
            }
            s
        },
        CacheKey::BoardTasks(id) => {
            let mut s = "board:".to_owned();
            let digits = i32_to_dec(*id);
            s.append(digits.as_str());
            s.append(":tasks");
            proof {
                assert(s@ =~= spec_key_chars(key_model(*key)));
            }
            s
        },
    }
}

} // verus!
