//! User handlers: account creation and activation, login, profile
//! reads, and the changes of name, password and email address — each
//! paired with the cache keys it must invalidate.
//!
//! Passwords are stored and compared only as hexadecimal SHA-256
//! digests. Verification links carry capability tokens derived from the
//! current secret-bearing fields of the account; nothing per-link is
//! persisted.

use vstd::prelude::*;
use vstd::utf8::is_ascii_chars;

use crate::app_config::{
    TEMP_PASSWORD_EXPIRATION_TIME, USER_DATA_EXPIRATION_TIME, USER_STATUS_ACTIVE,
    USER_STATUS_IDLE, VERIFICATION_CREATED, VERIFICATION_TEMP_PASSWORD,
};
use crate::models::{ChangeEmailBody, ChangePasswordBody};
use crate::store::{
    spec_activated, spec_email_set, spec_repassworded, spec_repassworded_verified,
    user_email_pending_match,
};
use crate::verification::{make_email_change_token, spec_email_change_token};
use crate::cache::{
    spec_after_read, spec_cache_get, CacheStore, KeyModel, ValueModel,
};
use crate::convertations::{base64_decode, base64_encode, base64_of, sha256_hex, sha256_hex_of};
use crate::models::{
    ChangeForgottenPasswordBody, ChangeUsernameBody, CreateUserBody, PersistenceError, Profile,
    RequestError, ServerResponse, User, UserCredentials,
};
use crate::store::{user_match, PersistenceGateway};
use crate::token::{create_jwt, spec_token, JWToken};
use crate::tools::{is_valid_email, is_valid_password, spec_valid_email, spec_valid_password};
use crate::verification::{make_activation_token, spec_activation_token};

verus! {

/// What an emailed account-activation link carries.
#[derive(Debug)]
pub struct VerificationMail {
    pub to: String,
    pub user_id: i32,
    pub token: String,
}

/// What an emailed email-change link carries.
#[derive(Debug)]
pub struct EmailChangeMail {
    pub to: String,
    pub encoded_email: String,
    pub user_id: i32,
    pub token: String,
}

/// Whether the cache resolves `email` to the user record `u`: the index
/// entry points at an id whose record is fresh and holds `u`.
pub open spec fn spec_cache_user_for_email(
    m: Map<KeyModel, (ValueModel, int)>,
    available: bool,
    email: Seq<char>,
    now: int,
    u: User,
) -> bool {
    exists|uid: int|
        #![trigger spec_cache_get(m, available, KeyModel::UserData(uid), now)]
        spec_cache_get(m, available, KeyModel::UserEmailIndex(email), now) == Some(
            ValueModel::UserId(uid),
        ) && spec_cache_get(m, available, KeyModel::UserData(uid), now) == Some(
            ValueModel::UserData(u),
        )
}

/// Whether `u` is a live stored user carrying `email`.
pub open spec fn spec_active_with_email(users: Seq<User>, email: Seq<char>, u: User) -> bool {
    exists|i: int|
        0 <= i < users.len() && (#[trigger] users[i]) == u && u.email@ == email && u.status_id
            == USER_STATUS_ACTIVE
}

/// Creates an account: validates the password and the address, stores
/// the hashed password in an idle row, and hands back the activation
/// mail whose capability token is derived from the new row's id,
/// password hash and creation time.
pub fn handle_create_user(
    store: &mut PersistenceGateway,
    user_data: CreateUserBody,
    now: i64,
) -> (r: Result<(ServerResponse, VerificationMail), RequestError>)
    requires
        old(store).wf(),
        old(store).can_assign_user_id(),
    ensures
        final(store).wf(),
        final(store).is_healthy() == old(store).is_healthy(),
        final(store).boards() == old(store).boards(),
        final(store).tasks() == old(store).tasks(),
        (!spec_valid_password(user_data.password@) || !spec_valid_email(user_data.email@)) ==> (r
            matches Err(e) && e == RequestError::BadRequest && final(store).users() == old(store).users()),
        (spec_valid_password(user_data.password@) && spec_valid_email(user_data.email@) && old(store).is_healthy()) ==> {
            &&& (r is Ok <==> !exists|i: int|
                0 <= i < old(store).users().len() && (#[trigger] old(store).users()[i]).email@
                    == user_data.email@)
            &&& (r matches Ok(out) ==> out.0.status == 200 && out.0.message@ == "User created"@
                && out.1.to == user_data.email && final(store).users().len() == old(store).users().len() + 1 && ({
                let u = final(store).users().last();
                &&& final(store).users() == old(store).users().push(u)
                &&& u.id == out.1.user_id
                &&& u.name == user_data.name
                &&& u.email == user_data.email
                &&& u.passwd@ == sha256_hex_of(user_data.password@)
                &&& u.verification_status_id == VERIFICATION_CREATED
                &&& u.status_id == USER_STATUS_IDLE
                &&& u.created_at == now
                &&& u.updated_at == now
            }))
            &&& (r matches Err(e) ==> e == RequestError::BadRequest && final(store).users()
                == old(store).users())
        },
        (spec_valid_password(user_data.password@) && spec_valid_email(user_data.email@) && !old(store).is_healthy()) ==> (r matches Err(e) && e == RequestError::ServerFault && final(store).users() == old(store).users()),
        r matches Ok(out) ==> out.1.token@ == spec_activation_token(
            out.1.user_id,
            sha256_hex_of(user_data.password@),
            now,
        ),
{
    let CreateUserBody { name, email, password } = user_data;
    if !is_valid_password(password.as_str()) {
        return Err(RequestError::BadRequest);
    }
    if !is_valid_email(email.as_str()) {
        return Err(RequestError::BadRequest);
    }
    let hashed = sha256_hex(password.as_str());
    match store.insert_user(name, email.clone(), hashed, now) {
        Ok(user) => {
            let token = make_activation_token(user.id, user.passwd.as_str(), user.created_at);
            proof {
                reveal_strlit("User created");
                assert(user.passwd@ == sha256_hex_of(password@));
                assert(store.users() == old(store).users().push(
                    User {
                        id: user.id,
                        name: user.name,
                        email: user.email,
                        passwd: user.passwd,
                        verification_status_id: VERIFICATION_CREATED,
                        status_id: USER_STATUS_IDLE,
                        created_at: now,
                        updated_at: now,
                    },
                ));
            }
            let mail = VerificationMail { to: email, user_id: user.id, token };
            Ok((ServerResponse { status: 200, message: "User created".to_owned() }, mail))
        },
        Err(PersistenceError::Conflict) => Err(RequestError::BadRequest),
        Err(_) => Err(RequestError::ServerFault),
    }
}

/// Logs a user in: the credentials are checked against the cached
/// record the address resolves to, then against the store of record; a
/// match is answered with a freshly issued session token, and a user
/// served from the store is written back to the cache.
pub fn handle_authorization(
    store: &PersistenceGateway,
    cache: &mut CacheStore,
    user_data: UserCredentials,
    secret: &Vec<u8>,
    now: i64,
) -> (r: Result<String, RequestError>)
    requires
        store.wf(),
        old(cache).wf(),
        0 <= now <= i64::MAX - USER_DATA_EXPIRATION_TIME,
    ensures
        final(cache).wf(),
        final(cache).is_available() == old(cache).is_available(),
        ({
            let hash = sha256_hex_of(user_data.password@);
            let cache_match = exists|u: User|
                #![trigger spec_cache_user_for_email(old(cache).contents(), old(cache).is_available(), user_data.email@, now as int, u)]
                spec_cache_user_for_email(
                    old(cache).contents(),
                    old(cache).is_available(),
                    user_data.email@,
                    now as int,
                    u,
                ) && u.passwd@ == hash;
            &&& (r matches Ok(tok) ==> exists|u: User|
                #![trigger spec_cache_user_for_email(old(cache).contents(), old(cache).is_available(), user_data.email@, now as int, u)]
                #![trigger spec_active_with_email(store.users(), user_data.email@, u)]
                (spec_cache_user_for_email(
                    old(cache).contents(),
                    old(cache).is_available(),
                    user_data.email@,
                    now as int,
                    u,
                ) || spec_active_with_email(store.users(), user_data.email@, u)) && u.passwd@
                    == hash && tok@ == spec_token(secret@, u.id, now))
            &&& cache_match ==> r is Ok
            &&& (!cache_match && store.is_healthy()) ==> (r is Ok <==> exists|u: User|
                #![trigger spec_active_with_email(store.users(), user_data.email@, u)]
                spec_active_with_email(store.users(), user_data.email@, u) && u.passwd@ == hash)
            &&& (!cache_match && store.is_healthy() && r is Ok) ==> (exists|u: User|
                #![trigger spec_active_with_email(store.users(), user_data.email@, u)]
                spec_active_with_email(store.users(), user_data.email@, u) && u.passwd@ == hash
                    && (old(cache).is_available() ==> final(cache).contents().contains_key(
                    KeyModel::UserData(u.id as int),
                ) && final(cache).contents()[KeyModel::UserData(u.id as int)] == (
                ValueModel::UserData(u),
                now + USER_DATA_EXPIRATION_TIME,
                ) && final(cache).contents().contains_key(KeyModel::UserEmailIndex(u.email@))
                    && final(cache).contents()[KeyModel::UserEmailIndex(u.email@)] == (
                ValueModel::UserId(u.id as int),
                now + USER_DATA_EXPIRATION_TIME,
                )))
            &&& (!cache_match && store.is_healthy() && r is Err) ==> (r matches Err(e) && e
                == RequestError::BadRequest)
            &&& (!cache_match && !store.is_healthy()) ==> (r matches Err(e) && e
                == RequestError::ServerFault)
            &&& r is Err ==> forall|k: KeyModel| #[trigger]
                final(cache).contents().contains_key(k) ==> old(cache).contents().contains_key(k)
                    && final(cache).contents()[k] == old(cache).contents()[k]
        }),
{
    let UserCredentials { email, password } = user_data;
    let hashed = sha256_hex(password.as_str());
    let looked = cache.get_user_data_by_email(&email, now);
    if let Some(cached) = &looked {
        if cached.passwd.eq(&hashed) {
            let token = create_jwt(JWToken::new(cached.id, now), secret);
            proof {
                let w = looked->0;
                assert(spec_cache_user_for_email(
                    old(cache).contents(),
                    old(cache).is_available(),
                    email@,
                    now as int,
                    w,
                ));
                assert(!spec_active_with_email(store.users(), email@, w)
                    || spec_active_with_email(store.users(), email@, w));
                assert(w.passwd@ == sha256_hex_of(password@));
                assert(token@ == spec_token(secret@, w.id, now));
            }
            return Ok(token);
        }
    }
    proof {
        let m = old(cache).contents();
        let avail = old(cache).is_available();
        let hash = sha256_hex_of(password@);
        assert forall|u: User|
            !(spec_cache_user_for_email(m, avail, email@, now as int, u) && u.passwd@
                == hash) by {
            if spec_cache_user_for_email(m, avail, email@, now as int, u) && u.passwd@ == hash {
                let uid = choose|uid: int|
                    #![trigger spec_cache_get(m, avail, KeyModel::UserData(uid), now as int)]
                    spec_cache_get(m, avail, KeyModel::UserEmailIndex(email@), now as int)
                        == Some(ValueModel::UserId(uid)) && spec_cache_get(
                        m,
                        avail,
                        KeyModel::UserData(uid),
                        now as int,
                    ) == Some(ValueModel::UserData(u));
                if looked is Some {
                    let c = looked->0;
                    let uid2 = choose|uid2: int|
                        #![trigger spec_cache_get(m, avail, KeyModel::UserData(uid2), now as int)]
                        spec_cache_get(m, avail, KeyModel::UserEmailIndex(email@), now as int)
                            == Some(ValueModel::UserId(uid2)) && spec_cache_get(
                            m,
                            avail,
                            KeyModel::UserData(uid2),
                            now as int,
                        ) == Some(ValueModel::UserData(c));
                    assert(uid == uid2);
                    assert(u == c);
                    assert(false);
                } else {
                    assert(spec_cache_get(m, avail, KeyModel::UserData(uid), now as int) is Some);
                    assert(false);
                }
            }
        }
    }
    match store.find_active_user_by_email(&email) {
        Ok(user) => {
            if user.passwd.eq(&hashed) {
                let user_id = user.id;
                let ghost found = user;
                proof {
                    assert(spec_active_with_email(store.users(), email@, found));
                }
                cache.put_user_data(user, None, now);
                let token = create_jwt(JWToken::new(user_id, now), secret);
                Ok(token)
            } else {
                proof {
                    let hash = sha256_hex_of(password@);
                    assert forall|u2: User|
                        !(spec_active_with_email(store.users(), email@, u2) && u2.passwd@
                            == hash) by {
                        if spec_active_with_email(store.users(), email@, u2) && u2.passwd@
                            == hash {
                            let i = choose|i: int|
                                0 <= i < store.users().len() && (#[trigger] store.users()[i])
                                    == u2 && u2.email@ == email@ && u2.status_id
                                    == USER_STATUS_ACTIVE;
                            let j = choose|j: int|
                                0 <= j < store.users().len() && (#[trigger] store.users()[j])
                                    == user && user.email@ == email@ && user.status_id
                                    == USER_STATUS_ACTIVE;
                            store.lemma_rows_unique();
                            assert(i == j);
                            assert(false);
                        }
                    }
                }
                Err(RequestError::BadRequest)
            }
        },
        Err(PersistenceError::NotFound) => Err(RequestError::BadRequest),
        Err(_) => Err(RequestError::ServerFault),
    }
}

/// Issues a temporary password: the account keeps its stored password,
/// while the cache carries the hashed temporary one, marked as such,
/// for half a day. The caller supplies the freshly generated password
/// and mails it out; nothing is written to the store of record.
pub fn handle_forgot_password(
    store: &PersistenceGateway,
    cache: &mut CacheStore,
    request_data: ChangeForgottenPasswordBody,
    generated_password: &String,
    now: i64,
) -> (r: Result<ServerResponse, RequestError>)
    requires
        store.wf(),
        old(cache).wf(),
        0 <= now <= i64::MAX - USER_DATA_EXPIRATION_TIME,
    ensures
        final(cache).wf(),
        final(cache).is_available() == old(cache).is_available(),
        !spec_valid_email(request_data.email@) ==> (r matches Err(e) && e
            == RequestError::BadRequest && final(cache).contents() == old(cache).contents()),
        (spec_valid_email(request_data.email@) && store.is_healthy()) ==> {
            &&& (r is Ok <==> exists|u: User| #![auto]
                spec_active_with_email(store.users(), request_data.email@, u))
            &&& (r matches Ok(resp) ==> resp.status == 200 && resp.message@
                == "Email with new password sent"@ && (exists|u: User| #![auto]
                spec_active_with_email(store.users(), request_data.email@, u) && (old(cache).is_available() ==> ({
                    let entry = final(cache).contents()[KeyModel::UserData(u.id as int)];
                    &&& final(cache).contents() == old(cache).contents().insert(
                        KeyModel::UserData(u.id as int),
                        entry,
                    ).insert(
                        KeyModel::UserEmailIndex(u.email@),
                        (ValueModel::UserId(u.id as int), now + USER_DATA_EXPIRATION_TIME),
                    )
                    &&& entry.1 == now + TEMP_PASSWORD_EXPIRATION_TIME
                    &&& entry.0 matches ValueModel::UserData(cu) && cu.id == u.id && cu.name
                        == u.name && cu.email == u.email && cu.passwd@ == sha256_hex_of(
                        generated_password@,
                    ) && cu.verification_status_id == VERIFICATION_TEMP_PASSWORD && cu.status_id
                        == u.status_id && cu.created_at == u.created_at && cu.updated_at
                        == u.updated_at
                })) && (!old(cache).is_available() ==> final(cache).contents() == old(cache).contents())))
            &&& (r matches Err(e) ==> e == RequestError::BadRequest && final(cache).contents()
                == old(cache).contents())
        },
        (spec_valid_email(request_data.email@) && !store.is_healthy()) ==> (r matches Err(e) && e
            == RequestError::ServerFault && final(cache).contents() == old(cache).contents()),
{
    let ChangeForgottenPasswordBody { email } = request_data;
    if !is_valid_email(email.as_str()) {
        return Err(RequestError::BadRequest);
    }
    match store.find_active_user_by_email(&email) {
        Ok(mut user) => {
            let ghost orig = user;
            user.passwd = sha256_hex(generated_password.as_str());
            user.verification_status_id = VERIFICATION_TEMP_PASSWORD;
            proof {
                assert(spec_active_with_email(store.users(), email@, orig));
                assert(user.id == orig.id && user.email == orig.email);
            }
            cache.put_user_data(user, Some(TEMP_PASSWORD_EXPIRATION_TIME), now);
            proof {
                reveal_strlit("Email with new password sent");
                if old(cache).is_available() {
                    let k1 = KeyModel::UserData(orig.id as int);
                    assert(cache.contents()[k1] == (
                        ValueModel::UserData(user),
                        now + TEMP_PASSWORD_EXPIRATION_TIME as int,
                    ));
                    assert(cache.contents() =~= old(cache).contents().insert(
                        k1,
                        cache.contents()[k1],
                    ).insert(
                        KeyModel::UserEmailIndex(orig.email@),
                        (ValueModel::UserId(orig.id as int), now + USER_DATA_EXPIRATION_TIME),
                    ));
                }
            }
            Ok(ServerResponse {
                status: 200,
                message: "Email with new password sent".to_owned(),
            })
        },
        Err(PersistenceError::NotFound) => Err(RequestError::BadRequest),
        Err(_) => Err(RequestError::ServerFault),
    }
}

/// Renames the account of the resolved subject and drops its cached
/// record; the email index is kept. A missing or inactive account
/// changes no row and is still answered as a success, like any scoped
/// update that matched nothing.
pub fn handle_change_username(
    store: &mut PersistenceGateway,
    cache: &mut CacheStore,
    user_id: i32,
    request_data: ChangeUsernameBody,
) -> (r: Result<ServerResponse, RequestError>)
    requires
        old(store).wf(),
        old(cache).wf(),
    ensures
        final(store).wf(),
        final(cache).wf(),
        final(store).is_healthy() == old(store).is_healthy(),
        final(cache).is_available() == old(cache).is_available(),
        final(store).boards() == old(store).boards(),
        final(store).tasks() == old(store).tasks(),
        old(store).is_healthy() ==> {
            &&& (r matches Ok(resp) && resp.status == 200 && resp.message@
                == "User name updated"@)
            &&& (exists|i: int|
                0 <= i < old(store).users().len() && user_match(
                    #[trigger] old(store).users()[i],
                    user_id,
                    USER_STATUS_ACTIVE,
                )) ==> exists|i: int|
                0 <= i < old(store).users().len() && user_match(
                    #[trigger] old(store).users()[i],
                    user_id,
                    USER_STATUS_ACTIVE,
                ) && final(store).users() == old(store).users().update(
                    i,
                    crate::store::spec_renamed(old(store).users()[i], request_data.new_name),
                )
            &&& (!exists|i: int|
                0 <= i < old(store).users().len() && user_match(
                    #[trigger] old(store).users()[i],
                    user_id,
                    USER_STATUS_ACTIVE,
                )) ==> final(store).users() == old(store).users()
            &&& final(cache).contents() == if old(cache).is_available() {
                old(cache).contents().remove(KeyModel::UserData(user_id as int))
            } else {
                old(cache).contents()
            }
        },
        !old(store).is_healthy() ==> (r matches Err(e) && e == RequestError::ServerFault && final(store).users() == old(store).users() && final(cache).contents() == old(cache).contents()),
{
    let ChangeUsernameBody { new_name } = request_data;
    match store.update_user_name(user_id, new_name) {
        Ok(()) => {
            cache.drop_user_data(user_id);
            proof {
                reveal_strlit("User name updated");
            }
            Ok(ServerResponse { status: 200, message: "User name updated".to_owned() })
        },
        Err(_) => Err(RequestError::ServerFault),
    }
}

/// The profile of the resolved subject: served from the cached record
/// when it is fresh, otherwise read from the store of record and
/// written back to the cache.
pub fn handle_get_user(
    store: &PersistenceGateway,
    cache: &mut CacheStore,
    user_id: i32,
    now: i64,
) -> (r: Result<Profile, RequestError>)
    requires
        store.wf(),
        old(cache).wf(),
        0 <= now <= i64::MAX - USER_DATA_EXPIRATION_TIME,
    ensures
        final(cache).wf(),
        final(cache).is_available() == old(cache).is_available(),
        ({
            let hit = spec_cache_get(
                old(cache).contents(),
                old(cache).is_available(),
                KeyModel::UserData(user_id as int),
                now as int,
            );
            let missed = spec_after_read(
                old(cache).contents(),
                old(cache).is_available(),
                KeyModel::UserData(user_id as int),
                now as int,
            );
            &&& hit matches Some(ValueModel::UserData(u)) ==> (r matches Ok(p) && p.id
                == user_id && p.name == u.name && p.email == u.email && final(cache).contents()
                == old(cache).contents())
            &&& (hit is None && store.is_healthy()) ==> {
                &&& (r is Ok <==> exists|i: int|
                    0 <= i < store.users().len() && user_match(
                        #[trigger] store.users()[i],
                        user_id,
                        USER_STATUS_ACTIVE,
                    ))
                &&& (r matches Ok(p) ==> exists|i: int|
                    0 <= i < store.users().len() && user_match(
                        #[trigger] store.users()[i],
                        user_id,
                        USER_STATUS_ACTIVE,
                    ) && p.id == user_id && p.name == store.users()[i].name && p.email
                        == store.users()[i].email && final(cache).contents() == if old(cache).is_available() {
                        missed.insert(
                            KeyModel::UserData(store.users()[i].id as int),
                            (
                                ValueModel::UserData(store.users()[i]),
                                now + USER_DATA_EXPIRATION_TIME,
                            ),
                        ).insert(
                            KeyModel::UserEmailIndex(store.users()[i].email@),
                            (
                                ValueModel::UserId(store.users()[i].id as int),
                                now + USER_DATA_EXPIRATION_TIME,
                            ),
                        )
                    } else {
                        missed
                    })
                &&& (r matches Err(e) ==> e == RequestError::BadRequest && final(cache).contents()
                    == missed)
            }
            &&& (hit is None && !store.is_healthy()) ==> (r matches Err(e) && e
                == RequestError::ServerFault && final(cache).contents() == missed)
        }),
{
    if let Some(cached) = cache.get_user_data_by_id(user_id, now) {
        return Ok(Profile { id: user_id, name: cached.name, email: cached.email });
    }
    match store.find_user_with_status(user_id, USER_STATUS_ACTIVE) {
        Ok(user) => {
            let profile = Profile { id: user_id, name: user.name.clone(), email: user.email.clone() };
            cache.put_user_data(user, None, now);
            Ok(profile)
        },
        Err(PersistenceError::NotFound) => Err(RequestError::BadRequest),
        Err(_) => Err(RequestError::ServerFault),
    }
}

/// Logs the subject out: the cached profile is dropped, and nothing
/// else changes. The session token itself stays valid until its
/// lifetime elapses — there is no revocation list; this is a known,
/// kept limitation of the stateless scheme.
pub fn handle_logout(cache: &mut CacheStore, user_id: i32) -> (r: ServerResponse)
    requires
        old(cache).wf(),
    ensures
        final(cache).wf(),
        final(cache).is_available() == old(cache).is_available(),
        r.status == 200 && r.message@ == "Logout"@,
        final(cache).contents() == if old(cache).is_available() {
            old(cache).contents().remove(KeyModel::UserData(user_id as int))
        } else {
            old(cache).contents()
        },
{
    cache.drop_user_data(user_id);
    proof {
        reveal_strlit("Logout");
    }
    ServerResponse { status: 200, message: "Logout".to_owned() }
}


/// Changes the password of the resolved subject. The current password
/// is checked against the cached record when one is fresh, against the
/// stored row otherwise; on success the stored hash is replaced and the
/// cached record is dropped.
pub fn handle_change_password(
    store: &mut PersistenceGateway,
    cache: &mut CacheStore,
    user_id: i32,
    request_data: ChangePasswordBody,
    now: i64,
) -> (r: Result<ServerResponse, RequestError>)
    requires
        old(store).wf(),
        old(cache).wf(),
    ensures
        final(store).wf(),
        final(cache).wf(),
        final(store).is_healthy() == old(store).is_healthy(),
        final(cache).is_available() == old(cache).is_available(),
        final(store).boards() == old(store).boards(),
        final(store).tasks() == old(store).tasks(),
        !spec_valid_password(request_data.new_password@) ==> (r matches Err(e) && e
            == RequestError::BadRequest && final(store).users() == old(store).users() && final(cache).contents() == old(cache).contents()),
        ({
            let oldh = sha256_hex_of(request_data.old_password@);
            let newh = sha256_hex_of(request_data.new_password@);
            let hit = spec_cache_get(
                old(cache).contents(),
                old(cache).is_available(),
                KeyModel::UserData(user_id as int),
                now as int,
            );
            let missed = spec_after_read(
                old(cache).contents(),
                old(cache).is_available(),
                KeyModel::UserData(user_id as int),
                now as int,
            );
            spec_valid_password(request_data.new_password@) ==> {
                &&& hit matches Some(ValueModel::UserData(u)) ==> {
                    &&& (u.passwd@ != oldh ==> (r matches Err(e) && e == RequestError::BadRequest
                        && final(store).users() == old(store).users() && final(cache).contents()
                        == old(cache).contents()))
                    &&& (u.passwd@ == oldh && old(store).is_healthy()) ==> {
                        &&& (r is Ok <==> exists|i: int|
                            0 <= i < old(store).users().len() && user_match(
                                #[trigger] old(store).users()[i],
                                user_id,
                                USER_STATUS_ACTIVE,
                            ))
                        &&& (r matches Ok(resp) ==> resp.status == 200 && resp.message@
                            == "Password updated"@ && (exists|i: int|
                            0 <= i < old(store).users().len() && user_match(
                                #[trigger] old(store).users()[i],
                                user_id,
                                USER_STATUS_ACTIVE,
                            ) && exists|p: String|
                                #![trigger spec_repassworded_verified(old(store).users()[i], p)]
                                p@ == newh && final(store).users() == old(store).users().update(
                                    i,
                                    spec_repassworded_verified(old(store).users()[i], p),
                                )) && final(cache).contents() == if old(cache).is_available() {
                            old(cache).contents().remove(KeyModel::UserData(user_id as int))
                        } else {
                            old(cache).contents()
                        })
                        &&& (r matches Err(e) ==> e == RequestError::BadRequest && final(store).users() == old(store).users() && final(cache).contents() == old(cache).contents())
                    }
                    &&& (u.passwd@ == oldh && !old(store).is_healthy()) ==> (r matches Err(e) && e
                        == RequestError::ServerFault && final(store).users() == old(store).users() && final(cache).contents() == old(cache).contents())
                }
                &&& hit is None ==> {
                    &&& old(store).is_healthy() ==> {
                        &&& (r is Ok <==> exists|i: int|
                            0 <= i < old(store).users().len() && user_match(
                                #[trigger] old(store).users()[i],
                                user_id,
                                USER_STATUS_ACTIVE,
                            ) && old(store).users()[i].passwd@ == oldh)
                        &&& (r matches Ok(resp) ==> resp.status == 200 && resp.message@
                            == "Password updated"@ && (exists|i: int|
                            0 <= i < old(store).users().len() && user_match(
                                #[trigger] old(store).users()[i],
                                user_id,
                                USER_STATUS_ACTIVE,
                            ) && old(store).users()[i].passwd@ == oldh && exists|p: String|
                                #![trigger spec_repassworded(old(store).users()[i], p)]
                                p@ == newh && final(store).users() == old(store).users().update(
                                    i,
                                    spec_repassworded(old(store).users()[i], p),
                                )) && final(cache).contents() == if old(cache).is_available() {
                            missed.remove(KeyModel::UserData(user_id as int))
                        } else {
                            missed
                        })
                        &&& (r matches Err(e) ==> e == RequestError::BadRequest && final(store).users() == old(store).users() && final(cache).contents() == missed)
                    }
                    &&& !old(store).is_healthy() ==> (r matches Err(e) && e
                        == RequestError::ServerFault && final(store).users() == old(store).users() && final(cache).contents() == missed)
                }
            }
        }),
{
    let ChangePasswordBody { old_password, new_password } = request_data;
    if !is_valid_password(new_password.as_str()) {
        return Err(RequestError::BadRequest);
    }
    let old_hashed = sha256_hex(old_password.as_str());
    let new_hashed = sha256_hex(new_password.as_str());
    match cache.get_user_data_by_id(user_id, now) {
        Some(cached) => {
            if !cached.passwd.eq(&old_hashed) {
                return Err(RequestError::BadRequest);
            }
            match store.update_user_passwd_verified(user_id, new_hashed) {
                Ok(true) => {
                    cache.drop_user_data(user_id);
                    proof {
                        reveal_strlit("Password updated");
                    }
                    Ok(ServerResponse { status: 200, message: "Password updated".to_owned() })
                },
                Ok(false) => Err(RequestError::BadRequest),
                Err(_) => Err(RequestError::ServerFault),
            }
        },
        None => {
            match store.update_user_passwd_checked(user_id, &old_hashed, new_hashed) {
                Ok(true) => {
                    cache.drop_user_data(user_id);
                    proof {
                        reveal_strlit("Password updated");
                    }
                    Ok(ServerResponse { status: 200, message: "Password updated".to_owned() })
                },
                Ok(false) => Err(RequestError::BadRequest),
                Err(_) => Err(RequestError::ServerFault),
            }
        },
    }
}

/// Starts an email change: the new address is validated and checked for
/// uniqueness, the account is marked as awaiting verification, its
/// cached record is dropped, and the mail with the capability token —
/// derived from the new address, the current address and the creation
/// time — is handed back.
pub fn handle_change_email(
    store: &mut PersistenceGateway,
    cache: &mut CacheStore,
    user_id: i32,
    request_data: ChangeEmailBody,
) -> (r: Result<(ServerResponse, EmailChangeMail), RequestError>)
    requires
        old(store).wf(),
        old(cache).wf(),
    ensures
        final(store).wf(),
        final(cache).wf(),
        final(store).is_healthy() == old(store).is_healthy(),
        final(cache).is_available() == old(cache).is_available(),
        final(store).boards() == old(store).boards(),
        final(store).tasks() == old(store).tasks(),
        !spec_valid_email(request_data.new_email@) ==> (r matches Err(e) && e
            == RequestError::BadRequest && final(store).users() == old(store).users() && final(cache).contents() == old(cache).contents()),
        (spec_valid_email(request_data.new_email@) && old(store).is_healthy()) ==> {
            &&& ((exists|i: int|
                0 <= i < old(store).users().len() && (#[trigger] old(store).users()[i]).email@
                    == request_data.new_email@) ==> (r matches Err(e) && e
                == RequestError::BadRequest && final(store).users() == old(store).users()
                && final(cache).contents() == old(cache).contents()))
            &&& ((!exists|i: int|
                0 <= i < old(store).users().len() && (#[trigger] old(store).users()[i]).email@
                    == request_data.new_email@) ==> {
                &&& (r is Ok <==> exists|i: int|
                    0 <= i < old(store).users().len() && user_match(
                        #[trigger] old(store).users()[i],
                        user_id,
                        USER_STATUS_ACTIVE,
                    ))
                &&& (r matches Ok(out) ==> out.0.status == 200 && out.0.message@
                    == "Verification mail was sent"@ && out.1.to == request_data.new_email
                    && out.1.user_id == user_id && out.1.encoded_email@ == base64_of(
                    request_data.new_email@,
                ) && (exists|i: int|
                    0 <= i < old(store).users().len() && user_match(
                        #[trigger] old(store).users()[i],
                        user_id,
                        USER_STATUS_ACTIVE,
                    ) && out.1.token@ == spec_email_change_token(
                        request_data.new_email@,
                        old(store).users()[i].email@,
                        old(store).users()[i].created_at,
                    ) && final(store).users() == old(store).users().update(
                        i,
                        crate::store::spec_email_pending(old(store).users()[i]),
                    )) && final(cache).contents() == if old(cache).is_available() {
                    old(cache).contents().remove(KeyModel::UserData(user_id as int))
                } else {
                    old(cache).contents()
                })
                &&& (r matches Err(e) ==> e == RequestError::BadRequest && final(store).users()
                    == old(store).users() && final(cache).contents() == old(cache).contents())
            })
        },
        (spec_valid_email(request_data.new_email@) && !old(store).is_healthy()) ==> (r matches Err(
            e,
        ) && e == RequestError::ServerFault && final(store).users() == old(store).users()
            && final(cache).contents() == old(cache).contents()),
{
    let ChangeEmailBody { new_email } = request_data;
    if !is_valid_email(new_email.as_str()) {
        return Err(RequestError::BadRequest);
    }
    match store.user_exists_by_email(&new_email) {
        Ok(true) => {
            return Err(RequestError::BadRequest);
        },
        Ok(false) => {},
        Err(_) => {
            return Err(RequestError::ServerFault);
        },
    }
    match store.mark_email_change_pending(user_id) {
        Ok(user) => {
            let token = make_email_change_token(
                new_email.as_str(),
                user.email.as_str(),
                user.created_at,
            );
            cache.drop_user_data(user_id);
            let encoded = base64_encode(new_email.as_str());
            proof {
                reveal_strlit("Verification mail was sent");
            }
            let mail = EmailChangeMail {
                to: new_email,
                encoded_email: encoded,
                user_id,
                token,
            };
            Ok((
                ServerResponse { status: 200, message: "Verification mail was sent".to_owned() },
                mail,
            ))
        },
        Err(PersistenceError::NotFound) => Err(RequestError::BadRequest),
        Err(_) => Err(RequestError::ServerFault),
    }
}

/// Visits an account-activation link: the token is recomputed from the
/// idle row's current password hash and creation time, and on a match
/// the account goes live. A replay finds no idle row and is refused, a
/// no-op.
pub fn handle_user_verification(
    store: &mut PersistenceGateway,
    user_id: i32,
    verification_token: &String,
) -> (r: Result<ServerResponse, RequestError>)
    requires
        old(store).wf(),
    ensures
        final(store).wf(),
        final(store).is_healthy() == old(store).is_healthy(),
        final(store).boards() == old(store).boards(),
        final(store).tasks() == old(store).tasks(),
        old(store).is_healthy() ==> {
            &&& (r is Ok <==> exists|i: int|
                0 <= i < old(store).users().len() && user_match(
                    #[trigger] old(store).users()[i],
                    user_id,
                    USER_STATUS_IDLE,
                ) && verification_token@ == spec_activation_token(
                    user_id,
                    old(store).users()[i].passwd@,
                    old(store).users()[i].created_at,
                ))
            &&& (r matches Ok(resp) ==> resp.status == 200 && resp.message@ == "Ok"@ && (exists|
                i: int,
            |
                0 <= i < old(store).users().len() && user_match(
                    #[trigger] old(store).users()[i],
                    user_id,
                    USER_STATUS_IDLE,
                ) && final(store).users() == old(store).users().update(
                    i,
                    spec_activated(old(store).users()[i]),
                )))
            &&& (r matches Err(e) ==> e == RequestError::BadRequest && final(store).users()
                == old(store).users())
        },
        !old(store).is_healthy() ==> (r matches Err(e) && e == RequestError::ServerFault
            && final(store).users() == old(store).users()),
{
    match store.find_user_with_status(user_id, USER_STATUS_IDLE) {
        Ok(user) => {
            let expected = make_activation_token(user.id, user.passwd.as_str(), user.created_at);
            if verification_token.eq(&expected) {
                proof {
                    store.lemma_rows_unique();
                }
                match store.activate_user(user_id) {
                    Ok(()) => {
                        proof {
                            reveal_strlit("Ok");
                        }
                        Ok(ServerResponse { status: 200, message: "Ok".to_owned() })
                    },
                    Err(_) => Err(RequestError::ServerFault),
                }
            } else {
                proof {
                    store.lemma_rows_unique();
                    assert forall|i: int|
                        0 <= i < store.users().len() && user_match(
                            #[trigger] store.users()[i],
                            user_id,
                            USER_STATUS_IDLE,
                        ) implies verification_token@ != spec_activation_token(
                        user_id,
                        store.users()[i].passwd@,
                        store.users()[i].created_at,
                    ) by {
                        let j = choose|j: int|
                            0 <= j < store.users().len() && (#[trigger] store.users()[j]) == user
                                && user_match(user, user_id, USER_STATUS_IDLE);
                        assert(i == j);
                    }
                }
                Err(RequestError::BadRequest)
            }
        },
        Err(PersistenceError::NotFound) => Err(RequestError::BadRequest),
        Err(_) => Err(RequestError::ServerFault),
    }
}

/// Finishes an email change for a decoded address: the token is
/// recomputed from the pending row's current address and creation time;
/// on a match the new address is written, nothing stays pending, and
/// the cached record is dropped. The pending status flips on success,
/// so a replay is refused, a no-op; under a healthy store every denial
/// is a bad request.
pub fn verify_email_change(
    store: &mut PersistenceGateway,
    cache: &mut CacheStore,
    new_email: String,
    user_id: i32,
    verification_token: &String,
) -> (r: Result<ServerResponse, RequestError>)
    requires
        old(store).wf(),
        old(cache).wf(),
    ensures
        final(store).wf(),
        final(cache).wf(),
        final(store).is_healthy() == old(store).is_healthy(),
        final(cache).is_available() == old(cache).is_available(),
        final(store).boards() == old(store).boards(),
        final(store).tasks() == old(store).tasks(),
        old(store).is_healthy() ==> {
            &&& (r is Ok ==> (exists|i: int|
                0 <= i < old(store).users().len() && user_email_pending_match(
                    #[trigger] old(store).users()[i],
                    user_id,
                ) && verification_token@ == spec_email_change_token(
                    new_email@,
                    old(store).users()[i].email@,
                    old(store).users()[i].created_at,
                ) && final(store).users() == old(store).users().update(
                    i,
                    spec_email_set(old(store).users()[i], new_email),
                )) && final(cache).contents() == if old(cache).is_available() {
                old(cache).contents().remove(KeyModel::UserData(user_id as int))
            } else {
                old(cache).contents()
            })
            &&& (r matches Ok(resp) ==> resp.status == 200 && resp.message@ == "Ok"@)
            &&& ((!exists|i: int|
                0 <= i < old(store).users().len() && (#[trigger] old(store).users()[i]).email@
                    == new_email@) && (exists|i: int|
                0 <= i < old(store).users().len() && user_email_pending_match(
                    #[trigger] old(store).users()[i],
                    user_id,
                ) && verification_token@ == spec_email_change_token(
                    new_email@,
                    old(store).users()[i].email@,
                    old(store).users()[i].created_at,
                ))) ==> r is Ok
            &&& (r is Err ==> final(store).users() == old(store).users() && final(cache).contents() == old(cache).contents())
            &&& (r matches Err(e) ==> e == RequestError::BadRequest)
        },
        !old(store).is_healthy() ==> (r is Err && final(store).users() == old(store).users()
            && final(cache).contents() == old(cache).contents()),
{
    match store.find_email_pending_user(user_id) {
        Ok(user) => {
            let expected = make_email_change_token(
                new_email.as_str(),
                user.email.as_str(),
                user.created_at,
            );
            if verification_token.eq(&expected) {
                let ghost em = new_email;
                proof {
                    store.lemma_rows_unique();
                }
                match store.set_user_email(user_id, new_email) {
                    Ok(()) => {
                        proof {
                            let i = choose|i: int|
                                0 <= i < old(store).users().len() && user_email_pending_match(
                                    #[trigger] old(store).users()[i],
                                    user_id,
                                ) && store.users() == old(store).users().update(
                                    i,
                                    spec_email_set(old(store).users()[i], em),
                                );
                            let j = choose|j: int|
                                0 <= j < old(store).users().len() && (#[trigger] old(store).users()[j]) == user && user_email_pending_match(user, user_id);
                            assert(i == j);
                            assert(verification_token@ == spec_email_change_token(
                                em@,
                                old(store).users()[i].email@,
                                old(store).users()[i].created_at,
                            ));
                        }
                        cache.drop_user_data(user_id);
                        proof {
                            reveal_strlit("Ok");
                        }
                        Ok(ServerResponse { status: 200, message: "Ok".to_owned() })
                    },
                    Err(PersistenceError::Conflict) => Err(RequestError::BadRequest),
                    Err(_) => Err(RequestError::ServerFault),
                }
            } else {
                proof {
                    store.lemma_rows_unique();
                    assert forall|i: int|
                        0 <= i < store.users().len() && user_email_pending_match(
                            #[trigger] store.users()[i],
                            user_id,
                        ) implies verification_token@ != spec_email_change_token(
                        new_email@,
                        store.users()[i].email@,
                        store.users()[i].created_at,
                    ) by {
                        let j = choose|j: int|
                            0 <= j < store.users().len() && (#[trigger] store.users()[j]) == user
                                && user_email_pending_match(user, user_id);
                        assert(i == j);
                    }
                }
                Err(RequestError::BadRequest)
            }
        },
        Err(PersistenceError::NotFound) => Err(RequestError::BadRequest),
        Err(_) => Err(RequestError::ServerFault),
    }
}

/// Visits an email-change link: decodes the address from the link and
/// finishes the change. Success is owed whenever the link carries the
/// canonical encoding of an address that is not yet taken and whose
/// recomputed token matches the pending row; every denial, the
/// undecodable link included, is a bad request that changes nothing.
pub fn handle_email_verification(
    store: &mut PersistenceGateway,
    cache: &mut CacheStore,
    encoded_email: &String,
    user_id: i32,
    verification_token: &String,
) -> (r: Result<ServerResponse, RequestError>)
    requires
        old(store).wf(),
        old(cache).wf(),
    ensures
        final(store).wf(),
        final(cache).wf(),
        final(store).is_healthy() == old(store).is_healthy(),
        final(cache).is_available() == old(cache).is_available(),
        final(store).boards() == old(store).boards(),
        final(store).tasks() == old(store).tasks(),
        r is Ok ==> old(store).is_healthy(),
        old(store).is_healthy() ==> {
            &&& (r is Ok ==> exists|i: int, e: String|
                0 <= i < old(store).users().len() && user_email_pending_match(
                    #[trigger] old(store).users()[i],
                    user_id,
                ) && verification_token@ == spec_email_change_token(
                    e@,
                    old(store).users()[i].email@,
                    old(store).users()[i].created_at,
                ) && final(store).users() == old(store).users().update(
                    i,
                    #[trigger] spec_email_set(old(store).users()[i], e),
                ))
            &&& (r is Ok ==> final(cache).contents() == if old(cache).is_available() {
                old(cache).contents().remove(KeyModel::UserData(user_id as int))
            } else {
                old(cache).contents()
            })
            &&& (r matches Ok(resp) ==> resp.status == 200 && resp.message@ == "Ok"@)
            &&& (r is Err ==> final(store).users() == old(store).users() && final(cache).contents() == old(cache).contents())
            &&& (r matches Err(e) ==> e == RequestError::BadRequest)
            &&& (forall|e: Seq<char>|
                #![trigger base64_of(e)]
                (is_ascii_chars(e) && encoded_email@ == base64_of(e) && !(exists|i: int|
                    0 <= i < old(store).users().len() && (#[trigger] old(store).users()[i]).email@
                        == e) && (exists|i: int|
                    0 <= i < old(store).users().len() && user_email_pending_match(
                        #[trigger] old(store).users()[i],
                        user_id,
                    ) && verification_token@ == spec_email_change_token(
                        e,
                        old(store).users()[i].email@,
                        old(store).users()[i].created_at,
                    ))) ==> r is Ok)
        },
        !old(store).is_healthy() ==> (r is Err && final(store).users() == old(store).users()
            && final(cache).contents() == old(cache).contents()),
{
    let decoded = base64_decode(encoded_email.as_str());
    match decoded {
        Some(new_email) => {
            let ghost em = new_email@;
            let res = verify_email_change(store, cache, new_email, user_id, verification_token);
            proof {
                if old(store).is_healthy() {
                assert forall|e: Seq<char>|
                    (is_ascii_chars(e) && encoded_email@ == base64_of(e) && !(exists|i: int|
                        0 <= i < old(store).users().len() && (#[trigger] old(
                            store,
                        ).users()[i]).email@ == e) && (exists|i: int|
                        0 <= i < old(store).users().len() && user_email_pending_match(
                            #[trigger] old(store).users()[i],
                            user_id,
                        ) && verification_token@ == spec_email_change_token(
                            e,
                            old(store).users()[i].email@,
                            old(store).users()[i].created_at,
                        ))) implies res is Ok by {
                    assert(em == e);
                    let i = choose|i: int|
                        0 <= i < old(store).users().len() && user_email_pending_match(
                            #[trigger] old(store).users()[i],
                            user_id,
                        ) && verification_token@ == spec_email_change_token(
                            e,
                            old(store).users()[i].email@,
                            old(store).users()[i].created_at,
                        );
                    assert(user_email_pending_match(old(store).users()[i], user_id)
                        && verification_token@ == spec_email_change_token(
                        em,
                        old(store).users()[i].email@,
                        old(store).users()[i].created_at,
                    ));
                    assert forall|j: int|
                        0 <= j < old(store).users().len() implies (#[trigger] old(
                        store,
                    ).users()[j]).email@ != em by {
                        assert(old(store).users()[j].email@ != e);
                    }
                }
                }
            }
            res
        },
        None => {
            proof {
                assert forall|e: Seq<char>|
                    !(is_ascii_chars(e) && encoded_email@ == base64_of(e)) by {
                    if is_ascii_chars(e) && encoded_email@ == base64_of(e) {
                        assert(false);
                    }
                }
            }
            Err(RequestError::BadRequest)
        },
    }
}

} // verus!
