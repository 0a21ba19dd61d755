//! The per-request authenticator: gates every authenticated request,
//! resolving and, near expiry, rotating the session token before any
//! handler runs.
//!
//! With `age = now - issued_at`: a missing, unparseable or forged token is
//! rejected; an age over the lifetime is rejected; an age within the
//! refresh window is accepted under the original claims while a fresh
//! token is issued out-of-band; anything younger is accepted as it is.

use vstd::prelude::*;

use crate::app_config::{TOKEN_LIFETIME, TOKEN_UPDATE_LIFETIME_THRESHOLD};
use crate::token::{check_jwt, create_jwt, spec_token, spec_token_shaped, AuthError, JWToken};

verus! {

/// What the authenticator resolved for one request: the subject made
/// available downstream and, when a rotation occurred, the renewed
/// credential to surface to the client.
#[derive(Debug)]
pub struct AuthDecision {
    pub subject_id: i32,
    pub new_token: Option<String>,
}

/// Whether a token issued at `iat` is still accepted at `now`.
pub open spec fn spec_accepts(now: int, iat: int) -> bool {
    now - iat <= TOKEN_LIFETIME
}

/// Whether a token issued at `iat` is reissued when accepted at `now`.
pub open spec fn spec_rotates(now: int, iat: int) -> bool {
    TOKEN_UPDATE_LIFETIME_THRESHOLD < now - iat <= TOKEN_LIFETIME
}

/// In the refresh window the request is accepted under the original
/// claims and a rotation happens, and the rotated token cannot carry an
/// earlier issue time than the original.
pub proof fn lemma_refresh_window(now: int, iat: int)
    requires
        TOKEN_UPDATE_LIFETIME_THRESHOLD < now - iat <= TOKEN_LIFETIME,
    ensures
        spec_accepts(now, iat),
        spec_rotates(now, iat),
        now >= iat,
{
}

/// Past the lifetime the token is not accepted, whatever its signature:
/// `validate_user` rejects any claims this old, and rejects a bad
/// signature outright.
pub proof fn lemma_expired_rejected(now: int, iat: int)
    requires
        now - iat > TOKEN_LIFETIME,
    ensures
        !spec_accepts(now, iat),
        !spec_rotates(now, iat),
{
}

/// Gates one request. `credentials` is the bearer token of the request,
/// if one came with it; `now` is the arrival time.
///
/// Returns the resolved subject together with the rotated token when one
/// was issued; or the error that denies the request before handler logic
/// runs.
pub fn validate_user(credentials: Option<&str>, secret: &Vec<u8>, now: i64) -> (r: Result<
    AuthDecision,
    AuthError,
>)
    ensures
        credentials is None ==> (r matches Err(e) && e == AuthError::Missing),
        credentials matches Some(tok) ==> {
            &&& (forall|u: i32, t: i64|
                tok@ == spec_token(secret@, u, t) ==> {
                    &&& spec_accepts(now as int, t as int) <==> (r matches Ok(d) && d.subject_id
                        == u)
                    &&& !spec_accepts(now as int, t as int) <==> (r matches Err(e) && e
                        == AuthError::Expired)
                    &&& (spec_accepts(now as int, t as int) && !spec_rotates(now as int, t as int))
                        ==> (r matches Ok(d) && d.new_token is None)
                    &&& spec_rotates(now as int, t as int) ==> (r matches Ok(d)
                        && d.new_token matches Some(nt) && nt@ == spec_token(secret@, u, now))
                })
            &&& (!(exists|u: i32, t: i64| tok@ == spec_token(secret@, u, t))) ==> (r matches Err(e)
                && (e == AuthError::Malformed <==> !spec_token_shaped(tok@)) && (e
                == AuthError::Invalid <==> spec_token_shaped(tok@)))
        },
{
    let tok = match credentials {
        None => {
            return Err(AuthError::Missing);
        },
        Some(tok) => tok,
    };
    match check_jwt(tok, secret) {
        Ok(claims) => {
            let age: i128 = (now as i128) - (claims.iat as i128);
            if age > TOKEN_LIFETIME as i128 {
                proof {
                    assert forall|u: i32, t: i64| tok@ == spec_token(secret@, u, t) implies u
                        == claims.user_id && t == claims.iat by {
                        crate::token::lemma_token_identifies(
                            secret@,
                            u,
                            t,
                            claims.user_id,
                            claims.iat,
                        );
                    }
                }
                Err(AuthError::Expired)
            } else if age > TOKEN_UPDATE_LIFETIME_THRESHOLD as i128 {
                let updated = create_jwt(JWToken::new(claims.user_id, now), secret);
                proof {
                    assert forall|u: i32, t: i64| tok@ == spec_token(secret@, u, t) implies u
                        == claims.user_id && t == claims.iat by {
                        crate::token::lemma_token_identifies(
                            secret@,
                            u,
                            t,
                            claims.user_id,
                            claims.iat,
                        );
                    }
                }
                Ok(AuthDecision { subject_id: claims.user_id, new_token: Some(updated) })
            } else {
                proof {
                    assert forall|u: i32, t: i64| tok@ == spec_token(secret@, u, t) implies u
                        == claims.user_id && t == claims.iat by {
                        crate::token::lemma_token_identifies(
                            secret@,
                            u,
                            t,
                            claims.user_id,
                            claims.iat,
                        );
                    }
                }
                Ok(AuthDecision { subject_id: claims.user_id, new_token: None })
            }
        },
        Err(e) => Err(e),
    }
}

} // verus!
