//! Capability tokens for emailed verification links: deterministic,
//! self-verifying hashes over the current secret-bearing fields of the
//! account, so no per-link state is persisted.
//!
//! An account-activation token is derived from the password hash; any
//! later change of the password therefore silently invalidates an unused
//! activation link. That coupling is deliberate and kept.

use vstd::prelude::*;

use crate::convertations::{sha256_hex, sha256_hex_of};
use crate::numfmt::{i32_to_dec, i64_to_dec, spec_dec_i64};

verus! {

/// The activation token of a user: the hash of the user id, the current
/// password hash and the creation time.
pub open spec fn spec_activation_token(user_id: i32, passwd: Seq<char>, created_at: i64) -> Seq<
    char,
> {
    sha256_hex_of(spec_dec_i64(user_id as int) + passwd + spec_dec_i64(created_at as int))
}

/// The email-change token of a user: the hash of the new address, the
/// current address and the creation time.
pub open spec fn spec_email_change_token(
    new_email: Seq<char>,
    current_email: Seq<char>,
    created_at: i64,
) -> Seq<char> {
    sha256_hex_of(new_email + current_email + spec_dec_i64(created_at as int))
}

/// Derives the account-activation token embedded in a verification link.
pub fn make_activation_token(user_id: i32, passwd_hash: &str, created_at: i64) -> (r: String)
    ensures
        r@ == spec_activation_token(user_id, passwd_hash@, created_at),
{
    let mut payload = i32_to_dec(user_id);
    payload.append(passwd_hash);
    let time_part = i64_to_dec(created_at);
    payload.append(time_part.as_str());
    proof {
        assert(payload@ =~= spec_dec_i64(user_id as int) + passwd_hash@ + spec_dec_i64(
            created_at as int,
        ));
    }
    sha256_hex(payload.as_str())
}

/// Derives the email-change token embedded in a verification link.
pub fn make_email_change_token(new_email: &str, current_email: &str, created_at: i64) -> (r:
    String)
    ensures
        r@ == spec_email_change_token(new_email@, current_email@, created_at),
{
    let mut payload = new_email.to_owned();
    payload.append(current_email);
    let time_part = i64_to_dec(created_at);
    payload.append(time_part.as_str());
    proof {
        assert(payload@ =~= new_email@ + current_email@ + spec_dec_i64(created_at as int));
    }
    sha256_hex(payload.as_str())
}

} // verus!
