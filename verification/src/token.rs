//! The session-token scheme: a tamper-evident encoding of
//! `{subject id, issue time}` under a process-wide symmetric key.
//!
//! A token is 88 lowercase hexadecimal characters: 8 digits of the subject
//! id, 16 digits of the issue timestamp, then 64 digits of the HMAC-SHA-256
//! tag of those first 24 digits. Validation recomputes the tag, so no
//! server-side state is needed.

use vstd::prelude::*;

use hmac::{KeyInit, Mac};

use crate::numfmt::{
    is_hex_char, lemma_spec_hex_inj, parse_hex_range, pow16, spec_hex_bytes, spec_hex_u64,
    u64_to_hex,
};

verus! {

/// One byte of the HMAC-SHA-256 tag of a message under a key; it depends
/// on the key, the message and the byte position alone.
pub uninterp spec fn hmac_sha256_byte(key: Seq<u8>, msg: Seq<char>, i: int) -> u8;

/// The HMAC-SHA-256 tag of a message under a key: 32 bytes that depend on
/// the key and message alone.
pub open spec fn hmac_sha256_of(key: Seq<u8>, msg: Seq<char>) -> Seq<u8> {
    Seq::new(32, |i: int| hmac_sha256_byte(key, msg, i))
}

/// Relies on hmac's `Hmac<Sha256>`: accepts a key of any length and
/// produces the 32-byte tag of the message.
#[verifier::external_body]
fn hmac_sha256(key: &Vec<u8>, msg: &str) -> (r: Vec<u8>)
    ensures
        r@ == hmac_sha256_of(key@, msg@),
        r@.len() == 32,
        forall|i: int| 0 <= i < 32 ==> r@[i] == hmac_sha256_byte(key@, msg@, i),
{
    let mut mac = <hmac::Hmac<sha2::Sha256> as KeyInit>::new_from_slice(key.as_slice())
        .expect("HMAC accepts keys of any length");
    Mac::update(&mut mac, msg.as_bytes());
    mac.finalize().into_bytes().to_vec()
}

/// The claims a session token carries: the subject and the issue time.
#[derive(Clone, Copy, PartialEq, Eq, Structural, Debug)]
pub struct JWToken {
    pub user_id: i32,
    pub iat: i64,
}

impl JWToken {
    pub fn new(user_id: i32, iat: i64) -> (r: Self)
        ensures
            r == (JWToken { user_id, iat }),
    {
        JWToken { user_id, iat }
    }
}

/// The 24 claim digits of a token: subject id then issue time, each in
/// fixed-width hexadecimal of its bit pattern.
pub open spec fn spec_claims_hex(user_id: i32, iat: i64) -> Seq<char> {
    spec_hex_u64((user_id as u32) as nat, 8) + spec_hex_u64((iat as u64) as nat, 16)
}

/// The full token issued for the given claims under `key`.
pub open spec fn spec_token(key: Seq<u8>, user_id: i32, iat: i64) -> Seq<char> {
    spec_claims_hex(user_id, iat) + spec_hex_bytes(
        hmac_sha256_of(key, spec_claims_hex(user_id, iat)),
    )
}

/// Whether a string has the shape of a token: 88 lowercase hexadecimal
/// digits. Anything else is malformed before any key is consulted.
pub open spec fn spec_token_shaped(s: Seq<char>) -> bool {
    s.len() == 88 && forall|i: int| 0 <= i < 88 ==> is_hex_char(#[trigger] s[i])
}

/// Errors of token validation and of the request authenticator.
#[derive(Clone, Copy, PartialEq, Eq, Structural, Debug)]
pub enum AuthError {
    /// No token came with the request.
    Missing,
    /// The encoding is unparseable.
    Malformed,
    /// The signature does not match the claims.
    Invalid,
    /// The token aged past its lifetime.
    Expired,
}

/// Two tokens under one key are equal only if they carry the same claims:
/// a valid token identifies its subject and issue time.
pub proof fn lemma_token_identifies(key: Seq<u8>, u1: i32, t1: i64, u2: i32, t2: i64)
    requires
        spec_token(key, u1, t1) == spec_token(key, u2, t2),
    ensures
        u1 == u2,
        t1 == t2,
{
    lemma_claims_lens(u1, t1);
    lemma_claims_lens(u2, t2);
    let s1 = spec_token(key, u1, t1);
    let s2 = spec_token(key, u2, t2);
    assert(s1.subrange(0, 8) =~= spec_hex_u64((u1 as u32) as nat, 8));
    assert(s2.subrange(0, 8) =~= spec_hex_u64((u2 as u32) as nat, 8));
    assert(s1.subrange(8, 24) =~= spec_hex_u64((t1 as u64) as nat, 16));
    assert(s2.subrange(8, 24) =~= spec_hex_u64((t2 as u64) as nat, 16));
    assert(((u1 as u32) as nat) < pow16(8) && ((u2 as u32) as nat) < pow16(8)) by {
        lemma_pow16_8_16();
    }
    assert(((t1 as u64) as nat) < pow16(16) && ((t2 as u64) as nat) < pow16(16)) by {
        lemma_pow16_8_16();
    }
    lemma_spec_hex_inj((u1 as u32) as nat, (u2 as u32) as nat, 8);
    lemma_spec_hex_inj((t1 as u64) as nat, (t2 as u64) as nat, 16);
    assert(u1 as u32 == u2 as u32 && u1 == (u1 as u32) as i32 && u2 == (u2 as u32) as i32
        ==> u1 == u2) by (bit_vector);
    assert(u1 == (u1 as u32) as i32) by (bit_vector);
    assert(u2 == (u2 as u32) as i32) by (bit_vector);
    assert(t1 as u64 == t2 as u64 && t1 == (t1 as u64) as i64 && t2 == (t2 as u64) as i64
        ==> t1 == t2) by (bit_vector);
    assert(t1 == (t1 as u64) as i64) by (bit_vector);
    assert(t2 == (t2 as u64) as i64) by (bit_vector);
}

proof fn lemma_claims_lens(u: i32, t: i64)
    ensures
        spec_claims_hex(u, t).len() == 24,
        spec_claims_hex(u, t).subrange(0, 8) == spec_hex_u64((u as u32) as nat, 8),
        spec_claims_hex(u, t).subrange(8, 24) == spec_hex_u64((t as u64) as nat, 16),
{
    crate::numfmt::lemma_spec_hex_len((u as u32) as nat, 8);
    crate::numfmt::lemma_spec_hex_len((t as u64) as nat, 16);
    assert(spec_claims_hex(u, t).subrange(0, 8) =~= spec_hex_u64((u as u32) as nat, 8));
    assert(spec_claims_hex(u, t).subrange(8, 24) =~= spec_hex_u64((t as u64) as nat, 16));
}

proof fn lemma_pow16_8_16()
    ensures
        pow16(8) == 0x100000000,
        pow16(16) == 0x10000000000000000,
{
    reveal_with_fuel(pow16, 17);
}

/// The provable half of tamper evidence: two distinct strings never
/// validate to the same claims under one key, because a valid token is
/// exactly the encoding of its claims. Altering an issued token — a
/// single bit included — at best yields a token for other claims and at
/// worst fails outright; it can never pass for the original. That the
/// altered string fails outright rests on the collision resistance of
/// the tag and stays outside the proofs.
pub proof fn lemma_tampering_never_preserves_claims(
    key: Seq<u8>,
    s1: Seq<char>,
    s2: Seq<char>,
    u: i32,
    t: i64,
)
    requires
        s1 == spec_token(key, u, t),
        s2 != s1,
    ensures
        s2 != spec_token(key, u, t),
{
}

/// Issues the token for `token_body` under `secret`: deterministic given
/// identical claims and secret.
pub fn create_jwt(token_body: JWToken, secret: &Vec<u8>) -> (r: String)
    ensures
        r@ == spec_token(secret@, token_body.user_id, token_body.iat),
{
    let mut claims = u64_to_hex(token_body.user_id as u32 as u64, 8);
    let iat_part = u64_to_hex(token_body.iat as u64, 16);
    claims.append(iat_part.as_str());
    proof {
        assert(claims@ =~= spec_claims_hex(token_body.user_id, token_body.iat));
    }
    let mac = hmac_sha256(secret, claims.as_str());
    let mac_hex = crate::numfmt::bytes_to_hex(&mac);
    let mut token = claims;
    token.append(mac_hex.as_str());
    proof {
        assert(token@ =~= spec_token(secret@, token_body.user_id, token_body.iat));
    }
    token
}

/// Checks a token against `secret` and returns the claims it carries.
///
/// Fails with `Malformed` when the encoding is unparseable, with `Invalid`
/// when the shape is right but the signature does not match. Succeeds on
/// exactly the strings that `create_jwt` produces under the same secret.
pub fn check_jwt(jwtoken: &str, secret: &Vec<u8>) -> (r: Result<JWToken, AuthError>)
    ensures
        r matches Ok(c) ==> jwtoken@ == spec_token(secret@, c.user_id, c.iat),
        forall|u: i32, t: i64|
            jwtoken@ == spec_token(secret@, u, t) ==> (r matches Ok(c) && c.user_id == u && c.iat
                == t),
        r matches Err(e) ==> (e == AuthError::Malformed <==> !spec_token_shaped(jwtoken@)) && (e
            == AuthError::Invalid <==> spec_token_shaped(jwtoken@)),
{
    let n = jwtoken.unicode_len();
    if n != 88 {
        proof {
            lemma_token_shape(secret@);
        }
        return Err(AuthError::Malformed);
    }
    let mut i: usize = 0;
    while i < 88
        invariant
            n == 88,
            jwtoken@.len() == 88,
            i <= 88,
            forall|k: int| 0 <= k < i ==> is_hex_char(#[trigger] jwtoken@[k]),
        decreases 88 - i,
    {
        let c = jwtoken.get_char(i);
        if !matches!(c, '0'|'1'|'2'|'3'|'4'|'5'|'6'|'7'|'8'|'9'|'a'|'b'|'c'|'d'|'e'|'f') {
            proof {
                assert(!is_hex_char(jwtoken@[i as int]));
                lemma_token_shape(secret@);
            }
            return Err(AuthError::Malformed);
        }
        i = i + 1;
    }
    let user_bits = parse_hex_range(jwtoken, 0, 8);
    let iat_bits = parse_hex_range(jwtoken, 8, 24);
    let claims = JWToken::new(user_bits as u32 as i32, iat_bits as i64);
    let expected = create_jwt(claims, secret);
    let given: String = jwtoken.to_owned();
    if given == expected {
        assert forall|u: i32, t: i64| jwtoken@ == spec_token(secret@, u, t) implies claims.user_id
            == u && claims.iat == t by {
            lemma_token_identifies(secret@, claims.user_id, claims.iat, u, t);
        }
        Ok(claims)
    } else {
        assert forall|u: i32, t: i64| jwtoken@ != spec_token(secret@, u, t) by {
            if jwtoken@ == spec_token(secret@, u, t) {
                lemma_claims_lens(u, t);
                assert(jwtoken@.subrange(0, 8) =~= spec_hex_u64((u as u32) as nat, 8));
                assert(jwtoken@.subrange(8, 24) =~= spec_hex_u64((t as u64) as nat, 16));
                assert(((u as u32) as nat) < pow16(8) && ((t as u64) as nat) < pow16(16)) by {
                    lemma_pow16_8_16();
                }
                lemma_spec_hex_inj((u as u32) as nat, user_bits as nat, 8);
                lemma_spec_hex_inj((t as u64) as nat, iat_bits as nat, 16);
                assert(user_bits == (u as u32) as u64 && iat_bits == t as u64);
                lemma_token_identifies_bits(u, t, user_bits, iat_bits);
                assert(u == claims.user_id && t == claims.iat);
                assert(jwtoken@ == expected@);
                assert(false);
            }
        }
        Err(AuthError::Invalid)
    }
}

proof fn lemma_token_identifies_bits(u: i32, t: i64, user_bits: u64, iat_bits: u64)
    requires
        user_bits == (u as u32) as u64,
        iat_bits == t as u64,
    ensures
        u == user_bits as u32 as i32,
        t == iat_bits as i64,
{
    assert(user_bits == (u as u32) as u64 ==> u == user_bits as u32 as i32) by (bit_vector);
    assert(iat_bits == t as u64 ==> t == iat_bits as i64) by (bit_vector);
}

/// A genuine token always has the 88-digit shape.
pub proof fn lemma_token_shape(key: Seq<u8>)
    ensures
        forall|u: i32, t: i64| spec_token_shaped(#[trigger] spec_token(key, u, t)),
{
    assert forall|u: i32, t: i64| spec_token_shaped(#[trigger] spec_token(key, u, t)) by {
        lemma_claims_lens(u, t);
        let claims = spec_claims_hex(u, t);
        let mac = hmac_sha256_of(key, claims);
        lemma_hex_bytes_wf(mac);
        crate::numfmt::lemma_spec_hex_chars((u as u32) as nat, 8);
        crate::numfmt::lemma_spec_hex_chars((t as u64) as nat, 16);
        crate::numfmt::lemma_spec_hex_len((u as u32) as nat, 8);
        crate::numfmt::lemma_spec_hex_len((t as u64) as nat, 16);
        let tok = spec_token(key, u, t);
        assert(tok.len() == 24 + spec_hex_bytes(mac).len());
        assert forall|i: int| 0 <= i < tok.len() implies is_hex_char(#[trigger] tok[i]) by {
            if i < 8 {
                assert(tok[i] == spec_hex_u64((u as u32) as nat, 8)[i]);
            } else if i < 24 {
                assert(tok[i] == spec_hex_u64((t as u64) as nat, 16)[i - 8]);
            } else {
                assert(tok[i] == spec_hex_bytes(mac)[i - 24]);
            }
        }
    }
}

proof fn lemma_hex_bytes_wf(bs: Seq<u8>)
    ensures
        spec_hex_bytes(bs).len() == 2 * bs.len(),
        forall|i: int| 0 <= i < 2 * bs.len() ==> is_hex_char(#[trigger] spec_hex_bytes(bs)[i]),
    decreases bs.len(),
{
    if bs.len() > 0 {
        lemma_hex_bytes_wf(bs.drop_last());
        let last = bs.last();
        crate::numfmt::lemma_hex_digit_val(last as int / 16);
        crate::numfmt::lemma_hex_digit_val(last as int % 16);
        assert forall|i: int| 0 <= i < 2 * bs.len() implies is_hex_char(
            #[trigger] spec_hex_bytes(bs)[i],
        ) by {
            if i < 2 * (bs.len() - 1) {
                assert(spec_hex_bytes(bs)[i] == spec_hex_bytes(bs.drop_last())[i]);
            } else {
                assert(spec_hex_bytes(bs)[i] == crate::numfmt::spec_hex_byte(last)[i - 2 * (bs.len()
                    - 1)]);
            }
        }
    }
}

} // verus!
