//! Hashing and base64 conversions used by tokens, capability links and
//! password storage. The cryptographic digest and the base64 transform are
//! named results of outside code; the hexadecimal rendering of a digest is
//! verified code from `numfmt`.

use vstd::prelude::*;
use vstd::string::string_is_ascii;
use vstd::utf8::is_ascii_chars;
use base64::Engine;
use sha2::Digest;

use crate::numfmt::spec_hex_bytes;

verus! {

/// One byte of the SHA-256 digest of the UTF-8 encoding of a character
/// string; it depends on the string and the byte position alone.
pub uninterp spec fn sha256_byte(s: Seq<char>, i: int) -> u8;

/// The SHA-256 digest of the UTF-8 encoding of a character string:
/// 32 bytes that depend on the string alone.
pub open spec fn sha256_of(s: Seq<char>) -> Seq<u8> {
    Seq::new(32, |i: int| sha256_byte(s, i))
}

/// The standard base64 encoding (with padding) of the UTF-8 encoding of a
/// character string.
pub uninterp spec fn base64_of(s: Seq<char>) -> Seq<char>;

/// Relies on sha2's `Sha256`: the digest is 32 bytes and depends on the
/// input bytes alone.
#[verifier::external_body]
fn sha256_digest(s: &str) -> (r: Vec<u8>)
    ensures
        r@ == sha256_of(s@),
        r@.len() == 32,
        forall|i: int| 0 <= i < 32 ==> r@[i] == sha256_byte(s@, i),
{
    sha2::Sha256::digest(s.as_bytes()).to_vec()
}

/// Relies on base64's `STANDARD` engine: the encoding depends on the input
/// alone, and an empty input encodes to the empty string.
#[verifier::external_body]
pub(crate) fn base64_encode(s: &str) -> (r: String)
    ensures
        r@ == base64_of(s@),
        s@.len() == 0 ==> r@.len() == 0,
{
    base64::engine::general_purpose::STANDARD.encode(s)
}

/// Relies on base64's `STANDARD` engine: decoding rejects anything but a
/// canonical padded encoding, so a successful decode whose bytes are ASCII
/// names the unique string that encodes to the input; and on the canonical
/// encoding of an ASCII string, decoding succeeds and returns exactly that
/// string, so decoding inverts `base64_of` there.
#[verifier::external_body]
pub(crate) fn base64_decode(s: &str) -> (r: Option<String>)
    ensures
        r matches Some(d) ==> (string_is_ascii(&d) ==> base64_of(d@) == s@),
        r matches Some(d) ==> (forall|e: Seq<char>|
            #![trigger base64_of(e)]
            is_ascii_chars(e) && s@ == base64_of(e) ==> d@ == e),
        r is None ==> !(exists|e: Seq<char>| is_ascii_chars(e) && s@ == #[trigger] base64_of(e)),
{
    match base64::engine::general_purpose::STANDARD.decode(s) {
        Ok(bytes) => Some(bytes.into_iter().map(|b| b as char).collect()),
        Err(_) => None,
    }
}

/// The lowercase hexadecimal rendering of the SHA-256 digest of a string:
/// the form in which the service stores password hashes and builds
/// capability tokens.
pub open spec fn sha256_hex_of(s: Seq<char>) -> Seq<char> {
    spec_hex_bytes(sha256_of(s))
}

/// Hashes a string to the 64-digit lowercase hexadecimal form of its
/// SHA-256 digest.
pub fn sha256_hex(s: &str) -> (r: String)
    ensures
        r@ == sha256_hex_of(s@),
{
    let digest = sha256_digest(s);
    crate::numfmt::bytes_to_hex(&digest)
}

/// A value that can be replaced by the rendering of its own hash.
///
/// The trait carries no contract; callers that need one use
/// [`sha256_hex`], which the `String` impl forwards to.
pub trait AsHash where Self: Sized {
    fn as_hash(&self) -> Self;
}

impl AsHash for String {
    fn as_hash(&self) -> (r: String) {
        sha256_hex(self.as_str())
    }
}

/// A value that can be replaced by its base64 encoding.
///
/// The trait carries no contract; the contracted encoder behind the
/// `String` impl states `base64_of` exactly.
pub trait AsBase64 where Self: Sized {
    fn as_base64(&self) -> Self;
}

impl AsBase64 for String {
    fn as_base64(&self) -> (r: String) {
        base64_encode(self.as_str())
    }
}

/// A value that can be recovered from a base64 encoding of itself.
///
/// The trait carries no contract; the contracted decoder behind the
/// `String` impl inverts `base64_of` on canonical encodings of ASCII
/// strings.
pub trait FromBase64 where Self: Sized {
    fn from_base64(&self) -> Option<Self>;
}

impl FromBase64 for String {
    fn from_base64(&self) -> (r: Option<String>) {
        base64_decode(self.as_str())
    }
}

} // verus!
