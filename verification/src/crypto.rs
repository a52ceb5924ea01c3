//! The hashing and base64 capability: digests through sha2/sha3, base64
//! through the base64 crate, with the dispatch over hash names decided and
//! proved here.

use vstd::prelude::*;
use base64::Engine;
use sha2::Digest;
use crate::text::{bytes_to_string_lossy, chars_of, push_char, utf8_lossy_of};

verus! {

/// The SHA-256 digest of the input's bytes.
pub uninterp spec fn sha256_of(s: Seq<char>) -> Seq<u8>;

/// The SHA-512 digest of the input's bytes.
pub uninterp spec fn sha512_of(s: Seq<char>) -> Seq<u8>;

/// The SHA3-256 digest of the input's bytes.
pub uninterp spec fn sha3_256_of(s: Seq<char>) -> Seq<u8>;

/// The SHA3-512 digest of the input's bytes.
pub uninterp spec fn sha3_512_of(s: Seq<char>) -> Seq<u8>;

/// Relies on sha2::Sha256 (Digest::digest): the digest depends on the input
/// alone.
#[verifier::external_body]
fn sha256_digest(input: &str) -> (r: Vec<u8>)
    ensures
        r@ == sha256_of(input@),
{
    sha2::Sha256::digest(input.as_bytes()).to_vec()
}

/// Relies on sha2::Sha512 (Digest::digest): the digest depends on the input
/// alone.
#[verifier::external_body]
fn sha512_digest(input: &str) -> (r: Vec<u8>)
    ensures
        r@ == sha512_of(input@),
{
    sha2::Sha512::digest(input.as_bytes()).to_vec()
}

/// Relies on sha3::Sha3_256 (Digest::digest): the digest depends on the input
/// alone.
#[verifier::external_body]
fn sha3_256_digest(input: &str) -> (r: Vec<u8>)
    ensures
        r@ == sha3_256_of(input@),
{
    sha3::Sha3_256::digest(input.as_bytes()).to_vec()
}

/// Relies on sha3::Sha3_512 (Digest::digest): the digest depends on the input
/// alone.
#[verifier::external_body]
fn sha3_512_digest(input: &str) -> (r: Vec<u8>)
    ensures
        r@ == sha3_512_of(input@),
{
    sha3::Sha3_512::digest(input.as_bytes()).to_vec()
}

/// The lower-case hex digit for a value below sixteen.
pub open spec fn hex_digit(n: int) -> char {
    if n < 10 {
        ((48 + n) as u8) as char
    } else {
        ((87 + n) as u8) as char
    }
}

/// The lower-case hex text of a byte string, two digits per byte.
pub open spec fn hex_of_bytes(b: Seq<u8>) -> Seq<char>
    decreases b.len(),
{
    if b.len() == 0 {
        Seq::empty()
    } else {
        hex_of_bytes(b.drop_last()) + seq![
            hex_digit(b.last() as int / 16),
            hex_digit(b.last() as int % 16),
        ]
    }
}

fn hex_digit_char(n: u8) -> (r: char)
    requires
        n < 16,
    ensures
        r == hex_digit(n as int),
{
    if n < 10 {
        (48 + n) as char
    } else {
        (87 + n) as char
    }
}

/// Render bytes as lower-case hex, two digits per byte.
pub fn bytes_to_hex(b: &Vec<u8>) -> (r: String)
    ensures
        r@ == hex_of_bytes(b@),
{
    let mut out = String::new();
    let n = b.len();
    for i in 0..n
        invariant
            n == b@.len(),
            out@ == hex_of_bytes(b@.take(i as int)),
    {
        let byte = b[i];
        push_char(&mut out, hex_digit_char(byte / 16));
        push_char(&mut out, hex_digit_char(byte % 16));
        proof {
            assert(b@.take(i + 1).drop_last() =~= b@.take(i as int));
            assert(b@.take(i + 1).last() == b@[i as int]);
            assert(out@ =~= hex_of_bytes(b@.take(i + 1)));
        }
    }
    proof {
        assert(b@.take(n as int) =~= b@);
    }
    out
}

/// The text names one of the SHA family hashes.
pub open spec fn names_sha(t: Seq<char>) -> bool {
    t.len() >= 3 && t.take(3) == "sha"@
}

/// What `hash` answers: the named digest for a SHA-family name — the two
/// SHA-3 variants and SHA-512 by their exact names, anything else in the
/// family defaulting to SHA-256 — and the empty string for any other name.
pub open spec fn spec_hash(t: Seq<char>, s: Seq<char>) -> Seq<char> {
    if names_sha(t) {
        if t == "sha3_256"@ {
            hex_of_bytes(sha3_256_of(s))
        } else if t == "sha3_512"@ {
            hex_of_bytes(sha3_512_of(s))
        } else if t == "sha2_512"@ {
            hex_of_bytes(sha512_of(s))
        } else {
            hex_of_bytes(sha256_of(s))
        }
    } else {
        Seq::empty()
    }
}

fn starts_with_sha(t: &str) -> (r: bool)
    ensures
        r == names_sha(t@),
{
    let cs = chars_of(t);
    proof {
        reveal_strlit("sha");
    }
    if cs.len() >= 3 && cs[0] == 's' && cs[1] == 'h' && cs[2] == 'a' {
        proof {
            assert(t@.take(3) =~= "sha"@);
        }
        true
    } else {
        proof {
            if t@.len() >= 3 && t@.take(3) == "sha"@ {
                assert(t@.take(3)[0] == 's' && t@.take(3)[1] == 'h' && t@.take(3)[2] == 'a');
            }
        }
        false
    }
}

/// The hashing capability.
pub struct LuaCrypto {}

impl LuaCrypto {
    /// Dispatch a hash request by name, exactly as `spec_hash` describes.
    pub fn hash(hash_type: String, input: String) -> (r: String)
        ensures
            r@ == spec_hash(hash_type@, input@),
    {
        if starts_with_sha(hash_type.as_str()) {
            let n256 = String::from_str("sha3_256");
            let n512 = String::from_str("sha3_512");
            let n2512 = String::from_str("sha2_512");
            proof {
                reveal_strlit("sha3_256");
                reveal_strlit("sha3_512");
                reveal_strlit("sha2_512");
            }
            if hash_type.eq(&n256) {
                bytes_to_hex(&sha3_256_digest(input.as_str()))
            } else if hash_type.eq(&n512) {
                bytes_to_hex(&sha3_512_digest(input.as_str()))
            } else if hash_type.eq(&n2512) {
                bytes_to_hex(&sha512_digest(input.as_str()))
            } else {
                bytes_to_hex(&sha256_digest(input.as_str()))
            }
        } else {
            String::new()
        }
    }
}

/// The standard-alphabet base64 text of the input's bytes.
pub uninterp spec fn b64_standard_of(s: Seq<char>) -> Seq<char>;

/// The URL-safe-alphabet base64 text of the input's bytes.
pub uninterp spec fn b64_urlsafe_of(s: Seq<char>) -> Seq<char>;

/// The bytes a standard-alphabet base64 text decodes to, where it is valid.
pub uninterp spec fn b64_standard_decoded(s: Seq<char>) -> Option<Seq<u8>>;

/// The bytes a URL-safe-alphabet base64 text decodes to, where it is valid.
pub uninterp spec fn b64_urlsafe_decoded(s: Seq<char>) -> Option<Seq<u8>>;

/// Relies on base64's BASE64_STANDARD engine (Engine::encode): the encoding
/// depends on the input alone, and an empty input encodes to the empty text.
#[verifier::external_body]
pub fn base64_encode(input: String) -> (r: String)
    ensures
        r@ == b64_standard_of(input@),
        input@.len() == 0 ==> r@.len() == 0,
{
    base64::prelude::BASE64_STANDARD.encode(input.as_bytes())
}

/// Relies on base64's BASE64_URL_SAFE engine (Engine::encode): the encoding
/// depends on the input alone, and an empty input encodes to the empty text.
#[verifier::external_body]
pub fn base64_encode_urlsafe(input: String) -> (r: String)
    ensures
        r@ == b64_urlsafe_of(input@),
        input@.len() == 0 ==> r@.len() == 0,
{
    base64::prelude::BASE64_URL_SAFE.encode(input.as_bytes())
}

/// Relies on base64's BASE64_STANDARD engine (Engine::decode): it succeeds
/// exactly on valid base64 texts and returns the bytes they denote.
#[verifier::external_body]
fn base64_decode_bytes(input: &str) -> (r: Result<Vec<u8>, String>)
    ensures
        r is Ok <==> b64_standard_decoded(input@) is Some,
        r matches Ok(b) ==> b64_standard_decoded(input@) == Some(b@),
{
    match base64::prelude::BASE64_STANDARD.decode(input.as_bytes()) {
        Ok(b) => Ok(b),
        Err(e) => Err(format!("{e}")),
    }
}

/// Relies on base64's BASE64_URL_SAFE engine (Engine::decode): it succeeds
/// exactly on valid URL-safe base64 texts and returns the bytes they denote.
#[verifier::external_body]
fn base64_decode_bytes_urlsafe(input: &str) -> (r: Result<Vec<u8>, String>)
    ensures
        r is Ok <==> b64_urlsafe_decoded(input@) is Some,
        r matches Ok(b) ==> b64_urlsafe_decoded(input@) == Some(b@),
{
    match base64::prelude::BASE64_URL_SAFE.decode(input.as_bytes()) {
        Ok(b) => Ok(b),
        Err(e) => Err(format!("{e}")),
    }
}

/// Decode standard base64 into text: the decoded bytes, read as lossy UTF-8.
/// An invalid encoding is an error.
pub fn base64_decode(input: String) -> (r: Result<String, String>)
    ensures
        r is Ok <==> b64_standard_decoded(input@) is Some,
        r matches Ok(s) ==> (b64_standard_decoded(input@) matches Some(b) && s@ == utf8_lossy_of(
            b,
        )),
{
    match base64_decode_bytes(input.as_str()) {
        Ok(b) => Ok(bytes_to_string_lossy(b.as_slice())),
        Err(e) => Err(e),
    }
}

/// Decode URL-safe base64 into text, as `base64_decode` does for standard.
pub fn base64_decode_urlsafe(input: String) -> (r: Result<String, String>)
    ensures
        r is Ok <==> b64_urlsafe_decoded(input@) is Some,
        r matches Ok(s) ==> (b64_urlsafe_decoded(input@) matches Some(b) && s@ == utf8_lossy_of(
            b,
        )),
{
    match base64_decode_bytes_urlsafe(input.as_str()) {
        Ok(b) => Ok(bytes_to_string_lossy(b.as_slice())),
        Err(e) => Err(e),
    }
}

} // verus!
