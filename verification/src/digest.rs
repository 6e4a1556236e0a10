//! SHA-256, and the fingerprints made of it.
use vstd::prelude::*;
use vstd::string::*;

use ::sha2::Digest;

use crate::text;
use crate::utils;

verus! {

broadcast use vstd::string::group_string_axioms;

/// The SHA-256 digest of some bytes.
pub uninterp spec fn sha256(bytes: Seq<u8>) -> Seq<u8>;

/// Computes a SHA-256 digest, by `sha2::Sha256::digest`. The result is a function of the bytes
/// alone and is named [`sha256`]; it has 32 bytes. How it comes about is left to that function.
#[verifier::external_body]
pub(crate) fn digest(bytes: &[u8]) -> (r: Vec<u8>)
    ensures
        r@ == sha256(bytes@),
        r@.len() == 32,
{
    ::sha2::Sha256::digest(bytes).to_vec()
}

/// The digest of some bytes in hexadecimal.
pub open spec fn hex_digest(bytes: Seq<u8>) -> Seq<char> {
    utils::hex_bytes(sha256(bytes))
}

/// The first sixteen hexadecimal digits of the digest of a text.
pub open spec fn fingerprint(s: Seq<char>) -> Seq<char> {
    hex_digest(vstd::utf8::encode_utf8(s)).take(16)
}

/// The digest of some bytes in hexadecimal.
pub fn hex_digest_of(bytes: &[u8]) -> (r: String)
    ensures
        r@ == hex_digest(bytes@),
        r@.len() == 64,
{
    let d = digest(bytes);
    proof {
        utils::lemma_hex_bytes_len(d@);
    }
    utils::hex_of_bytes(&d)
}

/// The first sixteen hexadecimal digits of the digest of a text.
pub fn fingerprint_of(s: &str) -> (r: String)
    ensures
        r@ == fingerprint(s@),
        r@.len() == 16,
{
    let all = hex_digest_of(s.as_bytes());
    let cs = text::chars_of(all.as_str());
    let r = text::string_of(&cs, 0, 16);
    assert(r@ =~= all@.take(16));
    r
}


/// A fingerprint is the first sixteen digits of the digest of the text as it is stored, and a
/// digest shows its bytes by two digits each.
pub proof fn law_fingerprints(s: &str, r: String, bytes: &[u8], d: String, i: int)
    requires
        call_ensures(fingerprint_of, (s,), r),
        call_ensures(hex_digest_of, (bytes,), d),
        bytes@ == vstd::utf8::encode_utf8(s@),
    ensures
        r@.len() == 16,
        d@.len() == 64,
        0 <= i < 16 ==> r@[i] == d@[i],
        d@ == utils::hex_bytes(sha256(bytes@)),
{
}

} // verus!
