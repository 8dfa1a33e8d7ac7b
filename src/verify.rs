//! Content verification: a buffer is valid for a declared file only when both
//! its SHA-1 and its SHA-512 digests equal the declared ones.
use sha1::Digest;
use vstd::prelude::*;

verus! {

/// The SHA-1 digest of a byte sequence.
pub uninterp spec fn sha1_of(data: Seq<u8>) -> Seq<u8>;

/// The SHA-512 digest of a byte sequence.
pub uninterp spec fn sha512_of(data: Seq<u8>) -> Seq<u8>;

/// Relies on `sha1::Sha1::digest` (digest 0.10): a 20-byte output that depends
/// on the input bytes alone.
#[verifier::external_body]
fn sha1_digest(data: &[u8]) -> (r: Vec<u8>)
    ensures
        r@ == sha1_of(data@),
        r@.len() == 20,
{
    sha1::Sha1::digest(data).to_vec()
}

/// Relies on `sha2::Sha512::digest` (digest 0.10): a 64-byte output that
/// depends on the input bytes alone.
#[verifier::external_body]
fn sha512_digest(data: &[u8]) -> (r: Vec<u8>)
    ensures
        r@ == sha512_of(data@),
        r@.len() == 64,
{
    sha2::Sha512::digest(data).to_vec()
}

/// Whether two byte sequences are equal, element by element.
fn bytes_equal(a: &[u8], b: &[u8]) -> (r: bool)
    ensures
        r == (a@ == b@),
{
    if a.len() != b.len() {
        return false;
    }
    let mut i: usize = 0;
    while i < a.len()
        invariant
            a@.len() == b@.len(),
            0 <= i <= a@.len(),
            forall|j: int| 0 <= j < i ==> a@[j] == b@[j],
        decreases a@.len() - i,
    {
        if a[i] != b[i] {
            return false;
        }
        i = i + 1;
    }
    assert(a@ =~= b@);
    true
}

/// Whether computed digests agree with the declared ones: both must match.
pub open spec fn digests_agree(
    sha1: Seq<u8>,
    sha512: Seq<u8>,
    expected_sha1: Seq<u8>,
    expected_sha512: Seq<u8>,
) -> bool {
    sha1 == expected_sha1 && sha512 == expected_sha512
}

/// Whether a buffer is valid content for the declared digests.
pub open spec fn content_valid(data: Seq<u8>, expected_sha1: Seq<u8>, expected_sha512: Seq<u8>) -> bool {
    digests_agree(sha1_of(data), sha512_of(data), expected_sha1, expected_sha512)
}

/// Compares already computed SHA-1 and SHA-512 digests with the declared ones.
pub fn digests_match(sha1: &[u8], sha512: &[u8], expected_sha1: &[u8], expected_sha512: &[u8]) -> (r: bool)
    ensures
        r == digests_agree(sha1@, sha512@, expected_sha1@, expected_sha512@),
{
    bytes_equal(sha1, expected_sha1) && bytes_equal(sha512, expected_sha512)
}

/// Digests a buffer and compares it with the declared digests.
pub fn content_is_valid(data: &[u8], expected_sha1: &[u8], expected_sha512: &[u8]) -> (r: bool)
    ensures
        r == content_valid(data@, expected_sha1@, expected_sha512@),
{
    let s1 = sha1_digest(data);
    let s512 = sha512_digest(data);
    digests_match(s1.as_slice(), s512.as_slice(), expected_sha1, expected_sha512)
}

/// A buffer whose digests agree on one algorithm only is not valid: a SHA-1
/// match with a SHA-512 mismatch, or the reverse, is rejected.
pub proof fn lemma_both_digests_required(data: Seq<u8>, expected_sha1: Seq<u8>, expected_sha512: Seq<u8>)
    requires
        (sha1_of(data) == expected_sha1) != (sha512_of(data) == expected_sha512),
    ensures
        !content_valid(data, expected_sha1, expected_sha512),
{
}

} // verus!
