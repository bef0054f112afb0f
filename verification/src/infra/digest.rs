//! SHA-256.
use vstd::prelude::*;
use sha2::Digest;

verus! {

/// The SHA-256 digest of a byte string.
pub uninterp spec fn sha256_of(data: Seq<u8>) -> Seq<u8>;

/// Calls `sha2::Sha256::digest`: the SHA-256 digest of `data`, which is
/// 32 bytes long. The digest itself is only named, not described.
#[verifier::external_body]
pub(crate) fn sha256_digest(data: &[u8]) -> (r: Vec<u8>)
    ensures
        r@ == sha256_of(data@),
        r@.len() == 32,
{
    sha2::Sha256::digest(data).to_vec()
}

/// A running `sha2::Sha256` hasher. It is held opaque: Verus refuses a
/// declaration of `sha2::Sha256`, an alias of a wrapper over a tree of
/// `typenum` types. What it has been fed is named by `sha256_fed`.
#[verifier::external_body]
pub struct Sha256State {
    inner: sha2::Sha256,
}

/// The bytes a hasher has been fed, in order.
pub uninterp spec fn sha256_fed(s: Sha256State) -> Seq<u8>;

/// Calls `Digest::new` for `sha2::Sha256`: a hasher fed nothing yet.
#[verifier::external_body]
pub(crate) fn sha256_start() -> (r: Sha256State)
    ensures
        sha256_fed(r) == Seq::<u8>::empty(),
{
    Sha256State { inner: sha2::Sha256::new() }
}

/// Calls `Digest::update` for `sha2::Sha256`: the hasher has then been fed
/// `data` after what it was fed before.
#[verifier::external_body]
pub(crate) fn sha256_feed(s: &mut Sha256State, data: &[u8])
    ensures
        sha256_fed(*final(s)) == sha256_fed(*old(s)) + data@,
{
    s.inner.update(data);
}

/// Calls `Digest::finalize` for `sha2::Sha256`: the digest of everything the
/// hasher was fed, 32 bytes long, the same as `sha2::Sha256::digest` of
/// those bytes at once (which the crate computes by `new`, `update` and
/// `finalize`).
#[verifier::external_body]
pub(crate) fn sha256_finish(s: Sha256State) -> (r: Vec<u8>)
    ensures
        r@ == sha256_of(sha256_fed(s)),
        r@.len() == 32,
{
    s.inner.finalize().to_vec()
}

} // verus!
