//! The SHA-256 of a file read in chunks, optionally of its first bytes only:
//! what a written device is checked with against its source image.
use vstd::prelude::*;
use crate::infra::digest::{sha256_feed, sha256_fed, sha256_finish, sha256_of, sha256_start, Sha256State};
use crate::service::iso::{hex_lower, to_hex_lower};

verus! {

/// A SHA-256 hash over a stream of chunks, with a budget of bytes that it
/// still takes. With no limit the budget is `u64::MAX`.
pub struct Sha256Stream {
    state: Sha256State,
    remaining: u64,
}

impl Sha256Stream {
    /// The bytes hashed so far, in order.
    pub closed spec fn fed(&self) -> Seq<u8> {
        sha256_fed(self.state)
    }

    /// How many more bytes the stream takes.
    pub closed spec fn budget(&self) -> u64 {
        self.remaining
    }

    /// A stream that has hashed nothing, taking at most `limit` bytes, or
    /// any number of bytes where there is no limit.
    pub fn new(limit: Option<u64>) -> (r: Self)
        ensures
            r.fed() == Seq::<u8>::empty(),
            r.budget() == match limit {
                Some(m) => m,
                None => u64::MAX,
            },
    {
        let remaining: u64 = match limit {
            Some(m) => m,
            None => u64::MAX,
        };
        Sha256Stream { state: sha256_start(), remaining }
    }

    /// How many bytes to read next into a buffer of `buf_len` bytes: the
    /// buffer's length, or the budget where that is smaller. Zero means
    /// that the stream is done.
    pub fn next_read_len(&self, buf_len: usize) -> (r: usize)
        ensures
            r == if (self.budget() as int) < (buf_len as int) { self.budget() as int } else { buf_len as int },
    {
        let len: u64 = buf_len as u64;
        if self.remaining < len {
            self.remaining as usize
        } else {
            buf_len
        }
    }

    /// Hashes `data` after what was hashed before; it counts against the
    /// budget.
    pub fn update(&mut self, data: &[u8])
        requires
            data@.len() <= old(self).budget(),
        ensures
            final(self).fed() == old(self).fed() + data@,
            final(self).budget() == old(self).budget() - data@.len(),
    {
        sha256_feed(&mut self.state, data);
        let n: u64 = data.len() as u64;
        self.remaining = self.remaining - n;
    }

    /// Whether the budget is spent.
    pub fn is_exhausted(&self) -> (r: bool)
        ensures
            r == (self.budget() == 0),
    {
        self.remaining == 0
    }

    /// The SHA-256 digest of everything hashed, 32 bytes.
    pub fn finish(self) -> (r: Vec<u8>)
        ensures
            r@ == sha256_of(self.fed()),
            r@.len() == 32,
    {
        sha256_finish(self.state)
    }

    /// The SHA-256 digest of everything hashed, as 64 lowercase hex digits.
    pub fn finish_hex(self) -> (r: String)
        ensures
            r@ == hex_lower(sha256_of(self.fed())),
    {
        let digest = self.finish();
        to_hex_lower(digest.as_slice())
    }
}

} // verus!
