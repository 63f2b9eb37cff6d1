//! The SHA-256 digest of a file's contents, taken in piece by piece.

use sha2::Digest;
use vstd::prelude::*;
use vstd::slice::slice_subrange;

verus! {

/// The SHA-256 digest of a byte string, as the `sha2` crate computes it.
pub uninterp spec fn sha256(data: Seq<u8>) -> Seq<u8>;

/// The bytes that a hasher has taken in so far, in the order they came.
pub uninterp spec fn absorbed(hasher: Hasher) -> Seq<u8>;

/// The running state of one SHA-256 computation of the `sha2` crate. What
/// is known of it is what it has taken in.
#[verifier::external_body]
pub struct Hasher {
    state: sha2::Sha256,
}

impl View for Hasher {
    type V = Seq<u8>;

    open spec fn view(&self) -> Seq<u8> {
        absorbed(*self)
    }
}

/// Calls `Sha256::new`: a hasher that has taken in nothing.
#[verifier::external_body]
fn hasher_new() -> (hasher: Hasher)
    ensures
        absorbed(hasher) == Seq::<u8>::empty(),
{
    Hasher { state: sha2::Sha256::new() }
}

/// Calls `Digest::update`: the hasher takes in the piece after what it
/// already has.
#[verifier::external_body]
fn hasher_update(hasher: &mut Hasher, piece: &[u8])
    ensures
        absorbed(*final(hasher)) == absorbed(*old(hasher)) + piece@,
{
    hasher.state.update(piece);
}

/// Calls `Digest::finalize`: the SHA-256 digest of all that the hasher has
/// taken in, which is what one call of `Sha256::digest` on those bytes
/// gives.
#[verifier::external_body]
fn hasher_finalize(hasher: Hasher) -> (digest: [u8; 32])
    ensures
        digest@ == sha256(absorbed(hasher)),
{
    hasher.state.finalize().into()
}

/// The number of bytes that a file is read and hashed by.
pub const CHUNK_LEN: usize = 4096;

/// A digest in the making: bytes go in piece by piece, and the digest of
/// all of them, in order, comes out at the end.
pub struct StreamingDigest {
    hasher: Hasher,
}

impl View for StreamingDigest {
    type V = Seq<u8>;

    /// The bytes taken in so far.
    closed spec fn view(&self) -> Seq<u8> {
        self.hasher@
    }
}

impl StreamingDigest {
    /// A digest that has taken in nothing yet.
    pub fn new() -> (digest: StreamingDigest)
        ensures
            digest@ == Seq::<u8>::empty(),
    {
        StreamingDigest { hasher: hasher_new() }
    }

    /// Takes in what one read has put into `buffer`: its first `filled`
    /// bytes. Says whether to read on: a read of no bytes is the end of the
    /// file, and leaves the digest as it is.
    pub fn feed(&mut self, buffer: &[u8], filled: usize) -> (more: bool)
        requires
            filled <= buffer.len(),
        ensures
            more == (filled != 0),
            final(self)@ == old(self)@ + buffer@.take(filled as int),
    {
        if filled == 0 {
            assert(self@ + buffer@.take(0) =~= self@);
            return false;
        }
        let piece = slice_subrange(buffer, 0, filled);
        assert(piece@ =~= buffer@.take(filled as int));
        hasher_update(&mut self.hasher, piece);
        true
    }

    /// The digest of all that was taken in.
    pub fn finish(self) -> (digest: [u8; 32])
        ensures
            digest@ == sha256(self@),
    {
        hasher_finalize(self.hasher)
    }
}

/// The digest of `data`, taken in by pieces of `CHUNK_LEN` bytes. Where the
/// pieces are cut makes no difference to the result.
pub fn digest(data: &[u8]) -> (digest: [u8; 32])
    ensures
        digest@ == sha256(data@),
{
    let mut state = StreamingDigest::new();
    let mut done: usize = 0;
    while done < data.len()
        invariant
            done <= data.len(),
            state@ == data@.take(done as int),
        decreases data.len() - done,
    {
        let left: usize = data.len() - done;
        let step: usize = if left < CHUNK_LEN { left } else { CHUNK_LEN };
        let piece = slice_subrange(data, done, done + step);
        let ghost before = state@;
        state.feed(piece, step);
        assert(piece@.take(step as int) =~= piece@);
        assert(data@.take(done + step) =~= data@.take(done as int) + piece@);
        done = done + step;
    }
    assert(data@.take(done as int) =~= data@);
    state.finish()
}

} // verus!
