//! The hash function under test, as the harness sees it: something that is
//! built from two seeds, takes in bytes, and gives out a 64-bit digest.
use vstd::prelude::*;

verus! {

/// A hash accumulator. The harness assumes nothing of an implementation: what
/// `ingest` and `finalize` may return is whatever their implementation
/// ensures, and they need not be functions of their arguments.
pub trait Accumulator: Sized {
    /// Takes in a byte sequence and gives back the accumulator that has taken
    /// it in. Taking in two sequences one after the other is meant to be the
    /// same as taking in their concatenation.
    fn ingest(self, bytes: &[u8]) -> Self;

    /// Gives the digest of what was taken in so far, and leaves the state as
    /// it is.
    fn finalize(&self) -> u64;
}

/// Taking in `bytes` in state `before` may leave the state `after`.
pub open spec fn may_ingest<T: Accumulator>(before: T, bytes: Seq<u8>, after: T) -> bool {
    exists|message: &[u8]|
        message@ == bytes && #[trigger] call_ensures(T::ingest, (before, message), after)
}

/// Finalizing in state `state` may give `digest`.
pub open spec fn may_finalize<T: Accumulator>(state: T, digest: u64) -> bool {
    call_ensures(T::finalize, (&state,), digest)
}

/// Finalizing twice in one state gives one digest.
pub open spec fn finalize_is_deterministic<T: Accumulator>() -> bool {
    forall|state: T, first: u64, second: u64|
        #[trigger] may_finalize(state, first) && #[trigger] may_finalize(state, second) ==> first
            == second
}

/// `digest` may come out when the accumulator `fresh` takes in `bytes` and is
/// then finalized.
pub open spec fn may_digest<T: Accumulator>(fresh: T, bytes: Seq<u8>, digest: u64) -> bool {
    exists|fed: T| #[trigger] may_ingest(fresh, bytes, fed) && may_finalize(fed, digest)
}

/// `digest` may come out when an accumulator that `hasher` makes takes in
/// `bytes` and is then finalized.
pub open spec fn may_hash<T: Accumulator, F: Fn() -> T>(
    hasher: F,
    bytes: Seq<u8>,
    digest: u64,
) -> bool {
    exists|fresh: T| #[trigger] hasher.ensures((), fresh) && may_digest(fresh, bytes, digest)
}

/// `digest` may come out when an accumulator that `constructor` makes from
/// the seeds `key0` and `key1` takes in `bytes` and is then finalized.
pub open spec fn may_hash_with_keys<T: Accumulator, F: Fn(u64, u64) -> T>(
    constructor: F,
    key0: u64,
    key1: u64,
    bytes: Seq<u8>,
    digest: u64,
) -> bool {
    exists|fresh: T| #[trigger]
        constructor.ensures((key0, key1), fresh) && may_digest(fresh, bytes, digest)
}

/// Has a fresh accumulator take in one message and finalizes it.
pub fn digest_of<T: Accumulator>(fresh: T, bytes: &[u8]) -> (digest: u64)
    ensures
        may_digest(fresh, bytes@, digest),
{
    let fed = fresh.ingest(bytes);
    assert(may_ingest(fresh, bytes@, fed));
    fed.finalize()
}

/// Hashes one message with a fresh accumulator.
pub fn hash<T: Accumulator>(bytes: &[u8], hasher: &impl Fn() -> T) -> (digest: u64)
    requires
        hasher.requires(()),
    ensures
        may_hash(*hasher, bytes@, digest),
{
    digest_of(hasher(), bytes)
}

/// Hashes one message with a fresh accumulator that is seeded with `key0` and
/// `key1`.
pub fn hash_with_keys<T: Accumulator>(
    bytes: &[u8],
    constructor: &impl Fn(u64, u64) -> T,
    key0: u64,
    key1: u64,
) -> (digest: u64)
    requires
        constructor.requires((key0, key1)),
    ensures
        may_hash_with_keys(*constructor, key0, key1, bytes@, digest),
{
    digest_of(constructor(key0, key1), bytes)
}

} // verus!
