//! Reading the digest twice gives the same digest.
use crate::accumulator::{finalize_is_deterministic, may_finalize, may_ingest, Accumulator};
use vstd::prelude::*;
use vstd::string::StringSliceAdditionalSpecFns;

verus! {

/// Two digests that were read from one accumulator, with nothing taken in
/// between the two readings, and that differ.
#[derive(Clone, Copy, Debug, PartialEq, Eq)]
pub struct Inconsistency {
    pub first: u64,
    pub second: u64,
}

/// What the determinism test answers for two readings of one accumulator.
pub open spec fn consistency_verdict(first: u64, second: u64) -> Result<(), Inconsistency> {
    if first == second {
        Ok(())
    } else {
        Err(Inconsistency { first, second })
    }
}

/// Compares two readings of one accumulator.
pub fn assert_consistent(first: u64, second: u64) -> (outcome: Result<(), Inconsistency>)
    ensures
        outcome == consistency_verdict(first, second),
{
    if first == second {
        Ok(())
    } else {
        Err(Inconsistency { first, second })
    }
}

/// `first` and `second` may be two successive readings of an accumulator that
/// `constructor` made from the seeds 1 and 2 and that took in `"Foo"`.
pub open spec fn may_read_twice<T: Accumulator, F: Fn(u64, u64) -> T>(
    constructor: F,
    first: u64,
    second: u64,
) -> bool {
    exists|fresh: T, fed: T|
        constructor.ensures((1, 2), fresh) && #[trigger] may_ingest(fresh, "Foo".spec_bytes(), fed)
            && may_finalize(fed, first) && may_finalize(fed, second)
}

/// Builds one accumulator with the seeds 1 and 2, has it take in `"Foo"`,
/// finalizes it twice and compares the two digests.
pub fn test_finish_is_consistant<T: Accumulator>(constructor: impl Fn(u64, u64) -> T) -> (outcome:
    Result<(), Inconsistency>)
    requires
        constructor.requires((1, 2)),
    ensures
        exists|first: u64, second: u64|
            may_read_twice(constructor, first, second) && outcome == consistency_verdict(
                first,
                second,
            ),
        finalize_is_deterministic::<T>() ==> outcome is Ok,
{
    let fresh = constructor(1, 2);
    let hasher = fresh.ingest("Foo".as_bytes());
    let a: u64 = hasher.finalize();
    let b: u64 = hasher.finalize();
    assert(may_ingest(fresh, "Foo".spec_bytes(), hasher));
    assert(may_read_twice(constructor, a, b));
    assert_consistent(a, b)
}

} // verus!
