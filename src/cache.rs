//! Deciding whether a previously fetched payload may be reused.

use vstd::prelude::*;
use crate::clock::Timestamp;
use crate::schedule::{TimingField, same_fields, schedule_of, lemma_schedule_same_fields};

verus! {

/// How long a cached payload stays usable: three hours, in seconds.
pub const CACHE_TTL_SECS: i64 = 10800;

/// A record exists and its age `now - modified` is below `ttl`.
pub open spec fn fresh(modified: Option<i64>, now: i64, ttl: i64) -> bool {
    match modified {
        Some(m) => (now as int) - (m as int) < ttl as int,
        None => false,
    }
}

/// Whether a cache record last modified at `modified` (seconds) may be reused
/// at `now` under `ttl`; a missing record is never fresh, and a negative age
/// (clock skew) counts as fresh.
pub fn is_fresh(modified: Option<i64>, now: i64, ttl: i64) -> (r: bool)
    ensures
        r == fresh(modified, now, ttl),
{
    match modified {
        Some(m) => (now as i128) - (m as i128) < ttl as i128,
        None => false,
    }
}

/// Freshness is monotonic in age: a record fresh at age `now - modified` is
/// fresh at every smaller age under the same ttl.
pub proof fn lemma_fresh_monotonic(modified: i64, now: i64, earlier: i64, ttl: i64)
    requires
        fresh(Some(modified), now, ttl),
        earlier <= now,
    ensures
        fresh(Some(modified), earlier, ttl),
{
}

/// A payload cached at `written` and read back at `now`, before `ttl` has
/// passed, is reused; when what was read back holds the same timings text as
/// what was written, its schedule is the one parsed from the original payload.
pub proof fn lemma_cache_round_trip(
    original: Seq<TimingField>,
    read_back: Seq<TimingField>,
    written: i64,
    now: Timestamp,
    ttl: i64,
)
    requires
        written <= now.secs,
        (now.secs as int) - (written as int) < ttl as int,
        same_fields(original, read_back),
    ensures
        fresh(Some(written), now.secs, ttl),
        schedule_of(read_back, now) == schedule_of(original, now),
{
    lemma_schedule_same_fields(original, read_back, now);
}

} // verus!
