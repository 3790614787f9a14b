//! Space monitor: decides whether the cache's volume is under pressure.
//!
//! Percentages are carried as hundredths of a percent (centipercent), so the
//! threshold comparison is exact rational arithmetic: free space is at or
//! below a threshold of `t` centipercent exactly when
//! `free_bytes * 10000 <= t * total_bytes`.

use vstd::prelude::*;

verus! {

/// A point-in-time reading of the volume that hosts the cache directory:
/// how many bytes are free and how many the volume holds in all.
pub struct SpaceReading {
    pub free_bytes: u64,
    pub total_bytes: u64,
}

impl SpaceReading {
    /// A reading is meaningful only when the volume reports a nonzero
    /// capacity and no more free space than capacity.
    pub open spec fn wf(self) -> bool {
        self.total_bytes > 0 && self.free_bytes <= self.total_bytes
    }

    /// Builds a reading from the two byte counts the operating system
    /// reports; rejects counts no real volume can report.
    pub fn new(free_bytes: u64, total_bytes: u64) -> (r: Option<SpaceReading>)
        ensures
            (total_bytes > 0 && free_bytes <= total_bytes) <==> r is Some,
            r matches Some(s) ==> s.free_bytes == free_bytes && s.total_bytes == total_bytes
                && s.wf(),
    {
        if total_bytes > 0 && free_bytes <= total_bytes {
            Some(SpaceReading { free_bytes, total_bytes })
        } else {
            None
        }
    }

    /// Free space as a share of capacity, in centipercent, truncated toward
    /// zero. A full volume reports 0; an empty one reports 10000.
    pub fn free_centi_percent(&self) -> (r: u64)
        requires
            self.wf(),
        ensures
            r == self.free_bytes * 10000 / (self.total_bytes as int),
            r <= 10000,
    {
        proof {
            lemma_centi_percent_bounded(self.free_bytes, self.total_bytes);
        }
        ((self.free_bytes as u128) * 10000 / (self.total_bytes as u128)) as u64
    }

    /// The pressure gate: true exactly when free space, as a share of
    /// capacity, is at or below the threshold. At exactly the threshold,
    /// pressure is triggered.
    pub fn under_pressure(&self, threshold_centi_percent: u64) -> (r: bool)
        requires
            self.wf(),
        ensures
            r == (self.free_bytes * 10000 <= threshold_centi_percent * self.total_bytes),
    {
        proof {
            assert((threshold_centi_percent as int) * (self.total_bytes as int)
                < 340282366920938463463374607431768211456) by (nonlinear_arith)
                requires
                    0 <= threshold_centi_percent < 18446744073709551616,
                    0 <= self.total_bytes < 18446744073709551616,
            ;
        }
        (self.free_bytes as u128) * 10000
            <= (threshold_centi_percent as u128) * (self.total_bytes as u128)
    }
}

/// Free space at a nonzero-capacity volume is never more than 100%, so the
/// centipercent figure fits comfortably in a `u64`.
proof fn lemma_centi_percent_bounded(free: u64, total: u64)
    requires
        total > 0,
        free <= total,
    ensures
        free * 10000 / (total as int) <= 10000,
{
    assert(free * 10000 <= total * 10000) by (nonlinear_arith)
        requires
            free <= total,
    ;
    assert(free * 10000 / (total as int) <= total * 10000 / (total as int)) by (nonlinear_arith)
        requires
            total > 0,
            free * 10000 <= total * 10000,
    ;
    assert(total * 10000 / (total as int) == 10000) by (nonlinear_arith)
        requires
            total > 0,
    ;
}

/// Boundary of the pressure gate: free space exactly at the threshold
/// triggers eviction; free space strictly above it does not.
pub proof fn lemma_threshold_boundary(free: u64, total: u64, threshold: u64)
    ensures
        free * 10000 == threshold * total ==> (free * 10000 <= threshold * total),
        free * 10000 > threshold * total ==> !(free * 10000 <= threshold * total),
{
}

} // verus!
