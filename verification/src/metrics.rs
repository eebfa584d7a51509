//! Network traffic counters and the sampling rule behind the system metrics.
//!
//! The counters come from the operating system per interface; the library sums
//! them, keeps the totals of the previous sample and says how many bytes moved
//! in between.

use vstd::prelude::*;
use crate::constants::SYSTEM_METRICS_MIN_SAMPLE_INTERVAL_MS;

verus! {

/// `a + b`, held at `u64::MAX` where it would overflow.
pub open spec fn saturated(a: u64, b: u64) -> u64 {
    if a + b > u64::MAX { u64::MAX } else { (a + b) as u64 }
}

/// The values added from the first to the last, each addition held at
/// `u64::MAX`.
pub open spec fn saturating_sum(values: Seq<u64>) -> u64
    decreases values.len(),
{
    if values.len() == 0 {
        0
    } else {
        saturated(saturating_sum(values.drop_last()), values.last())
    }
}

/// The received byte counters of a list of (received, transmitted) pairs.
pub open spec fn received_counts(per_interface: Seq<(u64, u64)>) -> Seq<u64> {
    per_interface.map_values(|p: (u64, u64)| p.0)
}

/// The transmitted byte counters of a list of (received, transmitted) pairs.
pub open spec fn transmitted_counts(per_interface: Seq<(u64, u64)>) -> Seq<u64> {
    per_interface.map_values(|p: (u64, u64)| p.1)
}

/// Total bytes received and transmitted over all interfaces, each total held
/// at `u64::MAX` where it would overflow.
pub fn network_totals(per_interface: &Vec<(u64, u64)>) -> (totals: (u64, u64))
    ensures
        totals.0 == saturating_sum(received_counts(per_interface@)),
        totals.1 == saturating_sum(transmitted_counts(per_interface@)),
{
    let mut received: u64 = 0;
    let mut transmitted: u64 = 0;
    let mut i: usize = 0;
    while i < per_interface.len()
        invariant
            i <= per_interface.len(),
            received == saturating_sum(received_counts(per_interface@.take(i as int))),
            transmitted == saturating_sum(transmitted_counts(per_interface@.take(i as int))),
        decreases per_interface.len() - i,
    {
        let pair = per_interface[i];
        received = received.saturating_add(pair.0);
        transmitted = transmitted.saturating_add(pair.1);
        proof {
            let before = per_interface@.take(i as int);
            let after = per_interface@.take(i + 1);
            assert(received_counts(after).drop_last() =~= received_counts(before));
            assert(transmitted_counts(after).drop_last() =~= transmitted_counts(before));
        }
        i = i + 1;
    }
    proof {
        assert(per_interface@.take(i as int) =~= per_interface@);
    }
    (received, transmitted)
}

/// Whether a sample taken `elapsed_nanos` after the previous one may hand back
/// the cached metrics: only while the minimum sampling interval has not passed,
/// and only where a sample has been cached.
pub fn reuse_cached_sample(elapsed_nanos: u128, has_cached: bool) -> (reuse: bool)
    ensures
        reuse == (elapsed_nanos < SYSTEM_METRICS_MIN_SAMPLE_INTERVAL_MS as int * 1_000_000
            && has_cached),
{
    let interval: u128 = SYSTEM_METRICS_MIN_SAMPLE_INTERVAL_MS as u128 * 1_000_000;
    elapsed_nanos < interval && has_cached
}

/// The traffic totals of the previous sample.
#[derive(Debug, Clone, Copy, PartialEq, Eq, Structural)]
pub struct TrafficBaseline {
    pub received: u64,
    pub transmitted: u64,
}

impl TrafficBaseline {
    /// A baseline at the given totals.
    pub fn new(received: u64, transmitted: u64) -> (b: Self)
        ensures
            b.received == received,
            b.transmitted == transmitted,
    {
        TrafficBaseline { received, transmitted }
    }

    /// Bytes received and transmitted since the baseline, taken as 0 where a
    /// counter went down (an interface went away or was reset); the baseline
    /// then moves to the current totals.
    pub fn advance(&mut self, received: u64, transmitted: u64) -> (delta: (u64, u64))
        ensures
            delta.0 == (if received >= old(self).received {
                (received - old(self).received) as u64
            } else {
                0u64
            }),
            delta.1 == (if transmitted >= old(self).transmitted {
                (transmitted - old(self).transmitted) as u64
            } else {
                0u64
            }),
            final(self).received == received,
            final(self).transmitted == transmitted,
    {
        let delta_received = received.saturating_sub(self.received);
        let delta_transmitted = transmitted.saturating_sub(self.transmitted);
        self.received = received;
        self.transmitted = transmitted;
        (delta_received, delta_transmitted)
    }
}

} // verus!
