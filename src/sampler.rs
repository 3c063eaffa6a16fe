//! Per-tick derived values: normalized ratios for history tracks, percentages and
//! transfer rates from cumulative counters.

use crate::ring::{RingBuffer, min_nat};
use vstd::prelude::*;

verus! {

/// Ratios are kept in millionths: a full track is `RATIO_SCALE`.
pub const RATIO_SCALE: u64 = 1_000_000;

/// `value / maximum` in millionths, rounded down and capped at `u64::MAX`; zero when
/// the maximum is zero.
pub open spec fn ratio_ppm(value: u64, maximum: u64) -> u64 {
    if maximum == 0 {
        0
    } else if value * RATIO_SCALE / (maximum as int) > u64::MAX {
        u64::MAX
    } else {
        (value * RATIO_SCALE / (maximum as int)) as u64
    }
}

/// `used / total` as a whole percentage, rounded to nearest (halves up) and capped at
/// `u64::MAX`; zero when the total is zero.
pub open spec fn percent_rounded(used: u64, total: u64) -> nat {
    if total == 0 {
        0
    } else if (used * 200 + total) / (2 * total as int) > u64::MAX {
        u64::MAX as nat
    } else {
        ((used * 200 + total) / (2 * total as int)) as nat
    }
}

/// Bytes per second over `elapsed` seconds, rounded down; zero when no time passed.
pub open spec fn rate_per_second(bytes: u64, elapsed: u64) -> u64 {
    if elapsed == 0 {
        0
    } else {
        (bytes / elapsed) as u64
    }
}

/// What a cumulative counter moved by since the last reading; a counter that went
/// back was reset, and all of its value is new.
pub open spec fn counter_delta(previous: u64, now: u64) -> u64 {
    if now >= previous {
        (now - previous) as u64
    } else {
        now
    }
}

/// The normalized ratio of `value` to `maximum`, for plotting.
pub fn normalized_ratio(value: u64, maximum: u64) -> (r: u64)
    ensures
        r == ratio_ppm(value, maximum),
{
    if maximum == 0 {
        return 0;
    }
    assert(value as u128 * RATIO_SCALE as u128 <= u64::MAX as u128 * 1_000_000) by (nonlinear_arith)
        requires
            value <= u64::MAX,
    ;
    let scaled: u128 = value as u128 * RATIO_SCALE as u128;
    assert(scaled == value * RATIO_SCALE) by (nonlinear_arith)
        requires
            scaled == value as u128 * RATIO_SCALE as u128,
    ;
    let q: u128 = scaled / maximum as u128;
    if q > u64::MAX as u128 {
        u64::MAX
    } else {
        q as u64
    }
}

/// The share of `total` that `used` is, as a whole percentage; a total of zero
/// gives zero rather than a division by zero.
pub fn percentage(used: u64, total: u64) -> (r: u64)
    ensures
        r as nat == percent_rounded(used, total),
        used <= total ==> r <= 100,
{
    if total == 0 {
        return 0;
    }
    let num: u128 = used as u128 * 200 + total as u128;
    let den: u128 = 2 * total as u128;
    let q: u128 = num / den;
    proof {
        if used <= total {
            assert(num <= 200 * total + total) by (nonlinear_arith)
                requires
                    used <= total,
                    num == used * 200 + total,
            ;
            assert(num / den <= 100) by (nonlinear_arith)
                requires
                    num <= 201 * total,
                    den == 2 * total,
                    total > 0,
            ;
        }
    }
    if q > u64::MAX as u128 {
        u64::MAX
    } else {
        q as u64
    }
}

/// Bytes per second over `elapsed` seconds; when no time passed the rate is zero.
pub fn transfer_rate(bytes: u64, elapsed: u64) -> (r: u64)
    ensures
        r == rate_per_second(bytes, elapsed),
        elapsed == 0 ==> r == 0,
        r <= bytes,
{
    if elapsed == 0 {
        0
    } else {
        bytes / elapsed
    }
}

/// The download and upload rates of one network tick.
pub struct Rates {
    pub download: u64,
    pub upload: u64,
}

/// Turns cumulative byte counters into rates, remembering the last reading.
pub struct RateTracker {
    pub previous: Option<(u64, u64)>,
}

impl RateTracker {
    pub fn new() -> (r: Self)
        ensures
            r.previous is None,
    {
        RateTracker { previous: None }
    }

    /// Takes the counters of this tick and the seconds since the last one. The first
    /// reading has nothing to compare with and gives zero rates.
    pub fn update(&mut self, received: u64, transmitted: u64, elapsed: u64) -> (r: Rates)
        ensures
            final(self).previous == Some((received, transmitted)),
            old(self).previous is None ==> r.download == 0 && r.upload == 0,
            old(self).previous matches Some(p) ==> r.download == rate_per_second(
                counter_delta(p.0, received),
                elapsed,
            ) && r.upload == rate_per_second(counter_delta(p.1, transmitted), elapsed),
    {
        let rates = match self.previous {
            None => Rates { download: 0, upload: 0 },
            Some((prev_received, prev_transmitted)) => {
                let down = if received >= prev_received {
                    received - prev_received
                } else {
                    received
                };
                let up = if transmitted >= prev_transmitted {
                    transmitted - prev_transmitted
                } else {
                    transmitted
                };
                Rates { download: transfer_rate(down, elapsed), upload: transfer_rate(up, elapsed) }
            },
        };
        self.previous = Some((received, transmitted));
        rates
    }
}

/// The ratios of a history, in the same order.
pub open spec fn ratios_of(values: Seq<u64>, maximum: u64) -> Seq<u64> {
    Seq::new(values.len(), |i: int| ratio_ppm(values[i], maximum))
}

/// One history track of a sampler: the recent values and the domain maximum that
/// normalizes them for plotting.
pub struct MetricTrack {
    pub history: RingBuffer,
    pub maximum: u64,
}

impl MetricTrack {
    pub open spec fn wf(&self) -> bool {
        self.history.wf()
    }

    /// An empty track of `capacity` values, normalized by `maximum`.
    pub fn new(capacity: usize, maximum: u64) -> (r: Self)
        requires
            capacity > 0,
        ensures
            r.wf(),
            r.history@ == Seq::<u64>::empty(),
            r.history.spec_capacity() == capacity,
            r.maximum == maximum,
    {
        MetricTrack { history: RingBuffer::new(capacity), maximum }
    }

    /// Records one tick's value.
    pub fn record(&mut self, value: u64)
        requires
            old(self).wf(),
        ensures
            final(self).wf(),
            final(self).maximum == old(self).maximum,
            final(self).history.spec_capacity() == old(self).history.spec_capacity(),
            final(self).history@ == (seq![value] + old(self).history@).take(
                min_nat(old(self).history@.len() + 1, old(self).history.spec_capacity()) as int,
            ),
    {
        self.history.push(value);
    }

    /// The recent values, most recent first.
    pub fn values(&self) -> (r: Vec<u64>)
        ensures
            r@ == self.history@,
    {
        self.history.iter_most_recent_first()
    }

    /// The recent values as ratios of the maximum, most recent first.
    pub fn ratios(&self) -> (r: Vec<u64>)
        ensures
            r@ == ratios_of(self.history@, self.maximum),
    {
        let values = self.history.iter_most_recent_first();
        let mut r: Vec<u64> = Vec::new();
        let mut i: usize = 0;
        while i < values.len()
            invariant
                i <= values.len(),
                values@ == self.history@,
                r@ == ratios_of(values@.take(i as int), self.maximum),
            decreases values.len() - i,
        {
            r.push(normalized_ratio(values[i], self.maximum));
            i = i + 1;
            assert(r@ =~= ratios_of(values@.take(i as int), self.maximum));
        }
        assert(values@.take(values.len() as int) == values@);
        r
    }
}

/// The CPU usage track: usage in whole percent, normalized by one hundred.
pub fn cpu_usage_track(capacity: usize) -> (r: MetricTrack)
    requires
        capacity > 0,
    ensures
        r.wf(),
        r.history@ == Seq::<u64>::empty(),
        r.history.spec_capacity() == capacity,
        r.maximum == 100,
{
    MetricTrack::new(capacity, 100)
}

} // verus!
