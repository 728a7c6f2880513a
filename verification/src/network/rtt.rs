//! Round-trip times.

use crate::network::constants::MAX_RTO_MS;
use crate::network::constants::MIN_RTO_MS;
use crate::network::constants::SEND_INTERVAL_MAX_MS;
use crate::network::constants::SEND_INTERVAL_MIN_MS;
use vstd::prelude::*;

verus! {

/// Round-trip time estimator following RFC 6298.
#[derive(Debug, Clone, Copy, PartialEq, Eq, Structural)]
pub struct RttEstimator {
    srtt_ms: u64,
    rttvar_ms: u64,
    have_sample: bool,
}

/// What an estimator holds.
pub struct RttView {
    pub srtt_ms: u64,
    pub rttvar_ms: u64,
    pub have_sample: bool,
}

impl View for RttEstimator {
    type V = RttView;

    closed spec fn view(&self) -> RttView {
        RttView {
            srtt_ms: self.srtt_ms,
            rttvar_ms: self.rttvar_ms,
            have_sample: self.have_sample,
        }
    }
}

/// `v`, or the bound that it is outside of.
pub open spec fn clamped(v: int, low: int, high: int) -> int {
    if v < low {
        low
    } else if v > high {
        high
    } else {
        v
    }
}

/// The distance of two numbers.
pub open spec fn distance(a: int, b: int) -> int {
    if a > b {
        a - b
    } else {
        b - a
    }
}

impl RttView {
    /// An estimator without a sample.
    pub open spec fn fresh() -> RttView {
        RttView { srtt_ms: 50, rttvar_ms: 25, have_sample: false }
    }

    /// The estimates are at most the longest round trip that counts.
    pub open spec fn bounded(self) -> bool {
        self.srtt_ms <= 5000 && self.rttvar_ms <= 5000
    }

    /// One more sample: the first sets the estimates, a later one moves the smoothed time by an
    /// eighth and the variation by a quarter. No time at all, or more than five seconds, is no sample.
    pub open spec fn updated(self, rtt_ms: u64) -> RttView {
        if rtt_ms == 0 || rtt_ms > 5000 {
            self
        } else if !self.have_sample {
            RttView { srtt_ms: rtt_ms, rttvar_ms: (rtt_ms / 2) as u64, have_sample: true }
        } else {
            RttView {
                srtt_ms: ((7 * self.srtt_ms + rtt_ms) / 8) as u64,
                rttvar_ms: ((3 * self.rttvar_ms + distance(self.srtt_ms as int, rtt_ms as int)) / 4)
                    as u64,
                have_sample: true,
            }
        }
    }

    /// The retransmission timeout.
    pub open spec fn rto(self) -> int {
        clamped(self.srtt_ms + 4 * self.rttvar_ms, MIN_RTO_MS as int, MAX_RTO_MS as int)
    }

    /// Half the smoothed round-trip time, rounded up, within bounds.
    pub open spec fn send_interval(self) -> int {
        clamped(
            (self.srtt_ms + 1) / 2,
            SEND_INTERVAL_MIN_MS as int,
            SEND_INTERVAL_MAX_MS as int,
        )
    }
}

/// A bound on both sides.
pub(crate) fn clamp_u64(v: u64, low: u64, high: u64) -> (res: u64)
    ensures
        res == clamped(v as int, low as int, high as int),
{
    if v < low {
        low
    } else if v > high {
        high
    } else {
        v
    }
}

impl RttEstimator {
    /// The estimates are within bounds.
    pub open spec fn wf(&self) -> bool {
        self@.bounded()
    }

    /// An estimator without a sample.
    pub fn new() -> (res: Self)
        ensures
            res.wf(),
            res@ == RttView::fresh(),
    {
        RttEstimator { srtt_ms: 50, rttvar_ms: 25, have_sample: false }
    }

    /// Records a new sample (in milliseconds).
    pub fn update(&mut self, rtt_ms: u64)
        requires
            old(self).wf(),
        ensures
            final(self).wf(),
            final(self)@ == old(self)@.updated(rtt_ms),
    {
        if rtt_ms == 0 || rtt_ms > 5000 {
            return ;
        }
        if !self.have_sample {
            self.srtt_ms = rtt_ms;
            self.rttvar_ms = rtt_ms / 2;
            self.have_sample = true;
        } else {
            let diff: u64 = if self.srtt_ms > rtt_ms {
                self.srtt_ms - rtt_ms
            } else {
                rtt_ms - self.srtt_ms
            };
            self.rttvar_ms = (3 * self.rttvar_ms + diff) / 4;
            self.srtt_ms = (7 * self.srtt_ms + rtt_ms) / 8;
        }
    }

    /// The retransmission timeout.
    pub fn rto_ms(&self) -> (res: u64)
        requires
            self.wf(),
        ensures
            res == self@.rto(),
    {
        clamp_u64(self.srtt_ms + 4 * self.rttvar_ms, MIN_RTO_MS, MAX_RTO_MS)
    }

    /// The current smoothed round-trip time.
    pub fn srtt_ms(&self) -> (res: u64)
        ensures
            res == self@.srtt_ms,
    {
        self.srtt_ms
    }

    /// The current variation of the round-trip time.
    pub fn rttvar_ms(&self) -> (res: u64)
        ensures
            res == self@.rttvar_ms,
    {
        self.rttvar_ms
    }

    /// The adaptive send interval: half the smoothed round-trip time, rounded up, within bounds.
    pub fn send_interval_ms(&self) -> (res: u64)
        requires
            self.wf(),
        ensures
            res == self@.send_interval(),
    {
        clamp_u64((self.srtt_ms + 1) / 2, SEND_INTERVAL_MIN_MS, SEND_INTERVAL_MAX_MS)
    }
}

/// The timeout and the send interval are always within their bounds.
pub proof fn intervals_in_bounds(rtt: RttView)
    ensures
        MIN_RTO_MS <= rtt.rto() <= MAX_RTO_MS,
        SEND_INTERVAL_MIN_MS <= rtt.send_interval() <= SEND_INTERVAL_MAX_MS,
{
}

/// A sample moves the smoothed time towards itself, never past it.
pub proof fn sample_pulls(rtt: RttView, sample: u64)
    requires
        rtt.bounded(),
        rtt.have_sample,
        0 < sample <= 5000,
    ensures
        rtt.srtt_ms <= sample ==> rtt.srtt_ms <= rtt.updated(sample).srtt_ms <= sample,
        rtt.srtt_ms >= sample ==> sample <= rtt.updated(sample).srtt_ms <= rtt.srtt_ms,
{
}

/// Estimates stay within bounds whatever the samples.
pub proof fn estimates_stay_bounded(rtt: RttView, sample: u64)
    requires
        rtt.bounded(),
    ensures
        rtt.updated(sample).bounded(),
{
}

/// The first sample counts as it is, half of it as the variation. A later one moves the smoothed
/// time by an eighth of the way, rounded down, and the variation by a quarter of the way towards the
/// distance between the sample and the smoothed time. No time at all, or more than five seconds,
/// changes nothing.
pub proof fn samples_are_weighed(rtt: RttView, sample: u64)
    requires
        rtt.srtt_ms <= 5000,
        rtt.rttvar_ms <= 5000,
    ensures
        ({
            let after = rtt.updated(sample);
            let gap = if sample >= rtt.srtt_ms {
                sample - rtt.srtt_ms
            } else {
                rtt.srtt_ms - sample
            };
            &&& sample == 0 || sample > 5000 ==> after == rtt
            &&& 0 < sample <= 5000 ==> after.have_sample
            &&& 0 < sample <= 5000 && !rtt.have_sample ==> after.srtt_ms == sample && 2
                * after.rttvar_ms <= sample <= 2 * after.rttvar_ms + 1
            &&& 0 < sample <= 5000 && rtt.have_sample ==> {
                &&& 8 * after.srtt_ms <= 7 * rtt.srtt_ms + sample < 8 * after.srtt_ms + 8
                &&& 4 * after.rttvar_ms <= 3 * rtt.rttvar_ms + gap < 4 * after.rttvar_ms + 4
            }
        }),
{
}

/// Before any sample the smoothed time is fifty milliseconds and the variation half of that. The
/// timeout is the smoothed time and four times the variation, between fifty milliseconds and a
/// second; the send interval is half the smoothed time, rounded up, between twenty milliseconds and
/// a quarter of a second.
pub proof fn timing_follows_estimates(rtt: RttView)
    ensures
        RttView::fresh().srtt_ms == 50,
        RttView::fresh().rttvar_ms == 25,
        !RttView::fresh().have_sample,
        ({
            let sum = rtt.srtt_ms + 4 * rtt.rttvar_ms;
            &&& sum <= 50 ==> rtt.rto() == 50
            &&& 50 <= sum <= 1000 ==> rtt.rto() == sum
            &&& sum >= 1000 ==> rtt.rto() == 1000
        }),
        rtt.srtt_ms <= 40 ==> rtt.send_interval() == 20,
        40 <= rtt.srtt_ms <= 500 ==> rtt.srtt_ms <= 2 * rtt.send_interval() <= rtt.srtt_ms + 1,
        rtt.srtt_ms >= 499 ==> rtt.send_interval() == 250,
{
}

} // verus!
