//! One tracking session per detected post: it holds the baseline quote and
//! the last successfully sampled price, and classifies the final price
//! movement.  Prices are fixed-point integers with eight decimal places, as
//! produced by `crate::decimal::parse_price`.  A session that never saw a
//! successful sample reports `Outcome::Unknown`, never a success: the
//! zero-drift ratio of a fully failed session is kept distinct from a real
//! last sample equal to the baseline.

use vstd::prelude::*;

verus! {

/// One market quote: its timestamp (epoch milliseconds, as the feed reports
/// it) and its price in fixed-point units of 1e-8.
#[derive(Clone, Copy, PartialEq, Eq, Structural, Debug)]
pub struct BtcTick {
    pub ts: i64,
    pub price: u64,
}

/// The classification of a finished session.
#[derive(Clone, Copy, PartialEq, Eq, Structural, Debug)]
pub enum Outcome {
    /// The last sampled price was at or above the baseline (ratio >= 0,
    /// a ratio of exactly zero included).
    Success,
    /// The last sampled price was below the baseline.
    Failure,
    /// No baseline or no sample was ever obtained; never a success.
    Unknown,
}

/// The state of one tracking session: the baseline price and the price of
/// the most recent successful sample, each absent until obtained.
pub struct SessionState {
    pub base: Option<u64>,
    pub last: Option<u64>,
}

/// What a session's state classifies as: success exactly when both a
/// baseline and at least one sample were obtained and the last sample is at
/// or above the baseline.
pub open spec fn spec_outcome(s: SessionState) -> Outcome {
    match (s.base, s.last) {
        (Some(b), Some(p)) => if p >= b {
            Outcome::Success
        } else {
            Outcome::Failure
        },
        _ => Outcome::Unknown,
    }
}

/// The final change ratio `(last - base) / base` of a state, as an exact
/// rational (numerator, denominator); `(0, 1)` when no ratio was measured.
pub open spec fn spec_final_ratio(s: SessionState) -> (int, int) {
    match (s.base, s.last) {
        (Some(b), Some(p)) => if b > 0 {
            (p - b, b as int)
        } else {
            (0int, 1int)
        },
        _ => (0int, 1int),
    }
}

impl SessionState {
    /// A fresh session, before any fetch.
    pub fn new() -> (s: SessionState)
        ensures
            s.base is None,
            s.last is None,
    {
        SessionState { base: None, last: None }
    }

    /// Record the result of the baseline fetch; `None` means the fetch
    /// failed and the session stays without a baseline.
    pub fn on_baseline(&mut self, tick: Option<&BtcTick>)
        ensures
            final(self).last == old(self).last,
            match tick {
                Some(t) => final(self).base == Some(t.price),
                None => final(self).base == old(self).base,
            },
    {
        if let Some(t) = tick {
            self.base = Some(t.price);
        }
    }

    /// Record one scheduled sample; a failed fetch (`None`) skips the sample
    /// and keeps the previous last price, a successful one overwrites it, so
    /// only the last successful sample survives into the final ratio.
    pub fn on_sample(&mut self, tick: Option<&BtcTick>)
        ensures
            final(self).base == old(self).base,
            match tick {
                Some(t) => final(self).last == Some(t.price),
                None => final(self).last == old(self).last,
            },
    {
        if let Some(t) = tick {
            self.last = Some(t.price);
        }
    }

    /// Classify the finished session.
    pub fn outcome(&self) -> (o: Outcome)
        ensures
            o == spec_outcome(*self),
    {
        match (self.base, self.last) {
            (Some(b), Some(p)) => if p >= b {
                Outcome::Success
            } else {
                Outcome::Failure
            },
            _ => Outcome::Unknown,
        }
    }

    /// The final change ratio as an exact rational (numerator, denominator).
    pub fn final_ratio(&self) -> (r: (i128, u64))
        ensures
            (r.0 as int, r.1 as int) == spec_final_ratio(*self),
            r.1 > 0,
    {
        match (self.base, self.last) {
            (Some(b), Some(p)) => if b > 0 {
                ((p as i128) - (b as i128), b)
            } else {
                (0, 1)
            },
            _ => (0, 1),
        }
    }
}

impl Outcome {
    /// The boolean handed to the statistics store: only a genuine success
    /// counts; `Unknown` is recorded as a failure.
    pub fn as_success(&self) -> (r: bool)
        ensures
            r == (*self is Success),
    {
        match self {
            Outcome::Success => true,
            _ => false,
        }
    }
}

/// A session that never obtained a successful sample is never classified as
/// a success, whatever its baseline.
pub proof fn lemma_no_sample_never_success(s: SessionState)
    requires
        s.base is None || s.last is None,
    ensures
        spec_outcome(s) != Outcome::Success,
{
}

} // verus!
