//! The polling cursor of the main loop.  It is kept apart from the
//! statistics store's informational `last_time`: sessions finish in any
//! order and may move that field backwards, while this cursor advances at
//! dispatch time and never decreases, so no post is detected twice.

use vstd::prelude::*;

verus! {

use crate::monitor::{parse_tweet_output, spec_monitor, MonitorError};
use crate::stats::Tweet;

/// The orchestrator's own polling state: the watermark below which posts
/// count as already processed.
pub struct Orchestrator {
    pub watermark: i64,
}

/// The watermark after one polling round: a detected post advances it to
/// the post's timestamp, anything else leaves it.
pub open spec fn next_watermark(w: int, out: Seq<char>) -> int {
    match spec_monitor(out, w) {
        Ok(p) => p.0,
        Err(_) => w,
    }
}

/// The watermark after a whole sequence of polling rounds.
pub open spec fn run_watermarks(w: int, outs: Seq<Seq<char>>) -> int
    decreases outs.len(),
{
    if outs.len() == 0 {
        w
    } else {
        next_watermark(run_watermarks(w, outs.drop_last()), outs.last())
    }
}

impl Orchestrator {
    pub fn new(initial_watermark: i64) -> (o: Orchestrator)
        ensures
            o.watermark == initial_watermark,
    {
        Orchestrator { watermark: initial_watermark }
    }

    /// Digest the captured output of one detection run: a new post advances
    /// the watermark to its timestamp before any session runs, so a slow or
    /// failed session cannot cause the post to be detected again; on any
    /// error the watermark is unchanged.  The watermark never decreases.
    pub fn on_poll_output(&mut self, output: &str) -> (r: Result<Tweet, MonitorError>)
        ensures
            final(self).watermark >= old(self).watermark,
            final(self).watermark as int == next_watermark(old(self).watermark as int, output@),
            match r {
                Ok(t) => {
                    &&& spec_monitor(output@, old(self).watermark as int) == Ok::<
                        (int, Seq<char>),
                        MonitorError,
                    >((t.time as int, t.content@))
                    &&& t.time > old(self).watermark
                    &&& final(self).watermark == t.time
                },
                Err(e) => {
                    &&& spec_monitor(output@, old(self).watermark as int) == Err::<
                        (int, Seq<char>),
                        MonitorError,
                    >(e)
                    &&& final(self).watermark == old(self).watermark
                },
            },
    {
        let r = parse_tweet_output(output, self.watermark);
        match &r {
            Ok(t) => {
                self.watermark = t.time;
            },
            Err(_) => {},
        }
        r
    }
}

/// One polling round never moves the watermark backwards: a detected post
/// is strictly newer than the watermark it was checked against.
pub proof fn lemma_next_watermark_monotonic(w: int, out: Seq<char>)
    ensures
        next_watermark(w, out) >= w,
{
}

/// The polling watermark is monotonically non-decreasing over the
/// orchestrator's whole lifetime, whatever the outputs of the rounds and
/// however the dispatched sessions later complete.
pub proof fn lemma_run_watermarks_monotonic(w: int, outs: Seq<Seq<char>>)
    ensures
        run_watermarks(w, outs) >= w,
    decreases outs.len(),
{
    if outs.len() > 0 {
        lemma_run_watermarks_monotonic(w, outs.drop_last());
        lemma_next_watermark_monotonic(run_watermarks(w, outs.drop_last()), outs.last());
    }
}

} // verus!
