//! The shared statistics store: the history of detected posts, the count of
//! sessions that ended in a price rise, and the exact success rate kept as a
//! rational number.  All mutation goes through the single atomic operation
//! `TweetDb::add`; the aggregate it computes depends only on the multiset of
//! recorded outcomes, never on their order.

use vstd::prelude::*;

verus! {

use vstd::seq_lib::group_to_multiset_ensures;

/// One detected post: its publication time (epoch seconds) and its text.
#[derive(Clone, PartialEq, Debug)]
pub struct Tweet {
    pub time: i64,
    pub content: String,
}

/// An exact rational value `num / den`; `den == 0` stands for the rate of an
/// empty history, which reads as zero.
#[derive(Clone, Copy, PartialEq, Eq, Structural, Debug)]
pub struct Rate {
    pub num: usize,
    pub den: usize,
}

/// The statistics store.  `last_time` is informational only: it is the time
/// of the most recently *recorded* post, which completion order may move
/// backwards; the polling cursor is kept separately by the orchestrator.
pub struct TweetDb {
    pub last_time: i64,
    pub suc_rate: Rate,
    pub suc_cnt: usize,
    pub tweets: Vec<Tweet>,
}

/// A consistent copy of the store's aggregate fields, taken in one read.
#[derive(Clone, Copy)]
pub struct Snapshot {
    pub last_time: i64,
    pub suc_cnt: usize,
    pub suc_rate: Rate,
    pub history_len: usize,
}

/// The pair (success count, history length) that the aggregate maintains.
pub open spec fn counts(db: TweetDb) -> (int, int) {
    (db.suc_cnt as int, db.tweets@.len() as int)
}

/// How one recorded outcome moves the aggregate pair.
pub open spec fn record_step(c: (int, int), outcome: bool) -> (int, int) {
    (c.0 + if outcome { 1int } else { 0int }, c.1 + 1)
}

/// The aggregate pair after a whole sequence of recorded outcomes.
pub open spec fn record_run(c: (int, int), outcomes: Seq<bool>) -> (int, int)
    decreases outcomes.len(),
{
    if outcomes.len() == 0 {
        c
    } else {
        record_step(record_run(c, outcomes.drop_last()), outcomes.last())
    }
}

/// The number of `true` entries of a sequence of outcomes.
pub open spec fn count_true(outcomes: Seq<bool>) -> int
    decreases outcomes.len(),
{
    if outcomes.len() == 0 {
        0int
    } else {
        count_true(outcomes.drop_last()) + if outcomes.last() {
            1int
        } else {
            0int
        }
    }
}

impl TweetDb {
    /// The store's invariant: the stored rate is exactly
    /// success count / history length, and `last_time` is the timestamp of
    /// the most recently appended post.
    pub open spec fn wf(self) -> bool {
        &&& self.suc_cnt <= self.tweets@.len()
        &&& self.suc_rate.num == self.suc_cnt
        &&& self.suc_rate.den == self.tweets@.len()
        &&& self.tweets@.len() > 0 ==> self.last_time == self.tweets@.last().time
    }

    /// An empty store, as created at process start.
    pub fn new() -> (db: TweetDb)
        ensures
            db.wf(),
            db.tweets@.len() == 0,
            db.suc_cnt == 0,
            db.last_time == 0,
    {
        TweetDb { last_time: 0, suc_rate: Rate { num: 0, den: 0 }, suc_cnt: 0, tweets: Vec::new() }
    }

    /// Record one finished session: append the post, move `last_time` to its
    /// timestamp, count a success if `result`, and recompute the exact rate.
    pub fn add(&mut self, t: Tweet, result: bool)
        requires
            old(self).wf(),
            old(self).tweets@.len() < usize::MAX,
        ensures
            final(self).wf(),
            final(self).last_time == t.time,
            final(self).tweets@ == old(self).tweets@.push(t),
            counts(*final(self)) == record_step(counts(*old(self)), result),
            final(self).suc_rate.num == final(self).suc_cnt,
            final(self).suc_rate.den == final(self).tweets@.len(),
    {
        self.last_time = t.time;
        self.tweets.push(t);
        if result {
            self.suc_cnt = self.suc_cnt + 1;
        }
        self.suc_rate = Rate { num: self.suc_cnt, den: self.tweets.len() };
    }

    /// One consistent read of the aggregate, for reporting.
    pub fn read_snapshot(&self) -> (s: Snapshot)
        ensures
            s.last_time == self.last_time,
            s.suc_cnt == self.suc_cnt,
            s.suc_rate == self.suc_rate,
            s.history_len == self.tweets@.len(),
    {
        Snapshot {
            last_time: self.last_time,
            suc_cnt: self.suc_cnt,
            suc_rate: self.suc_rate,
            history_len: self.tweets.len(),
        }
    }
}

/// Running the aggregate over a sequence of outcomes adds the number of
/// successes to the count and the number of outcomes to the length.
pub proof fn lemma_record_run_aggregate(c: (int, int), outcomes: Seq<bool>)
    ensures
        record_run(c, outcomes) == (c.0 + count_true(outcomes), c.1 + outcomes.len()),
    decreases outcomes.len(),
{
    if outcomes.len() > 0 {
        lemma_record_run_aggregate(c, outcomes.drop_last());
    }
}

/// `count_true` sees only the multiset of outcomes, not their order.
pub proof fn lemma_count_true_multiset(outcomes: Seq<bool>)
    ensures
        count_true(outcomes) == outcomes.to_multiset().count(true),
    decreases outcomes.len(),
{
    broadcast use group_to_multiset_ensures;

    if outcomes.len() == 0 {
        assert(!outcomes.contains(true));
        assert(outcomes.to_multiset().count(true) == 0);
    } else {
        let prefix = outcomes.drop_last();
        lemma_count_true_multiset(prefix);
        assert(outcomes =~= prefix.push(outcomes.last()));
        assert(prefix.push(outcomes.last()).to_multiset() =~= prefix.to_multiset().insert(
            outcomes.last(),
        ));
    }
}

/// Two sessions' outcomes, recorded one after the other in either
/// completion order, both take effect: the history grows by two, the
/// success count by the number of successes among them, and neither update
/// is lost, the same in both orders.
pub proof fn lemma_two_records_both_kept(c: (int, int), b1: bool, b2: bool)
    ensures
        record_run(c, seq![b1, b2]) == record_run(c, seq![b2, b1]),
        record_run(c, seq![b1, b2]).1 == c.1 + 2,
        record_run(c, seq![b1, b2]).0 == c.0 + (if b1 {
            1int
        } else {
            0int
        }) + (if b2 {
            1int
        } else {
            0int
        }),
{
    reveal_with_fuel(record_run, 3);
    assert(seq![b1, b2].drop_last() =~= seq![b1]);
    assert(seq![b1].drop_last() =~= Seq::<bool>::empty());
    assert(seq![b2, b1].drop_last() =~= seq![b2]);
    assert(seq![b2].drop_last() =~= Seq::<bool>::empty());
    assert(record_run(c, seq![b1]) == record_step(c, b1));
    assert(record_run(c, seq![b2]) == record_step(c, b2));
}

/// Order independence of the aggregate: two interleavings that record the
/// same multiset of outcomes leave the same success count and history length,
/// and therefore the same success rate.
pub proof fn lemma_record_run_order_independent(
    c: (int, int),
    outcomes1: Seq<bool>,
    outcomes2: Seq<bool>,
)
    requires
        outcomes1.to_multiset() == outcomes2.to_multiset(),
    ensures
        record_run(c, outcomes1) == record_run(c, outcomes2),
{
    broadcast use group_to_multiset_ensures;

    lemma_record_run_aggregate(c, outcomes1);
    lemma_record_run_aggregate(c, outcomes2);
    lemma_count_true_multiset(outcomes1);
    lemma_count_true_multiset(outcomes2);
    assert(outcomes1.len() == outcomes1.to_multiset().len());
    assert(outcomes2.len() == outcomes2.to_multiset().len());
}

} // verus!
