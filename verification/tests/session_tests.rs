use tweet_btc_monitor::orchestrator::Orchestrator;
use tweet_btc_monitor::price::parse_btc_tick;
use tweet_btc_monitor::session::{BtcTick, Outcome, SessionState};
use tweet_btc_monitor::stats::{Rate, TweetDb};

const UNIT: u64 = 100_000_000;

fn tick(ts: i64, units: u64) -> BtcTick {
    BtcTick { ts, price: units }
}

#[test]
fn all_fetches_failing_is_unknown_not_success() {
    let mut s = SessionState::new();
    s.on_baseline(None);
    for _ in 0..10 {
        s.on_sample(None);
    }
    let o = s.outcome();
    assert_eq!(o, Outcome::Unknown);
    assert_ne!(o, Outcome::Success);
    assert!(!o.as_success());
    assert_eq!(s.final_ratio(), (0, 1));
}

#[test]
fn baseline_without_any_sample_is_unknown() {
    let mut s = SessionState::new();
    s.on_baseline(Some(&tick(1000, 100 * UNIT)));
    for _ in 0..10 {
        s.on_sample(None);
    }
    assert_eq!(s.outcome(), Outcome::Unknown);
    assert!(!s.outcome().as_success());
}

#[test]
fn zero_ratio_counts_as_success() {
    // Base price 100.0 and final sample 100.0: ratio exactly 0.0 is a
    // success, and distinct from the unknown outcome of a failed session.
    let mut s = SessionState::new();
    s.on_baseline(Some(&tick(1000, 100 * UNIT)));
    s.on_sample(Some(&tick(1030, 100 * UNIT)));
    assert_eq!(s.outcome(), Outcome::Success);
    assert!(s.outcome().as_success());
    let (num, den) = s.final_ratio();
    assert_eq!(num, 0);
    assert_eq!(den, 100 * UNIT);
    assert_eq!(num as f64 / den as f64, 0.0);
}

#[test]
fn negative_ratio_is_failure() {
    // Base price 100.0 and final sample 95.0: ratio -0.05, no success.
    let mut s = SessionState::new();
    s.on_baseline(Some(&tick(1000, 100 * UNIT)));
    s.on_sample(Some(&tick(1030, 95 * UNIT)));
    assert_eq!(s.outcome(), Outcome::Failure);
    assert!(!s.outcome().as_success());
    let (num, den) = s.final_ratio();
    assert_eq!(num as f64 / den as f64, -0.05);
}

#[test]
fn only_last_successful_sample_survives() {
    // Samples 101.0, a failed fetch, then 99.0 against base 100.0: the
    // failed fetch keeps the previous ratio, the last success overwrites
    // it, so the final ratio is (99 - 100) / 100 = -0.01.
    let mut s = SessionState::new();
    s.on_baseline(Some(&tick(1000, 100 * UNIT)));
    s.on_sample(Some(&tick(1030, 101 * UNIT)));
    s.on_sample(None);
    s.on_sample(Some(&tick(1090, 99 * UNIT)));
    let (num, den) = s.final_ratio();
    assert_eq!(num as f64 / den as f64, -0.01);
    assert_eq!(s.outcome(), Outcome::Failure);
}

#[test]
fn end_to_end_session_records_failure() {
    // The detector reports an event at t=1000; the feed answers 100.0 as
    // the baseline, then 101.0, a failed fetch, and 99.0.  Only successful
    // samples feed the latest ratio, so the final ratio is -0.01, the
    // recorded outcome is a failure, and the store ends with one event and
    // a zero rate.
    let mut orch = Orchestrator::new(900);
    let event = orch
        .on_poll_output("77 1970-01-01 00:16:40 +0000 someone post")
        .unwrap();
    assert_eq!(event.time, 1000);
    assert_eq!(orch.watermark, 1000);

    let mut session = SessionState::new();
    session.on_baseline(parse_btc_tick("{\"ts\":1000,\"tick\":{\"close\":100.0}}").ok().as_ref());
    session.on_sample(parse_btc_tick("{\"ts\":1030,\"tick\":{\"close\":101.0}}").ok().as_ref());
    session.on_sample(parse_btc_tick("transient failure").ok().as_ref());
    session.on_sample(parse_btc_tick("{\"ts\":1090,\"tick\":{\"close\":99.0}}").ok().as_ref());
    let (num, den) = session.final_ratio();
    assert_eq!(num as f64 / den as f64, -0.01);

    let mut db = TweetDb::new();
    db.add(event, session.outcome().as_success());
    assert_eq!(db.tweets.len(), 1);
    assert_eq!(db.suc_cnt, 0);
    assert_eq!(db.suc_rate, Rate { num: 0, den: 1 });
    assert_eq!(db.suc_rate.num as f64 / db.suc_rate.den as f64, 0.0);
}

#[test]
fn rising_price_is_success() {
    let mut s = SessionState::new();
    s.on_baseline(Some(&tick(1000, 100 * UNIT)));
    s.on_sample(Some(&tick(1030, 105 * UNIT)));
    assert_eq!(s.outcome(), Outcome::Success);
    let (num, den) = s.final_ratio();
    assert_eq!(num as f64 / den as f64, 0.05);
}
