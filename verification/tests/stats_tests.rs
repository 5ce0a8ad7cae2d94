use tweet_btc_monitor::stats::{Rate, Tweet, TweetDb};

fn tweet(time: i64, content: &str) -> Tweet {
    Tweet { time, content: content.to_string() }
}

#[test]
fn empty_store_rate_reads_zero() {
    let db = TweetDb::new();
    assert_eq!(db.suc_cnt, 0);
    assert_eq!(db.last_time, 0);
    assert_eq!(db.tweets.len(), 0);
    assert_eq!(db.suc_rate, Rate { num: 0, den: 0 });
}

#[test]
fn one_success_gives_rate_one() {
    let mut db = TweetDb::new();
    db.add(tweet(1000, "a"), true);
    assert_eq!(db.suc_cnt, 1);
    assert_eq!(db.tweets.len(), 1);
    assert_eq!(db.last_time, 1000);
    assert_eq!(db.suc_rate, Rate { num: 1, den: 1 });
}

#[test]
fn rate_tracks_count_over_length() {
    let mut db = TweetDb::new();
    db.add(tweet(1, "a"), true);
    db.add(tweet(2, "b"), false);
    db.add(tweet(3, "c"), true);
    assert_eq!(db.suc_cnt, 2);
    assert_eq!(db.tweets.len(), 3);
    assert_eq!(db.suc_rate, Rate { num: 2, den: 3 });
}

#[test]
fn aggregate_is_order_independent() {
    let mut db1 = TweetDb::new();
    db1.add(tweet(1, "a"), true);
    db1.add(tweet(2, "b"), false);
    db1.add(tweet(3, "c"), false);

    let mut db2 = TweetDb::new();
    db2.add(tweet(3, "c"), false);
    db2.add(tweet(1, "a"), false);
    db2.add(tweet(2, "b"), true);

    assert_eq!(db1.suc_cnt, db2.suc_cnt);
    assert_eq!(db1.tweets.len(), db2.tweets.len());
    assert_eq!(db1.suc_rate, db2.suc_rate);
}

#[test]
fn both_concurrent_outcomes_are_kept() {
    // Two sessions dispatched 30 s apart may record in either order; both
    // must land in the aggregate with no lost update.
    let mut db = TweetDb::new();
    db.add(tweet(2000, "second post finished first"), true);
    db.add(tweet(1970, "first post finished last"), true);
    assert_eq!(db.suc_cnt, 2);
    assert_eq!(db.tweets.len(), 2);
    assert_eq!(db.suc_rate, Rate { num: 2, den: 2 });
}

#[test]
fn snapshot_is_one_consistent_read() {
    let mut db = TweetDb::new();
    db.add(tweet(5, "a"), false);
    db.add(tweet(9, "b"), true);
    let s = db.read_snapshot();
    assert_eq!(s.last_time, 9);
    assert_eq!(s.suc_cnt, 1);
    assert_eq!(s.history_len, 2);
    assert_eq!(s.suc_rate, Rate { num: 1, den: 2 });
    let as_float = s.suc_rate.num as f64 / s.suc_rate.den as f64;
    assert_eq!(as_float, 0.5);
}

#[test]
fn store_watermark_is_informational_and_may_regress() {
    let mut db = TweetDb::new();
    db.add(tweet(2000, "late event, early finish"), false);
    db.add(tweet(1000, "early event, late finish"), false);
    assert_eq!(db.last_time, 1000);
}
