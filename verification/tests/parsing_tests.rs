use tweet_btc_monitor::decimal::parse_price;
use tweet_btc_monitor::monitor::{
    build_cmd, gen_cmd, initial_watermark, parse_tweet_output, two_minutes_before, MonitorError,
};
use tweet_btc_monitor::orchestrator::Orchestrator;
use tweet_btc_monitor::price::{parse_btc_tick, PriceError};

#[test]
fn price_whole_and_fractional() {
    assert_eq!(parse_price("100.0"), Some(10_000_000_000));
    assert_eq!(parse_price("101"), Some(10_100_000_000));
    assert_eq!(parse_price("0.00000001"), Some(1));
    assert_eq!(parse_price("00010.5"), Some(1_050_000_000));
    assert_eq!(parse_price("43250.12"), Some(4_325_012_000_000));
}

#[test]
fn price_truncates_past_eight_decimals() {
    assert_eq!(parse_price("0.123456789"), Some(12_345_678));
    assert_eq!(parse_price("1.000000009"), Some(100_000_000));
}

#[test]
fn price_range_bound() {
    assert_eq!(parse_price("9999999999.99999999"), Some(999_999_999_999_999_999));
    assert_eq!(parse_price("10000000000"), None);
    assert_eq!(parse_price("10000000000.1"), None);
    assert_eq!(parse_price("9999999999"), Some(999_999_999_900_000_000));
}

#[test]
fn price_rejects_malformed_text() {
    assert_eq!(parse_price(""), None);
    assert_eq!(parse_price("."), None);
    assert_eq!(parse_price("1."), None);
    assert_eq!(parse_price(".5"), None);
    assert_eq!(parse_price("1.2.3"), None);
    assert_eq!(parse_price("-1.0"), None);
    assert_eq!(parse_price("1e5"), None);
    assert_eq!(parse_price("abc"), None);
    assert_eq!(parse_price("12 .3"), None);
}

#[test]
fn tick_from_feed_body() {
    let body = "{\"ts\":1000,\"tick\":{\"close\":100.0}}";
    let t = parse_btc_tick(body).unwrap();
    assert_eq!(t.ts, 1000);
    assert_eq!(t.price, 10_000_000_000);
}

#[test]
fn tick_errors_name_the_missing_piece() {
    assert_eq!(parse_btc_tick("not json"), Err(PriceError::MissingTs));
    assert_eq!(parse_btc_tick("{\"tick\":{\"close\":1.0}}"), Err(PriceError::MissingTs));
    assert_eq!(
        parse_btc_tick("{\"ts\":\"soon\",\"tick\":{\"close\":1.0}}"),
        Err(PriceError::MissingTs)
    );
    assert_eq!(parse_btc_tick("{\"ts\":1000}"), Err(PriceError::MissingClose));
    assert_eq!(parse_btc_tick("{\"ts\":1000,\"tick\":{}}"), Err(PriceError::MissingClose));
    assert_eq!(
        parse_btc_tick("{\"ts\":1000,\"tick\":{\"close\":true}}"),
        Err(PriceError::BadPrice)
    );
    assert_eq!(
        parse_btc_tick("{\"ts\":1000,\"tick\":{\"close\":\"100\"}}"),
        Err(PriceError::BadPrice)
    );
    assert_eq!(
        parse_btc_tick("{\"ts\":1000,\"tick\":{\"close\":-1.5}}"),
        Err(PriceError::BadPrice)
    );
}

#[test]
fn tweet_line_parses_date_and_content() {
    let out = "1344 2021-01-01 00:00:00 +0000 someone hello big world\nolder line ignored";
    let t = parse_tweet_output(out, 0).unwrap();
    assert_eq!(t.time, 1_609_459_200);
    assert_eq!(t.content, "hellobigworld");
}

#[test]
fn tweet_with_no_content_tokens() {
    let out = "1344 2021-01-01 00:00:00 +0000";
    let t = parse_tweet_output(out, 0).unwrap();
    assert_eq!(t.time, 1_609_459_200);
    assert_eq!(t.content, "");
}

#[test]
fn tweet_errors_cover_every_failure() {
    assert_eq!(parse_tweet_output("", 0), Err(MonitorError::EmptyOutput));
    assert_eq!(parse_tweet_output("[!] no results", 0), Err(MonitorError::NoNewTweet));
    assert_eq!(parse_tweet_output("lonely", 0), Err(MonitorError::Malformed));
    assert_eq!(parse_tweet_output("a b", 0), Err(MonitorError::Malformed));
    assert_eq!(parse_tweet_output("1344 not a date here", 0), Err(MonitorError::DateParse));
    assert_eq!(
        parse_tweet_output("1344 2021-01-01 00:00:00 +0000 someone hi", 1_609_459_200),
        Err(MonitorError::NotNew)
    );
}

#[test]
fn orchestrator_watermark_only_advances() {
    let mut o = Orchestrator::new(0);
    let out = "1344 2021-01-01 00:00:00 +0000 someone hi";
    let t = o.on_poll_output(out).unwrap();
    assert_eq!(t.time, 1_609_459_200);
    assert_eq!(o.watermark, 1_609_459_200);

    // The same post again is no longer new, and the watermark holds.
    assert_eq!(o.on_poll_output(out), Err(MonitorError::NotNew));
    assert_eq!(o.watermark, 1_609_459_200);

    // An adapter failure leaves the watermark untouched.
    assert_eq!(o.on_poll_output(""), Err(MonitorError::EmptyOutput));
    assert_eq!(o.watermark, 1_609_459_200);

    // A newer post advances it again.
    let newer = "1345 2021-01-01 00:00:01 +0000 someone hi";
    o.on_poll_output(newer).unwrap();
    assert_eq!(o.watermark, 1_609_459_201);
}

#[test]
fn no_new_event_is_distinct_from_adapter_failure() {
    assert!(MonitorError::NoNewTweet.is_no_new_event());
    assert!(MonitorError::NotNew.is_no_new_event());
    assert!(!MonitorError::EmptyOutput.is_no_new_event());
    assert!(!MonitorError::Malformed.is_no_new_event());
    assert!(!MonitorError::DateParse.is_no_new_event());
}

#[test]
fn command_text_is_exact() {
    let cmd = build_cmd("./twint", "someone", "2021-01-01", "./file.txt");
    assert_eq!(cmd, "./twint -u someone --since 2021-01-01 -o ./file.txt --json --limit 1");
}

#[test]
fn gen_cmd_embeds_a_formatted_date() {
    let cmd = gen_cmd("./twint", "someone", "./file.txt", 1_609_459_200).unwrap();
    assert!(cmd.starts_with("./twint -u someone --since "));
    assert!(cmd.ends_with(" -o ./file.txt --json --limit 1"));
}

#[test]
fn initial_watermark_applies_the_skew() {
    assert_eq!(initial_watermark(1000, 120), 880);
    assert_eq!(initial_watermark(i64::MIN + 10, 120), i64::MIN);
    let w = two_minutes_before();
    assert!(w > 0);
}
