//! Parsing of the detection command's output into a post, and building of
//! that command line.  The output's first line is split on single spaces;
//! tokens one to three carry the publication date, time and zone, tokens
//! from five onward the content.  Running the command and capturing its
//! output happen outside the library; this module gets the captured text.

use vstd::prelude::*;

verus! {

use crate::stats::Tweet;
use crate::text::{concat_all, find_char, first_index_of, split_on, split_str};

/// Why a polling round produced no new post.
#[derive(Clone, Copy, PartialEq, Eq, Structural, Debug)]
pub enum MonitorError {
    /// The detection command wrote nothing: an adapter failure.
    EmptyOutput,
    /// The detector's "no results" marker line.
    NoNewTweet,
    /// The first output line has too few tokens to carry a date.
    Malformed,
    /// The date tokens do not parse as a date with time and zone.
    DateParse,
    /// A post was parsed but is not newer than the watermark.
    NotNew,
}

impl MonitorError {
    /// Whether this round *checked* and found nothing new, as opposed to a
    /// failure of the detection mechanism itself (empty or malformed output,
    /// an unreadable date): the two are distinct, and only the latter is an
    /// adapter failure.
    pub fn is_no_new_event(&self) -> (r: bool)
        ensures
            r == (*self is NoNewTweet || *self is NotNew),
    {
        match self {
            MonitorError::NoNewTweet => true,
            MonitorError::NotNew => true,
            _ => false,
        }
    }
}

/// The timestamp that `chrono` reads out of a `%Y-%m-%d %H:%M:%S %z` string,
/// a function of the text alone.
pub uninterp spec fn parse_ts_of(s: Seq<char>) -> Option<int>;

/// Relies on `chrono::DateTime::parse_from_str` with format
/// `%Y-%m-%d %H:%M:%S %z` and `DateTime::timestamp`: parsing is a
/// deterministic function of the text, succeeding exactly when the text
/// matches the format, and never panics.
#[verifier::external_body]
pub(crate) fn parse_datetime(s: &str) -> (r: Option<i64>)
    ensures
        match r {
            Some(t) => parse_ts_of(s@) == Some(t as int),
            None => parse_ts_of(s@) is None,
        },
{
    chrono::DateTime::parse_from_str(s, "%Y-%m-%d %H:%M:%S %z").ok().map(|d| d.timestamp())
}

/// Relies on `std::time::SystemTime::now` and `duration_since` for the
/// current epoch seconds; a clock before the epoch reads as 0 and one past
/// the integer range saturates to the type's ceiling, so the call cannot
/// panic and its result is never negative.  Nothing more is assumed of the
/// clock's value.
#[verifier::external_body]
pub(crate) fn now_ts() -> (r: i64)
    ensures
        r >= 0,
{
    match std::time::SystemTime::now().duration_since(std::time::UNIX_EPOCH) {
        Ok(d) => i64::try_from(d.as_secs()).unwrap_or(i64::MAX),
        Err(_) => 0,
    }
}

/// Whether `chrono::DateTime::from_timestamp` accepts this many epoch
/// seconds: a function of the timestamp alone, its documentation giving no
/// numeric bounds ("`None` on out-of-range number of seconds").
pub uninterp spec fn date_in_range(ts: int) -> bool;

/// Relies on `chrono::DateTime::from_timestamp` and formatting with
/// `%Y-%m-%d` in the machine's local zone.  Success is deterministic in the
/// timestamp alone (`None` exactly out of chrono's calendar range), while
/// the text depends on the machine's zone, so nothing is assumed of it.
/// Formatting a present date with this fixed format cannot fail, so the
/// call never panics.
#[verifier::external_body]
pub(crate) fn format_date(ts: i64) -> (r: Option<String>)
    ensures
        r is Some <==> date_in_range(ts as int),
{
    chrono::DateTime::from_timestamp(ts, 0).map(
        |d| d.with_timezone(&chrono::Local).format("%Y-%m-%d").to_string(),
    )
}

/// The detector's "no results" marker: output beginning with `[!]`.
pub open spec fn starts_no_result(out: Seq<char>) -> bool {
    out.len() >= 3 && out[0] == '[' && out[1] == '!' && out[2] == ']'
}

/// The first line of the output.
pub open spec fn first_line(out: Seq<char>) -> Seq<char> {
    split_on(out, '\n')[0]
}

/// The date text rebuilt from tokens one to three: `date time+zone`.
pub open spec fn date_text(toks: Seq<Seq<char>>) -> Seq<char> {
    toks[1] + seq![' '] + toks[2] + toks[3]
}

/// The content rebuilt from the tokens after the author token.
pub open spec fn content_text(toks: Seq<Seq<char>>) -> Seq<char> {
    if toks.len() <= 5 {
        Seq::empty()
    } else {
        concat_all(toks.skip(5))
    }
}

/// What one polling round concludes from the captured output and the
/// current watermark: a new post's timestamp and content, or the reason
/// there is none.
pub open spec fn spec_monitor(out: Seq<char>, last: int) -> Result<(int, Seq<char>), MonitorError> {
    if out.len() == 0 {
        Err(MonitorError::EmptyOutput)
    } else if starts_no_result(out) {
        Err(MonitorError::NoNewTweet)
    } else {
        let toks = split_on(first_line(out), ' ');
        if toks.len() < 4 {
            Err(MonitorError::Malformed)
        } else {
            match parse_ts_of(date_text(toks)) {
                None => Err(MonitorError::DateParse),
                Some(ts) => if ts <= last {
                    Err(MonitorError::NotNew)
                } else {
                    Ok((ts, content_text(toks)))
                },
            }
        }
    }
}

/// Parse the captured output of one detection run, against the watermark
/// `last_time`, exactly as `spec_monitor` describes; a returned post is
/// strictly newer than the watermark.
pub fn parse_tweet_output(output: &str, last_time: i64) -> (r: Result<Tweet, MonitorError>)
    ensures
        match r {
            Ok(t) => spec_monitor(output@, last_time as int) == Ok::<(int, Seq<char>), MonitorError>(
                (t.time as int, t.content@),
            ) && t.time > last_time,
            Err(e) => spec_monitor(output@, last_time as int) == Err::<
                (int, Seq<char>),
                MonitorError,
            >(e),
        },
{
    let n = output.unicode_len();
    if n == 0 {
        return Err(MonitorError::EmptyOutput);
    }
    if n >= 3 && output.get_char(0) == '[' && output.get_char(1) == '!' && output.get_char(2)
        == ']' {
        return Err(MonitorError::NoNewTweet);
    }
    let line: &str = match find_char(output, '\n') {
        Some(i) => output.substring_char(0, i),
        None => output,
    };
    proof {
        assert(line@ == first_line(output@));
    }
    let toks = split_str(line, ' ');
    let ghost tdv = toks.deep_view();
    if toks.len() < 4 {
        return Err(MonitorError::Malformed);
    }
    let mut date_s = toks[1].clone();
    date_s.append(" ");
    date_s.append(toks[2].as_str());
    date_s.append(toks[3].as_str());
    proof {
        reveal_strlit(" ");
        assert(" "@ =~= seq![' ']);
        assert(date_s@ == date_text(tdv));
    }
    let ts = match parse_datetime(date_s.as_str()) {
        Some(ts) => ts,
        None => {
            return Err(MonitorError::DateParse);
        },
    };
    if ts <= last_time {
        return Err(MonitorError::NotNew);
    }
    let mut content = String::new();
    if toks.len() > 5 {
        let mut j: usize = 5;
        while j < toks.len()
            invariant
                5 <= j <= toks@.len(),
                toks@.len() > 5,
                tdv == toks.deep_view(),
                content@ == concat_all(tdv.subrange(5, j as int)),
            decreases toks@.len() - j,
        {
            proof {
                assert(tdv.subrange(5, j as int + 1).drop_last() =~= tdv.subrange(5, j as int));
                assert(tdv.subrange(5, j as int + 1).last() == tdv[j as int]);
                assert(tdv[j as int] == toks@[j as int]@);
            }
            content.append(toks[j].as_str());
            j = j + 1;
        }
        proof {
            assert(tdv.subrange(5, tdv.len() as int) =~= tdv.skip(5));
        }
    }
    proof {
        assert(content@ == content_text(tdv));
    }
    Ok(Tweet { time: ts, content })
}

/// The command text: the detector binary, the monitored account, the since
/// date, the output file, and the fixed JSON single-result options.
pub open spec fn cmd_text(twint: Seq<char>, user: Seq<char>, date: Seq<char>, file: Seq<char>) -> Seq<
    char,
> {
    twint + " -u "@ + user + " --since "@ + date + " -o "@ + file + " --json --limit 1"@
}

/// Build the detection command line from its configured parts.
pub fn build_cmd(twint: &str, user: &str, date: &str, file: &str) -> (r: String)
    ensures
        r@ == cmd_text(twint@, user@, date@, file@),
{
    let mut out = twint.to_owned();
    out.append(" -u ");
    out.append(user);
    out.append(" --since ");
    out.append(date);
    out.append(" -o ");
    out.append(file);
    out.append(" --json --limit 1");
    proof {
        assert(out@ =~= cmd_text(twint@, user@, date@, file@));
    }
    out
}

/// Build the detection command for the watermark `last_time`: the since
/// date is the watermark's day in the machine's local zone, so the command
/// text is fixed up to that date.  A command is owed exactly when the
/// watermark lies in chrono's calendar range; only the date text itself is
/// left open, as it depends on the machine's zone.
pub fn gen_cmd(twint: &str, user: &str, file: &str, last_time: i64) -> (r: Option<String>)
    ensures
        r is Some <==> date_in_range(last_time as int),
        match r {
            Some(cmd) => exists|date: Seq<char>| cmd@ == cmd_text(twint@, user@, date, file@),
            None => true,
        },
{
    match format_date(last_time) {
        Some(d) => {
            let c = build_cmd(twint, user, d.as_str(), file);
            proof {
                assert(c@ == cmd_text(twint@, user@, d@, file@));
            }
            Some(c)
        },
        None => None,
    }
}

/// Clamp `now` back by a nonnegative skew, saturating at the type's floor.
pub fn initial_watermark(now: i64, skew_secs: i64) -> (r: i64)
    requires
        skew_secs >= 0,
    ensures
        r <= now,
        now - skew_secs >= i64::MIN ==> r == now - skew_secs,
{
    if now >= i64::MIN + skew_secs {
        now - skew_secs
    } else {
        i64::MIN
    }
}

/// The polling watermark to start from: the clock now, turned back by a
/// configured nonnegative skew, so the first session still samples
/// meaningfully around the first post.  The clock never reads negative, so
/// the result lies no further back than the skew itself.
pub fn start_watermark(skew_secs: i64) -> (r: i64)
    requires
        skew_secs >= 0,
    ensures
        r >= -skew_secs,
{
    let now = now_ts();
    initial_watermark(now, skew_secs)
}

/// The default starting watermark: the clock now, turned two minutes back.
pub fn two_minutes_before() -> (r: i64)
    ensures
        r >= -120,
{
    start_watermark(120)
}

} // verus!
