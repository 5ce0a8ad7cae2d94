//! Reading one market quote out of the feed's JSON body.  The body carries
//! an epoch-millisecond timestamp under `ts` and the current price under
//! `tick.close`.  What serde_json finds under those members is a function of
//! the body text alone, so the two extractions carry names that the quote
//! parser's exact contract is stated over; the price number's own text is
//! then parsed by the verified fixed-point parser.

use vstd::prelude::*;

verus! {

use crate::decimal::{parse_price, spec_parse_price};
use crate::session::BtcTick;

/// Why a fetched body yielded no quote; all of these are transient sample
/// failures, the session skips the sample and continues.
#[derive(Clone, Copy, PartialEq, Eq, Structural, Debug)]
pub enum PriceError {
    /// The body is not a JSON document with an integer `ts` member.
    MissingTs,
    /// The body has no `tick.close` member.
    MissingClose,
    /// The `close` value's text is not a decimal in the accepted range.
    BadPrice,
}

/// The integer that serde_json reads under `ts` of the body text, a
/// function of the text alone; `None` when the text is not a JSON document
/// with an `i64`-representable integer there.
pub uninterp spec fn ts_of(body: Seq<char>) -> Option<int>;

/// The JSON text of the body's `tick.close` member, a function of the body
/// text alone; `None` when the text is not a JSON document with that
/// member.  For a number this is its bare decimal text, so a non-number
/// here never parses as a price.
pub uninterp spec fn close_text_of(body: Seq<char>) -> Option<Seq<char>>;

/// Relies on `serde_json::from_str::<Value>`, `Value::get`, `Value::as_i64`
/// and `Value::to_string` (its `Display`): parsing, member lookup, integer
/// read and number printing are deterministic functions of the body text,
/// return through `Option`/`Result`, and never panic.
#[verifier::external_body]
fn json_quote_fields(body: &str) -> (r: (Option<i64>, Option<String>))
    ensures
        match r.0 {
            Some(t) => ts_of(body@) == Some(t as int),
            None => ts_of(body@) is None,
        },
        match r.1 {
            Some(s) => close_text_of(body@) == Some(s@),
            None => close_text_of(body@) is None,
        },
{
    let doc: Option<serde_json::Value> = serde_json::from_str(body).ok();
    let ts = doc.as_ref().and_then(|v| v.get("ts")).and_then(|t| t.as_i64());
    let close = doc
        .as_ref()
        .and_then(|v| v.get("tick"))
        .and_then(|t| t.get("close"))
        .map(|c| c.to_string());
    (ts, close)
}

/// What `parse_btc_tick` concludes from a body: the `ts` integer and the
/// fixed-point value of the `close` text, or the first missing piece.
pub open spec fn spec_parse_btc_tick(body: Seq<char>) -> Result<(int, u64), PriceError> {
    match ts_of(body) {
        None => Err(PriceError::MissingTs),
        Some(ts) => match close_text_of(body) {
            None => Err(PriceError::MissingClose),
            Some(ct) => match spec_parse_price(ct) {
                None => Err(PriceError::BadPrice),
                Some(p) => Ok((ts, p)),
            },
        },
    }
}

/// Extract the quote from one fetched body, exactly as
/// `spec_parse_btc_tick` describes: the timestamp is the body's `ts`
/// member, the price is the fixed-point value of the `tick.close` text,
/// and each error names the first piece that was missing or malformed.  A
/// returned price always lies below the fixed-point range bound.
pub fn parse_btc_tick(body: &str) -> (r: Result<BtcTick, PriceError>)
    ensures
        match r {
            Ok(t) => spec_parse_btc_tick(body@) == Ok::<(int, u64), PriceError>(
                (t.ts as int, t.price),
            ),
            Err(e) => spec_parse_btc_tick(body@) == Err::<(int, u64), PriceError>(e),
        },
        r matches Ok(t) ==> t.price < 1_000_000_000_000_000_000u64,
{
    let (ts_opt, close_opt) = json_quote_fields(body);
    let ts = match ts_opt {
        Some(t) => t,
        None => {
            return Err(PriceError::MissingTs);
        },
    };
    let close_text = match close_opt {
        Some(c) => c,
        None => {
            return Err(PriceError::MissingClose);
        },
    };
    match parse_price(close_text.as_str()) {
        Some(p) => {
            proof {
                crate::decimal::lemma_parse_price_bound(close_text@);
            }
            Ok(BtcTick { ts, price: p })
        },
        None => Err(PriceError::BadPrice),
    }
}

} // verus!
