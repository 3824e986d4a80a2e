//! What the indexer reads of a block document: its timestamp and its
//! transaction records.

use vstd::prelude::*;
use crate::error::{TickError, TickErrorView};
use crate::hex::{decode_hex, parse_hex, strip_prefix, trim_prefix, DecodeError};
use crate::json::{text_field, values, Json, JsonValue};

verus! {

/// The first second of the calendar: the start of the year -262143, in
/// whole seconds since the start of 1970.
pub open spec fn first_instant() -> int {
    -8_334_601_228_800
}

/// The last second of the calendar: the end of the year 262142, in whole
/// seconds since the start of 1970.
pub open spec fn last_instant() -> int {
    8_210_266_876_799
}

/// Whether the calendar has a UTC instant that lies `secs` whole seconds
/// after the start of 1970.
pub open spec fn utc_instant_exists(secs: int) -> bool {
    first_instant() <= secs <= last_instant()
}

/// `chrono::DateTime::from_timestamp` with no sub-second part: whether it
/// yields an instant. It yields one exactly where the day that the seconds
/// fall on lies in a year from -262143 to 262142, the years that chrono
/// 0.4.45 allows a date (`MIN_YEAR` and `MAX_YEAR` in its source); in
/// seconds that is the range from `first_instant` to `last_instant`.
#[verifier::external_body]
fn is_utc_instant(secs: i64) -> (r: bool)
    ensures
        r == utc_instant_exists(secs as int),
{
    chrono::DateTime::from_timestamp(secs, 0).is_some()
}

/// The hex text of the block's timestamp, where the block has one.
pub open spec fn timestamp_text(block: JsonValue) -> Option<Seq<char>> {
    block.get("result"@).get("timestamp"@).as_text()
}

/// The timestamp that the text `text` gives, where it decodes to `secs`
/// and `is_instant` says whether the calendar has that instant: the
/// seconds, or a decode failure that carries the text without its prefix.
pub open spec fn checked_timestamp(text: Seq<char>, secs: int, is_instant: bool) -> Result<
    int,
    TickErrorView,
> {
    if is_instant {
        Ok(secs)
    } else {
        Err(TickErrorView::Decode { input: strip_prefix(text) })
    }
}

/// The block's timestamp in whole seconds since the start of 1970. A block
/// without timestamp text is a protocol failure; a text that is no hex
/// quantity, or whose value is no instant of the calendar, is a decode
/// failure that carries the text without its prefix.
pub open spec fn block_timestamp(block: JsonValue) -> Result<int, TickErrorView> {
    match timestamp_text(block) {
        None => Err(TickErrorView::Protocol),
        Some(text) => match decode_hex(text) {
            Some(secs) => checked_timestamp(text, secs, utc_instant_exists(secs)),
            None => Err(TickErrorView::Decode { input: strip_prefix(text) }),
        },
    }
}

/// The transaction records of the block in block order, where the block
/// has an array of them.
pub open spec fn block_transactions(block: JsonValue) -> Option<Seq<JsonValue>> {
    block.get("result"@).get("transactions"@).as_array()
}

/// The member `key` of the block's member `result`.
fn result_member<'a>(block: &'a Json, key: &str) -> (r: Option<&'a Json>)
    ensures
        match r {
            Some(v) => v@ == block@.get("result"@).get(key@),
            None => block@.get("result"@).get(key@) == JsonValue::Null,
        },
{
    match block.get("result") {
        Some(result) => result.get(key),
        None => None,
    }
}

/// Accepts the seconds that a timestamp text decodes to where they are an
/// instant of the calendar, and refuses the text where they are none.
pub fn check_timestamp(text: &str, secs: i64, is_instant: bool) -> (r: Result<i64, TickError>)
    ensures
        match r {
            Ok(v) => checked_timestamp(text@, secs as int, is_instant) == Ok::<int, TickErrorView>(
                v as int,
            ),
            Err(e) => checked_timestamp(text@, secs as int, is_instant) == Err::<
                int,
                TickErrorView,
            >(e@),
        },
{
    if is_instant {
        Ok(secs)
    } else {
        Err(TickError::Decode(DecodeError { input: trim_prefix(text).to_owned() }))
    }
}

/// Reads the block's timestamp.
pub fn timestamp_of(block: &Json) -> (r: Result<i64, TickError>)
    ensures
        match r {
            Ok(secs) => block_timestamp(block@) == Ok::<int, TickErrorView>(secs as int),
            Err(e) => block_timestamp(block@) == Err::<int, TickErrorView>(e@),
        },
{
    let text = match result_member(block, "timestamp") {
        Some(v) => match v.as_str() {
            Some(text) => text,
            None => {
                return Err(TickError::Protocol);
            },
        },
        None => {
            return Err(TickError::Protocol);
        },
    };
    match parse_hex(text) {
        Ok(secs) => check_timestamp(text, secs, is_utc_instant(secs)),
        Err(e) => Err(TickError::Decode(e)),
    }
}

/// The block's transaction records.
pub fn transactions_of(block: &Json) -> (r: Option<&Vec<Json>>)
    ensures
        match r {
            Some(txs) => block_transactions(block@) == Some(values(txs@)),
            None => block_transactions(block@) is None,
        },
{
    match result_member(block, "transactions") {
        Some(v) => v.as_array(),
        None => None,
    }
}

/// The address that a transaction record names as its sender; empty where
/// it names none.
pub open spec fn sender(tx: JsonValue) -> Seq<char> {
    text_field(tx, "from"@)
}

/// The address that a transaction record names as its recipient; empty
/// where it names none, as a contract creation does.
pub open spec fn recipient(tx: JsonValue) -> Seq<char> {
    text_field(tx, "to"@)
}

/// A transaction record that names both a sender and a recipient.
pub open spec fn is_candidate(tx: JsonValue) -> bool {
    sender(tx).len() > 0 && recipient(tx).len() > 0
}

/// Whether a transaction record names both a sender and a recipient.
pub fn names_both_parties(tx: &Json) -> (r: bool)
    ensures
        r == is_candidate(tx@),
{
    let to_named = match tx.text_of("to") {
        Some(s) => !s.is_empty(),
        None => false,
    };
    let from_named = match tx.text_of("from") {
        Some(s) => !s.is_empty(),
        None => false,
    };
    to_named && from_named
}

} // verus!
