//! Extended-JSON dates and their GMT rendering.

use vstd::prelude::*;
use crate::json::{Json, JsonNumber, JsonV, NumV};

verus! {

/// The `%a, %d %b %Y %H:%M:%S GMT` rendering of a UTC instant given in
/// milliseconds since the epoch; none when out of chrono's range.
pub uninterp spec fn gmt_date_text(millis: int) -> Option<Seq<char>>;

/// Renders epoch milliseconds as a GMT date, by `chrono`
/// (`DateTime::from_timestamp_millis`, then `format`). The contract names
/// the text it gives; which instants are in range is left to chrono.
#[verifier::external_body]
pub(crate) fn millis_to_gmt(millis: i64) -> (r: Option<String>)
    ensures
        match r {
            Some(s) => gmt_date_text(millis as int) == Some(s@),
            None => gmt_date_text(millis as int) is None,
        },
{
    match chrono::DateTime::from_timestamp_millis(millis) {
        Some(dt) => Some(dt.format("%a, %d %b %Y %H:%M:%S GMT").to_string()),
        None => None,
    }
}

/// The GMT text of epoch milliseconds; empty when out of range.
pub open spec fn gmt_text_or_empty(millis: int) -> Seq<char> {
    match gmt_date_text(millis) {
        Some(s) => s,
        None => seq![],
    }
}

/// Renders epoch milliseconds as GMT text, the empty string when the
/// instant cannot be represented.
pub fn fmt_gmt(millis: i64) -> (r: String)
    ensures
        r@ == gmt_text_or_empty(millis as int),
{
    match millis_to_gmt(millis) {
        Some(s) => s,
        None => String::new(),
    }
}

/// The milliseconds of an extended-JSON date `{"$date": <int>}`.
pub open spec fn date_millis(v: JsonV) -> Option<int> {
    match v.get("$date"@) {
        Some(JsonV::Num(NumV::Int(i))) => Some(i),
        _ => None,
    }
}

/// Reads the milliseconds of an extended-JSON date.
pub fn date_millis_of(v: &Json) -> (r: Option<i64>)
    ensures
        match r {
            Some(ms) => date_millis(v@) == Some(ms as int),
            None => date_millis(v@) is None,
        },
{
    match v.get("$date") {
        Some(Json::Number(JsonNumber::Int(i))) => Some(*i),
        _ => None,
    }
}

/// A stored date as returned: the GMT text of an extended-JSON date, null
/// for anything else or an instant out of range.
pub open spec fn gmt_or_null(v: JsonV) -> JsonV {
    match date_millis(v) {
        Some(ms) => match gmt_date_text(ms) {
            Some(t) => JsonV::Str(t),
            None => JsonV::Null,
        },
        None => JsonV::Null,
    }
}

/// Renders a stored date as GMT text, or null.
pub fn gmt_or_null_of(v: &Json) -> (r: Json)
    ensures
        r@ == gmt_or_null(v@),
{
    match date_millis_of(v) {
        Some(ms) => match millis_to_gmt(ms) {
            Some(t) => Json::Str(t),
            None => Json::Null,
        },
        None => Json::Null,
    }
}

} // verus!
