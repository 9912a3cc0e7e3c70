//! What message generation reads from other services: the recommendations
//! of profiles, the pages of active items, the latest currency rates, and
//! which failed requests are tried again.

use vstd::prelude::*;
use crate::dates::{date_millis, date_millis_of};
use crate::events::verify::index_or_null;
use crate::json::{lemma_view_seq, view_seq, Json, JsonNumber, JsonV, NumV};
use crate::messaging::rewards::parsed_view;
use crate::text::{concat2, copy_str};

verus! {

/// How many times a request is made before its failure stands.
pub const REQUEST_ATTEMPTS: u32 = 5;

/// A reply status on which a request is made again: 500, 502 or 504.
pub fn retried_status(status: u16) -> (r: bool)
    ensures
        r == (status == 500 || status == 502 || status == 504),
{
    status == 500 || status == 502 || status == 504
}

fn copy_items(items: &Vec<Json>) -> (r: Vec<Json>)
    ensures
        view_seq(r@) == view_seq(items@),
{
    proof {
        lemma_view_seq(items@);
    }
    let mut out: Vec<Json> = Vec::new();
    let mut k: usize = 0;
    while k < items.len()
        invariant
            k <= items@.len(),
            out@.len() == k,
            forall|q: int| 0 <= q < k ==> (#[trigger] out@[q])@ == items@[q]@,
        decreases items@.len() - k,
    {
        out.push(items[k].deep_clone());
        k = k + 1;
    }
    proof {
        lemma_view_seq(out@);
    }
    assert(view_seq(out@) =~= view_seq(items@));
    out
}

fn empty_items() -> (r: Vec<Json>)
    ensures
        view_seq(r@) == Seq::<JsonV>::empty(),
{
    let v: Vec<Json> = Vec::new();
    proof {
        lemma_view_seq(v@);
    }
    assert(view_seq(v@) =~= Seq::<JsonV>::empty());
    v
}

/// The recommendations the recommendation service answers: none on a 400,
/// else the reply's `recommendations`; the error of a reply without them.
pub open spec fn recommendations_reply_of(status: int, parsed: Result<JsonV, Seq<char>>) -> Result<Seq<JsonV>, Seq<char>> {
    if status == 400 {
        Ok(seq![])
    } else {
        match parsed {
            Err(e) => Err("recommendations response not JSON: "@ + e),
            Ok(p) => match p.get("recommendations"@) {
                Some(JsonV::Arr(rs)) => Ok(rs),
                _ => Err("recommendations response missing 'recommendations'"@),
            },
        }
    }
}

/// Reads the recommendation service's reply.
pub fn recommendations_reply(status: u16, parsed: Result<Json, String>) -> (r: Result<Vec<Json>, String>)
    ensures
        match r {
            Ok(rs) => recommendations_reply_of(status as int, parsed_view(parsed)) == Ok::<Seq<JsonV>, Seq<char>>(view_seq(rs@)),
            Err(e) => recommendations_reply_of(status as int, parsed_view(parsed)) == Err::<Seq<JsonV>, Seq<char>>(e@),
        },
{
    if status == 400 {
        return Ok(empty_items());
    }
    match parsed {
        Err(e) => Err(concat2("recommendations response not JSON: ", e.as_str())),
        Ok(p) => match p.get("recommendations") {
            Some(Json::Array(rs)) => Ok(copy_items(rs)),
            _ => Err(copy_str("recommendations response missing 'recommendations'")),
        },
    }
}

/// A page of active items read at `cursor`: none and no next page after a
/// reply other than 200; else the page's items and the cursor of the next
/// page, none once a page counts no item (or the next cursor would not fit
/// in an `i64`); the error of a reply without its items or count.
pub open spec fn items_page_of(cursor: int, status: int, parsed: Result<JsonV, Seq<char>>) -> Result<(Seq<JsonV>, Option<int>), Seq<char>> {
    if status != 200 {
        Ok((seq![], None))
    } else {
        match parsed {
            Err(e) => Err("items response not JSON: "@ + e),
            Ok(p) => match p.get("items"@) {
                Some(JsonV::Arr(items)) => match index_or_null(index_or_null(p, "request_meta"@), "count"@) {
                    JsonV::Num(NumV::Int(c)) => Ok((
                        items,
                        if c < 1 || cursor + c > i64::MAX as int { None } else { Some(cursor + c) },
                    )),
                    _ => Err("items response missing 'request_meta.count'"@),
                },
                _ => Err("items response missing 'items'"@),
            },
        }
    }
}

/// Reads a page of the items service's reply.
pub fn items_page(cursor: i64, status: u16, parsed: Result<Json, String>) -> (r: Result<(Vec<Json>, Option<i64>), String>)
    ensures
        match r {
            Ok((items, next)) => items_page_of(cursor as int, status as int, parsed_view(parsed)) == Ok::<(Seq<JsonV>, Option<int>), Seq<char>>((
                view_seq(items@),
                match next { Some(n) => Some(n as int), None => None },
            )),
            Err(e) => items_page_of(cursor as int, status as int, parsed_view(parsed)) == Err::<(Seq<JsonV>, Option<int>), Seq<char>>(e@),
        },
{
    if status != 200 {
        return Ok((empty_items(), None));
    }
    let p = match parsed {
        Err(e) => return Err(concat2("items response not JSON: ", e.as_str())),
        Ok(p) => p,
    };
    let items = match p.get("items") {
        Some(Json::Array(items)) => copy_items(items),
        _ => return Err(copy_str("items response missing 'items'")),
    };
    let count: i64 = match p.get("request_meta") {
        Some(m) => match m.get("count") {
            Some(Json::Number(JsonNumber::Int(c))) => *c,
            _ => return Err(copy_str("items response missing 'request_meta.count'")),
        },
        None => return Err(copy_str("items response missing 'request_meta.count'")),
    };
    let next = if count < 1 {
        None
    } else {
        cursor.checked_add(count)
    };
    Ok((items, next))
}

/// The order of currency rate documents: their `created_at` milliseconds,
/// and the least `i64` for a document without them.
pub open spec fn rates_recency(doc: JsonV) -> int {
    match date_millis(index_or_null(doc, "created_at"@)) {
        Some(ms) => ms,
        None => i64::MIN as int,
    }
}

fn rates_recency_of(doc: &Json) -> (r: i64)
    ensures
        r as int == rates_recency(doc@),
{
    let ms = match doc.get("created_at") {
        Some(c) => date_millis_of(c),
        None => date_millis_of(&Json::Null),
    };
    match ms {
        Some(m) => m,
        None => i64::MIN,
    }
}

/// Document `i` is the latest of the currency rates: none is more recent,
/// and every later one is less recent (of equally recent ones the last).
pub open spec fn latest_rates_at(docs: Seq<JsonV>, i: int) -> bool {
    &&& 0 <= i < docs.len()
    &&& forall|j: int| 0 <= j < docs.len() ==> rates_recency(#[trigger] docs[j]) <= rates_recency(docs[i])
    &&& forall|j: int| i < j < docs.len() ==> rates_recency(#[trigger] docs[j]) < rates_recency(docs[i])
}

/// The rates of the latest currency rate document (null where it has
/// none); the error of no documents.
pub fn latest_rates(docs: &Vec<Json>) -> (r: Result<Json, String>)
    ensures
        match r {
            Ok(v) => exists|i: int| latest_rates_at(view_seq(docs@), i) && v@ == index_or_null(#[trigger] view_seq(docs@)[i], "rates"@),
            Err(e) => docs@.len() == 0 && e@ == "no tbl_currency_rates documents found"@,
        },
{
    if docs.len() == 0 {
        return Err(copy_str("no tbl_currency_rates documents found"));
    }
    proof {
        lemma_view_seq(docs@);
    }
    let ghost dv = view_seq(docs@);
    let mut best: usize = 0;
    let mut best_key: i64 = rates_recency_of(&docs[0]);
    assert(dv[0] == docs@[0]@);
    let mut k: usize = 1;
    while k < docs.len()
        invariant
            0 <= best < k <= docs@.len(),
            dv == view_seq(docs@),
            dv.len() == docs@.len(),
            forall|j: int| 0 <= j < docs@.len() ==> #[trigger] dv[j] == docs@[j]@,
            best_key as int == rates_recency(dv[best as int]),
            forall|j: int| 0 <= j < k ==> rates_recency(#[trigger] dv[j]) <= best_key,
            forall|j: int| best < j < k ==> rates_recency(#[trigger] dv[j]) < best_key,
        decreases docs@.len() - k,
    {
        assert(dv[k as int] == docs@[k as int]@);
        let key: i64 = rates_recency_of(&docs[k]);
        if key >= best_key {
            best = k;
            best_key = key;
        }
        k = k + 1;
    }
    assert(latest_rates_at(dv, best as int));
    let v = match docs[best].get("rates") {
        Some(x) => x.deep_clone(),
        None => Json::Null,
    };
    assert(dv[best as int] == docs@[best as int]@);
    Ok(v)
}

} // verus!
