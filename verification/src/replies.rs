//! The successful replies of the services: a status, the `cursor` header
//! of a page, and a JSON body led by its `request_meta`.

use vstd::prelude::*;
use crate::json::{lemma_view_members, lemma_view_seq, lemma_view_seq_ext, view_members, view_seq, Json, JsonNumber, JsonV, NumV};
use crate::text::copy_str;

verus! {

/// A reply: its HTTP status, the value of its `cursor` header when it
/// returns a page, and its JSON body (sent as `application/json`).
pub struct Reply {
    pub status: u16,
    pub cursor: Option<i64>,
    pub body: Json,
}

/// A JSON number holding a count.
pub open spec fn count_v(n: nat) -> JsonV {
    if n <= i64::MAX {
        JsonV::Num(NumV::Int(n as int))
    } else {
        JsonV::Num(NumV::BigUInt(n))
    }
}

/// A JSON number holding an `i64`.
pub open spec fn int_v(n: int) -> JsonV {
    JsonV::Num(NumV::Int(n))
}

/// A JSON string.
pub open spec fn str_v(s: Seq<char>) -> JsonV {
    JsonV::Str(s)
}

/// A JSON array of documents.
pub open spec fn list_v(items: Seq<Json>) -> JsonV {
    JsonV::Arr(view_seq(items))
}

/// The `request_meta` of a successful reply: its status, its message, then
/// the members `extra` (a count, a total).
pub open spec fn success_meta(message: Seq<char>, extra: Seq<(Seq<char>, JsonV)>) -> JsonV {
    JsonV::Obj(seq![("request_status"@, str_v("Success"@)), ("message"@, str_v(message))] + extra)
}

/// A reply body: `request_meta`, then the members `rest`.
pub open spec fn reply_body(meta: JsonV, rest: Seq<(Seq<char>, JsonV)>) -> JsonV {
    JsonV::Obj(seq![("request_meta"@, meta)] + rest)
}

/// The `count` member of a `request_meta`.
pub open spec fn count_member(n: nat) -> (Seq<char>, JsonV) {
    ("count"@, count_v(n))
}

/// The `total` member of a `request_meta`.
pub open spec fn total_member(n: int) -> (Seq<char>, JsonV) {
    ("total"@, int_v(n))
}

/// A count as a JSON number.
pub(crate) fn count_json(n: usize) -> (r: Json)
    ensures
        r@ == count_v(n as nat),
{
    if (n as u64) <= 9223372036854775807u64 {
        Json::Number(JsonNumber::Int(n as i64))
    } else {
        Json::Number(JsonNumber::BigUInt(n as u64))
    }
}

/// A JSON string.
pub(crate) fn str_json(s: &str) -> (r: Json)
    ensures
        r@ == str_v(s@),
{
    Json::Str(copy_str(s))
}

/// A copy of `items` as a JSON array.
pub(crate) fn list_json(items: &[Json]) -> (r: Json)
    ensures
        r@ == list_v(items@),
{
    let mut out: Vec<Json> = Vec::new();
    let mut i: usize = 0;
    while i < items.len()
        invariant
            i <= items@.len(),
            out@.len() == i,
            forall|k: int| 0 <= k < i ==> (#[trigger] out@[k])@ == items@[k]@,
        decreases items@.len() - i,
    {
        out.push(items[i].deep_clone());
        i = i + 1;
    }
    proof {
        lemma_view_seq(items@);
        lemma_view_seq_ext(out@, view_seq(items@));
    }
    Json::Array(out)
}

/// The members `(k, v)` in order.
pub(crate) fn members1(k1: &str, v1: Json) -> (r: Vec<(String, Json)>)
    ensures
        view_members(r@) == seq![(k1@, v1@)],
{
    let mut m: Vec<(String, Json)> = Vec::new();
    m.push((copy_str(k1), v1));
    proof {
        lemma_view_members(m@);
    }
    assert(view_members(m@) =~= seq![(k1@, m@[0].1@)]);
    m
}

/// The members `(k1, v1)`, `(k2, v2)` in order.
pub(crate) fn members2(k1: &str, v1: Json, k2: &str, v2: Json) -> (r: Vec<(String, Json)>)
    ensures
        view_members(r@) == seq![(k1@, v1@), (k2@, v2@)],
{
    let ghost (a, b) = (v1@, v2@);
    let mut m: Vec<(String, Json)> = Vec::new();
    m.push((copy_str(k1), v1));
    m.push((copy_str(k2), v2));
    proof {
        lemma_view_members(m@);
    }
    assert(view_members(m@) =~= seq![(k1@, a), (k2@, b)]);
    m
}

/// The members `(k1, v1)`, `(k2, v2)`, `(k3, v3)` in order.
pub(crate) fn members3(k1: &str, v1: Json, k2: &str, v2: Json, k3: &str, v3: Json) -> (r: Vec<
    (String, Json),
>)
    ensures
        view_members(r@) == seq![(k1@, v1@), (k2@, v2@), (k3@, v3@)],
{
    let ghost (a, b, c) = (v1@, v2@, v3@);
    let mut m: Vec<(String, Json)> = Vec::new();
    m.push((copy_str(k1), v1));
    m.push((copy_str(k2), v2));
    m.push((copy_str(k3), v3));
    proof {
        lemma_view_members(m@);
    }
    assert(view_members(m@) =~= seq![(k1@, a), (k2@, b), (k3@, c)]);
    m
}

/// The `request_meta` of a success with `message` and the members `extra`.
pub(crate) fn meta_json(message: &str, extra: Vec<(String, Json)>) -> (r: Json)
    ensures
        r@ == success_meta(message@, view_members(extra@)),
{
    let mut m = members2("request_status", str_json("Success"), "message", str_json(message));
    let ghost m0 = m@;
    let ghost e0 = extra@;
    proof {
        lemma_view_members(m0);
        lemma_view_members(e0);
    }
    let mut extra = extra;
    m.append(&mut extra);
    proof {
        lemma_view_members(m@);
    }
    assert(view_members(m@) =~= view_members(m0) + view_members(e0));
    Json::Object(m)
}

/// The reply with `status`, the `cursor` header, and the body of `meta`
/// followed by `rest`.
pub(crate) fn reply_of(status: u16, cursor: Option<i64>, meta: Json, rest: Vec<(String, Json)>) -> (r:
    Reply)
    ensures
        r.status == status,
        r.cursor == cursor,
        r.body@ == reply_body(meta@, view_members(rest@)),
{
    let mut m = members1("request_meta", meta);
    let ghost m0 = m@;
    let ghost e0 = rest@;
    proof {
        lemma_view_members(m0);
        lemma_view_members(e0);
    }
    let mut rest = rest;
    m.append(&mut rest);
    proof {
        lemma_view_members(m@);
    }
    assert(view_members(m@) =~= view_members(m0) + view_members(e0));
    Reply { status, cursor, body: Json::Object(m) }
}

/// The member `key` of `v`, null when it has none (indexing a JSON value).
pub open spec fn field_or_null(v: JsonV, key: Seq<char>) -> JsonV {
    match v.get(key) {
        Some(x) => x,
        None => JsonV::Null,
    }
}

/// A copy of the member `key` of `v`, null when it has none.
pub(crate) fn field_json(v: &Json, key: &str) -> (r: Json)
    ensures
        r@ == field_or_null(v@, key@),
{
    match v.get(key) {
        Some(x) => x.deep_clone(),
        None => Json::Null,
    }
}

/// The members of `a` followed by those of `b`.
pub(crate) fn join_members(a: Vec<(String, Json)>, b: Vec<(String, Json)>) -> (r: Vec<(String, Json)>)
    ensures
        view_members(r@) == view_members(a@) + view_members(b@),
{
    let ghost a0 = a@;
    let ghost b0 = b@;
    proof {
        lemma_view_members(a0);
        lemma_view_members(b0);
    }
    let mut a = a;
    let mut b = b;
    a.append(&mut b);
    proof {
        lemma_view_members(a@);
    }
    assert(view_members(a@) =~= view_members(a0) + view_members(b0));
    a
}

} // verus!
