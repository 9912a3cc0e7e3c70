//! Listings of profiles and their merges, the deletion of profiles, and
//! the segment tag operations the segmentation worker sends.

use vstd::prelude::*;
use crate::dates::{gmt_or_null, gmt_or_null_of};
use crate::events::verify::index_or_null;
use crate::fields::strings_view;
use crate::items::store::get_or_null;
use crate::json::{lemma_view_members, lemma_view_seq, view_members, view_seq, Json, JsonNumber, JsonV, NumV};
use crate::messaging::assembly::str_member;
use crate::messaging::records::str_list;
use crate::profiles::records::profile_failure;
use crate::profiles::services::{format_profile, formatted_profile};
use crate::text::{concat2, copy_str, str_eq};

verus! {

fn str_list_json(v: &Vec<String>) -> (r: Json)
    ensures
        r@ == str_list(strings_view(v@)),
{
    let ghost sv = strings_view(v@);
    let mut out: Vec<Json> = Vec::new();
    let mut i: usize = 0;
    while i < v.len()
        invariant
            i <= v@.len(),
            sv == strings_view(v@),
            out@.len() == i,
            forall|j: int| 0 <= j < i ==> (#[trigger] out@[j])@ == JsonV::Str(sv[j]),
        decreases v@.len() - i,
    {
        assert(sv[i as int] == v@[i as int]@);
        out.push(Json::Str(copy_str(v[i].as_str())));
        i = i + 1;
    }
    proof {
        lemma_view_seq(out@);
    }
    assert(view_seq(out@) =~= sv.map_values(|x: Seq<char>| JsonV::Str(x)));
    Json::Array(out)
}

fn obj1(k: &str, v: Json) -> (r: Json)
    ensures
        r@ == JsonV::Obj(seq![(k@, v@)]),
{
    let mut m: Vec<(String, Json)> = Vec::new();
    m.push((copy_str(k), v));
    proof {
        lemma_view_members(m@);
    }
    assert(view_members(m@) =~= seq![(k@, v@)]);
    Json::Object(m)
}

fn obj2(k1: &str, v1: Json, k2: &str, v2: Json) -> (r: Json)
    ensures
        r@ == JsonV::Obj(seq![(k1@, v1@), (k2@, v2@)]),
{
    let mut m: Vec<(String, Json)> = Vec::new();
    m.push((copy_str(k1), v1));
    m.push((copy_str(k2), v2));
    proof {
        lemma_view_members(m@);
    }
    assert(view_members(m@) =~= seq![(k1@, v1@), (k2@, v2@)]);
    Json::Object(m)
}

/// The condition on one segment of a listing by several segments.
pub open spec fn segment_condition(s: Seq<char>) -> JsonV {
    JsonV::Obj(seq![("$and"@, JsonV::Arr(seq![
        JsonV::Obj(seq![("segment_tags.segment_tag"@, JsonV::Str(s))]),
        JsonV::Obj(seq![("segment_tags.status"@, JsonV::Str("active"@))]),
    ]))])
}

/// The filter of a listing of profiles by parameters: the account's
/// profiles, with an RFM score strictly inside the range (when both bounds
/// are given), the churn probability, and an active tag of the segment (or
/// of one of the segments).
pub open spec fn profiles_params_filter(
    account_id: Seq<char>,
    segments: Option<Seq<Seq<char>>>,
    rfm: Option<Seq<i64>>,
    churn: Option<Seq<char>>,
) -> JsonV {
    JsonV::Obj(with_segments(with_churn(with_rfm(seq![("account_id"@, JsonV::Str(account_id))], rfm), churn), segments))
}

/// The RFM range condition, where both bounds are given.
pub open spec fn with_rfm(m: Seq<(Seq<char>, JsonV)>, rfm: Option<Seq<i64>>) -> Seq<(Seq<char>, JsonV)> {
    match rfm {
        Some(r) => if r.len() >= 2 {
            m.push(("rfm_score"@, JsonV::Obj(seq![
                ("$gt"@, JsonV::Num(NumV::Int(r[0] as int))),
                ("$lt"@, JsonV::Num(NumV::Int(r[1] as int))),
            ])))
        } else {
            m
        },
        None => m,
    }
}

/// The churn probability condition.
pub open spec fn with_churn(m: Seq<(Seq<char>, JsonV)>, churn: Option<Seq<char>>) -> Seq<(Seq<char>, JsonV)> {
    match churn {
        Some(c) => m.push(("churn_probability"@, JsonV::Str(c))),
        None => m,
    }
}

/// The segment conditions: an active tag of the one segment, or of one of
/// several.
pub open spec fn with_segments(m: Seq<(Seq<char>, JsonV)>, segments: Option<Seq<Seq<char>>>) -> Seq<(Seq<char>, JsonV)> {
    match segments {
        Some(s) => if s.len() == 1 {
            m.push(("segment_tags.segment_tag"@, JsonV::Str(s[0]))).push(("segment_tags.status"@, JsonV::Str("active"@)))
        } else if s.len() > 1 {
            m.push(("$or"@, JsonV::Arr(s.map_values(|x: Seq<char>| segment_condition(x)))))
        } else {
            m
        },
        None => m,
    }
}

/// Builds the filter of a listing of profiles by parameters.
pub fn profiles_filter(account_id: &str, segments: Option<&Vec<String>>, rfm: Option<&Vec<i64>>, churn: Option<&str>) -> (r: Json)
    ensures
        r@ == profiles_params_filter(
            account_id@,
            match segments { Some(s) => Some(strings_view(s@)), None => None },
            match rfm { Some(x) => Some(x@), None => None },
            match churn { Some(c) => Some(c@), None => None },
        ),
{
    let mut m: Vec<(String, Json)> = Vec::new();
    m.push((copy_str("account_id"), Json::Str(copy_str(account_id))));
    proof {
        lemma_view_members(m@);
    }
    let ghost m0 = view_members(m@);
    assert(m0 =~= seq![("account_id"@, JsonV::Str(account_id@))]);
    let ghost rv = match rfm { Some(x) => Some(x@), None => None::<Seq<i64>> };
    let ghost cv = match churn { Some(c) => Some(c@), None => None::<Seq<char>> };
    let ghost sgv = match segments { Some(x) => Some(strings_view(x@)), None => None::<Seq<Seq<char>>> };
    match rfm {
        Some(r) => if r.len() >= 2 {
            let range = obj2("$gt", Json::Number(JsonNumber::Int(r[0])), "$lt", Json::Number(JsonNumber::Int(r[1])));
            let ghost before = view_members(m@);
            m.push((copy_str("rfm_score"), range));
            proof {
                lemma_view_members(m@);
            }
            assert(view_members(m@) =~= before.push(("rfm_score"@, JsonV::Obj(seq![
                ("$gt"@, JsonV::Num(NumV::Int(r@[0] as int))),
                ("$lt"@, JsonV::Num(NumV::Int(r@[1] as int))),
            ]))));
        },
        None => {},
    }
    assert(view_members(m@) == with_rfm(m0, rv));
    let ghost m1 = view_members(m@);
    match churn {
        Some(c) => {
            let ghost before = view_members(m@);
            m.push((copy_str("churn_probability"), Json::Str(copy_str(c))));
            proof {
                lemma_view_members(m@);
            }
            assert(view_members(m@) =~= before.push(("churn_probability"@, JsonV::Str(c@))));
        },
        None => {},
    }
    assert(view_members(m@) == with_churn(m1, cv));
    let ghost m2 = view_members(m@);
    match segments {
        Some(s) => {
            let ghost sv = strings_view(s@);
            if s.len() == 1 {
                assert(sv[0] == s@[0]@);
                let ghost before = view_members(m@);
                m.push((copy_str("segment_tags.segment_tag"), Json::Str(copy_str(s[0].as_str()))));
                m.push((copy_str("segment_tags.status"), Json::Str(copy_str("active"))));
                proof {
                    lemma_view_members(m@);
                }
                assert(view_members(m@) =~= before.push(("segment_tags.segment_tag"@, JsonV::Str(sv[0]))).push(("segment_tags.status"@, JsonV::Str("active"@))));
            } else if s.len() > 1 {
                let mut alts: Vec<Json> = Vec::new();
                let mut i: usize = 0;
                while i < s.len()
                    invariant
                        i <= s@.len(),
                        sv == strings_view(s@),
                        alts@.len() == i,
                        forall|j: int| 0 <= j < i ==> (#[trigger] alts@[j])@ == segment_condition(sv[j]),
                    decreases s@.len() - i,
                {
                    assert(sv[i as int] == s@[i as int]@);
                    let mut parts: Vec<Json> = Vec::new();
                    parts.push(obj1("segment_tags.segment_tag", Json::Str(copy_str(s[i].as_str()))));
                    parts.push(obj1("segment_tags.status", Json::Str(copy_str("active"))));
                    proof {
                        lemma_view_seq(parts@);
                    }
                    let ghost pv = view_seq(parts@);
                    assert(pv =~= seq![
                        JsonV::Obj(seq![("segment_tags.segment_tag"@, JsonV::Str(sv[i as int]))]),
                        JsonV::Obj(seq![("segment_tags.status"@, JsonV::Str("active"@))]),
                    ]);
                    alts.push(obj1("$and", Json::Array(parts)));
                    i = i + 1;
                }
                proof {
                    lemma_view_seq(alts@);
                }
                assert(view_seq(alts@) =~= sv.map_values(|x: Seq<char>| segment_condition(x)));
                let ghost before = view_members(m@);
                let ghost av = view_seq(alts@);
                m.push((copy_str("$or"), Json::Array(alts)));
                proof {
                    lemma_view_members(m@);
                }
                assert(view_members(m@) =~= before.push(("$or"@, JsonV::Arr(av))));
            }
        },
        None => {},
    }
    assert(view_members(m@) == with_segments(m2, sgv));
    Json::Object(m)
}

/// A profile's identifier: its `_id` string, empty for anything else.
pub open spec fn profile_id_of(doc: JsonV) -> Seq<char> {
    match str_member(doc, "_id"@) {
        Some(s) => s,
        None => seq![],
    }
}

fn profile_id_text(doc: &Json) -> (r: String)
    ensures
        r@ == profile_id_of(doc@),
{
    match doc.get("_id") {
        Some(Json::Str(s)) => copy_str(s.as_str()),
        _ => String::new(),
    }
}

/// A profile of a listing: its identifier alone for a listing of
/// identifiers, else the profile as returned with the tags of the given
/// statuses.
pub open spec fn listed_profile(doc: JsonV, ids: bool, statuses: Seq<Seq<char>>, internal: bool) -> JsonV {
    if ids {
        JsonV::Obj(seq![("profile_id"@, JsonV::Str(profile_id_of(doc)))])
    } else {
        formatted_profile(doc, statuses, internal)
    }
}

/// The profiles of a listing, as returned.
pub fn listed_profiles(docs: &Vec<Json>, ids: bool, tag_statuses: &Vec<String>, internal: bool) -> (r: Vec<Json>)
    ensures
        view_seq(r@) == view_seq(docs@).map_values(|d: JsonV| listed_profile(d, ids, strings_view(tag_statuses@), internal)),
{
    proof {
        lemma_view_seq(docs@);
    }
    let ghost dv = view_seq(docs@);
    let ghost st = strings_view(tag_statuses@);
    let mut out: Vec<Json> = Vec::new();
    let mut i: usize = 0;
    while i < docs.len()
        invariant
            i <= docs@.len(),
            dv == view_seq(docs@),
            st == strings_view(tag_statuses@),
            dv.len() == docs@.len(),
            forall|j: int| 0 <= j < docs@.len() ==> #[trigger] dv[j] == docs@[j]@,
            out@.len() == i,
            forall|j: int| 0 <= j < i ==> (#[trigger] out@[j])@ == listed_profile(dv[j], ids, st, internal),
        decreases docs@.len() - i,
    {
        assert(dv[i as int] == docs@[i as int]@);
        let e = if ids {
            obj1("profile_id", Json::Str(profile_id_text(&docs[i])))
        } else {
            format_profile(&docs[i], tag_statuses, internal)
        };
        out.push(e);
        i = i + 1;
    }
    proof {
        lemma_view_seq(out@);
    }
    assert(view_seq(out@) =~= dv.map_values(|d: JsonV| listed_profile(d, ids, st, internal)));
    out
}

/// The requested identifiers of the first `n` that are no found profile's
/// identifier (customer ids count as not found: only profile identifiers
/// are compared).
pub open spec fn identifiers_not_found(identifiers: Seq<Seq<char>>, docs: Seq<JsonV>, n: int) -> Seq<Seq<char>>
    decreases n,
{
    if n <= 0 {
        seq![]
    } else if exists|k: int| 0 <= k < docs.len() && profile_id_of(#[trigger] docs[k]) == identifiers[n - 1] {
        identifiers_not_found(identifiers, docs, n - 1)
    } else {
        identifiers_not_found(identifiers, docs, n - 1).push(identifiers[n - 1])
    }
}

/// The identifiers that name no found profile.
pub fn profiles_not_found(identifiers: &Vec<String>, docs: &Vec<Json>) -> (r: Vec<String>)
    ensures
        strings_view(r@) == identifiers_not_found(strings_view(identifiers@), view_seq(docs@), identifiers@.len() as int),
{
    proof {
        lemma_view_seq(docs@);
    }
    let ghost iv = strings_view(identifiers@);
    let ghost dv = view_seq(docs@);
    let mut out: Vec<String> = Vec::new();
    assert(strings_view(out@) =~= Seq::<Seq<char>>::empty());
    let mut i: usize = 0;
    while i < identifiers.len()
        invariant
            i <= identifiers@.len(),
            iv == strings_view(identifiers@),
            dv == view_seq(docs@),
            dv.len() == docs@.len(),
            forall|j: int| 0 <= j < docs@.len() ==> #[trigger] dv[j] == docs@[j]@,
            strings_view(out@) == identifiers_not_found(iv, dv, i as int),
        decreases identifiers@.len() - i,
    {
        assert(iv[i as int] == identifiers@[i as int]@);
        let mut found = false;
        let mut k: usize = 0;
        while k < docs.len()
            invariant
                k <= docs@.len(),
                dv == view_seq(docs@),
                dv.len() == docs@.len(),
                forall|j: int| 0 <= j < docs@.len() ==> #[trigger] dv[j] == docs@[j]@,
                i < identifiers@.len(),
                iv == strings_view(identifiers@),
                iv[i as int] == identifiers@[i as int]@,
                found == exists|j: int| 0 <= j < k && profile_id_of(#[trigger] dv[j]) == iv[i as int],
            decreases docs@.len() - k,
        {
            assert(dv[k as int] == docs@[k as int]@);
            let id = profile_id_text(&docs[k]);
            if str_eq(id.as_str(), identifiers[i].as_str()) {
                found = true;
            }
            k = k + 1;
        }
        if !found {
            let ghost before = strings_view(out@);
            out.push(copy_str(identifiers[i].as_str()));
            assert(strings_view(out@) =~= before.push(iv[i as int]));
        }
        i = i + 1;
    }
    out
}

/// The conditions of the merges of one identifier.
pub open spec fn merge_match(account_id: Seq<char>, id: Seq<char>) -> JsonV {
    JsonV::Obj(seq![("$match"@, JsonV::Obj(seq![("$and"@, JsonV::Arr(seq![
        JsonV::Obj(seq![("account_id"@, JsonV::Str(account_id))]),
        JsonV::Obj(seq![("$or"@, JsonV::Arr(seq![
            JsonV::Obj(seq![("merged_profiles.profile_id"@, JsonV::Str(id))]),
            JsonV::Obj(seq![("merged_profiles.customer_id"@, JsonV::Str(id))]),
            JsonV::Obj(seq![("parent_profile_id"@, JsonV::Str(id))]),
            JsonV::Obj(seq![("parent_customer_id"@, JsonV::Str(id))]),
        ]))]),
    ]))]))])
}

/// The stages of the merges of one identifier: its match, the newest
/// first, one of them.
pub open spec fn merge_stages(account_id: Seq<char>, id: Seq<char>) -> Seq<JsonV> {
    seq![
        merge_match(account_id, id),
        JsonV::Obj(seq![("$sort"@, JsonV::Obj(seq![("created_at"@, JsonV::Num(NumV::Int(-1)))]))]),
        JsonV::Obj(seq![("$limit"@, JsonV::Num(NumV::Int(1)))]),
    ]
}

/// The pipeline of the merges of the first `n` identifiers: their stages,
/// one after the other.
pub open spec fn merge_pipeline(account_id: Seq<char>, ids: Seq<Seq<char>>, n: int) -> Seq<JsonV>
    decreases n,
{
    if n <= 0 {
        seq![]
    } else {
        merge_pipeline(account_id, ids, n - 1) + merge_stages(account_id, ids[n - 1])
    }
}

fn merge_match_of(account_id: &str, id: &str) -> (r: Json)
    ensures
        r@ == merge_match(account_id@, id@),
{
    let mut ors: Vec<Json> = Vec::new();
    ors.push(obj1("merged_profiles.profile_id", Json::Str(copy_str(id))));
    ors.push(obj1("merged_profiles.customer_id", Json::Str(copy_str(id))));
    ors.push(obj1("parent_profile_id", Json::Str(copy_str(id))));
    ors.push(obj1("parent_customer_id", Json::Str(copy_str(id))));
    proof {
        lemma_view_seq(ors@);
    }
    let ghost ov = view_seq(ors@);
    assert(ov =~= seq![
        JsonV::Obj(seq![("merged_profiles.profile_id"@, JsonV::Str(id@))]),
        JsonV::Obj(seq![("merged_profiles.customer_id"@, JsonV::Str(id@))]),
        JsonV::Obj(seq![("parent_profile_id"@, JsonV::Str(id@))]),
        JsonV::Obj(seq![("parent_customer_id"@, JsonV::Str(id@))]),
    ]);
    let mut ands: Vec<Json> = Vec::new();
    ands.push(obj1("account_id", Json::Str(copy_str(account_id))));
    ands.push(obj1("$or", Json::Array(ors)));
    proof {
        lemma_view_seq(ands@);
    }
    let ghost av = view_seq(ands@);
    assert(av =~= seq![
        JsonV::Obj(seq![("account_id"@, JsonV::Str(account_id@))]),
        JsonV::Obj(seq![("$or"@, JsonV::Arr(ov))]),
    ]);
    obj1("$match", obj1("$and", Json::Array(ands)))
}

/// Builds the pipeline of the merges of the identifiers.
pub fn merged_profiles_pipeline(account_id: &str, identifiers: &Vec<String>) -> (r: Vec<Json>)
    ensures
        view_seq(r@) == merge_pipeline(account_id@, strings_view(identifiers@), identifiers@.len() as int),
{
    let ghost iv = strings_view(identifiers@);
    let mut out: Vec<Json> = Vec::new();
    proof {
        lemma_view_seq(out@);
    }
    let mut i: usize = 0;
    while i < identifiers.len()
        invariant
            i <= identifiers@.len(),
            iv == strings_view(identifiers@),
            view_seq(out@) == merge_pipeline(account_id@, iv, i as int),
        decreases identifiers@.len() - i,
    {
        assert(iv[i as int] == identifiers@[i as int]@);
        let ghost before = out@;
        out.push(merge_match_of(account_id, identifiers[i].as_str()));
        out.push(obj1("$sort", obj1("created_at", Json::Number(JsonNumber::Int(-1)))));
        out.push(obj1("$limit", Json::Number(JsonNumber::Int(1))));
        proof {
            lemma_view_seq(before);
            lemma_view_seq(out@);
            assert(view_seq(out@) =~= view_seq(before) + merge_stages(account_id@, iv[i as int]));
        }
        i = i + 1;
    }
    out
}

/// A merge of profiles as returned: who was merged into which parent, by
/// which authenticated key, and when (GMT text, or null).
pub open spec fn merged_entry(res: JsonV) -> JsonV {
    JsonV::Obj(seq![
        ("merged_profiles"@, match res.get("merged_profiles"@) {
            Some(v) => v,
            None => JsonV::Arr(seq![]),
        }),
        ("parent_profile_id"@, index_or_null(res, "parent_profile_id"@)),
        ("parent_customer_id"@, index_or_null(res, "parent_customer_id"@)),
        ("authenticated_id_key"@, index_or_null(res, "authenticated_id_key"@)),
        ("authenticated_id_value"@, index_or_null(res, "authenticated_id_value"@)),
        ("merged_at"@, gmt_or_null(index_or_null(res, "created_at"@))),
    ])
}

/// Formats a merge of profiles.
pub fn merged_profile_entry(res: &Json) -> (r: Json)
    ensures
        r@ == merged_entry(res@),
{
    let merged = match res.get("merged_profiles") {
        Some(v) => v.deep_clone(),
        None => Json::Array(Vec::new()),
    };
    proof {
        lemma_view_seq(Seq::<Json>::empty());
    }
    assert(view_seq(Seq::<Json>::empty()) =~= Seq::<JsonV>::empty());
    let mut m: Vec<(String, Json)> = Vec::new();
    m.push((copy_str("merged_profiles"), merged));
    m.push((copy_str("parent_profile_id"), get_or_null(res, "parent_profile_id")));
    m.push((copy_str("parent_customer_id"), get_or_null(res, "parent_customer_id")));
    m.push((copy_str("authenticated_id_key"), get_or_null(res, "authenticated_id_key")));
    m.push((copy_str("authenticated_id_value"), get_or_null(res, "authenticated_id_value")));
    m.push((copy_str("merged_at"), gmt_or_null_of(&get_or_null(res, "created_at"))));
    proof {
        lemma_view_members(m@);
    }
    assert(view_members(m@) =~= merged_entry(res@)->Obj_0);
    Json::Object(m)
}

/// The stored profile of identifier `pid` among those found: the last
/// with that `_id`.
pub open spec fn stored_profile(found: Seq<JsonV>, pid: Seq<char>, n: int) -> Option<JsonV>
    decreases n,
{
    if n <= 0 {
        None
    } else if str_member(found[n - 1], "_id"@) == Some(pid) {
        Some(found[n - 1])
    } else {
        stored_profile(found, pid, n - 1)
    }
}

/// Finds the stored profile of identifier `pid`.
pub fn stored_profile_of<'a>(found: &'a Vec<Json>, pid: &str) -> (r: Option<&'a Json>)
    ensures
        match r {
            Some(p) => stored_profile(view_seq(found@), pid@, found@.len() as int) == Some(p@),
            None => stored_profile(view_seq(found@), pid@, found@.len() as int) is None,
        },
{
    proof {
        lemma_view_seq(found@);
    }
    let ghost fv = view_seq(found@);
    let mut i: usize = found.len();
    while i > 0
        invariant
            i <= found@.len(),
            fv == view_seq(found@),
            fv.len() == found@.len(),
            forall|j: int| 0 <= j < found@.len() ==> #[trigger] fv[j] == found@[j]@,
            stored_profile(fv, pid@, found@.len() as int) == stored_profile(fv, pid@, i as int),
        decreases i,
    {
        assert(fv[i - 1] == found@[i - 1]@);
        let hit = match found[i - 1].get("_id") {
            Some(Json::Str(s)) => str_eq(s.as_str(), pid),
            _ => false,
        };
        if hit {
            return Some(&found[i - 1]);
        }
        i = i - 1;
    }
    None
}

/// The account a stored profile is deleted under: its own, else the
/// caller's.
pub open spec fn deletion_account(existing: JsonV, account_id: Seq<char>) -> Seq<char> {
    match str_member(existing, "account_id"@) {
        Some(a) => a,
        None => account_id,
    }
}

/// Reads the account a stored profile is deleted under.
pub fn deletion_account_of(existing: &Json, account_id: &str) -> (r: String)
    ensures
        r@ == deletion_account(existing@, account_id@),
{
    match existing.get("account_id") {
        Some(Json::Str(a)) => copy_str(a.as_str()),
        _ => copy_str(account_id),
    }
}

/// The entry of a deleted profile.
pub open spec fn deleted_profile(pid: Seq<char>, existing: JsonV) -> JsonV {
    JsonV::Obj(seq![("profile_id"@, JsonV::Str(pid)), ("customer_id"@, index_or_null(existing, "customer_id"@))])
}

/// Builds the entry of a deleted profile.
pub fn deleted_profile_entry(pid: &str, existing: &Json) -> (r: Json)
    ensures
        r@ == deleted_profile(pid@, existing@),
{
    obj2("profile_id", Json::Str(copy_str(pid)), "customer_id", get_or_null(existing, "customer_id"))
}

/// Builds the entry of a deletion the store refused, with its description.
pub fn delete_failed_entry(pid: &str, description: &str) -> (r: Json)
    ensures
        r@ == profile_failure("profile_id"@, pid@, "Delete failed: "@ + description@),
{
    obj2("profile_id", Json::Str(copy_str(pid)), "error_message", Json::Str(concat2("Delete failed: ", description)))
}

/// The reason of a deletion of which nothing was done: marked toxic for a
/// deletion of the identification job, so that it is not tried again.
pub fn nothing_deleted_reason(identification_job: bool) -> (r: String)
    ensures
        r@ == (if identification_job { "[toxic]:: No profiles deleted!"@ } else { "No profiles deleted!"@ }),
{
    if identification_job {
        copy_str("[toxic]:: No profiles deleted!")
    } else {
        copy_str("No profiles deleted!")
    }
}

/// What a grouped segmentation operation asks: the action, the profile
/// and the tags.
pub struct SegmentOperation {
    pub action: String,
    pub profile_id: String,
    pub segment_tags: Vec<Json>,
}

/// A grouped segmentation operation, when it has an action, a profile and
/// a list of tags.
pub open spec fn segment_operation(op: JsonV) -> Option<(Seq<char>, Seq<char>, Seq<JsonV>)> {
    match str_member(op, "action"@) {
        None => None,
        Some(action) => match op.get("operation_payload"@) {
            None => None,
            Some(payload) => match str_member(payload, "profile_id"@) {
                None => None,
                Some(pid) => match payload.get("segment_tags"@) {
                    Some(JsonV::Arr(tags)) => Some((action, pid, tags)),
                    _ => None,
                },
            },
        },
    }
}

/// Reads a grouped segmentation operation.
pub fn read_segment_operation(op: &Json) -> (r: Option<SegmentOperation>)
    ensures
        match r {
            Some(o) => segment_operation(op@) == Some((o.action@, o.profile_id@, view_seq(o.segment_tags@))),
            None => segment_operation(op@) is None,
        },
{
    let action = match op.get("action") {
        Some(Json::Str(a)) => copy_str(a.as_str()),
        _ => return None,
    };
    let payload = match op.get("operation_payload") {
        Some(p) => p,
        None => return None,
    };
    let pid = match payload.get("profile_id") {
        Some(Json::Str(p)) => copy_str(p.as_str()),
        _ => return None,
    };
    match payload.get("segment_tags") {
        Some(Json::Array(tags)) => {
            proof {
                lemma_view_seq(tags@);
            }
            let mut out: Vec<Json> = Vec::new();
            let mut i: usize = 0;
            while i < tags.len()
                invariant
                    i <= tags@.len(),
                    out@.len() == i,
                    forall|j: int| 0 <= j < i ==> (#[trigger] out@[j])@ == tags@[j]@,
                decreases tags@.len() - i,
            {
                out.push(tags[i].deep_clone());
                i = i + 1;
            }
            proof {
                lemma_view_seq(out@);
            }
            assert(view_seq(out@) =~= view_seq(tags@));
            Some(SegmentOperation { action, profile_id: pid, segment_tags: out })
        },
        _ => None,
    }
}

/// The tag a create operation pushes at `now`: its segment, tag and status
/// (all strings), or none where one is missing.
pub open spec fn new_segment_tag(tag: JsonV, now: JsonV) -> Option<JsonV> {
    match (str_member(tag, "segment_id"@), str_member(tag, "segment_tag"@), str_member(tag, "status"@)) {
        (Some(id), Some(t), Some(s)) => Some(JsonV::Obj(seq![
            ("segment_id"@, JsonV::Str(id)),
            ("segment_tag"@, JsonV::Str(t)),
            ("status"@, JsonV::Str(s)),
            ("created_at"@, now),
        ])),
        _ => None,
    }
}

/// Builds the tag a create operation pushes.
pub fn new_segment_tag_doc(tag: &Json, now: &Json) -> (r: Option<Json>)
    ensures
        match r {
            Some(j) => new_segment_tag(tag@, now@) == Some(j@),
            None => new_segment_tag(tag@, now@) is None,
        },
{
    let id = match tag.get("segment_id") {
        Some(Json::Str(s)) => copy_str(s.as_str()),
        _ => return None,
    };
    let t = match tag.get("segment_tag") {
        Some(Json::Str(s)) => copy_str(s.as_str()),
        _ => return None,
    };
    let st = match tag.get("status") {
        Some(Json::Str(s)) => copy_str(s.as_str()),
        _ => return None,
    };
    let mut m: Vec<(String, Json)> = Vec::new();
    m.push((copy_str("segment_id"), Json::Str(id)));
    m.push((copy_str("segment_tag"), Json::Str(t)));
    m.push((copy_str("status"), Json::Str(st)));
    m.push((copy_str("created_at"), now.deep_clone()));
    proof {
        lemma_view_members(m@);
    }
    assert(view_members(m@) =~= new_segment_tag(tag@, now@)->Some_0->Obj_0);
    Some(Json::Object(m))
}

/// The segment identifiers of the first `n` tags a delete operation pulls;
/// none once a tag has no segment identifier.
pub open spec fn pulled_segments(tags: Seq<JsonV>, n: int) -> Option<Seq<Seq<char>>>
    decreases n,
{
    if n <= 0 {
        Some(seq![])
    } else {
        match pulled_segments(tags, n - 1) {
            None => None,
            Some(ids) => match str_member(tags[n - 1], "segment_id"@) {
                Some(id) => Some(ids.push(id)),
                None => None,
            },
        }
    }
}

/// The segment identifiers of the tags a delete operation pulls.
pub fn pulled_segment_ids(tags: &Vec<Json>) -> (r: Option<Vec<String>>)
    ensures
        match r {
            Some(ids) => pulled_segments(view_seq(tags@), tags@.len() as int) == Some(strings_view(ids@)),
            None => pulled_segments(view_seq(tags@), tags@.len() as int) is None,
        },
{
    proof {
        lemma_view_seq(tags@);
    }
    let ghost tv = view_seq(tags@);
    let mut out: Vec<String> = Vec::new();
    assert(strings_view(out@) =~= Seq::<Seq<char>>::empty());
    let mut i: usize = 0;
    while i < tags.len()
        invariant
            i <= tags@.len(),
            tv == view_seq(tags@),
            tv.len() == tags@.len(),
            forall|j: int| 0 <= j < tags@.len() ==> #[trigger] tv[j] == tags@[j]@,
            pulled_segments(tv, i as int) == Some(strings_view(out@)),
        decreases tags@.len() - i,
    {
        assert(tv[i as int] == tags@[i as int]@);
        match tags[i].get("segment_id") {
            Some(Json::Str(s)) => {
                let ghost before = strings_view(out@);
                out.push(copy_str(s.as_str()));
                assert(strings_view(out@) =~= before.push(s@));
            },
            _ => {
                proof {
                    lemma_pulled_none(tv, i + 1, tv.len() as int);
                }
                return None;
            },
        }
        i = i + 1;
    }
    Some(out)
}

proof fn lemma_pulled_none(tags: Seq<JsonV>, k: int, n: int)
    requires
        0 <= k <= n,
        pulled_segments(tags, k) is None,
    ensures
        pulled_segments(tags, n) is None,
    decreases n - k,
{
    if k < n {
        lemma_pulled_none(tags, k, n - 1);
    }
}

} // verus!
