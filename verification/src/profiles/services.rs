//! The decisions of the profiles service on the documents it reads and
//! writes: merging segment tags, the fields of an update, the shape of a
//! returned profile, and the types of profile keys.

use vstd::prelude::*;
use crate::json::{
    insert_member, lemma_view_members, lemma_view_seq, members_insert, member_lookup, view_json,
    view_members, view_seq, Json, JsonV, NumV,
};
use crate::text::{copy_str, str_eq};
use crate::fields::strings_view;
use crate::json::{members_get, members_remove, remove_member, JsonNumber};
use crate::profiles::models::{ProfileUpdateInput, SegmentTagInput};
use crate::dates::{date_millis, gmt_date_text, millis_to_gmt};

verus! {

// ---------------------------------------------------------------------------
// Segment tags
// ---------------------------------------------------------------------------

/// The `segment_id` of a tag, if a string.
pub open spec fn seg_id_of(t: JsonV) -> Option<Seq<char>> {
    match t.get("segment_id"@) {
        Some(JsonV::Str(s)) => Some(s),
        _ => None,
    }
}

/// The first tag (from `i` on) with segment id `id`; the length if none.
pub open spec fn tag_index(f: Seq<JsonV>, id: Option<Seq<char>>, i: int) -> int
    decreases f.len() - i,
{
    if i < 0 || i >= f.len() {
        f.len() as int
    } else if seg_id_of(f[i]) == id {
        i
    } else {
        tag_index(f, id, i + 1)
    }
}

/// `m` with the first `k` members of `n` inserted in order.
pub open spec fn insert_all(m: Seq<(Seq<char>, JsonV)>, n: Seq<(Seq<char>, JsonV)>, k: int) -> Seq<(Seq<char>, JsonV)>
    decreases k,
{
    if k <= 0 {
        m
    } else {
        members_insert(insert_all(m, n, k - 1), n[k - 1].0, n[k - 1].1)
    }
}

/// A stored tag updated by a new one: the new members over the old, and
/// `updated_at`; unchanged unless both are objects.
pub open spec fn merge_tag(existing: JsonV, tag: JsonV, now: JsonV) -> JsonV {
    match (existing, tag) {
        (JsonV::Obj(e), JsonV::Obj(n)) => JsonV::Obj(members_insert(insert_all(e, n, n.len() as int), "updated_at"@, now)),
        _ => existing,
    }
}

/// The tags with one new tag merged in: into the first tag with its
/// segment id, else appended with `created_at`.
pub open spec fn add_tag(f: Seq<JsonV>, tag: JsonV, now: JsonV) -> Seq<JsonV> {
    let i = tag_index(f, seg_id_of(tag), 0);
    if i < f.len() {
        f.update(i, merge_tag(f[i], tag, now))
    } else {
        f.push(
            match tag {
                JsonV::Obj(m) => JsonV::Obj(members_insert(m, "created_at"@, now)),
                _ => tag,
            },
        )
    }
}

/// The stored tags with the first `n` new tags merged in, in order.
pub open spec fn formatted_tags(new_tags: Seq<JsonV>, existing: Seq<JsonV>, now: JsonV, n: int) -> Seq<JsonV>
    decreases n,
{
    if n <= 0 {
        existing
    } else {
        add_tag(formatted_tags(new_tags, existing, now, n - 1), new_tags[n - 1], now)
    }
}

fn seg_id(t: &Json) -> (r: Option<&str>)
    ensures
        match r {
            Some(s) => seg_id_of(t@) == Some(s@),
            None => seg_id_of(t@) is None,
        },
{
    match t.get("segment_id") {
        Some(v) => v.as_str(),
        None => None,
    }
}

fn same_id(a: Option<&str>, b: Option<&str>) -> (r: bool)
    ensures
        r == (match a {
            Some(x) => Some(x@),
            None => None::<Seq<char>>,
        } == match b {
            Some(x) => Some(x@),
            None => None::<Seq<char>>,
        }),
{
    match (a, b) {
        (Some(x), Some(y)) => str_eq(x, y),
        (None, None) => true,
        _ => false,
    }
}

/// The first tag with segment id `id`; the length if none.
fn find_tag(f: &Vec<Json>, id: Option<&str>) -> (r: usize)
    ensures
        r as int == tag_index(view_seq(f@), match id {
            Some(s) => Some(s@),
            None => None::<Seq<char>>,
        }, 0),
{
    let ghost fv = view_seq(f@);
    let ghost idv = match id {
        Some(s) => Some(s@),
        None => None::<Seq<char>>,
    };
    proof {
        lemma_view_seq(f@);
    }
    let mut pos: usize = 0;
    while pos < f.len()
        invariant
            pos <= f@.len(),
            fv == view_seq(f@),
            fv.len() == f@.len(),
            forall|j: int| 0 <= j < f@.len() ==> #[trigger] fv[j] == f@[j]@,
            tag_index(fv, idv, 0) == tag_index(fv, idv, pos as int),
            idv == match id {
                Some(s) => Some(s@),
                None => None::<Seq<char>>,
            },
        decreases f@.len() - pos,
    {
        assert(fv[pos as int] == f@[pos as int]@);
        if same_id(seg_id(&f[pos]), id) {
            return pos;
        }
        pos = pos + 1;
    }
    pos
}

/// Merges new segment tags into the stored ones (`now` is the timestamp
/// written as `created_at` / `updated_at`).
pub fn format_segment_tags(new_tags: &Vec<Json>, existing_tags: &Vec<Json>, now: &Json) -> (r: Vec<Json>)
    ensures
        view_seq(r@) == formatted_tags(view_seq(new_tags@), view_seq(existing_tags@), now@, new_tags@.len() as int),
{
    let mut formatted: Vec<Json> = Vec::new();
    let mut i: usize = 0;
    proof {
        lemma_view_seq(existing_tags@);
        lemma_view_seq(new_tags@);
    }
    while i < existing_tags.len()
        invariant
            i <= existing_tags@.len(),
            formatted@.len() == i,
            view_seq(existing_tags@).len() == existing_tags@.len(),
            forall|j: int| 0 <= j < existing_tags@.len() ==> #[trigger] view_seq(existing_tags@)[j] == existing_tags@[j]@,
            forall|j: int| 0 <= j < i ==> (#[trigger] formatted@[j])@ == existing_tags@[j]@,
        decreases existing_tags@.len() - i,
    {
        formatted.push(existing_tags[i].deep_clone());
        i = i + 1;
    }
    proof {
        lemma_view_seq(formatted@);
        assert(view_seq(formatted@) =~= view_seq(existing_tags@));
    }
    let ghost nv = view_seq(new_tags@);
    let mut k: usize = 0;
    while k < new_tags.len()
        invariant
            k <= new_tags@.len(),
            nv == view_seq(new_tags@),
            nv.len() == new_tags@.len(),
            forall|j: int| 0 <= j < new_tags@.len() ==> #[trigger] nv[j] == new_tags@[j]@,
            view_seq(formatted@) == formatted_tags(nv, view_seq(existing_tags@), now@, k as int),
        decreases new_tags@.len() - k,
    {
        let tag = &new_tags[k];
        assert(nv[k as int] == tag@);
        let id = seg_id(tag);
        let ghost fv = view_seq(formatted@);
        proof {
            lemma_view_seq(formatted@);
        }
        let pos = find_tag(&formatted, id);
        assert(tag_index(fv, seg_id_of(tag@), 0) == pos as int);
        if pos < formatted.len() {
            let merged = match (&formatted[pos], tag) {
                (Json::Object(e), Json::Object(n)) => {
                    let mut m = crate::json::clone_members(e);
                    let mut j: usize = 0;
                    proof {
                        lemma_view_members(n@);
                    }
                    while j < n.len()
                        invariant
                            j <= n@.len(),
                            view_members(n@).len() == n@.len(),
                            forall|q: int| 0 <= q < n@.len() ==> #[trigger] view_members(n@)[q] == (n@[q].0@, view_json(n@[q].1)),
                            view_members(m@) == insert_all(view_members(e@), view_members(n@), j as int),
                        decreases n@.len() - j,
                    {
                        insert_member(&mut m, n[j].0.as_str(), n[j].1.deep_clone());
                        j = j + 1;
                    }
                    insert_member(&mut m, "updated_at", now.deep_clone());
                    Json::Object(m)
                },
                (e, _) => e.deep_clone(),
            };
            assert(merged@ == merge_tag(fv[pos as int], tag@, now@));
            let ghost before = formatted@;
            formatted.set(pos, merged);
            proof {
                lemma_view_seq(formatted@);
                assert(view_seq(formatted@) =~= fv.update(pos as int, merge_tag(fv[pos as int], tag@, now@))) by {
                    assert forall|q: int| 0 <= q < formatted@.len() implies view_seq(formatted@)[q] == fv.update(pos as int, merge_tag(fv[pos as int], tag@, now@))[q] by {
                        if q != pos {
                            assert(formatted@[q] == before[q]);
                        }
                    }
                }
            }
        } else {
            let t = match tag {
                Json::Object(m) => {
                    let mut mm = crate::json::clone_members(m);
                    insert_member(&mut mm, "created_at", now.deep_clone());
                    Json::Object(mm)
                },
                _ => tag.deep_clone(),
            };
            let ghost before = formatted@;
            formatted.push(t);
            proof {
                lemma_view_seq(formatted@);
                assert(view_seq(formatted@) =~= fv.push(t@)) by {
                    assert forall|q: int| 0 <= q < formatted@.len() implies view_seq(formatted@)[q] == fv.push(t@)[q] by {
                        if q < before.len() {
                            assert(formatted@[q] == before[q]);
                        }
                    }
                }
            }
        }
        k = k + 1;
    }
    formatted
}

// ---------------------------------------------------------------------------
// Profile updates
// ---------------------------------------------------------------------------

/// A member when the value is present.
pub open spec fn opt_member(k: Seq<char>, o: Option<JsonV>) -> Seq<(Seq<char>, JsonV)> {
    match o {
        Some(v) => seq![(k, v)],
        None => seq![],
    }
}

pub open spec fn opt_str_json(o: Option<String>) -> Option<JsonV> {
    match o {
        Some(s) => Some(JsonV::Str(s@)),
        None => None,
    }
}

pub open spec fn opt_int_json(o: Option<i64>) -> Option<JsonV> {
    match o {
        Some(i) => Some(JsonV::Num(NumV::Int(i as int))),
        None => None,
    }
}

/// The stored form of a new segment tag (status `active` unless given).
pub open spec fn tag_doc(t: SegmentTagInput) -> JsonV {
    JsonV::Obj(
        seq![
            ("segment_id"@, JsonV::Str(t.segment_id@)),
            ("segment_tag"@, JsonV::Str(t.segment_tag@)),
            (
                "status"@,
                JsonV::Str(
                    match t.status {
                        Some(s) => s@,
                        None => "active"@,
                    },
                ),
            ),
        ],
    )
}

/// The segment tags stored on a profile (none unless a list).
pub open spec fn stored_tags(existing: JsonV) -> Seq<JsonV> {
    match existing.get("segment_tags"@) {
        Some(JsonV::Arr(a)) => a,
        _ => seq![],
    }
}

/// The base fields an update writes: `updated_at` and those given.
pub open spec fn base_update_fields(p: ProfileUpdateInput, now: JsonV) -> Seq<(Seq<char>, JsonV)> {
    seq![("updated_at"@, now)] + opt_member("customer_id"@, opt_str_json(p.customer_id)) + opt_member(
        "profile_data"@,
        match p.profile_data {
            Some(j) => Some(j@),
            None => None,
        },
    ) + opt_member(
        "platform_info"@,
        match p.platform_info {
            Some(j) => Some(j@),
            None => None,
        },
    ) + opt_member(
        "has_charged"@,
        match p.has_charged {
            Some(b) => Some(JsonV::Bool(b)),
            None => None,
        },
    ) + opt_member("status"@, opt_str_json(p.status))
}

/// The fields only the internal path writes: the scores given and the
/// segment tags merged into the stored ones.
pub open spec fn internal_update_fields(p: ProfileUpdateInput, existing: JsonV, now: JsonV) -> Seq<(Seq<char>, JsonV)> {
    opt_member("rfm_score"@, opt_int_json(p.rfm_score)) + opt_member("rfm_segment_desc"@, opt_str_json(p.rfm_segment_desc))
        + opt_member("churn_probability"@, opt_str_json(p.churn_probability)) + opt_member(
        "ltv_prediction"@,
        opt_int_json(p.ltv_prediction),
    ) + opt_member("current_ltv"@, opt_int_json(p.current_ltv)) + match p.segment_tags {
        Some(ts) => seq![
            (
                "segment_tags"@,
                JsonV::Arr(
                    formatted_tags(
                        ts@.map_values(|t: SegmentTagInput| tag_doc(t)),
                        stored_tags(existing),
                        now,
                        ts@.len() as int,
                    ),
                ),
            ),
        ],
        None => seq![],
    }
}

/// The fields an update writes: the base fields, and on the internal path
/// only, the scores and the merged segment tags.
pub open spec fn update_fields(p: ProfileUpdateInput, existing: JsonV, internal: bool, now: JsonV) -> Seq<(Seq<char>, JsonV)> {
    base_update_fields(p, now) + if internal {
        internal_update_fields(p, existing, now)
    } else {
        seq![]
    }
}

proof fn lemma_member_at<T>(s: Seq<T>, i: int)
    requires
        0 <= i < s.len(),
    ensures
        s.contains(s[i]),
{
}

/// Law: an update writes its time and every base field the input gives,
/// with the value given: `customer_id`, `profile_data`, `platform_info`,
/// `has_charged` and `status`; the internal path also writes each score
/// given.
pub proof fn law_update_writes_every_given_field(p: ProfileUpdateInput, existing: JsonV, internal: bool, now: JsonV)
    ensures
        update_fields(p, existing, internal, now).contains(("updated_at"@, now)),
        p.customer_id matches Some(c) ==> update_fields(p, existing, internal, now).contains(
            ("customer_id"@, JsonV::Str(c@)),
        ),
        p.profile_data matches Some(j) ==> update_fields(p, existing, internal, now).contains(
            ("profile_data"@, j@),
        ),
        p.platform_info matches Some(j) ==> update_fields(p, existing, internal, now).contains(
            ("platform_info"@, j@),
        ),
        p.has_charged matches Some(b) ==> update_fields(p, existing, internal, now).contains(
            ("has_charged"@, JsonV::Bool(b)),
        ),
        p.status matches Some(st) ==> update_fields(p, existing, internal, now).contains(
            ("status"@, JsonV::Str(st@)),
        ),
        internal ==> (p.rfm_score matches Some(x) ==> update_fields(p, existing, internal, now).contains(
            ("rfm_score"@, JsonV::Num(NumV::Int(x as int))),
        )),
        internal ==> (p.rfm_segment_desc matches Some(x) ==> update_fields(p, existing, internal, now).contains(
            ("rfm_segment_desc"@, JsonV::Str(x@)),
        )),
        internal ==> (p.churn_probability matches Some(x) ==> update_fields(p, existing, internal, now).contains(
            ("churn_probability"@, JsonV::Str(x@)),
        )),
        internal ==> (p.ltv_prediction matches Some(x) ==> update_fields(p, existing, internal, now).contains(
            ("ltv_prediction"@, JsonV::Num(NumV::Int(x as int))),
        )),
        internal ==> (p.current_ltv matches Some(x) ==> update_fields(p, existing, internal, now).contains(
            ("current_ltv"@, JsonV::Num(NumV::Int(x as int))),
        )),
{
    let base = base_update_fields(p, now);
    lemma_base_fields_given(p, now);
    let tail = if internal {
        internal_update_fields(p, existing, now)
    } else {
        seq![]
    };
    assert(update_fields(p, existing, internal, now) == base + tail);
    lemma_concat_contains(base, tail);
    if internal {
        lemma_internal_fields_given(p, existing, now);
    }
}

proof fn lemma_concat_contains<T>(a: Seq<T>, b: Seq<T>)
    ensures
        forall|x: T| a.contains(x) ==> (a + b).contains(x),
        forall|x: T| b.contains(x) ==> (a + b).contains(x),
{
    assert forall|x: T| a.contains(x) implies (a + b).contains(x) by {
        let i = choose|i: int| 0 <= i < a.len() && a[i] == x;
        assert((a + b)[i] == x);
    }
    assert forall|x: T| b.contains(x) implies (a + b).contains(x) by {
        let i = choose|i: int| 0 <= i < b.len() && b[i] == x;
        assert((a + b)[a.len() + i] == x);
    }
}

proof fn lemma_base_fields_given(p: ProfileUpdateInput, now: JsonV)
    ensures
        base_update_fields(p, now).contains(("updated_at"@, now)),
        p.customer_id matches Some(c) ==> base_update_fields(p, now).contains(("customer_id"@, JsonV::Str(c@))),
        p.profile_data matches Some(j) ==> base_update_fields(p, now).contains(("profile_data"@, j@)),
        p.platform_info matches Some(j) ==> base_update_fields(p, now).contains(("platform_info"@, j@)),
        p.has_charged matches Some(b) ==> base_update_fields(p, now).contains(("has_charged"@, JsonV::Bool(b))),
        p.status matches Some(st) ==> base_update_fields(p, now).contains(("status"@, JsonV::Str(st@))),
{
    let f = base_update_fields(p, now);
    let b0 = seq![("updated_at"@, now)];
    let b1 = b0 + opt_member("customer_id"@, opt_str_json(p.customer_id));
    let b2 = b1 + opt_member("profile_data"@, match p.profile_data { Some(j) => Some(j@), None => None });
    let b3 = b2 + opt_member("platform_info"@, match p.platform_info { Some(j) => Some(j@), None => None });
    let b4 = b3 + opt_member("has_charged"@, match p.has_charged { Some(b) => Some(JsonV::Bool(b)), None => None });
    assert(f == b4 + opt_member("status"@, opt_str_json(p.status)));
    lemma_member_at(f, 0);
    if p.customer_id is Some {
        assert(f[b0.len() as int] == ("customer_id"@, JsonV::Str(p.customer_id->0@)));
        lemma_member_at(f, b0.len() as int);
    }
    if p.profile_data is Some {
        assert(f[b1.len() as int] == ("profile_data"@, p.profile_data->0@));
        lemma_member_at(f, b1.len() as int);
    }
    if p.platform_info is Some {
        assert(f[b2.len() as int] == ("platform_info"@, p.platform_info->0@));
        lemma_member_at(f, b2.len() as int);
    }
    if p.has_charged is Some {
        assert(f[b3.len() as int] == ("has_charged"@, JsonV::Bool(p.has_charged->0)));
        lemma_member_at(f, b3.len() as int);
    }
    if p.status is Some {
        assert(f[b4.len() as int] == ("status"@, JsonV::Str(p.status->0@)));
        lemma_member_at(f, b4.len() as int);
    }
}

proof fn lemma_internal_fields_given(p: ProfileUpdateInput, existing: JsonV, now: JsonV)
    ensures
        p.rfm_score matches Some(x) ==> internal_update_fields(p, existing, now).contains(
            ("rfm_score"@, JsonV::Num(NumV::Int(x as int))),
        ),
        p.rfm_segment_desc matches Some(x) ==> internal_update_fields(p, existing, now).contains(
            ("rfm_segment_desc"@, JsonV::Str(x@)),
        ),
        p.churn_probability matches Some(x) ==> internal_update_fields(p, existing, now).contains(
            ("churn_probability"@, JsonV::Str(x@)),
        ),
        p.ltv_prediction matches Some(x) ==> internal_update_fields(p, existing, now).contains(
            ("ltv_prediction"@, JsonV::Num(NumV::Int(x as int))),
        ),
        p.current_ltv matches Some(x) ==> internal_update_fields(p, existing, now).contains(
            ("current_ltv"@, JsonV::Num(NumV::Int(x as int))),
        ),
{
    let f = internal_update_fields(p, existing, now);
    let s0 = opt_member("rfm_score"@, opt_int_json(p.rfm_score));
    let s1 = s0 + opt_member("rfm_segment_desc"@, opt_str_json(p.rfm_segment_desc));
    let s2 = s1 + opt_member("churn_probability"@, opt_str_json(p.churn_probability));
    let s3 = s2 + opt_member("ltv_prediction"@, opt_int_json(p.ltv_prediction));
    let s4 = s3 + opt_member("current_ltv"@, opt_int_json(p.current_ltv));
    let tags = f.skip(s4.len() as int);
    assert(f == s4 + tags);
    lemma_concat_contains(s4, tags);
    if p.rfm_score is Some {
        assert(s4[0] == ("rfm_score"@, JsonV::Num(NumV::Int(p.rfm_score->0 as int))));
        lemma_member_at(s4, 0);
    }
    if p.rfm_segment_desc is Some {
        assert(s4[s0.len() as int] == ("rfm_segment_desc"@, JsonV::Str(p.rfm_segment_desc->0@)));
        lemma_member_at(s4, s0.len() as int);
    }
    if p.churn_probability is Some {
        assert(s4[s1.len() as int] == ("churn_probability"@, JsonV::Str(p.churn_probability->0@)));
        lemma_member_at(s4, s1.len() as int);
    }
    if p.ltv_prediction is Some {
        assert(s4[s2.len() as int] == ("ltv_prediction"@, JsonV::Num(NumV::Int(p.ltv_prediction->0 as int))));
        lemma_member_at(s4, s2.len() as int);
    }
    if p.current_ltv is Some {
        assert(s4[s3.len() as int] == ("current_ltv"@, JsonV::Num(NumV::Int(p.current_ltv->0 as int))));
        lemma_member_at(s4, s3.len() as int);
    }
}

fn push_opt(out: &mut Vec<(String, Json)>, k: &str, o: Option<Json>)
    ensures
        view_members(final(out)@) == view_members(old(out)@) + opt_member(
            k@,
            match o {
                Some(j) => Some(j@),
                None => None,
            },
        ),
{
    proof {
        lemma_view_members(out@);
    }
    let ghost before = out@;
    match o {
        Some(j) => {
            out.push((copy_str(k), j));
        },
        None => {},
    }
    proof {
        lemma_view_members(out@);
        assert(view_members(out@) =~= view_members(before) + opt_member(
            k@,
            match o {
                Some(j) => Some(j@),
                None => None,
            },
        ));
    }
}

fn str_json(o: &Option<String>) -> (r: Option<Json>)
    ensures
        match r {
            Some(j) => Some(j@),
            None => None,
        } == opt_str_json(*o),
{
    match o {
        Some(s) => Some(Json::Str(copy_str(s.as_str()))),
        None => None,
    }
}

fn int_json(o: Option<i64>) -> (r: Option<Json>)
    ensures
        match r {
            Some(j) => Some(j@),
            None => None,
        } == opt_int_json(o),
{
    match o {
        Some(i) => Some(Json::Number(JsonNumber::Int(i))),
        None => None,
    }
}

fn tag_doc_of(t: &SegmentTagInput) -> (r: Json)
    ensures
        r@ == tag_doc(*t),
{
    let status = match &t.status {
        Some(s) => copy_str(s.as_str()),
        None => copy_str("active"),
    };
    let m = vec![
        (copy_str("segment_id"), Json::Str(copy_str(t.segment_id.as_str()))),
        (copy_str("segment_tag"), Json::Str(copy_str(t.segment_tag.as_str()))),
        (copy_str("status"), Json::Str(status)),
    ];
    proof {
        lemma_view_members(m@);
        assert(view_members(m@) =~= tag_doc(*t)->Obj_0);
    }
    Json::Object(m)
}

fn push_base_fields(p: &ProfileUpdateInput, now: &Json, out: &mut Vec<(String, Json)>)
    requires
        old(out)@.len() == 0,
    ensures
        view_members(final(out)@) == base_update_fields(*p, now@),
{
    out.push((copy_str("updated_at"), now.deep_clone()));
    proof {
        lemma_view_members(out@);
        assert(view_members(out@) =~= seq![("updated_at"@, now@)]);
    }
    push_opt(out, "customer_id", str_json(&p.customer_id));
    push_opt(out, "profile_data", match &p.profile_data {
        Some(j) => Some(j.deep_clone()),
        None => None,
    });
    push_opt(out, "platform_info", match &p.platform_info {
        Some(j) => Some(j.deep_clone()),
        None => None,
    });
    push_opt(out, "has_charged", match p.has_charged {
        Some(b) => Some(Json::Bool(b)),
        None => None,
    });
    push_opt(out, "status", str_json(&p.status));
}

#[verifier::rlimit(30)]
fn push_internal_fields(p: &ProfileUpdateInput, existing: &Json, now: &Json, out: &mut Vec<(String, Json)>)
    ensures
        view_members(final(out)@) == view_members(old(out)@) + internal_update_fields(*p, existing@, now@),
{
    let ghost start = view_members(out@);
    push_opt(out, "rfm_score", int_json(p.rfm_score));
    push_opt(out, "rfm_segment_desc", str_json(&p.rfm_segment_desc));
    push_opt(out, "churn_probability", str_json(&p.churn_probability));
    push_opt(out, "ltv_prediction", int_json(p.ltv_prediction));
    push_opt(out, "current_ltv", int_json(p.current_ltv));
    let ghost mid = view_members(out@);
    match &p.segment_tags {
        Some(tags) => {
            let mut docs: Vec<Json> = Vec::new();
            let mut i: usize = 0;
            while i < tags.len()
                invariant
                    i <= tags@.len(),
                    docs@.len() == i,
                    forall|k: int| 0 <= k < i ==> (#[trigger] docs@[k])@ == tag_doc(tags@[k]),
                decreases tags@.len() - i,
            {
                docs.push(tag_doc_of(&tags[i]));
                i = i + 1;
            }
            proof {
                lemma_view_seq(docs@);
                assert(view_seq(docs@) =~= tags@.map_values(|t: SegmentTagInput| tag_doc(t)));
            }
            let empty: Vec<Json> = Vec::new();
            let existing_tags: &Vec<Json> = match existing.get("segment_tags") {
                Some(v) => match v.as_array() {
                    Some(a) => a,
                    None => &empty,
                },
                None => &empty,
            };
            proof {
                lemma_view_seq(empty@);
                assert(view_seq(empty@) =~= Seq::<JsonV>::empty());
            }
            assert(view_seq(existing_tags@) == stored_tags(existing@));
            let merged = format_segment_tags(&docs, existing_tags, now);
            push_opt(out, "segment_tags", Some(Json::Array(merged)));
        },
        None => {
            push_opt(out, "segment_tags", None);
        },
    }
    assert(view_members(out@) =~= start + internal_update_fields(*p, existing@, now@));
}

/// The fields an update of profile `p` writes over the stored `existing`
/// (`now` is the timestamp written).
pub fn profile_update_fields(p: &ProfileUpdateInput, existing: &Json, internal: bool, now: &Json) -> (r: Vec<(String, Json)>)
    ensures
        view_members(r@) == update_fields(*p, existing@, internal, now@),
{
    let mut out: Vec<(String, Json)> = Vec::new();
    push_base_fields(p, now, &mut out);
    if internal {
        push_internal_fields(p, existing, now, &mut out);
    }
    assert(view_members(out@) =~= update_fields(*p, existing@, internal, now@));
    out
}

/// The stored profile with the written fields set (unchanged unless an
/// object).
pub open spec fn merged_profile(existing: JsonV, fields: Seq<(Seq<char>, JsonV)>) -> JsonV {
    match existing {
        JsonV::Obj(m) => JsonV::Obj(insert_all(m, fields, fields.len() as int)),
        _ => existing,
    }
}

/// Sets the written fields on the stored profile.
pub fn merge_profile(existing: &Json, fields: &Vec<(String, Json)>) -> (r: Json)
    ensures
        r@ == merged_profile(existing@, view_members(fields@)),
{
    match existing {
        Json::Object(e) => {
            let mut m = crate::json::clone_members(e);
            let mut j: usize = 0;
            proof {
                lemma_view_members(fields@);
            }
            while j < fields.len()
                invariant
                    j <= fields@.len(),
                    view_members(fields@).len() == fields@.len(),
                    forall|q: int| 0 <= q < fields@.len() ==> #[trigger] view_members(fields@)[q] == (fields@[q].0@, view_json(fields@[q].1)),
                    view_members(m@) == insert_all(view_members(e@), view_members(fields@), j as int),
                decreases fields@.len() - j,
            {
                insert_member(&mut m, fields[j].0.as_str(), fields[j].1.deep_clone());
                j = j + 1;
            }
            Json::Object(m)
        },
        _ => existing.deep_clone(),
    }
}

// ---------------------------------------------------------------------------
// Returned profiles
// ---------------------------------------------------------------------------

/// Member `key`, when it is an extended-JSON date, rendered as GMT text.
pub open spec fn with_date_text(m: Seq<(Seq<char>, JsonV)>, key: Seq<char>) -> Seq<(Seq<char>, JsonV)> {
    match member_lookup(m, key) {
        Some(v) => match date_millis(v) {
            Some(ms) => match gmt_date_text(ms) {
                Some(s) => members_insert(m, key, JsonV::Str(s)),
                None => m,
            },
            None => m,
        },
        None => m,
    }
}

fn set_date_text(m: &mut Vec<(String, Json)>, key: &str)
    ensures
        view_members(final(m)@) == with_date_text(view_members(old(m)@), key@),
{
    let millis: Option<i64> = match members_get(m, key) {
        Some(v) => match v.get("$date") {
            Some(Json::Number(JsonNumber::Int(i))) => Some(*i),
            _ => None,
        },
        None => None,
    };
    match millis {
        Some(ms) => match millis_to_gmt(ms) {
            Some(s) => insert_member(m, key, Json::Str(s)),
            None => {},
        },
        None => {},
    }
}

/// A segment tag whose status is one of `statuses` is kept.
pub open spec fn tag_kept(t: JsonV, statuses: Seq<Seq<char>>) -> bool {
    t.get("status"@) matches Some(JsonV::Str(s)) && statuses.contains(s)
}

/// A kept tag as returned: outside the internal path without its id,
/// status and `updated_at`, and with a GMT `created_at`.
pub open spec fn format_tag(t: JsonV, internal: bool) -> JsonV {
    if internal {
        t
    } else {
        match t {
            JsonV::Obj(m) => JsonV::Obj(
                with_date_text(
                    members_remove(members_remove(members_remove(m, "segment_id"@), "status"@), "updated_at"@),
                    "created_at"@,
                ),
            ),
            _ => t,
        }
    }
}

/// The first `n` tags, those kept, as returned.
pub open spec fn kept_tags(tags: Seq<JsonV>, statuses: Seq<Seq<char>>, internal: bool, n: int) -> Seq<JsonV>
    decreases n,
{
    if n <= 0 {
        seq![]
    } else {
        kept_tags(tags, statuses, internal, n - 1) + if tag_kept(tags[n - 1], statuses) {
            seq![format_tag(tags[n - 1], internal)]
        } else {
            seq![]
        }
    }
}

/// A stored profile as returned: `_id` renamed `profile_id`, no
/// `account_id`, outside the internal path no LTV figures, only the segment
/// tags of the given statuses, and GMT dates.
pub open spec fn formatted_profile(doc: JsonV, statuses: Seq<Seq<char>>, internal: bool) -> JsonV {
    match doc {
        JsonV::Obj(m) => {
            let m1 = match member_lookup(m, "_id"@) {
                Some(id) => members_insert(members_remove(m, "_id"@), "profile_id"@, id),
                None => m,
            };
            let m2 = members_remove(m1, "account_id"@);
            let m3 = if !internal {
                members_remove(members_remove(m2, "ltv_prediction"@), "current_ltv"@)
            } else {
                m2
            };
            let m4 = match member_lookup(m3, "segment_tags"@) {
                Some(JsonV::Arr(tags)) => members_insert(
                    m3,
                    "segment_tags"@,
                    JsonV::Arr(kept_tags(tags, statuses, internal, tags.len() as int)),
                ),
                _ => m3,
            };
            JsonV::Obj(with_date_text(with_date_text(m4, "created_at"@), "updated_at"@))
        },
        _ => doc,
    }
}

fn format_tag_of(t: &Json, internal: bool) -> (r: Json)
    ensures
        r@ == format_tag(t@, internal),
{
    if internal {
        return t.deep_clone();
    }
    match t {
        Json::Object(m) => {
            let mut mm = crate::json::clone_members(m);
            remove_member(&mut mm, "segment_id");
            remove_member(&mut mm, "status");
            remove_member(&mut mm, "updated_at");
            set_date_text(&mut mm, "created_at");
            Json::Object(mm)
        },
        _ => t.deep_clone(),
    }
}

fn status_listed(t: &Json, statuses: &Vec<String>) -> (r: bool)
    ensures
        r == tag_kept(t@, strings_view(statuses@)),
{
    match t.get("status") {
        Some(v) => match v.as_str() {
            Some(s) => crate::messaging::templates::contains_string(statuses, s),
            None => false,
        },
        None => false,
    }
}

/// Shapes a stored profile for a response.
pub fn format_profile(doc: &Json, tag_statuses: &Vec<String>, internal: bool) -> (r: Json)
    ensures
        r@ == formatted_profile(doc@, strings_view(tag_statuses@), internal),
{
    let m = match doc {
        Json::Object(m) => m,
        _ => return doc.deep_clone(),
    };
    let mut mm = crate::json::clone_members(m);
    match members_get(&mm, "_id") {
        Some(id) => {
            let idc = id.deep_clone();
            remove_member(&mut mm, "_id");
            insert_member(&mut mm, "profile_id", idc);
        },
        None => {},
    }
    remove_member(&mut mm, "account_id");
    if !internal {
        remove_member(&mut mm, "ltv_prediction");
        remove_member(&mut mm, "current_ltv");
    }
    let kept: Option<Vec<Json>> = match members_get(&mm, "segment_tags") {
        Some(Json::Array(tags)) => {
            let ghost tv = view_seq(tags@);
            proof {
                lemma_view_seq(tags@);
            }
            let mut out: Vec<Json> = Vec::new();
            let mut i: usize = 0;
            proof {
                lemma_view_seq(out@);
            }
            while i < tags.len()
                invariant
                    i <= tags@.len(),
                    tv == view_seq(tags@),
                    tv.len() == tags@.len(),
                    forall|j: int| 0 <= j < tags@.len() ==> #[trigger] tv[j] == tags@[j]@,
                    view_seq(out@) == kept_tags(tv, strings_view(tag_statuses@), internal, i as int),
                decreases tags@.len() - i,
            {
                assert(tv[i as int] == tags@[i as int]@);
                let ghost before = out@;
                if status_listed(&tags[i], tag_statuses) {
                    out.push(format_tag_of(&tags[i], internal));
                }
                proof {
                    lemma_view_seq(out@);
                    lemma_view_seq(before);
                    assert(view_seq(out@) =~= kept_tags(tv, strings_view(tag_statuses@), internal, i + 1)) by {
                        if out@.len() > before.len() {
                            assert forall|q: int| 0 <= q < before.len() implies out@[q] == before[q] by {}
                        }
                    }
                }
                i = i + 1;
            }
            Some(out)
        },
        _ => None,
    };
    match kept {
        Some(out) => insert_member(&mut mm, "segment_tags", Json::Array(out)),
        None => {},
    }
    set_date_text(&mut mm, "created_at");
    set_date_text(&mut mm, "updated_at");
    Json::Object(mm)
}

/// Merging new segment tags never drops a stored tag: the stored tags
/// stay in place (updated or not) and each new tag adds at most one.
pub proof fn law_segment_tags_only_grow(new_tags: Seq<JsonV>, existing: Seq<JsonV>, now: JsonV, n: int)
    requires
        0 <= n,
    ensures
        existing.len() <= formatted_tags(new_tags, existing, now, n).len() <= existing.len() + n,
    decreases n,
{
    if n > 0 {
        law_segment_tags_only_grow(new_tags, existing, now, n - 1);
        let f = formatted_tags(new_tags, existing, now, n - 1);
        lemma_tag_index_from(f, seg_id_of(new_tags[n - 1]), 0);
    }
}

proof fn lemma_tag_index_from(f: Seq<JsonV>, id: Option<Seq<char>>, i: int)
    requires
        0 <= i,
    ensures
        i <= tag_index(f, id, i) || tag_index(f, id, i) == f.len(),
        0 <= tag_index(f, id, i),
    decreases f.len() - i,
{
    if i < f.len() {
        lemma_tag_index_from(f, id, i + 1);
    }
}

} // verus!
