//! The recommendations a request gets: each profile's cached top ten, and
//! the meta data of the model that made them.

use vstd::prelude::*;
use crate::dates::{date_millis, date_millis_of, gmt_date_text, millis_to_gmt};
use crate::events::verify::index_or_null;
use crate::fields::strings_view;
use crate::json::{
    insert_member, lemma_view_members, lemma_view_seq, members_insert, view_members, view_seq,
    Json, JsonV,
};
use crate::text::{copy_str, str_eq};

verus! {

/// The error of a profile without cached recommendations.
pub open spec fn no_recommendations_msg() -> Seq<char> {
    "Profile does not exist or Insufficient number of items available to make recommendations for this profile, if 'recommend_interacted_items' set to 'false' in your recommendations algorithm configurations, try setting it to 'true' if this frequently occurs."@
}

/// The training job whose model made the recommendations, from the latest
/// tuning job.
pub open spec fn job_training_id(job: JsonV) -> Result<Seq<char>, Seq<char>> {
    match index_or_null(job, "best_model_training_job_id"@) {
        JsonV::Str(s) => Ok(s),
        _ => Err("hp tuning job missing best_model_training_job_id"@),
    }
}

/// Reads the training job identifier of the latest tuning job.
pub fn training_job_id(job: &Json) -> (r: Result<String, String>)
    ensures
        match r {
            Ok(s) => job_training_id(job@) == Ok::<Seq<char>, Seq<char>>(s@),
            Err(m) => job_training_id(job@) == Err::<Seq<char>, Seq<char>>(m@),
        },
{
    match job.get("best_model_training_job_id") {
        Some(Json::Str(s)) => Ok(copy_str(s.as_str())),
        _ => Err(copy_str("hp tuning job missing best_model_training_job_id")),
    }
}

/// The first cached document (from `i` on) of profile `p`.
pub open spec fn cached_for(cache: Seq<JsonV>, p: Seq<char>, i: int) -> Option<JsonV>
    decreases cache.len() - i,
{
    if i < 0 || i >= cache.len() {
        None
    } else if index_or_null(cache[i], "profile_id"@) == JsonV::Str(p) {
        Some(cache[i])
    } else {
        cached_for(cache, p, i + 1)
    }
}

/// The recommendations of profile `p`: its cached top ten, or none with
/// the error; the error of a cached document without a list.
pub open spec fn profile_recommendations(cache: Seq<JsonV>, p: Seq<char>) -> Result<JsonV, Seq<char>> {
    match cached_for(cache, p, 0) {
        None => Ok(JsonV::Obj(seq![
            ("profile_id"@, JsonV::Str(p)),
            ("recommendations"@, JsonV::Arr(seq![])),
            ("error"@, JsonV::Str(no_recommendations_msg())),
        ])),
        Some(doc) => match doc.get("recommendations"@) {
            Some(JsonV::Arr(items)) => Ok(JsonV::Obj(seq![
                ("profile_id"@, JsonV::Str(p)),
                ("recommendations"@, JsonV::Arr(if items.len() > 10 { items.take(10) } else { items })),
                ("error"@, JsonV::Null),
            ])),
            _ => Err("cached recommendation document missing 'recommendations'"@),
        },
    }
}

/// The recommendations of the first `n` profiles, in order.
pub open spec fn recommendations_upto(cache: Seq<JsonV>, ps: Seq<Seq<char>>, n: int) -> Result<Seq<JsonV>, Seq<char>>
    decreases n,
{
    if n <= 0 {
        Ok(seq![])
    } else {
        match recommendations_upto(cache, ps, n - 1) {
            Err(e) => Err(e),
            Ok(acc) => match profile_recommendations(cache, ps[n - 1]) {
                Err(e) => Err(e),
                Ok(r) => Ok(acc.push(r)),
            },
        }
    }
}

proof fn lemma_recs_err(cache: Seq<JsonV>, ps: Seq<Seq<char>>, k: int, n: int)
    requires
        k <= n,
        recommendations_upto(cache, ps, k) is Err,
    ensures
        recommendations_upto(cache, ps, n) == recommendations_upto(cache, ps, k),
    decreases n - k,
{
    if k < n {
        lemma_recs_err(cache, ps, k, n - 1);
    }
}

fn cached_for_of<'a>(cache: &'a Vec<Json>, p: &str) -> (r: Option<&'a Json>)
    ensures
        match r {
            Some(d) => cached_for(view_seq(cache@), p@, 0) == Some(d@),
            None => cached_for(view_seq(cache@), p@, 0) is None,
        },
{
    proof {
        lemma_view_seq(cache@);
    }
    let ghost cv = view_seq(cache@);
    let mut i: usize = 0;
    while i < cache.len()
        invariant
            i <= cache@.len(),
            cv == view_seq(cache@),
            cv.len() == cache@.len(),
            forall|k: int| 0 <= k < cache@.len() ==> #[trigger] cv[k] == cache@[k]@,
            cached_for(cv, p@, 0) == cached_for(cv, p@, i as int),
        decreases cache@.len() - i,
    {
        assert(cv[i as int] == cache@[i as int]@);
        let hit = match cache[i].get("profile_id") {
            Some(Json::Str(s)) => str_eq(s.as_str(), p),
            _ => false,
        };
        if hit {
            return Some(&cache[i]);
        }
        i = i + 1;
    }
    None
}

fn recommendation_entry(cache: &Vec<Json>, p: &str) -> (r: Result<Json, String>)
    ensures
        match r {
            Ok(j) => profile_recommendations(view_seq(cache@), p@) == Ok::<JsonV, Seq<char>>(j@),
            Err(m) => profile_recommendations(view_seq(cache@), p@) == Err::<JsonV, Seq<char>>(m@),
        },
{
    let mut m: Vec<(String, Json)> = Vec::new();
    m.push((copy_str("profile_id"), Json::Str(copy_str(p))));
    match cached_for_of(cache, p) {
        None => {
            m.push((copy_str("recommendations"), Json::Array(Vec::new())));
            m.push((copy_str("error"), Json::Str(copy_str(
                "Profile does not exist or Insufficient number of items available to make recommendations for this profile, if 'recommend_interacted_items' set to 'false' in your recommendations algorithm configurations, try setting it to 'true' if this frequently occurs.",
            ))));
        },
        Some(doc) => match doc.get("recommendations") {
            Some(Json::Array(items)) => {
                proof {
                    lemma_view_seq(items@);
                }
                let n: usize = if items.len() > 10 { 10 } else { items.len() };
                let mut top: Vec<Json> = Vec::new();
                let mut k: usize = 0;
                while k < n
                    invariant
                        k <= n <= items@.len(),
                        top@.len() == k,
                        forall|q: int| 0 <= q < k ==> (#[trigger] top@[q])@ == items@[q]@,
                    decreases n - k,
                {
                    top.push(items[k].deep_clone());
                    k = k + 1;
                }
                proof {
                    lemma_view_seq(top@);
                }
                assert(view_seq(top@) =~= if items@.len() > 10 { view_seq(items@).take(10) } else { view_seq(items@) });
                m.push((copy_str("recommendations"), Json::Array(top)));
                m.push((copy_str("error"), Json::Null));
            },
            _ => return Err(copy_str("cached recommendation document missing 'recommendations'")),
        },
    }
    proof {
        lemma_view_members(m@);
        lemma_view_seq(Seq::<Json>::empty());
    }
    assert(view_seq(Seq::<Json>::empty()) =~= Seq::<JsonV>::empty());
    assert(view_members(m@) =~= profile_recommendations(view_seq(cache@), p@)->Ok_0->Obj_0);
    Ok(Json::Object(m))
}

/// The recommendations of each requested profile, from the cached
/// documents of the training job.
pub fn recommendations_for(profile_ids: &Vec<String>, cache: &Vec<Json>) -> (r: Result<Vec<Json>, String>)
    ensures
        match r {
            Ok(v) => recommendations_upto(view_seq(cache@), strings_view(profile_ids@), profile_ids@.len() as int) == Ok::<Seq<JsonV>, Seq<char>>(view_seq(v@)),
            Err(m) => recommendations_upto(view_seq(cache@), strings_view(profile_ids@), profile_ids@.len() as int) == Err::<Seq<JsonV>, Seq<char>>(m@),
        },
{
    let ghost ps = strings_view(profile_ids@);
    let mut out: Vec<Json> = Vec::new();
    proof {
        lemma_view_seq(out@);
    }
    let mut n: usize = 0;
    while n < profile_ids.len()
        invariant
            n <= profile_ids@.len(),
            ps == strings_view(profile_ids@),
            recommendations_upto(view_seq(cache@), ps, n as int) == Ok::<Seq<JsonV>, Seq<char>>(view_seq(out@)),
        decreases profile_ids@.len() - n,
    {
        assert(ps[n as int] == profile_ids@[n as int]@);
        match recommendation_entry(cache, profile_ids[n].as_str()) {
            Ok(e) => {
                let ghost before = out@;
                out.push(e);
                proof {
                    lemma_view_seq(before);
                    lemma_view_seq(out@);
                    assert(view_seq(out@) =~= view_seq(before).push(out@.last()@));
                }
            },
            Err(m) => {
                proof {
                    lemma_recs_err(view_seq(cache@), ps, n + 1, ps.len() as int);
                }
                return Err(m);
            },
        }
        n = n + 1;
    }
    Ok(out)
}

/// The meta data of the model: the tuning job's `best_model_meta_data`
/// with the training job and the model's creation date; the error of a
/// job without them.
pub open spec fn model_meta(job: JsonV, training_job_id: Seq<char>) -> Result<JsonV, Seq<char>> {
    match job.get("best_model_meta_data"@) {
        Some(JsonV::Obj(m)) => match date_millis(index_or_null(job, "updated_at"@)) {
            None => Err("hp tuning job missing updated_at"@),
            Some(ms) => match gmt_date_text(ms) {
                None => Err("hp tuning job updated_at out of range"@),
                Some(t) => Ok(JsonV::Obj(members_insert(
                    members_insert(m, "training_job_id"@, JsonV::Str(training_job_id)),
                    "model_created_at"@,
                    JsonV::Str(t),
                ))),
            },
        },
        _ => Err("hp tuning job best_model_meta_data is not an object"@),
    }
}

/// The meta data of the model that made the recommendations.
pub fn training_job_meta(job: &Json, training_job_id: &str) -> (r: Result<Json, String>)
    ensures
        match r {
            Ok(j) => model_meta(job@, training_job_id@) == Ok::<JsonV, Seq<char>>(j@),
            Err(m) => model_meta(job@, training_job_id@) == Err::<JsonV, Seq<char>>(m@),
        },
{
    let mut m = match job.get("best_model_meta_data") {
        Some(Json::Object(m)) => crate::json::clone_members(m),
        _ => return Err(copy_str("hp tuning job best_model_meta_data is not an object")),
    };
    insert_member(&mut m, "training_job_id", Json::Str(copy_str(training_job_id)));
    let ms = match job.get("updated_at") {
        Some(u) => date_millis_of(u),
        None => date_millis_of(&Json::Null),
    };
    let ms = match ms {
        Some(ms) => ms,
        None => return Err(copy_str("hp tuning job missing updated_at")),
    };
    let t = match millis_to_gmt(ms) {
        Some(t) => t,
        None => return Err(copy_str("hp tuning job updated_at out of range")),
    };
    insert_member(&mut m, "model_created_at", Json::Str(t));
    Ok(Json::Object(m))
}

/// The order of tuning jobs: the `updated_at` milliseconds of a job, and
/// the least `i64` for a job without them.
pub open spec fn job_recency(job: JsonV) -> int {
    match date_millis(index_or_null(job, "updated_at"@)) {
        Some(ms) => ms,
        None => i64::MIN as int,
    }
}

fn recency_of(job: &Json) -> (r: i64)
    ensures
        r as int == job_recency(job@),
{
    let ms = match job.get("updated_at") {
        Some(u) => date_millis_of(u),
        None => date_millis_of(&Json::Null),
    };
    match ms {
        Some(m) => m,
        None => i64::MIN,
    }
}

/// The latest tuning job of the completed ones: the first of those with
/// the greatest recency, and none of no jobs.
pub fn latest_tuning_job(jobs: &Vec<Json>) -> (r: Option<usize>)
    ensures
        match r {
            None => jobs@.len() == 0,
            Some(i) => {
                &&& i < jobs@.len()
                &&& forall|j: int| 0 <= j < jobs@.len() ==> job_recency(#[trigger] jobs@[j]@) <= job_recency(jobs@[i as int]@)
                &&& forall|j: int| 0 <= j < i ==> job_recency(#[trigger] jobs@[j]@) < job_recency(jobs@[i as int]@)
            },
        },
{
    if jobs.len() == 0 {
        return None;
    }
    let mut best: usize = 0;
    let mut best_key: i64 = recency_of(&jobs[0]);
    let mut k: usize = 1;
    while k < jobs.len()
        invariant
            0 <= best < k <= jobs@.len(),
            best_key as int == job_recency(jobs@[best as int]@),
            forall|j: int| 0 <= j < k ==> job_recency(#[trigger] jobs@[j]@) <= best_key,
            forall|j: int| 0 <= j < best ==> job_recency(#[trigger] jobs@[j]@) < best_key,
        decreases jobs@.len() - k,
    {
        let key: i64 = recency_of(&jobs[k]);
        if key > best_key {
            best = k;
            best_key = key;
        }
        k = k + 1;
    }
    Some(best)
}

/// The body of a recommendations reply: the recommendations and the
/// model's meta data, renamed for the reply; the error of meta data that
/// is no object or lacks one of the three members it is read from.
pub open spec fn recommendations_body(recs: Seq<JsonV>, meta: JsonV) -> Result<JsonV, Seq<char>> {
    match meta {
        JsonV::Obj(_) => match (meta.get("training_job_id"@), meta.get("auc_score"@), meta.get("model_created_at"@)) {
            (Some(t), Some(a), Some(c)) => Ok(JsonV::Obj(seq![
                ("request_meta"@, JsonV::Obj(seq![
                    ("request_status"@, JsonV::Str("Success"@)),
                    ("message"@, JsonV::Str("Successfully predicted recommendations"@)),
                ])),
                ("recommendations"@, JsonV::Arr(recs)),
                ("model_meta_data"@, JsonV::Obj(seq![
                    ("training_job_id"@, t),
                    ("model_accuracy_score"@, a),
                    ("recommender_event_type"@, JsonV::Str("charged"@)),
                    ("model_created_at"@, c),
                ])),
            ])),
            _ => Err("training job meta missing training_job_id / auc_score / model_created_at"@),
        },
        _ => Err("training job meta is not an object"@),
    }
}

fn pair(k: &str, v: Json) -> (r: (String, Json))
    ensures
        r.0@ == k@,
        r.1 == v,
{
    (copy_str(k), v)
}

/// Builds the body of a recommendations reply.
pub fn recommendations_response(recs: &Vec<Json>, meta: &Json) -> (r: Result<Json, String>)
    ensures
        match r {
            Ok(j) => recommendations_body(view_seq(recs@), meta@) == Ok::<JsonV, Seq<char>>(j@),
            Err(m) => recommendations_body(view_seq(recs@), meta@) == Err::<JsonV, Seq<char>>(m@),
        },
{
    if !meta.is_object() {
        return Err(copy_str("training job meta is not an object"));
    }
    let (t, a, c) = match (meta.get("training_job_id"), meta.get("auc_score"), meta.get("model_created_at")) {
        (Some(t), Some(a), Some(c)) => (t.deep_clone(), a.deep_clone(), c.deep_clone()),
        _ => return Err(copy_str("training job meta missing training_job_id / auc_score / model_created_at")),
    };
    proof {
        lemma_view_seq(recs@);
    }
    let mut all: Vec<Json> = Vec::new();
    let mut k: usize = 0;
    while k < recs.len()
        invariant
            k <= recs@.len(),
            all@.len() == k,
            forall|q: int| 0 <= q < k ==> (#[trigger] all@[q])@ == recs@[q]@,
        decreases recs@.len() - k,
    {
        all.push(recs[k].deep_clone());
        k = k + 1;
    }
    proof {
        lemma_view_seq(all@);
    }
    assert(view_seq(all@) =~= view_seq(recs@));
    let mut request_meta: Vec<(String, Json)> = Vec::new();
    request_meta.push(pair("request_status", Json::Str(copy_str("Success"))));
    request_meta.push(pair("message", Json::Str(copy_str("Successfully predicted recommendations"))));
    let mut model: Vec<(String, Json)> = Vec::new();
    model.push(pair("training_job_id", t));
    model.push(pair("model_accuracy_score", a));
    model.push(pair("recommender_event_type", Json::Str(copy_str("charged"))));
    model.push(pair("model_created_at", c));
    let mut body: Vec<(String, Json)> = Vec::new();
    body.push(pair("request_meta", Json::Object(request_meta)));
    body.push(pair("recommendations", Json::Array(all)));
    body.push(pair("model_meta_data", Json::Object(model)));
    proof {
        lemma_view_members(request_meta@);
        lemma_view_members(model@);
        lemma_view_members(body@);
    }
    let ghost want = recommendations_body(view_seq(recs@), meta@)->Ok_0->Obj_0;
    assert(view_members(request_meta@) =~= want[0].1->Obj_0);
    assert(view_members(model@) =~= want[2].1->Obj_0);
    assert(view_members(body@) =~= want);
    Ok(Json::Object(body))
}

} // verus!
