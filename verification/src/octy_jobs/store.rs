//! How jobs are stored: whether a requested job is created, the writes of
//! job updates, the claim of a job by a queue pass, the deletion of jobs,
//! and the pages of accounts the account service answers.

use vstd::prelude::*;
use crate::events::verify::index_or_null;
use crate::items::store::get_or_null;
use crate::json::{
    json_text, json_to_string, lemma_view_members, lemma_view_seq, view_members, view_seq, Json,
    JsonNumber, JsonV, NumV,
};
use crate::messaging::rewards::parsed_view;
use crate::octy_jobs::queue::{meta_int, JobUpdate};
use crate::text::{chars_of, concat2, concat3, copy_str, str_eq};

verus! {

fn obj1(k: &str, v: Json) -> (r: Json)
    ensures
        r@ == JsonV::Obj(seq![(k@, v@)]),
{
    let mut m: Vec<(String, Json)> = Vec::new();
    m.push((copy_str(k), v));
    proof {
        lemma_view_members(m@);
    }
    assert(view_members(m@) =~= seq![(k@, v@)]);
    Json::Object(m)
}

fn meta_of(job: &Json, key: &str) -> (r: Json)
    ensures
        r@ == index_or_null(index_or_null(job@, "job_meta"@), key@),
{
    match job.get("job_meta") {
        Some(m) => get_or_null(m, key),
        None => get_or_null(&Json::Null, key),
    }
}

/// The query of a stored job like a requested one: the same account, job
/// type, routing key and data.
pub open spec fn existing_job_query(account_id: Seq<char>, job: JsonV) -> JsonV {
    JsonV::Obj(seq![("$and"@, JsonV::Arr(seq![
        JsonV::Obj(seq![("account_id"@, JsonV::Str(account_id))]),
        JsonV::Obj(seq![("job_meta.job_type"@, index_or_null(index_or_null(job, "job_meta"@), "job_type"@))]),
        JsonV::Obj(seq![("job_meta.amqp_routing_key"@, index_or_null(index_or_null(job, "job_meta"@), "amqp_routing_key"@))]),
        JsonV::Obj(seq![("job_data"@, index_or_null(job, "job_data"@))]),
    ]))])
}

/// Builds the query of a stored job like a requested one.
pub fn existing_job_filter(account_id: &str, job: &Json) -> (r: Json)
    ensures
        r@ == existing_job_query(account_id@, job@),
{
    let mut conds: Vec<Json> = Vec::new();
    conds.push(obj1("account_id", Json::Str(copy_str(account_id))));
    conds.push(obj1("job_meta.job_type", meta_of(job, "job_type")));
    conds.push(obj1("job_meta.amqp_routing_key", meta_of(job, "amqp_routing_key")));
    conds.push(obj1("job_data", get_or_null(job, "job_data")));
    proof {
        lemma_view_seq(conds@);
    }
    let ghost want = existing_job_query(account_id@, job@)->Obj_0[0].1->Arr_0;
    assert(view_seq(conds@) =~= want);
    let arr = Json::Array(conds);
    obj1("$and", arr)
}

/// A requested job is created unless a like one is still running: one that
/// has neither reached its desired runs nor its failure threshold.
pub open spec fn job_needed(existing: Option<JsonV>) -> bool {
    match existing {
        None => true,
        Some(j) => meta_int(j, "successful_runs"@) >= meta_int(j, "desired_runs"@)
            || meta_int(j, "failed_runs"@) >= meta_int(j, "fail_threshold"@),
    }
}

fn meta_int_of(job: &Json, key: &str) -> (r: i64)
    ensures
        r as int == meta_int(job@, key@),
{
    match job.get("job_meta") {
        Some(m) => match m.get(key) {
            Some(Json::Number(JsonNumber::Int(i))) => *i,
            _ => 0,
        },
        None => 0,
    }
}

/// Whether a requested job is created, given the first like stored job.
pub fn job_needs_creating(existing: Option<&Json>) -> (r: bool)
    ensures
        r == job_needed(match existing { Some(j) => Some(j@), None => None }),
{
    match existing {
        None => true,
        Some(j) => {
            meta_int_of(j, "successful_runs") >= meta_int_of(j, "desired_runs")
                || meta_int_of(j, "failed_runs") >= meta_int_of(j, "fail_threshold")
        },
    }
}

/// A hexadecimal digit.
pub open spec fn is_hex_digit(c: char) -> bool {
    ('0' <= c && c <= '9') || ('a' <= c && c <= 'f') || ('A' <= c && c <= 'F')
}

/// A job identifier as the store's object identifier: an `{"$oid": ..}`
/// as it is, a string of 24 hexadecimal digits wrapped in one; the error
/// of any other string or value.
pub open spec fn oid_of(id: JsonV) -> Result<JsonV, Seq<char>> {
    if id.get("$oid"@) is Some {
        Ok(id)
    } else {
        match id {
            JsonV::Str(s) => if s.len() == 24 && forall|i: int| 0 <= i < s.len() ==> is_hex_digit(#[trigger] s[i]) {
                Ok(JsonV::Obj(seq![("$oid"@, JsonV::Str(s))]))
            } else {
                Err("'"@ + s + "' is not a valid ObjectId, it must be a 12-byte input or a 24-character hex string"@)
            },
            _ => Err("invalid octy_job_id"@),
        }
    }
}

/// The store's object identifier of a job identifier.
pub fn oid_filter(id: &Json) -> (r: Result<Json, String>)
    ensures
        match r {
            Ok(j) => oid_of(id@) == Ok::<JsonV, Seq<char>>(j@),
            Err(e) => oid_of(id@) == Err::<JsonV, Seq<char>>(e@),
        },
{
    if id.get("$oid").is_some() {
        return Ok(id.deep_clone());
    }
    match id {
        Json::Str(s) => {
            let cs = chars_of(s.as_str());
            let mut ok = cs.len() == 24;
            let mut i: usize = 0;
            while i < cs.len()
                invariant
                    i <= cs@.len(),
                    cs@ == s@,
                    ok == (cs@.len() == 24 && forall|j: int| 0 <= j < i ==> is_hex_digit(#[trigger] cs@[j])),
                decreases cs@.len() - i,
            {
                let c = cs[i];
                let hex = ('0' <= c && c <= '9') || ('a' <= c && c <= 'f') || ('A' <= c && c <= 'F');
                ok = ok && hex;
                i = i + 1;
            }
            if ok {
                Ok(obj1("$oid", Json::Str(copy_str(s.as_str()))))
            } else {
                Err(concat3("'", s.as_str(), "' is not a valid ObjectId, it must be a 12-byte input or a 24-character hex string"))
            }
        },
        _ => Err(copy_str("invalid octy_job_id")),
    }
}

/// The write of a job update at `now`: the job's filter, and its update.
/// A job set to processing records its run; any other update counts the
/// runs it reports.
pub open spec fn job_update_write(u_account: JsonV, u_id: JsonV, suc: int, fail: int, status: Seq<char>, action: Seq<char>, now: JsonV) -> Result<(JsonV, JsonV), Seq<char>> {
    match oid_of(u_id) {
        Err(e) => Err(e),
        Ok(oid) => Ok((
            JsonV::Obj(seq![("account_id"@, u_account), ("_id"@, oid)]),
            if status == "processing"@ {
                JsonV::Obj(seq![("$set"@, JsonV::Obj(seq![
                    ("job_meta.status"@, JsonV::Str(status)),
                    ("job_meta.last_run"@, now),
                    ("job_meta.updated_at"@, now),
                    ("job_meta.last_updated_action"@, JsonV::Str(action)),
                ]))])
            } else {
                JsonV::Obj(seq![
                    ("$inc"@, JsonV::Obj(seq![
                        ("job_meta.successful_runs"@, JsonV::Num(NumV::Int(suc))),
                        ("job_meta.failed_runs"@, JsonV::Num(NumV::Int(fail))),
                    ])),
                    ("$set"@, JsonV::Obj(seq![
                        ("job_meta.status"@, JsonV::Str(status)),
                        ("job_meta.updated_at"@, now),
                        ("job_meta.last_updated_action"@, JsonV::Str(action)),
                    ])),
                ])
            },
        )),
    }
}

/// Builds the write of a job update at `now`.
pub fn job_update_doc(u: &JobUpdate, now: &Json) -> (r: Result<(Json, Json), String>)
    ensures
        ({
            let w = job_update_write(u.account_id@, u.octy_job_id@, u.suc_inc_by as int, u.fail_inc_by as int, u.status@, u.action@, now@);
            match r {
                Ok((f, d)) => w == Ok::<(JsonV, JsonV), Seq<char>>((f@, d@)),
                Err(e) => w == Err::<(JsonV, JsonV), Seq<char>>(e@),
            }
        }),
{
    let oid = match oid_filter(&u.octy_job_id) {
        Ok(o) => o,
        Err(e) => return Err(e),
    };
    let mut f: Vec<(String, Json)> = Vec::new();
    f.push((copy_str("account_id"), u.account_id.deep_clone()));
    f.push((copy_str("_id"), oid));
    proof {
        lemma_view_members(f@);
    }
    let ghost fv = view_members(f@);
    let processing = str_eq(u.status.as_str(), "processing");
    let mut set: Vec<(String, Json)> = Vec::new();
    set.push((copy_str("job_meta.status"), Json::Str(copy_str(u.status.as_str()))));
    if processing {
        set.push((copy_str("job_meta.last_run"), now.deep_clone()));
    }
    set.push((copy_str("job_meta.updated_at"), now.deep_clone()));
    set.push((copy_str("job_meta.last_updated_action"), Json::Str(copy_str(u.action.as_str()))));
    proof {
        lemma_view_members(set@);
    }
    let ghost sv = view_members(set@);
    let mut d: Vec<(String, Json)> = Vec::new();
    if !processing {
        let mut inc: Vec<(String, Json)> = Vec::new();
        inc.push((copy_str("job_meta.successful_runs"), Json::Number(JsonNumber::Int(u.suc_inc_by))));
        inc.push((copy_str("job_meta.failed_runs"), Json::Number(JsonNumber::Int(u.fail_inc_by))));
        proof {
            lemma_view_members(inc@);
        }
        assert(view_members(inc@) =~= seq![
            ("job_meta.successful_runs"@, JsonV::Num(NumV::Int(u.suc_inc_by as int))),
            ("job_meta.failed_runs"@, JsonV::Num(NumV::Int(u.fail_inc_by as int))),
        ]);
        d.push((copy_str("$inc"), Json::Object(inc)));
    }
    d.push((copy_str("$set"), Json::Object(set)));
    proof {
        lemma_view_members(d@);
    }
    let ghost w = job_update_write(u.account_id@, u.octy_job_id@, u.suc_inc_by as int, u.fail_inc_by as int, u.status@, u.action@, now@);
    assert(fv =~= w->Ok_0.0->Obj_0);
    if processing {
        assert(sv =~= w->Ok_0.1->Obj_0[0].1->Obj_0);
    } else {
        assert(sv =~= w->Ok_0.1->Obj_0[1].1->Obj_0);
    }
    assert(view_members(d@) =~= w->Ok_0.1->Obj_0);
    Ok((Json::Object(f), Json::Object(d)))
}

/// A job identifier as a claim key shows it: an `{"$oid": hex}` as
/// `{'$oid': 'hex'}`, a string as it is, anything else as JSON text.
pub open spec fn job_id_repr(id: JsonV) -> Seq<char> {
    match id.get("$oid"@) {
        Some(JsonV::Str(hex)) => "{'$oid': '"@ + hex + "'}"@,
        _ => match id {
            JsonV::Str(s) => s,
            _ => json_text(id),
        },
    }
}

/// The key under which a queue pass claims a job of an account.
pub open spec fn job_claim_key(account_id: Seq<char>, id: JsonV) -> Seq<char> {
    "account.id:"@ + account_id + ":octy.job:"@ + job_id_repr(id)
}

/// Builds the key under which a queue pass claims a job.
pub fn claim_key(account_id: &str, id: &Json) -> (r: String)
    ensures
        r@ == job_claim_key(account_id@, id@),
{
    let repr = match id.get("$oid") {
        Some(Json::Str(hex)) => concat3("{'$oid': '", hex.as_str(), "'}"),
        _ => match id {
            Json::Str(s) => copy_str(s.as_str()),
            _ => json_to_string(id),
        },
    };
    let head = concat3("account.id:", account_id, ":octy.job:");
    let r = concat2(head.as_str(), repr.as_str());
    assert(r@ =~= job_claim_key(account_id@, id@));
    r
}

/// The deletion filter of jobs: those of the accounts identified (by job
/// identifier or alternative identifier) by one of `identifiers`; none when
/// no identifier is given (nothing is deleted).
pub open spec fn jobs_deletion(account_ids: Seq<JsonV>, identifiers: Seq<JsonV>) -> Option<JsonV> {
    if identifiers.len() == 0 {
        None
    } else {
        Some(JsonV::Obj(seq![
            ("$or"@, JsonV::Arr(seq![
                JsonV::Obj(seq![("_id"@, JsonV::Obj(seq![("$in"@, JsonV::Arr(identifiers))]))]),
                JsonV::Obj(seq![("alt_dentifier"@, JsonV::Obj(seq![("$in"@, JsonV::Arr(identifiers))]))]),
            ])),
            ("account_id"@, JsonV::Obj(seq![("$in"@, JsonV::Arr(account_ids))])),
        ]))
    }
}

fn copy_all(v: &Vec<Json>) -> (r: Vec<Json>)
    ensures
        view_seq(r@) == view_seq(v@),
{
    proof {
        lemma_view_seq(v@);
    }
    let mut out: Vec<Json> = Vec::new();
    let mut k: usize = 0;
    while k < v.len()
        invariant
            k <= v@.len(),
            out@.len() == k,
            forall|q: int| 0 <= q < k ==> (#[trigger] out@[q])@ == v@[q]@,
        decreases v@.len() - k,
    {
        out.push(v[k].deep_clone());
        k = k + 1;
    }
    proof {
        lemma_view_seq(out@);
    }
    assert(view_seq(out@) =~= view_seq(v@));
    out
}

/// Builds the deletion filter of jobs.
pub fn jobs_deletion_filter(account_ids: &Vec<Json>, identifiers: &Vec<Json>) -> (r: Option<Json>)
    ensures
        match r {
            Some(j) => jobs_deletion(view_seq(account_ids@), view_seq(identifiers@)) == Some(j@),
            None => jobs_deletion(view_seq(account_ids@), view_seq(identifiers@)) is None,
        },
{
    proof {
        lemma_view_seq(identifiers@);
    }
    if identifiers.len() == 0 {
        return None;
    }
    let a = obj1("_id", obj1("$in", Json::Array(copy_all(identifiers))));
    let b = obj1("alt_dentifier", obj1("$in", Json::Array(copy_all(identifiers))));
    let mut ors: Vec<Json> = Vec::new();
    ors.push(a);
    ors.push(b);
    proof {
        lemma_view_seq(ors@);
    }
    let ghost want = jobs_deletion(view_seq(account_ids@), view_seq(identifiers@))->Some_0->Obj_0;
    assert(view_seq(ors@) =~= want[0].1->Arr_0);
    let mut m: Vec<(String, Json)> = Vec::new();
    m.push((copy_str("$or"), Json::Array(ors)));
    m.push((copy_str("account_id"), obj1("$in", Json::Array(copy_all(account_ids)))));
    proof {
        lemma_view_members(m@);
    }
    assert(view_members(m@) =~= want);
    Some(Json::Object(m))
}

/// The identifiers of jobs deemed invalid, and their accounts.
pub open spec fn invalid_job_keys(jobs: Seq<JsonV>) -> (Seq<JsonV>, Seq<JsonV>) {
    (
        jobs.map_values(|j: JsonV| index_or_null(j, "account_id"@)),
        jobs.map_values(|j: JsonV| index_or_null(j, "_id"@)),
    )
}

/// Reads the accounts and identifiers of jobs deemed invalid.
pub fn invalid_jobs_keys(jobs: &Vec<Json>) -> (r: (Vec<Json>, Vec<Json>))
    ensures
        (view_seq(r.0@), view_seq(r.1@)) == invalid_job_keys(view_seq(jobs@)),
{
    proof {
        lemma_view_seq(jobs@);
    }
    let ghost jv = view_seq(jobs@);
    let mut accounts: Vec<Json> = Vec::new();
    let mut ids: Vec<Json> = Vec::new();
    let mut k: usize = 0;
    while k < jobs.len()
        invariant
            k <= jobs@.len(),
            jv == view_seq(jobs@),
            jv.len() == jobs@.len(),
            forall|q: int| 0 <= q < jobs@.len() ==> #[trigger] jv[q] == jobs@[q]@,
            accounts@.len() == k,
            ids@.len() == k,
            forall|q: int| 0 <= q < k ==> (#[trigger] accounts@[q])@ == index_or_null(jv[q], "account_id"@),
            forall|q: int| 0 <= q < k ==> (#[trigger] ids@[q])@ == index_or_null(jv[q], "_id"@),
        decreases jobs@.len() - k,
    {
        assert(jv[k as int] == jobs@[k as int]@);
        accounts.push(get_or_null(&jobs[k], "account_id"));
        ids.push(get_or_null(&jobs[k], "_id"));
        k = k + 1;
    }
    proof {
        lemma_view_seq(accounts@);
        lemma_view_seq(ids@);
    }
    assert(view_seq(accounts@) =~= jv.map_values(|j: JsonV| index_or_null(j, "account_id"@)));
    assert(view_seq(ids@) =~= jv.map_values(|j: JsonV| index_or_null(j, "_id"@)));
    (accounts, ids)
}

/// A page of the account service's answer read at `cursor`: none and no
/// next page after a reply other than 200; else its accounts (none where
/// it lacks them) and the cursor of the next page, none once a page counts
/// no account (or the next cursor would not fit in an `i64`); the error of
/// a reply that is no JSON.
pub open spec fn accounts_page_of(cursor: int, status: int, parsed: Result<JsonV, Seq<char>>) -> Result<(Seq<JsonV>, Option<int>), Seq<char>> {
    if status != 200 {
        Ok((seq![], None))
    } else {
        match parsed {
            Err(e) => Err("invalid accounts response: "@ + e),
            Ok(p) => {
                let accounts = match p.get("accounts"@) {
                    Some(JsonV::Arr(a)) => a,
                    _ => seq![],
                };
                let count = match index_or_null(index_or_null(p, "request_meta"@), "count"@) {
                    JsonV::Num(NumV::Int(c)) => c,
                    _ => 0,
                };
                Ok((accounts, if count < 1 || cursor + count > i64::MAX as int { None } else { Some(cursor + count) }))
            },
        }
    }
}

/// Reads a page of the account service's answer.
pub fn accounts_page(cursor: i64, status: u16, parsed: Result<Json, String>) -> (r: Result<(Vec<Json>, Option<i64>), String>)
    ensures
        match r {
            Ok((accounts, next)) => accounts_page_of(cursor as int, status as int, parsed_view(parsed)) == Ok::<(Seq<JsonV>, Option<int>), Seq<char>>((
                view_seq(accounts@),
                match next { Some(n) => Some(n as int), None => None },
            )),
            Err(e) => accounts_page_of(cursor as int, status as int, parsed_view(parsed)) == Err::<(Seq<JsonV>, Option<int>), Seq<char>>(e@),
        },
{
    if status != 200 {
        let v: Vec<Json> = Vec::new();
        proof {
            lemma_view_seq(v@);
        }
        assert(view_seq(v@) =~= Seq::<JsonV>::empty());
        return Ok((v, None));
    }
    let p = match parsed {
        Err(e) => return Err(concat2("invalid accounts response: ", e.as_str())),
        Ok(p) => p,
    };
    let accounts = match p.get("accounts") {
        Some(Json::Array(a)) => copy_all(a),
        _ => {
            let v: Vec<Json> = Vec::new();
            proof {
                lemma_view_seq(v@);
            }
            assert(view_seq(v@) =~= Seq::<JsonV>::empty());
            v
        },
    };
    let count: i64 = match p.get("request_meta") {
        Some(m) => match m.get("count") {
            Some(Json::Number(JsonNumber::Int(c))) => *c,
            _ => 0,
        },
        None => 0,
    };
    let next = if count < 1 {
        None
    } else {
        cursor.checked_add(count)
    };
    Ok((accounts, next))
}

} // verus!
