//! The decisions of a job-queue pass: which jobs are due, which are spent
//! or failed and go, which hung in processing; the job updates it writes;
//! and the document of a new job.

use vstd::prelude::*;
use crate::dates::{date_millis, date_millis_of};
use crate::events::verify::index_or_null;
use crate::json::{
    json_eq, json_equal, lemma_view_members, lemma_view_seq, view_members, view_seq, Json,
    JsonNumber, JsonV, NumV,
};
use crate::octy_jobs::models::{CreateOctyJob, OctyJobCallBack};
use crate::text::{copy_str, str_eq};

verus! {

/// `job_meta.<key>` of a job as an `i64` integer, else 0.
pub open spec fn meta_int(job: JsonV, key: Seq<char>) -> int {
    match index_or_null(index_or_null(job, "job_meta"@), key) {
        JsonV::Num(NumV::Int(i)) => i,
        _ => 0,
    }
}

/// `job_meta.status` of a job as a string, else empty.
pub open spec fn meta_status(job: JsonV) -> Seq<char> {
    match index_or_null(index_or_null(job, "job_meta"@), "status"@) {
        JsonV::Str(s) => s,
        _ => seq![],
    }
}

/// Whole minutes in `d` milliseconds, rounded half away from zero.
pub open spec fn elapsed_minutes(d: int) -> int {
    if d >= 0 {
        (d + 30000) / 60000
    } else {
        -((-d + 30000) / 60000)
    }
}

/// A pending job that still has runs to make.
pub open spec fn is_pending(job: JsonV) -> bool {
    meta_int(job, "successful_runs"@) < meta_int(job, "desired_runs"@) && meta_status(job) == "pending"@
}

/// The time a job last ran: its last run, else its creation; 0 when it
/// has neither.
pub open spec fn last_run_millis(job: JsonV) -> int {
    let meta = index_or_null(job, "job_meta"@);
    match date_millis(index_or_null(meta, "last_run"@)) {
        Some(ms) => ms,
        None => match date_millis(index_or_null(meta, "created_at"@)) {
            Some(ms) => ms,
            None => 0,
        },
    }
}

/// A pending job is due: it runs every time, or its interval (minutes)
/// has passed since it last ran.
pub open spec fn is_due(job: JsonV, now: int) -> bool {
    meta_int(job, "time_interval"@) == 0 || elapsed_minutes(now - last_run_millis(job)) >= meta_int(
        job,
        "time_interval"@,
    )
}

/// Law: a job with a readable last run is timed from it, whatever its
/// creation time: with an interval of `t > 0` minutes it is due exactly
/// when at least `t` minutes, rounded to the nearest minute (half a minute
/// up), have passed since that run.
pub proof fn law_jobs_are_due_by_their_last_run(job: JsonV, now: int, last: int)
    requires
        date_millis(index_or_null(index_or_null(job, "job_meta"@), "last_run"@)) == Some(last),
        meta_int(job, "time_interval"@) > 0,
    ensures
        last_run_millis(job) == last,
        is_due(job, now) <==> now - last >= meta_int(job, "time_interval"@) * 60000 - 30000,
{
    let t = meta_int(job, "time_interval"@);
    let d = now - last;
    if d >= 0 {
        assert(((d + 30000) / 60000 >= t) <==> (d + 30000 >= t * 60000)) by (nonlinear_arith)
            requires
                d >= 0,
                t > 0,
        ;
    } else {
        assert((-d + 30000) / 60000 >= 0) by (nonlinear_arith)
            requires
                d < 0,
        ;
    }
}

/// Law: a job never run is timed from its creation.
pub proof fn law_jobs_never_run_are_timed_from_creation(job: JsonV, created: int)
    requires
        date_millis(index_or_null(index_or_null(job, "job_meta"@), "last_run"@)) is None,
        date_millis(index_or_null(index_or_null(job, "job_meta"@), "created_at"@)) == Some(created),
    ensures
        last_run_millis(job) == created,
{
}

/// A job that made all its runs.
pub open spec fn is_spent(job: JsonV) -> bool {
    meta_int(job, "successful_runs"@) >= meta_int(job, "desired_runs"@)
}

/// A job that failed more often than it may.
pub open spec fn is_failed(job: JsonV) -> bool {
    meta_int(job, "failed_runs"@) > meta_int(job, "fail_threshold"@)
}

/// A job in processing whose last run is a day or more ago.
pub open spec fn is_hung(job: JsonV, now: int) -> bool {
    meta_status(job) == "processing"@ && match date_millis(index_or_null(index_or_null(job, "job_meta"@), "last_run"@)) {
        Some(ms) => now - ms >= 86_400_000,
        None => false,
    }
}

/// The jobs among the first `n` that satisfy `f`, in order.
pub open spec fn jobs_where(jobs: Seq<JsonV>, f: spec_fn(JsonV) -> bool, n: int) -> Seq<JsonV>
    decreases n,
{
    if n <= 0 {
        seq![]
    } else if f(jobs[n - 1]) {
        jobs_where(jobs, f, n - 1).push(jobs[n - 1])
    } else {
        jobs_where(jobs, f, n - 1)
    }
}

/// The sorting of a pass's jobs at `now`.
pub struct JobSorting {
    /// Pending jobs that are due, to publish.
    pub runnable: Vec<Json>,
    /// Spent jobs, then failed ones, to delete.
    pub invalid: Vec<Json>,
    /// Jobs hung in processing, to reset.
    pub hung: Vec<Json>,
}

fn meta_int_of(job: &Json, key: &str) -> (r: i64)
    ensures
        r as int == meta_int(job@, key@),
{
    match job.get("job_meta") {
        Some(m) => match m.get(key) {
            Some(Json::Number(JsonNumber::Int(i))) => *i,
            _ => 0,
        },
        None => 0,
    }
}

fn meta_status_is(job: &Json, s: &str) -> (r: bool)
    ensures
        r == (meta_status(job@) == s@),
{
    let st: Option<&str> = match job.get("job_meta") {
        Some(m) => match m.get("status") {
            Some(Json::Str(x)) => Some(x.as_str()),
            _ => None,
        },
        None => None,
    };
    match st {
        Some(x) => str_eq(x, s),
        None => {
            proof {
                if s@.len() == 0 {
                    assert(s@ =~= Seq::<char>::empty());
                }
            }
            crate::text::chars_of(s).len() == 0
        },
    }
}

fn last_run_of(job: &Json) -> (r: i64)
    ensures
        r as int == last_run_millis(job@),
{
    match job.get("job_meta") {
        Some(m) => {
            let lr = match m.get("last_run") {
                Some(x) => date_millis_of(x),
                None => date_millis_of(&Json::Null),
            };
            match lr {
                Some(ms) => ms,
                None => {
                    let ca = match m.get("created_at") {
                        Some(x) => date_millis_of(x),
                        None => date_millis_of(&Json::Null),
                    };
                    match ca {
                        Some(ms) => ms,
                        None => 0,
                    }
                },
            }
        },
        None => {
            assert(date_millis(JsonV::Null) is None);
            0
        },
    }
}

fn hung_of(job: &Json, now_ms: i64) -> (r: bool)
    ensures
        r == is_hung(job@, now_ms as int),
{
    if !meta_status_is(job, "processing") {
        return false;
    }
    let lr = match job.get("job_meta") {
        Some(m) => match m.get("last_run") {
            Some(x) => date_millis_of(x),
            None => date_millis_of(&Json::Null),
        },
        None => date_millis_of(&Json::Null),
    };
    match lr {
        Some(ms) => (now_ms as i128) - (ms as i128) >= 86_400_000,
        None => false,
    }
}

fn due_of(job: &Json, now_ms: i64) -> (r: bool)
    ensures
        r == is_due(job@, now_ms as int),
{
    let interval = meta_int_of(job, "time_interval");
    if interval == 0 {
        return true;
    }
    let d: i128 = (now_ms as i128) - (last_run_of(job) as i128);
    let minutes: i128 = if d >= 0 {
        (d + 30000) / 60000
    } else {
        -((-d + 30000) / 60000)
    };
    minutes >= interval as i128
}

/// Sorts the jobs of a pass at `now_ms` (epoch milliseconds).
pub fn sort_jobs(jobs: &Vec<Json>, now_ms: i64) -> (r: JobSorting)
    ensures
        view_seq(r.runnable@) == jobs_where(
            view_seq(jobs@),
            |j: JsonV| is_pending(j) && is_due(j, now_ms as int),
            jobs@.len() as int,
        ),
        view_seq(r.invalid@) == jobs_where(view_seq(jobs@), |j: JsonV| is_spent(j), jobs@.len() as int) + jobs_where(
            view_seq(jobs@),
            |j: JsonV| is_failed(j),
            jobs@.len() as int,
        ),
        view_seq(r.hung@) == jobs_where(view_seq(jobs@), |j: JsonV| is_hung(j, now_ms as int), jobs@.len() as int),
{
    proof {
        lemma_view_seq(jobs@);
    }
    let ghost jv = view_seq(jobs@);
    let ghost f_run = |j: JsonV| is_pending(j) && is_due(j, now_ms as int);
    let ghost f_spent = |j: JsonV| is_spent(j);
    let ghost f_failed = |j: JsonV| is_failed(j);
    let ghost f_hung = |j: JsonV| is_hung(j, now_ms as int);
    let mut runnable: Vec<Json> = Vec::new();
    let mut spent: Vec<Json> = Vec::new();
    let mut failed: Vec<Json> = Vec::new();
    let mut hung: Vec<Json> = Vec::new();
    proof {
        lemma_view_seq(runnable@);
        lemma_view_seq(spent@);
        lemma_view_seq(failed@);
        lemma_view_seq(hung@);
    }
    let mut k: usize = 0;
    while k < jobs.len()
        invariant
            k <= jobs@.len(),
            jv == view_seq(jobs@),
            jv.len() == jobs@.len(),
            forall|q: int| 0 <= q < jobs@.len() ==> #[trigger] jv[q] == jobs@[q]@,
            f_run == (|j: JsonV| is_pending(j) && is_due(j, now_ms as int)),
            f_spent == (|j: JsonV| is_spent(j)),
            f_failed == (|j: JsonV| is_failed(j)),
            f_hung == (|j: JsonV| is_hung(j, now_ms as int)),
            view_seq(runnable@) == jobs_where(jv, f_run, k as int),
            view_seq(spent@) == jobs_where(jv, f_spent, k as int),
            view_seq(failed@) == jobs_where(jv, f_failed, k as int),
            view_seq(hung@) == jobs_where(jv, f_hung, k as int),
        decreases jobs@.len() - k,
    {
        let job = &jobs[k];
        assert(jv[k as int] == job@);
        let succ = meta_int_of(job, "successful_runs");
        let desired = meta_int_of(job, "desired_runs");
        let pending = succ < desired && meta_status_is(job, "pending");
        let ghost r0 = runnable@;
        let ghost s0 = spent@;
        let ghost f0 = failed@;
        let ghost h0 = hung@;
        if pending && due_of(job, now_ms) {
            runnable.push(job.deep_clone());
        }
        if succ >= desired {
            spent.push(job.deep_clone());
        }
        if meta_int_of(job, "failed_runs") > meta_int_of(job, "fail_threshold") {
            failed.push(job.deep_clone());
        }
        if hung_of(job, now_ms) {
            hung.push(job.deep_clone());
        }
        proof {
            lemma_view_seq(r0);
            lemma_view_seq(s0);
            lemma_view_seq(f0);
            lemma_view_seq(h0);
            lemma_view_seq(runnable@);
            lemma_view_seq(spent@);
            lemma_view_seq(failed@);
            lemma_view_seq(hung@);
            assert(view_seq(runnable@) =~= jobs_where(jv, f_run, k + 1));
            assert(view_seq(spent@) =~= jobs_where(jv, f_spent, k + 1));
            assert(view_seq(failed@) =~= jobs_where(jv, f_failed, k + 1));
            assert(view_seq(hung@) =~= jobs_where(jv, f_hung, k + 1));
        }
        k = k + 1;
    }
    let ghost s1 = spent@;
    let ghost f1 = failed@;
    let mut invalid = spent;
    invalid.append(&mut failed);
    proof {
        lemma_view_seq(s1);
        lemma_view_seq(f1);
        lemma_view_seq(invalid@);
        assert(invalid@ =~= s1 + f1);
        assert(view_seq(invalid@) =~= view_seq(s1) + view_seq(f1));
    }
    JobSorting { runnable, invalid, hung }
}

// ---------------------------------------------------------------------------
// Job updates
// ---------------------------------------------------------------------------

/// A change to a stored job: the counters to add to, its new status and
/// the action recorded.
pub struct JobUpdate {
    /// The account: the job's `account_id` or the account's `_id`.
    pub account_id: Json,
    /// The job: its identifier as the caller or the store gave it.
    pub octy_job_id: Json,
    pub suc_inc_by: i64,
    pub fail_inc_by: i64,
    pub status: String,
    pub action: String,
}

/// The update of a job that hung in processing: back to pending.
pub fn hung_job_update(job: &Json) -> (r: JobUpdate)
    ensures
        r.account_id@ == index_or_null(job@, "account_id"@),
        r.octy_job_id@ == index_or_null(job@, "_id"@),
        r.suc_inc_by == 0 && r.fail_inc_by == 0,
        r.status@ == "pending"@,
        r.action@ == "octy job queue --> Error occurred during processing :: job status hung as \"processing\" for more than 24 hours."@,
{
    JobUpdate {
        account_id: crate::items::store::get_or_null(job, "account_id"),
        octy_job_id: crate::items::store::get_or_null(job, "_id"),
        suc_inc_by: 0,
        fail_inc_by: 0,
        status: copy_str("pending"),
        action: copy_str("octy job queue --> Error occurred during processing :: job status hung as \"processing\" for more than 24 hours."),
    }
}

/// The update of a job whose account the account service did not return
/// (`reason` names why): one more failure, still pending.
pub fn failed_job_update(job: &Json, reason: &str) -> (r: JobUpdate)
    ensures
        r.account_id@ == index_or_null(job@, "account_id"@),
        r.octy_job_id@ == index_or_null(job@, "_id"@),
        r.suc_inc_by == 0 && r.fail_inc_by == 1,
        r.status@ == "pending"@,
        r.action@ == "octy job queue --> Error occurred during processing :: "@ + reason@,
{
    JobUpdate {
        account_id: crate::items::store::get_or_null(job, "account_id"),
        octy_job_id: crate::items::store::get_or_null(job, "_id"),
        suc_inc_by: 0,
        fail_inc_by: 1,
        status: copy_str("pending"),
        action: crate::text::concat2("octy job queue --> Error occurred during processing :: ", reason),
    }
}

/// The reason recorded for a job whose account is missing: the job's
/// `account_id` (empty unless a string).
pub open spec fn missing_account_reason(job: JsonV) -> Seq<char> {
    (match index_or_null(job, "account_id"@) {
        JsonV::Str(s) => s,
        _ => seq![],
    }) + " was not returned by the account service."@
}

/// The reason recorded for a job whose account is missing.
pub fn missing_account_text(job: &Json) -> (r: String)
    ensures
        r@ == missing_account_reason(job@),
{
    proof {
        reveal_strlit("");
    }
    let id: &str = match job.get("account_id") {
        Some(Json::Str(s)) => s.as_str(),
        _ => "",
    };
    crate::text::concat2(id, " was not returned by the account service.")
}

/// The update of a job that was published: it is processing.
pub fn processing_job_update(account: &Json, job: &Json) -> (r: JobUpdate)
    ensures
        r.account_id@ == index_or_null(account@, "_id"@),
        r.octy_job_id@ == index_or_null(job@, "_id"@),
        r.suc_inc_by == 0 && r.fail_inc_by == 0,
        r.status@ == "processing"@,
        r.action@ == "octy job queue --> processing job"@,
{
    JobUpdate {
        account_id: crate::items::store::get_or_null(account, "_id"),
        octy_job_id: crate::items::store::get_or_null(job, "_id"),
        suc_inc_by: 0,
        fail_inc_by: 0,
        status: copy_str("processing"),
        action: copy_str("octy job queue --> processing job"),
    }
}

/// The update of a job whose run reported back: one more success or
/// failure by the reported status, and pending again.
pub fn callback_job_update(cb: &OctyJobCallBack) -> (r: JobUpdate)
    ensures
        r.account_id@ == JsonV::Str(cb.account_id@),
        r.octy_job_id@ == JsonV::Str(cb.octy_job_id@),
        r.suc_inc_by == (if cb.status@ == "success"@ { 1int } else { 0 }),
        r.fail_inc_by == (if cb.status@ == "failed"@ { 1int } else { 0 }),
        r.status@ == "pending"@,
        r.action@ == "http callback --> updated job status"@,
{
    JobUpdate {
        account_id: Json::Str(copy_str(cb.account_id.as_str())),
        octy_job_id: Json::Str(copy_str(cb.octy_job_id.as_str())),
        suc_inc_by: if str_eq(cb.status.as_str(), "success") { 1 } else { 0 },
        fail_inc_by: if str_eq(cb.status.as_str(), "failed") { 1 } else { 0 },
        status: copy_str("pending"),
        action: copy_str("http callback --> updated job status"),
    }
}

/// The distinct `account_id` values of the first `n` jobs, in order of
/// first occurrence.
pub open spec fn job_accounts(jobs: Seq<JsonV>, n: int) -> Seq<JsonV>
    decreases n,
{
    if n <= 0 {
        seq![]
    } else {
        let acc = job_accounts(jobs, n - 1);
        let a = index_or_null(jobs[n - 1], "account_id"@);
        if exists|k: int| 0 <= k < acc.len() && json_eq(#[trigger] acc[k], a) {
            acc
        } else {
            acc.push(a)
        }
    }
}

fn listed(v: &Vec<Json>, a: &Json) -> (r: bool)
    ensures
        r == exists|k: int| 0 <= k < view_seq(v@).len() && json_eq(#[trigger] view_seq(v@)[k], a@),
{
    proof {
        lemma_view_seq(v@);
    }
    let ghost vv = view_seq(v@);
    let mut k: usize = 0;
    while k < v.len()
        invariant
            k <= v@.len(),
            vv == view_seq(v@),
            vv.len() == v@.len(),
            forall|q: int| 0 <= q < v@.len() ==> #[trigger] vv[q] == v@[q]@,
            forall|q: int| 0 <= q < k ==> !json_eq(#[trigger] vv[q], a@),
        decreases v@.len() - k,
    {
        assert(vv[k as int] == v@[k as int]@);
        if json_equal(&v[k], a) {
            return true;
        }
        k = k + 1;
    }
    false
}

/// The distinct accounts of the pending jobs.
pub fn unique_account_ids(jobs: &Vec<Json>) -> (r: Vec<Json>)
    ensures
        view_seq(r@) == job_accounts(view_seq(jobs@), jobs@.len() as int),
{
    proof {
        lemma_view_seq(jobs@);
    }
    let ghost jv = view_seq(jobs@);
    let mut out: Vec<Json> = Vec::new();
    proof {
        lemma_view_seq(out@);
    }
    let mut n: usize = 0;
    while n < jobs.len()
        invariant
            n <= jobs@.len(),
            jv == view_seq(jobs@),
            jv.len() == jobs@.len(),
            forall|q: int| 0 <= q < jobs@.len() ==> #[trigger] jv[q] == jobs@[q]@,
            view_seq(out@) == job_accounts(jv, n as int),
        decreases jobs@.len() - n,
    {
        assert(jv[n as int] == jobs@[n as int]@);
        let a = crate::items::store::get_or_null(&jobs[n], "account_id");
        let seen = listed(&out, &a);
        if !seen {
            let ghost before = out@;
            out.push(a);
            proof {
                lemma_view_seq(before);
                lemma_view_seq(out@);
                assert(view_seq(out@) =~= view_seq(before).push(index_or_null(jv[n as int], "account_id"@)));
            }
        }
        n = n + 1;
    }
    out
}

// ---------------------------------------------------------------------------
// New jobs
// ---------------------------------------------------------------------------

/// A count of runs: the requested one, else (zero) practically unbounded.
pub open spec fn runs_or_unbounded(n: int) -> int {
    if n != 0 {
        n
    } else {
        1_000_000_000_000
    }
}

/// Strings as a JSON array.
pub open spec fn str_array(v: Seq<String>) -> JsonV {
    JsonV::Arr(v.map_values(|s: String| JsonV::Str(s@)))
}

/// Integers as a JSON array.
pub open spec fn int_array(v: Seq<i64>) -> JsonV {
    JsonV::Arr(v.map_values(|i: i64| JsonV::Num(NumV::Int(i as int))))
}

/// The stored document of a new job, created at `now`.
pub open spec fn job_document(job: CreateOctyJob, octy_job_id: Seq<char>, now: JsonV) -> JsonV {
    let meta = job.job_meta;
    JsonV::Obj(seq![
        ("octy_job_id"@, JsonV::Str(octy_job_id)),
        ("account_id"@, JsonV::Str(job.account_id@)),
        ("alt_dentifier"@, match job.alt_dentifier {
            Some(a) => JsonV::Str(a@),
            None => JsonV::Null,
        }),
        ("job_meta"@, JsonV::Obj(seq![
            ("required_permissions"@, str_array(meta.required_permissions@)),
            ("required_configurations"@, JsonV::Obj(seq![
                ("account_attributes"@, str_array(meta.required_configurations.account_attributes@)),
                ("algorithm_configuration_idxs"@, int_array(meta.required_configurations.algorithm_configuration_idxs@)),
            ])),
            ("amqp_routing_key"@, JsonV::Str(meta.amqp_routing_key@)),
            ("job_type"@, JsonV::Str(meta.job_type@)),
            ("desired_runs"@, JsonV::Num(NumV::Int(runs_or_unbounded(meta.desired_runs as int)))),
            ("time_interval"@, JsonV::Num(NumV::Int(meta.time_interval as int))),
            ("fail_threshold"@, JsonV::Num(NumV::Int(runs_or_unbounded(meta.fail_threshold as int)))),
            ("successful_runs"@, JsonV::Num(NumV::Int(0))),
            ("failed_runs"@, JsonV::Num(NumV::Int(0))),
            ("last_run"@, JsonV::Null),
            ("status"@, JsonV::Str("pending"@)),
            ("created_at"@, now),
            ("updated_at"@, JsonV::Null),
            ("last_updated_action"@, JsonV::Null),
        ])),
        ("job_data"@, match job.job_data {
            Some(d) => d@,
            None => JsonV::Null,
        }),
    ])
}

fn strs_json(v: &Vec<String>) -> (r: Json)
    ensures
        r@ == str_array(v@),
{
    let mut out: Vec<Json> = Vec::new();
    let mut i: usize = 0;
    while i < v.len()
        invariant
            i <= v@.len(),
            out@.len() == i,
            forall|q: int| 0 <= q < i ==> (#[trigger] out@[q])@ == JsonV::Str(v@[q]@),
        decreases v@.len() - i,
    {
        out.push(Json::Str(copy_str(v[i].as_str())));
        i = i + 1;
    }
    proof {
        lemma_view_seq(out@);
    }
    assert(view_seq(out@) =~= v@.map_values(|s: String| JsonV::Str(s@)));
    Json::Array(out)
}

fn ints_json(v: &Vec<i64>) -> (r: Json)
    ensures
        r@ == int_array(v@),
{
    let mut out: Vec<Json> = Vec::new();
    let mut i: usize = 0;
    while i < v.len()
        invariant
            i <= v@.len(),
            out@.len() == i,
            forall|q: int| 0 <= q < i ==> (#[trigger] out@[q])@ == JsonV::Num(NumV::Int(v@[q] as int)),
        decreases v@.len() - i,
    {
        out.push(Json::Number(JsonNumber::Int(v[i])));
        i = i + 1;
    }
    proof {
        lemma_view_seq(out@);
    }
    assert(view_seq(out@) =~= v@.map_values(|i: i64| JsonV::Num(NumV::Int(i as int))));
    Json::Array(out)
}

fn int_json(i: i64) -> (r: Json)
    ensures
        r@ == JsonV::Num(NumV::Int(i as int)),
{
    Json::Number(JsonNumber::Int(i))
}

fn obj_json(m: Vec<(String, Json)>) -> (r: Json)
    ensures
        r@ == JsonV::Obj(view_members(m@)),
{
    Json::Object(m)
}

/// The document stored for a new job; `now` is its creation date.
pub fn new_job_document(job: &CreateOctyJob, octy_job_id: &str, now: &Json) -> (r: Json)
    ensures
        r@ == job_document(*job, octy_job_id@, now@),
{
    let meta = &job.job_meta;
    let mut conf: Vec<(String, Json)> = Vec::new();
    conf.push((copy_str("account_attributes"), strs_json(&meta.required_configurations.account_attributes)));
    conf.push((copy_str("algorithm_configuration_idxs"), ints_json(&meta.required_configurations.algorithm_configuration_idxs)));
    let mut m: Vec<(String, Json)> = Vec::new();
    m.push((copy_str("required_permissions"), strs_json(&meta.required_permissions)));
    m.push((copy_str("required_configurations"), obj_json(conf)));
    m.push((copy_str("amqp_routing_key"), Json::Str(copy_str(meta.amqp_routing_key.as_str()))));
    m.push((copy_str("job_type"), Json::Str(copy_str(meta.job_type.as_str()))));
    m.push((copy_str("desired_runs"), int_json(if meta.desired_runs != 0 { meta.desired_runs } else { 1_000_000_000_000i64 })));
    m.push((copy_str("time_interval"), int_json(meta.time_interval)));
    m.push((copy_str("fail_threshold"), int_json(if meta.fail_threshold != 0 { meta.fail_threshold } else { 1_000_000_000_000i64 })));
    m.push((copy_str("successful_runs"), int_json(0)));
    m.push((copy_str("failed_runs"), int_json(0)));
    m.push((copy_str("last_run"), Json::Null));
    m.push((copy_str("status"), Json::Str(copy_str("pending"))));
    m.push((copy_str("created_at"), now.deep_clone()));
    m.push((copy_str("updated_at"), Json::Null));
    m.push((copy_str("last_updated_action"), Json::Null));
    let mut out: Vec<(String, Json)> = Vec::new();
    out.push((copy_str("octy_job_id"), Json::Str(copy_str(octy_job_id))));
    out.push((copy_str("account_id"), Json::Str(copy_str(job.account_id.as_str()))));
    out.push((copy_str("alt_dentifier"), match &job.alt_dentifier {
        Some(a) => Json::Str(copy_str(a.as_str())),
        None => Json::Null,
    }));
    out.push((copy_str("job_meta"), obj_json(m)));
    out.push((copy_str("job_data"), match &job.job_data {
        Some(d) => d.deep_clone(),
        None => Json::Null,
    }));
    proof {
        lemma_view_members(conf@);
        lemma_view_members(m@);
        lemma_view_members(out@);
    }
    let ghost jd = job_document(*job, octy_job_id@, now@);
    assert(view_members(conf@) =~= jd->Obj_0[3].1->Obj_0[1].1->Obj_0);
    assert(view_members(m@) =~= jd->Obj_0[3].1->Obj_0);
    assert(view_members(out@) =~= jd->Obj_0);
    Json::Object(out)
}

/// Every job a filter keeps satisfies it, and it keeps no more jobs than
/// it was given: the runnable jobs of a pass are pending and due, the hung
/// ones are in processing since a day or more.
pub proof fn law_sorted_jobs_satisfy_their_test(jobs: Seq<JsonV>, f: spec_fn(JsonV) -> bool, n: int)
    requires
        0 <= n <= jobs.len(),
    ensures
        jobs_where(jobs, f, n).len() <= n,
        forall|k: int| 0 <= k < jobs_where(jobs, f, n).len() ==> f(#[trigger] jobs_where(jobs, f, n)[k]),
    decreases n,
{
    if n > 0 {
        law_sorted_jobs_satisfy_their_test(jobs, f, n - 1);
    }
}

/// The accounts of a pass are distinct: no account is fetched twice.
pub proof fn law_job_accounts_are_distinct(jobs: Seq<JsonV>, n: int)
    requires
        0 <= n <= jobs.len(),
    ensures
        forall|i: int, j: int|
            0 <= i < j < job_accounts(jobs, n).len() ==> !json_eq(
                #[trigger] job_accounts(jobs, n)[i],
                #[trigger] job_accounts(jobs, n)[j],
            ),
    decreases n,
{
    if n > 0 {
        law_job_accounts_are_distinct(jobs, n - 1);
        let acc = job_accounts(jobs, n - 1);
        let a = index_or_null(jobs[n - 1], "account_id"@);
        if !(exists|k: int| 0 <= k < acc.len() && json_eq(#[trigger] acc[k], a)) {
            assert forall|i: int, j: int| 0 <= i < j < job_accounts(jobs, n).len() implies !json_eq(
                #[trigger] job_accounts(jobs, n)[i],
                #[trigger] job_accounts(jobs, n)[j],
            ) by {
                if j == acc.len() {
                    assert(job_accounts(jobs, n)[i] == acc[i]);
                } else {
                    assert(job_accounts(jobs, n)[i] == acc[i]);
                    assert(job_accounts(jobs, n)[j] == acc[j]);
                }
            }
        }
    }
}

} // verus!
