//! One pass of the job queue over its pending jobs. Claiming a job and
//! publishing its message are outside work; here is what the pass decides
//! for each job once its claim is known, and the summary it reports.

use vstd::prelude::*;
use crate::events::verify::index_or_null;
use crate::items::store::get_or_null;
use crate::json::{json_eq, json_equal, view_members, Json, JsonV};
use crate::octy_jobs::queue::{failed_job_update, missing_account_reason, missing_account_text, processing_job_update, JobUpdate};
use crate::octy_jobs::services::{build_message_payload, message_payload};
use crate::replies::{count_json, count_v, members2, str_json, str_v};
use crate::text::copy_str;

verus! {

/// The routing key a job's message is published under (empty when the job
/// names none).
pub open spec fn routing_key_of(job: JsonV) -> Seq<char> {
    match index_or_null(index_or_null(job, "job_meta"@), "amqp_routing_key"@) {
        JsonV::Str(s) => s,
        _ => seq![],
    }
}

/// The accounts as JSON values.
pub open spec fn account_views(accounts: Seq<Json>) -> Seq<JsonV> {
    accounts.map_values(|a: Json| a@)
}

/// The first account whose `_id` is the job's `account_id`, by its index.
pub open spec fn account_of(accounts: Seq<JsonV>, job: JsonV, n: int) -> Option<int>
    decreases n,
{
    if n <= 0 {
        None
    } else {
        match account_of(accounts, job, n - 1) {
            Some(k) => Some(k),
            None => if json_eq(index_or_null(accounts[n - 1], "_id"@), index_or_null(job, "account_id"@)) {
                Some(n - 1)
            } else {
                None
            },
        }
    }
}

proof fn lemma_account_of_settled(accounts: Seq<JsonV>, job: JsonV, n: int, m: int)
    requires
        0 <= n <= m,
        account_of(accounts, job, n) is Some,
    ensures
        account_of(accounts, job, m) == account_of(accounts, job, n),
    decreases m - n,
{
    if n < m {
        lemma_account_of_settled(accounts, job, n, m - 1);
    }
}

proof fn lemma_account_of_bounds(accounts: Seq<JsonV>, job: JsonV, n: int)
    ensures
        account_of(accounts, job, n) matches Some(k) ==> 0 <= k < n,
    decreases n,
{
    if n > 0 {
        lemma_account_of_bounds(accounts, job, n - 1);
    }
}

/// `u` records a failure of `job` for `reason`, leaving it pending.
pub open spec fn is_failure_update(u: JobUpdate, job: JsonV, reason: Seq<char>) -> bool {
    &&& u.account_id@ == index_or_null(job, "account_id"@)
    &&& u.octy_job_id@ == index_or_null(job, "_id"@)
    &&& u.suc_inc_by == 0 && u.fail_inc_by == 1
    &&& u.status@ == "pending"@
    &&& u.action@ == "octy job queue --> Error occurred during processing :: "@ + reason
}

/// `u` marks `job` of `account` as processing.
pub open spec fn is_processing_update(u: JobUpdate, account: JsonV, job: JsonV) -> bool {
    &&& u.account_id@ == index_or_null(account, "_id"@)
    &&& u.octy_job_id@ == index_or_null(job, "_id"@)
    &&& u.suc_inc_by == 0 && u.fail_inc_by == 0
    &&& u.status@ == "processing"@
    &&& u.action@ == "octy job queue --> processing job"@
}

/// A pass over the pending jobs, in their order: the job updates to write,
/// and how many jobs were published, were owned by another pod, or lacked
/// what their message needs.
pub struct JobPass {
    pub updates: Vec<JobUpdate>,
    pub published: usize,
    pub skipped_unclaimed: usize,
    pub skipped_invalid_payload: usize,
}

/// The jobs a pass has counted.
pub open spec fn counted(p: JobPass) -> int {
    p.published + p.skipped_unclaimed + p.skipped_invalid_payload
}

fn find_account(accounts: &Vec<Json>, job: &Json) -> (r: Option<usize>)
    ensures
        r matches Some(i) ==> account_of(account_views(accounts@), job@, accounts@.len() as int) == Some(
            i as int,
        ) && i < accounts@.len(),
        r is None ==> account_of(account_views(accounts@), job@, accounts@.len() as int) is None,
{
    let ghost vs = account_views(accounts@);
    let id = get_or_null(job, "account_id");
    let mut i: usize = 0;
    while i < accounts.len()
        invariant
            i <= accounts@.len(),
            vs == account_views(accounts@),
            id@ == index_or_null(job@, "account_id"@),
            account_of(vs, job@, i as int) is None,
        decreases accounts@.len() - i,
    {
        let a_id = get_or_null(&accounts[i], "_id");
        assert(vs[i as int] == accounts@[i as int]@);
        if json_equal(&a_id, &id) {
            proof {
                assert(account_of(vs, job@, i + 1) == Some(i as int));
                lemma_account_of_settled(vs, job@, i + 1, accounts@.len() as int);
            }
            return Some(i);
        }
        i = i + 1;
    }
    None
}

impl JobPass {
    /// A pass with nothing decided yet.
    pub fn new() -> (p: JobPass)
        ensures
            p.updates@.len() == 0,
            p.published == 0 && p.skipped_unclaimed == 0 && p.skipped_invalid_payload == 0,
    {
        JobPass { updates: Vec::new(), published: 0, skipped_unclaimed: 0, skipped_invalid_payload: 0 }
    }

    /// Whether the pass can count one more job.
    pub fn has_room(&self) -> (r: bool)
        ensures
            r == (counted(*self) < usize::MAX),
    {
        self.published < usize::MAX - self.skipped_unclaimed
            && self.published + self.skipped_unclaimed < usize::MAX - self.skipped_invalid_payload
    }

    /// Decides on a pending job, `claimed` telling whether this pod owns
    /// it: the routing key and message to publish, if any. A job owned
    /// elsewhere is skipped; a job whose account is not among `accounts`
    /// records a failure; a job its account cannot serve is skipped; any
    /// other is published and marked processing.
    pub fn step(&mut self, accounts: &Vec<Json>, job: &Json, claimed: bool) -> (r: Option<(String, Json)>)
        requires
            counted(*old(self)) < usize::MAX,
        ensures
            counted(*final(self)) == counted(*old(self)) + if claimed && account_of(
                account_views(accounts@),
                job@,
                accounts@.len() as int,
            ) is None {
                0int
            } else {
                1int
            },
            !claimed ==> {
                &&& r is None
                &&& final(self).skipped_unclaimed == old(self).skipped_unclaimed + 1
                &&& final(self).published == old(self).published
                &&& final(self).skipped_invalid_payload == old(self).skipped_invalid_payload
                &&& final(self).updates@ == old(self).updates@
            },
            claimed ==> match account_of(account_views(accounts@), job@, accounts@.len() as int) {
                None => {
                    &&& r is None
                    &&& final(self).updates@.len() == old(self).updates@.len() + 1
                    &&& final(self).updates@.drop_last() == old(self).updates@
                    &&& is_failure_update(final(self).updates@.last(), job@, missing_account_reason(job@))
                    &&& final(self).published == old(self).published
                    &&& final(self).skipped_unclaimed == old(self).skipped_unclaimed
                    &&& final(self).skipped_invalid_payload == old(self).skipped_invalid_payload
                },
                Some(k) => match message_payload(accounts@[k]@, job@) {
                    None => {
                        &&& r is None
                        &&& final(self).skipped_invalid_payload == old(self).skipped_invalid_payload + 1
                        &&& final(self).published == old(self).published
                        &&& final(self).skipped_unclaimed == old(self).skipped_unclaimed
                        &&& final(self).updates@ == old(self).updates@
                    },
                    Some(p) => {
                        &&& r matches Some((key, msg)) && key@ == routing_key_of(job@) && msg@ == p
                        &&& final(self).published == old(self).published + 1
                        &&& final(self).updates@.len() == old(self).updates@.len() + 1
                        &&& final(self).updates@.drop_last() == old(self).updates@
                        &&& is_processing_update(final(self).updates@.last(), accounts@[k]@, job@)
                        &&& final(self).skipped_unclaimed == old(self).skipped_unclaimed
                        &&& final(self).skipped_invalid_payload == old(self).skipped_invalid_payload
                    },
                },
            },
    {
        if !claimed {
            self.skipped_unclaimed = self.skipped_unclaimed + 1;
            return None;
        }
        let ghost vs = account_views(accounts@);
        proof {
            lemma_account_of_bounds(vs, job@, accounts@.len() as int);
        }
        match find_account(accounts, job) {
            None => {
                let reason = missing_account_text(job);
                let u = failed_job_update(job, reason.as_str());
                self.updates.push(u);
                assert(self.updates@.drop_last() =~= old(self).updates@);
                None
            },
            Some(k) => {
                let account = &accounts[k];
                assert(vs[k as int] == account@);
                let (valid, payload) = build_message_payload(account, job);
                if !valid {
                    self.skipped_invalid_payload = self.skipped_invalid_payload + 1;
                    return None;
                }
                let key = match job.get("job_meta") {
                    Some(meta) => match meta.get("amqp_routing_key") {
                        Some(Json::Str(s)) => copy_str(s.as_str()),
                        _ => String::new(),
                    },
                    None => String::new(),
                };
                self.published = self.published + 1;
                let u = processing_job_update(account, job);
                self.updates.push(u);
                assert(self.updates@.drop_last() =~= old(self).updates@);
                Some((key, payload))
            },
        }
    }

    /// The summary of a finished pass over `pending` jobs, of `total_jobs`
    /// stored, after deleting `deleted_invalid` invalid jobs and resetting
    /// `reset_hung` hung ones.
    pub fn summary(&self, total_jobs: usize, pending: usize, deleted_invalid: usize, reset_hung: usize) -> (r: Json)
        ensures
            r@ == JsonV::Obj(
                seq![
                    ("detail"@, str_v("Processed Octy jobs"@)),
                    ("total_jobs"@, count_v(total_jobs as nat)),
                    ("pending"@, count_v(pending as nat)),
                    ("published"@, count_v(self.published as nat)),
                    ("deleted_invalid"@, count_v(deleted_invalid as nat)),
                    ("reset_hung"@, count_v(reset_hung as nat)),
                    ("skipped_unclaimed"@, count_v(self.skipped_unclaimed as nat)),
                    ("skipped_invalid_payload"@, count_v(self.skipped_invalid_payload as nat)),
                ],
            ),
    {
        let mut m = members2("detail", str_json("Processed Octy jobs"), "total_jobs", count_json(total_jobs));
        let more = members2("pending", count_json(pending), "published", count_json(self.published));
        m = crate::replies::join_members(m, more);
        let more = members2("deleted_invalid", count_json(deleted_invalid), "reset_hung", count_json(reset_hung));
        m = crate::replies::join_members(m, more);
        let more = members2(
            "skipped_unclaimed",
            count_json(self.skipped_unclaimed),
            "skipped_invalid_payload",
            count_json(self.skipped_invalid_payload),
        );
        m = crate::replies::join_members(m, more);
        assert(view_members(m@) =~= seq![
            ("detail"@, str_v("Processed Octy jobs"@)),
            ("total_jobs"@, count_v(total_jobs as nat)),
            ("pending"@, count_v(pending as nat)),
            ("published"@, count_v(self.published as nat)),
            ("deleted_invalid"@, count_v(deleted_invalid as nat)),
            ("reset_hung"@, count_v(reset_hung as nat)),
            ("skipped_unclaimed"@, count_v(self.skipped_unclaimed as nat)),
            ("skipped_invalid_payload"@, count_v(self.skipped_invalid_payload as nat)),
        ]);
        Json::Object(m)
    }
}

/// The summary of a pass that found no pending job: of `total_jobs` stored,
/// `deleted_invalid` invalid ones deleted and `reset_hung` hung ones reset
/// (none of these when nothing was stored).
pub fn idle_summary(total_jobs: usize, deleted_invalid: usize, reset_hung: usize) -> (r: Json)
    ensures
        r@ == if total_jobs == 0 {
            JsonV::Obj(seq![("detail"@, str_v("No pending jobs found"@)), ("total_jobs"@, count_v(0))])
        } else {
            JsonV::Obj(
                seq![
                    ("detail"@, str_v("No pending jobs found"@)),
                    ("total_jobs"@, count_v(total_jobs as nat)),
                    ("deleted_invalid"@, count_v(deleted_invalid as nat)),
                    ("reset_hung"@, count_v(reset_hung as nat)),
                ],
            )
        },
{
    let m = members2("detail", str_json("No pending jobs found"), "total_jobs", count_json(total_jobs));
    if total_jobs == 0 {
        return Json::Object(m);
    }
    let more = members2("deleted_invalid", count_json(deleted_invalid), "reset_hung", count_json(reset_hung));
    let m = crate::replies::join_members(m, more);
    assert(view_members(m@) =~= seq![
        ("detail"@, str_v("No pending jobs found"@)),
        ("total_jobs"@, count_v(total_jobs as nat)),
        ("deleted_invalid"@, count_v(deleted_invalid as nat)),
        ("reset_hung"@, count_v(reset_hung as nat)),
    ]);
    Json::Object(m)
}

} // verus!
