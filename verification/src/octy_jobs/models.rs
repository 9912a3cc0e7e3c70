//! Validation of the octy-jobs requests and messages, with lenient field
//! coercion: a `str` field takes strings and numbers, an `int` field booleans,
//! numbers and numeric strings.

use vstd::prelude::*;
use crate::fields::{
    after, err_dict, err_missing, err_none, int_field, int_list_errors, int_list_value,
    lemma_int_list_errors_empty, lemma_str_list_errors_empty, opt_str_field, str_field,
    str_list_errors, str_list_value, strings_view, take_int, take_int_list, take_opt_str,
    take_opt_str_list, take_str, take_str_list, StrMode,
};
use crate::json::{
    body_loc, copy_locs, errs_view, fe, field_error, loc_key, locs_view, push_error, FieldError,
    FieldErrorV, Json, JsonV, Loc, LocV,
};

verus! {

/// `OctyJobCallBack` — a job's status report.
pub struct OctyJobCallBack {
    pub account_id: String,
    pub octy_job_id: String,
    pub message: String,
    pub status: String,
}

/// The field errors of an `OctyJobCallBack` body.
pub open spec fn callback_errors(body: JsonV) -> Seq<FieldErrorV> {
    let p = seq![LocV::Key("body"@)];
    let e1 = after(seq![], p.push(LocV::Key("account_id"@)), str_field(body, "account_id"@, StrMode::NoBool));
    let e2 = after(e1, p.push(LocV::Key("octy_job_id"@)), str_field(body, "octy_job_id"@, StrMode::NoBool));
    let e3 = after(e2, p.push(LocV::Key("message"@)), str_field(body, "message"@, StrMode::NoBool));
    after(e3, p.push(LocV::Key("status"@)), str_field(body, "status"@, StrMode::NoBool))
}

impl OctyJobCallBack {
    /// Validates an `OctyJobCallBack` body.
    pub fn from_json(body: &Json) -> (r: Result<OctyJobCallBack, Vec<FieldError>>)
        ensures
            callback_errors(body@).len() > 0 ==> (r matches Err(e) && errs_view(e@) == callback_errors(body@)),
            callback_errors(body@).len() == 0 ==> (r matches Ok(c) && c.account_id@ == str_field(body@, "account_id"@, StrMode::NoBool)->Ok_0
                && c.octy_job_id@ == str_field(body@, "octy_job_id"@, StrMode::NoBool)->Ok_0 && c.message@ == str_field(
                body@,
                "message"@,
                StrMode::NoBool,
            )->Ok_0 && c.status@ == str_field(body@, "status"@, StrMode::NoBool)->Ok_0),
    {
        let prefix = body_loc();
        let mut errors: Vec<FieldError> = Vec::new();
        let account_id = take_str(body, "account_id", &prefix, StrMode::NoBool, &mut errors);
        let octy_job_id = take_str(body, "octy_job_id", &prefix, StrMode::NoBool, &mut errors);
        let message = take_str(body, "message", &prefix, StrMode::NoBool, &mut errors);
        let status = take_str(body, "status", &prefix, StrMode::NoBool, &mut errors);
        assert(errs_view(errors@) =~= callback_errors(body@));
        match (account_id, octy_job_id, message, status) {
            (Some(account_id), Some(octy_job_id), Some(message), Some(status)) => {
                if errors.len() == 0 {
                    Ok(OctyJobCallBack { account_id, octy_job_id, message, status })
                } else {
                    Err(errors)
                }
            },
            _ => Err(errors),
        }
    }
}

/// `DeleteAccountJobs` — `{account_id}`.
pub struct DeleteAccountJobs {
    pub account_id: String,
}

impl DeleteAccountJobs {
    /// Validates a `DeleteAccountJobs` body.
    pub fn from_json(body: &Json) -> (r: Result<DeleteAccountJobs, Vec<FieldError>>)
        ensures
            match str_field(body@, "account_id"@, StrMode::NoBool) {
                Ok(a) => r matches Ok(d) && d.account_id@ == a,
                Err(e) => r matches Err(errs) && errs_view(errs@) == seq![
                    fe(seq![LocV::Key("body"@), LocV::Key("account_id"@)], e.0, e.1),
                ],
            },
    {
        let prefix = body_loc();
        let mut errors: Vec<FieldError> = Vec::new();
        let account_id = take_str(body, "account_id", &prefix, StrMode::NoBool, &mut errors);
        assert(locs_view(prefix@).push(LocV::Key("account_id"@)) =~= seq![LocV::Key("body"@), LocV::Key("account_id"@)]);
        match account_id {
            Some(a) => Ok(DeleteAccountJobs { account_id: a }),
            None => {
                assert(errs_view(errors@) =~= seq![
                    fe(seq![LocV::Key("body"@), LocV::Key("account_id"@)], str_field(body@, "account_id"@, StrMode::NoBool)->Err_0.0, str_field(body@, "account_id"@, StrMode::NoBool)->Err_0.1),
                ]);
                Err(errors)
            },
        }
    }
}

/// The configuration a job needs: account attributes and algorithm
/// configuration indexes.
pub struct RequiredConfigs {
    pub account_attributes: Vec<String>,
    pub algorithm_configuration_idxs: Vec<i64>,
}

/// The field errors of a required-configurations object at `prefix`.
pub open spec fn required_configs_errors(v: JsonV, prefix: Seq<LocV>) -> Seq<FieldErrorV> {
    str_list_errors(v, "account_attributes"@, StrMode::NoBool, false, prefix) + int_list_errors(
        v,
        "algorithm_configuration_idxs"@,
        prefix,
    )
}

impl RequiredConfigs {
    fn parse(v: &Json, prefix: &Vec<Loc>, errors: &mut Vec<FieldError>) -> (r: Option<RequiredConfigs>)
        ensures
            errs_view(final(errors)@) == errs_view(old(errors)@) + required_configs_errors(v@, locs_view(prefix@)),
            required_configs_errors(v@, locs_view(prefix@)).len() == 0 ==> (r matches Some(c) && str_list_value(
                v@,
                "account_attributes"@,
                StrMode::NoBool,
                false,
            ) == Some(strings_view(c.account_attributes@)) && int_list_value(v@, "algorithm_configuration_idxs"@)
                == Some(c.algorithm_configuration_idxs@.map_values(|x: i64| x as int))),
    {
        proof {
            lemma_str_list_errors_empty(v@, "account_attributes"@, StrMode::NoBool, false, locs_view(prefix@));
            lemma_int_list_errors_empty(v@, "algorithm_configuration_idxs"@, locs_view(prefix@));
        }
        let account_attributes = take_str_list(v, "account_attributes", prefix, StrMode::NoBool, false, errors);
        let idxs = take_int_list(v, "algorithm_configuration_idxs", prefix, errors);
        assert(errs_view(errors@) =~= errs_view(old(errors)@) + required_configs_errors(v@, locs_view(prefix@)));
        match (account_attributes, idxs) {
            (Some(a), Some(i)) => Some(RequiredConfigs { account_attributes: a, algorithm_configuration_idxs: i }),
            _ => None,
        }
    }
}

/// How a job runs.
pub struct JobMeta {
    pub job_type: String,
    pub amqp_routing_key: String,
    pub required_permissions: Vec<String>,
    pub required_configurations: RequiredConfigs,
    pub desired_runs: i64,
    /// Minutes between runs.
    pub time_interval: i64,
    pub fail_threshold: i64,
}

/// The errors of a required object field `f` at `prefix` (the object's
/// own errors come from `inner`).
pub open spec fn object_field_errors(obj: JsonV, f: Seq<char>, prefix: Seq<LocV>, inner: Seq<FieldErrorV>) -> Seq<FieldErrorV> {
    let loc = prefix.push(LocV::Key(f));
    match obj.get(f) {
        None => seq![fe(loc, err_missing().0, err_missing().1)],
        Some(JsonV::Null) => seq![fe(loc, err_none().0, err_none().1)],
        Some(JsonV::Obj(_)) => inner,
        Some(_) => seq![fe(loc, err_dict().0, err_dict().1)],
    }
}

/// The field errors of a job-meta object at `prefix`.
pub open spec fn job_meta_errors(v: JsonV, prefix: Seq<LocV>) -> Seq<FieldErrorV> {
    let e1 = after(seq![], prefix.push(LocV::Key("job_type"@)), str_field(v, "job_type"@, StrMode::NoBool));
    let e2 = after(e1, prefix.push(LocV::Key("amqp_routing_key"@)), str_field(v, "amqp_routing_key"@, StrMode::NoBool));
    let e3 = e2 + str_list_errors(v, "required_permissions"@, StrMode::NoBool, false, prefix);
    let e4 = e3 + required_field_errors(v, prefix);
    let e5 = after(e4, prefix.push(LocV::Key("desired_runs"@)), int_field(v, "desired_runs"@));
    let e6 = after(e5, prefix.push(LocV::Key("time_interval"@)), int_field(v, "time_interval"@));
    after(e6, prefix.push(LocV::Key("fail_threshold"@)), int_field(v, "fail_threshold"@))
}

/// The errors of the `required_configurations` field of a job-meta object.
pub open spec fn required_field_errors(v: JsonV, prefix: Seq<LocV>) -> Seq<FieldErrorV> {
    object_field_errors(
        v,
        "required_configurations"@,
        prefix,
        match v.get("required_configurations"@) {
            Some(rc) => required_configs_errors(rc, prefix.push(LocV::Key("required_configurations"@))),
            None => seq![],
        },
    )
}

fn parse_required_field(v: &Json, prefix: &Vec<Loc>, errors: &mut Vec<FieldError>) -> (r: Option<RequiredConfigs>)
    ensures
        errs_view(final(errors)@) == errs_view(old(errors)@) + required_field_errors(v@, locs_view(prefix@)),
        required_field_errors(v@, locs_view(prefix@)).len() == 0 ==> r is Some,
{
    let rc_loc = loc_key(prefix, "required_configurations");
    match v.get("required_configurations") {
        None => {
            push_error(errors, field_error(copy_locs(&rc_loc), "field required", "value_error.missing"));
            assert(errs_view(errors@) =~= errs_view(old(errors)@) + required_field_errors(v@, locs_view(prefix@)));
            None
        },
        Some(Json::Null) => {
            push_error(errors, field_error(copy_locs(&rc_loc), "none is not an allowed value", "type_error.none.not_allowed"));
            assert(errs_view(errors@) =~= errs_view(old(errors)@) + required_field_errors(v@, locs_view(prefix@)));
            None
        },
        Some(rc) => {
            if rc.is_object() {
                RequiredConfigs::parse(rc, &rc_loc, errors)
            } else {
                push_error(errors, field_error(copy_locs(&rc_loc), "value is not a valid dict", "type_error.dict"));
                assert(errs_view(errors@) =~= errs_view(old(errors)@) + required_field_errors(v@, locs_view(prefix@)));
                None
            }
        },
    }
}

impl JobMeta {
    #[verifier::rlimit(40)]
    fn parse(v: &Json, prefix: &Vec<Loc>, errors: &mut Vec<FieldError>) -> (r: Option<JobMeta>)
        ensures
            errs_view(final(errors)@) == errs_view(old(errors)@) + job_meta_errors(v@, locs_view(prefix@)),
            job_meta_errors(v@, locs_view(prefix@)).len() == 0 ==> (r matches Some(m) && m.job_type@ == str_field(
                v@,
                "job_type"@,
                StrMode::NoBool,
            )->Ok_0 && m.amqp_routing_key@ == str_field(v@, "amqp_routing_key"@, StrMode::NoBool)->Ok_0
                && str_list_value(v@, "required_permissions"@, StrMode::NoBool, false) == Some(strings_view(m.required_permissions@))
                && m.desired_runs as int == int_field(v@, "desired_runs"@)->Ok_0 && m.time_interval as int == int_field(
                v@,
                "time_interval"@,
            )->Ok_0 && m.fail_threshold as int == int_field(v@, "fail_threshold"@)->Ok_0),
    {
        let ghost start = errs_view(errors@);
        let job_type = take_str(v, "job_type", prefix, StrMode::NoBool, errors);
        let amqp_routing_key = take_str(v, "amqp_routing_key", prefix, StrMode::NoBool, errors);
        proof {
            lemma_str_list_errors_empty(v@, "required_permissions"@, StrMode::NoBool, false, locs_view(prefix@));
        }
        let required_permissions = take_str_list(v, "required_permissions", prefix, StrMode::NoBool, false, errors);
        let required_configurations = parse_required_field(v, prefix, errors);
        let desired_runs = take_int(v, "desired_runs", prefix, errors);
        let time_interval = take_int(v, "time_interval", prefix, errors);
        let fail_threshold = take_int(v, "fail_threshold", prefix, errors);
        assert(errs_view(errors@) =~= start + job_meta_errors(v@, locs_view(prefix@)));
        match (job_type, amqp_routing_key, required_permissions, required_configurations, desired_runs, time_interval, fail_threshold) {
            (Some(a), Some(b), Some(c), Some(d), Some(e), Some(f), Some(g)) => Some(
                JobMeta {
                    job_type: a,
                    amqp_routing_key: b,
                    required_permissions: c,
                    required_configurations: d,
                    desired_runs: e,
                    time_interval: f,
                    fail_threshold: g,
                },
            ),
            _ => None,
        }
    }
}

/// The refusal of a message that is not an object.
pub open spec fn not_a_dict_message() -> Seq<FieldErrorV> {
    seq![fe(seq![], err_dict().0, err_dict().1)]
}

fn not_a_dict() -> (r: Vec<FieldError>)
    ensures
        errs_view(r@) == not_a_dict_message(),
{
    let mut errors: Vec<FieldError> = Vec::new();
    let loc: Vec<Loc> = Vec::new();
    assert(locs_view(loc@) =~= Seq::<LocV>::empty());
    push_error(&mut errors, field_error(loc, "value is not a valid dict", "type_error.dict"));
    assert(errs_view(errors@) =~= not_a_dict_message());
    errors
}

/// `CreateOctyJob` — a job to create.
pub struct CreateOctyJob {
    pub account_id: String,
    /// The stored field is named so.
    pub alt_dentifier: Option<String>,
    pub job_meta: JobMeta,
    pub job_data: Option<Json>,
}

/// The errors of an optional dict field `f`.
pub open spec fn opt_dict_errors(v: JsonV, f: Seq<char>) -> Seq<FieldErrorV> {
    match v.get(f) {
        None => seq![],
        Some(JsonV::Null) => seq![],
        Some(JsonV::Obj(_)) => seq![],
        Some(_) => seq![fe(seq![LocV::Key(f)], err_dict().0, err_dict().1)],
    }
}

/// The field errors of a `CreateOctyJob` message object.
pub open spec fn create_job_errors(v: JsonV) -> Seq<FieldErrorV> {
    let p = Seq::<LocV>::empty();
    let e1 = after(seq![], p.push(LocV::Key("account_id"@)), str_field(v, "account_id"@, StrMode::NoBool));
    let e2 = after(e1, p.push(LocV::Key("alt_dentifier"@)), opt_str_field(v, "alt_dentifier"@, StrMode::NoBool));
    let e3 = e2 + object_field_errors(
        v,
        "job_meta"@,
        p,
        match v.get("job_meta"@) {
            Some(m) => job_meta_errors(m, p.push(LocV::Key("job_meta"@))),
            None => seq![],
        },
    );
    e3 + opt_dict_errors(v, "job_data"@)
}

impl CreateOctyJob {
    /// Validates a `CreateOctyJob` message payload.
    pub fn from_value(payload: &Json) -> (r: Result<CreateOctyJob, Vec<FieldError>>)
        ensures
            !(payload@ is Obj) ==> (r matches Err(e) && errs_view(e@) == not_a_dict_message()),
            payload@ is Obj && create_job_errors(payload@).len() > 0 ==> (r matches Err(e) && errs_view(e@) == create_job_errors(payload@)),
            payload@ is Obj && create_job_errors(payload@).len() == 0 ==> (r matches Ok(j) && j.account_id@ == str_field(
                payload@,
                "account_id"@,
                StrMode::NoBool,
            )->Ok_0 && match j.alt_dentifier {
                Some(a) => opt_str_field(payload@, "alt_dentifier"@, StrMode::NoBool) == Ok::<Option<Seq<char>>, (Seq<char>, Seq<char>)>(Some(a@)),
                None => opt_str_field(payload@, "alt_dentifier"@, StrMode::NoBool) == Ok::<Option<Seq<char>>, (Seq<char>, Seq<char>)>(None),
            } && match j.job_data {
                Some(d) => payload@.get("job_data"@) == Some(d@),
                None => payload@.get("job_data"@) is None || payload@.get("job_data"@) == Some(JsonV::Null),
            }),
    {
        if !payload.is_object() {
            return Err(not_a_dict());
        }
        let prefix: Vec<Loc> = Vec::new();
        assert(locs_view(prefix@) =~= Seq::<LocV>::empty());
        let mut errors: Vec<FieldError> = Vec::new();
        let account_id = take_str(payload, "account_id", &prefix, StrMode::NoBool, &mut errors);
        let alt_dentifier = take_opt_str(payload, "alt_dentifier", &prefix, StrMode::NoBool, &mut errors);
        let ghost a2 = errs_view(errors@);
        let meta_loc = loc_key(&prefix, "job_meta");
        let job_meta = match payload.get("job_meta") {
            None => {
                push_error(&mut errors, field_error(copy_locs(&meta_loc), "field required", "value_error.missing"));
                None
            },
            Some(Json::Null) => {
                push_error(&mut errors, field_error(copy_locs(&meta_loc), "none is not an allowed value", "type_error.none.not_allowed"));
                None
            },
            Some(m) => {
                if m.is_object() {
                    JobMeta::parse(m, &meta_loc, &mut errors)
                } else {
                    push_error(&mut errors, field_error(copy_locs(&meta_loc), "value is not a valid dict", "type_error.dict"));
                    None
                }
            },
        };
        let ghost a3 = errs_view(errors@);
        let job_data = match payload.get("job_data") {
            None => None,
            Some(Json::Null) => None,
            Some(d) => {
                if d.is_object() {
                    Some(d.deep_clone())
                } else {
                    push_error(&mut errors, field_error(loc_key(&prefix, "job_data"), "value is not a valid dict", "type_error.dict"));
                    None
                }
            },
        };
        assert(errs_view(errors@) =~= create_job_errors(payload@));
        if errors.len() > 0 {
            return Err(errors);
        }
        match (account_id, job_meta) {
            (Some(account_id), Some(job_meta)) => Ok(CreateOctyJob { account_id, alt_dentifier, job_meta, job_data }),
            _ => Err(errors),
        }
    }
}

/// `DeleteOctyJob` — jobs to delete, by id or by alternate identifier.
pub struct DeleteOctyJob {
    pub account_id: String,
    pub octy_job_ids: Option<Vec<String>>,
    pub alt_identifiers: Option<Vec<String>>,
}

/// The errors of an optional `List[str]` field `f`.
pub open spec fn opt_list_errors(v: JsonV, f: Seq<char>) -> Seq<FieldErrorV> {
    if v.get(f) is None || v.get(f) == Some(JsonV::Null) {
        seq![]
    } else {
        str_list_errors(v, f, StrMode::NoBool, false, seq![])
    }
}

/// The field errors of a `DeleteOctyJob` message object.
pub open spec fn delete_job_errors(v: JsonV) -> Seq<FieldErrorV> {
    after(seq![], seq![LocV::Key("account_id"@)], str_field(v, "account_id"@, StrMode::NoBool)) + opt_list_errors(
        v,
        "octy_job_ids"@,
    ) + opt_list_errors(v, "alt_identifiers"@)
}

impl DeleteOctyJob {
    /// Validates a `DeleteOctyJob` message payload.
    pub fn from_value(payload: &Json) -> (r: Result<DeleteOctyJob, Vec<FieldError>>)
        ensures
            !(payload@ is Obj) ==> (r matches Err(e) && errs_view(e@) == not_a_dict_message()),
            payload@ is Obj && delete_job_errors(payload@).len() > 0 ==> (r matches Err(e) && errs_view(e@) == delete_job_errors(payload@)),
            payload@ is Obj && delete_job_errors(payload@).len() == 0 ==> (r matches Ok(d) && d.account_id@ == str_field(
                payload@,
                "account_id"@,
                StrMode::NoBool,
            )->Ok_0 && match d.octy_job_ids {
                Some(ids) => str_list_value(payload@, "octy_job_ids"@, StrMode::NoBool, false) == Some(strings_view(ids@)),
                None => payload@.get("octy_job_ids"@) is None || payload@.get("octy_job_ids"@) == Some(JsonV::Null),
            } && match d.alt_identifiers {
                Some(ids) => str_list_value(payload@, "alt_identifiers"@, StrMode::NoBool, false) == Some(strings_view(ids@)),
                None => payload@.get("alt_identifiers"@) is None || payload@.get("alt_identifiers"@) == Some(JsonV::Null),
            }),
    {
        if !payload.is_object() {
            return Err(not_a_dict());
        }
        let prefix: Vec<Loc> = Vec::new();
        assert(locs_view(prefix@) =~= Seq::<LocV>::empty());
        let mut errors: Vec<FieldError> = Vec::new();
        let account_id = take_str(payload, "account_id", &prefix, StrMode::NoBool, &mut errors);
        assert(locs_view(prefix@).push(LocV::Key("account_id"@)) =~= seq![LocV::Key("account_id"@)]);
        let octy_job_ids = take_opt_str_list(payload, "octy_job_ids", &prefix, StrMode::NoBool, &mut errors);
        let alt_identifiers = take_opt_str_list(payload, "alt_identifiers", &prefix, StrMode::NoBool, &mut errors);
        assert(errs_view(errors@) =~= delete_job_errors(payload@));
        if errors.len() > 0 {
            return Err(errors);
        }
        proof {
            lemma_str_list_errors_empty(payload@, "octy_job_ids"@, StrMode::NoBool, false, seq![]);
            lemma_str_list_errors_empty(payload@, "alt_identifiers"@, StrMode::NoBool, false, seq![]);
        }
        match account_id {
            Some(account_id) => Ok(DeleteOctyJob { account_id, octy_job_ids, alt_identifiers }),
            None => Err(errors),
        }
    }
}

} // verus!
