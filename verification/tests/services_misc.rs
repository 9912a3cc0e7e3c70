use octy_services::amqp::AmqpOutcome;
use octy_services::gateway::{collection_path, read_reply, reply_deleted_count, reply_list_of, GatewayExt, GatewayFailure};
use octy_services::json::{json_to_string, Json, JsonNumber, Loc};
use octy_services::octy_jobs::pass::{idle_summary, JobPass};
use octy_services::octy_jobs::services::{build_message_payload, deep_get, validate_account_attr};
use octy_services::profiles::services::{format_profile, format_segment_tags};
use octy_services::recommendation::models::{GetRecomendations, GetRecomendationsInternal};

fn obj(members: Vec<(&str, Json)>) -> Json {
    Json::Object(members.into_iter().map(|(k, v)| (k.to_string(), v)).collect())
}

fn text(s: &str) -> Json {
    Json::Str(s.to_string())
}

fn num(i: i64) -> Json {
    Json::Number(JsonNumber::Int(i))
}

fn strs(v: Vec<&str>) -> Json {
    Json::Array(v.into_iter().map(text).collect())
}

#[test]
fn gateway_url_drops_trailing_slashes() {
    let g = GatewayExt::load(Some("http://gw:9000//"));
    assert_eq!(g.url("/v1/x"), "http://gw:9000/v1/x");
    let d = GatewayExt::load(None);
    assert_eq!(d.url("/p"), "http://127.0.0.1:8090/p");
    assert_eq!(collection_path("tbl_items", "find"), "/v1/mongo/tbl_items/find");
}

#[test]
fn gateway_replies() {
    match read_reply("/p", 200, obj(vec![("ok", Json::Bool(true))])) {
        Ok(j) => assert_eq!(json_to_string(&j), "{\"ok\":true}"),
        Err(_) => panic!("2xx is a success"),
    }
    match read_reply("/p", 409, obj(vec![("error", text("dup key"))])) {
        Err(GatewayFailure::Duplicate(d)) => assert_eq!(d, "dup key"),
        _ => panic!("409 is a duplicate"),
    }
    match read_reply("/p", 500, Json::Null) {
        Err(GatewayFailure::Internal(m)) => assert_eq!(m, "gateway /p: gateway error"),
        _ => panic!("500 is an internal error"),
    }
    let res = obj(vec![("documents", Json::Array(vec![num(1), num(2)])), ("deleted", num(4))]);
    assert_eq!(reply_list_of(&res, "documents").len(), 2);
    assert_eq!(reply_list_of(&res, "write_errors").len(), 0);
    assert_eq!(reply_deleted_count(&res), 4);
}

#[test]
fn amqp_outcomes() {
    let ok = AmqpOutcome::ok();
    let refused = AmqpOutcome::refused("bad body");
    assert!(ok.status != refused.status);
    assert!(refused.detail.contains("bad body"));
}

#[test]
fn deep_get_follows_dotted_paths() {
    let account = obj(vec![("a", obj(vec![("b", obj(vec![("c", num(5))]))])), ("x", num(1))]);
    match deep_get(&account, "a.b.c") {
        Some(v) => assert_eq!(json_to_string(v), "5"),
        None => panic!("a.b.c exists"),
    }
    assert!(deep_get(&account, "a.z").is_none());
    assert!(deep_get(&account, "x.y").is_none());
    assert_eq!(validate_account_attr(&account, "a.b.c"), (true, true));
    assert_eq!(validate_account_attr(&account, "x"), (true, false));
    assert_eq!(validate_account_attr(&account, "missing"), (false, false));
    assert_eq!(validate_account_attr(&account, "a.q"), (false, true));
}

fn job(required: Vec<&str>, attributes: Vec<&str>) -> Json {
    obj(vec![
        ("_id", text("job1")),
        ("job_data", obj(vec![("k", num(1))])),
        (
            "job_meta",
            obj(vec![
                ("required_permissions", strs(required)),
                ("required_configurations", obj(vec![("account_attributes", strs(attributes))])),
            ]),
        ),
    ])
}

#[test]
fn message_payload_needs_permissions() {
    let account = obj(vec![
        ("_id", text("acc1")),
        ("permissions", strs(vec!["p1"])),
        ("plan", text("pro")),
        ("billing", obj(vec![("tier", num(2))])),
    ]);
    let (ok, payload) = build_message_payload(&account, &job(vec!["p2"], vec![]));
    assert!(!ok);
    assert_eq!(json_to_string(&payload), "{}");
    let (ok, payload) = build_message_payload(&account, &job(vec!["p1"], vec!["plan", "billing.tier"]));
    assert!(ok);
    let data = payload.get("account_data").expect("account data");
    assert_eq!(json_to_string(data.get("account_id").expect("id")), "\"acc1\"");
    assert_eq!(json_to_string(data.get("plan").expect("plan")), "\"pro\"");
    assert_eq!(json_to_string(data.get("tier").expect("tier")), "2");
    assert_eq!(json_to_string(payload.get("octy_job_id").expect("job id")), "\"job1\"");
    let (ok, _) = build_message_payload(&account, &job(vec!["p1"], vec!["absent"]));
    assert!(!ok);
}

#[test]
fn segment_tags_merge_and_append() {
    let now = obj(vec![("$date", num(7))]);
    let existing = vec![obj(vec![("segment_id", text("s1")), ("segment_tag", text("old"))])];
    let new_tags = vec![
        obj(vec![("segment_id", text("s1")), ("segment_tag", text("new"))]),
        obj(vec![("segment_id", text("s2")), ("segment_tag", text("t2"))]),
    ];
    let merged = format_segment_tags(&new_tags, &existing, &now);
    assert_eq!(merged.len(), 2);
    assert_eq!(
        json_to_string(&merged[0]),
        "{\"segment_id\":\"s1\",\"segment_tag\":\"new\",\"updated_at\":{\"$date\":7}}"
    );
    assert_eq!(
        json_to_string(&merged[1]),
        "{\"segment_id\":\"s2\",\"segment_tag\":\"t2\",\"created_at\":{\"$date\":7}}"
    );
}

#[test]
fn profile_documents_are_formatted() {
    let doc = obj(vec![
        ("_id", text("profile_1")),
        ("account_id", text("acc")),
        ("ltv_prediction", num(3)),
        ("created_at", obj(vec![("$date", num(0))])),
        (
            "segment_tags",
            Json::Array(vec![
                obj(vec![
                    ("segment_id", text("s1")),
                    ("segment_tag", text("vip")),
                    ("status", text("active")),
                    ("created_at", obj(vec![("$date", num(86_400_000))])),
                ]),
                obj(vec![("segment_id", text("s2")), ("status", text("inactive"))]),
            ]),
        ),
    ]);
    let out = format_profile(&doc, &vec!["active".to_string()], false);
    assert!(out.get("account_id").is_none());
    assert!(out.get("ltv_prediction").is_none());
    assert_eq!(json_to_string(out.get("profile_id").expect("id")), "\"profile_1\"");
    assert_eq!(
        json_to_string(out.get("created_at").expect("created")),
        "\"Thu, 01 Jan 1970 00:00:00 GMT\""
    );
    let tags = out.get("segment_tags").expect("tags");
    assert_eq!(
        json_to_string(tags),
        "[{\"segment_tag\":\"vip\",\"created_at\":\"Fri, 02 Jan 1970 00:00:00 GMT\"}]"
    );
    let internal = format_profile(&doc, &vec!["active".to_string(), "inactive".to_string()], true);
    assert!(internal.get("ltv_prediction").is_some());
    assert_eq!(internal.get("segment_tags").and_then(|t| t.as_array()).map(|a| a.len()), Some(2));
}

#[test]
fn recommendation_requests() {
    let body = obj(vec![("profile_ids", strs(vec!["a", "b"]))]);
    match GetRecomendations::from_json(&body, 5) {
        Ok(g) => assert_eq!(g.profile_ids, vec!["a".to_string(), "b".to_string()]),
        Err(_) => panic!("valid"),
    }
    match GetRecomendations::from_json(&body, 1) {
        Err(e) => {
            assert_eq!(e.code, 422);
            assert_eq!(e.reasons[0].msg, "You can only generate up to 100 item recommendations per request.");
        }
        Ok(_) => panic!("over the limit"),
    }
    match GetRecomendationsInternal::from_json(&obj(vec![("profile_ids", strs(vec![]))])) {
        Err(e) => {
            assert_eq!(e.reasons.len(), 1);
            match &e.reasons[0].loc[1] {
                Loc::Key(k) => assert_eq!(k, "account_id"),
                Loc::Index(_) => panic!("a key"),
            }
        }
        Ok(_) => panic!("account_id is required"),
    }
}

fn queued_job(id: &str, account_id: &str, required: Vec<&str>) -> Json {
    obj(vec![
        ("_id", text(id)),
        ("account_id", text(account_id)),
        ("job_data", obj(vec![])),
        (
            "job_meta",
            obj(vec![
                ("amqp_routing_key", text("live.segmentation.cmd.run")),
                ("required_permissions", strs(required)),
                ("required_configurations", obj(vec![("account_attributes", strs(vec![]))])),
            ]),
        ),
    ])
}

#[test]
fn job_pass_decides_each_pending_job() {
    let accounts = vec![obj(vec![("_id", text("acc1")), ("permissions", strs(vec!["p1"]))])];
    let mut pass = JobPass::new();
    assert!(pass.step(&accounts, &queued_job("j1", "acc1", vec!["p1"]), false).is_none());
    let (key, payload) = pass.step(&accounts, &queued_job("j2", "acc1", vec!["p1"]), true).expect("published");
    assert_eq!(key, "live.segmentation.cmd.run");
    assert_eq!(json_to_string(payload.get("octy_job_id").expect("job id")), "\"j2\"");
    assert!(pass.step(&accounts, &queued_job("j3", "acc1", vec!["p9"]), true).is_none());
    assert!(pass.step(&accounts, &queued_job("j4", "acc2", vec![]), true).is_none());
    assert_eq!((pass.published, pass.skipped_unclaimed, pass.skipped_invalid_payload), (1, 1, 1));
    assert_eq!(pass.updates.len(), 2);
    assert_eq!(pass.updates[0].status, "processing");
    assert_eq!(pass.updates[1].status, "pending");
    assert_eq!(pass.updates[1].fail_inc_by, 1);
    assert_eq!(
        pass.updates[1].action,
        "octy job queue --> Error occurred during processing :: acc2 was not returned by the account service."
    );
    assert_eq!(
        json_to_string(&pass.summary(5, 4, 1, 0)),
        "{\"detail\":\"Processed Octy jobs\",\"total_jobs\":5,\"pending\":4,\"published\":1,\"deleted_invalid\":1,\"reset_hung\":0,\"skipped_unclaimed\":1,\"skipped_invalid_payload\":1}"
    );
}

#[test]
fn idle_pass_summaries() {
    assert_eq!(json_to_string(&idle_summary(0, 0, 0)), "{\"detail\":\"No pending jobs found\",\"total_jobs\":0}");
    assert_eq!(
        json_to_string(&idle_summary(3, 2, 1)),
        "{\"detail\":\"No pending jobs found\",\"total_jobs\":3,\"deleted_invalid\":2,\"reset_hung\":1}"
    );
}
