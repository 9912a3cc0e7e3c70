use octy_services::json::{json_to_string, Json, JsonNumber};
use octy_services::octy_jobs::queue::JobUpdate;
use octy_services::octy_jobs::store::{
    accounts_page, claim_key, existing_job_filter, invalid_jobs_keys, job_needs_creating, job_update_doc,
    jobs_deletion_filter, oid_filter,
};

fn obj(members: Vec<(&str, Json)>) -> Json {
    Json::Object(members.into_iter().map(|(k, v)| (k.to_string(), v)).collect())
}

fn text(s: &str) -> Json {
    Json::Str(s.to_string())
}

fn num(i: i64) -> Json {
    Json::Number(JsonNumber::Int(i))
}

fn meta(s: i64, d: i64, f: i64, t: i64) -> Json {
    obj(vec![(
        "job_meta",
        obj(vec![("successful_runs", num(s)), ("desired_runs", num(d)), ("failed_runs", num(f)), ("fail_threshold", num(t))]),
    )])
}

const HEX: &str = "0123456789abcdefABCDEF00";

#[test]
fn jobs_are_created_unless_a_like_one_runs() {
    let job = obj(vec![
        ("job_meta", obj(vec![("job_type", text("rec")), ("amqp_routing_key", text("k"))])),
        ("job_data", obj(vec![("x", num(1))])),
    ]);
    assert_eq!(
        json_to_string(&existing_job_filter("a", &job)),
        "{\"$and\":[{\"account_id\":\"a\"},{\"job_meta.job_type\":\"rec\"},{\"job_meta.amqp_routing_key\":\"k\"},{\"job_data\":{\"x\":1}}]}"
    );
    assert!(job_needs_creating(None));
    assert!(!job_needs_creating(Some(&meta(1, 5, 0, 3))));
    assert!(job_needs_creating(Some(&meta(5, 5, 0, 3))));
    assert!(job_needs_creating(Some(&meta(1, 5, 3, 3))));
}

#[test]
fn job_identifiers_as_object_ids() {
    assert_eq!(json_to_string(&oid_filter(&text(HEX)).unwrap()), format!("{{\"$oid\":\"{HEX}\"}}"));
    let oid = obj(vec![("$oid", text("zz"))]);
    assert_eq!(json_to_string(&oid_filter(&oid).unwrap()), "{\"$oid\":\"zz\"}");
    assert_eq!(
        oid_filter(&text("xyz")).err(),
        Some("'xyz' is not a valid ObjectId, it must be a 12-byte input or a 24-character hex string".to_string())
    );
    assert_eq!(oid_filter(&num(3)).err(), Some("invalid octy_job_id".to_string()));
}

#[test]
fn job_update_writes() {
    let pending = JobUpdate {
        account_id: text("a"),
        octy_job_id: text(HEX),
        suc_inc_by: 1,
        fail_inc_by: 0,
        status: "pending".to_string(),
        action: "done".to_string(),
    };
    let (filter, update) = job_update_doc(&pending, &num(7)).unwrap();
    assert_eq!(json_to_string(&filter), format!("{{\"account_id\":\"a\",\"_id\":{{\"$oid\":\"{HEX}\"}}}}"));
    assert_eq!(
        json_to_string(&update),
        "{\"$inc\":{\"job_meta.successful_runs\":1,\"job_meta.failed_runs\":0},\"$set\":{\"job_meta.status\":\"pending\",\"job_meta.updated_at\":7,\"job_meta.last_updated_action\":\"done\"}}"
    );
    let processing = JobUpdate { status: "processing".to_string(), ..pending };
    let (_, update) = job_update_doc(&processing, &num(7)).unwrap();
    assert_eq!(
        json_to_string(&update),
        "{\"$set\":{\"job_meta.status\":\"processing\",\"job_meta.last_run\":7,\"job_meta.updated_at\":7,\"job_meta.last_updated_action\":\"done\"}}"
    );
    let bad = JobUpdate { octy_job_id: text("nope"), ..processing };
    assert!(job_update_doc(&bad, &num(7)).is_err());
}

#[test]
fn job_claims_and_deletions() {
    assert_eq!(claim_key("a", &obj(vec![("$oid", text("ff"))])), "account.id:a:octy.job:{'$oid': 'ff'}");
    assert_eq!(claim_key("a", &text("j1")), "account.id:a:octy.job:j1");
    assert_eq!(claim_key("a", &num(4)), "account.id:a:octy.job:4");
    assert!(jobs_deletion_filter(&vec![text("a")], &vec![]).is_none());
    assert_eq!(
        json_to_string(&jobs_deletion_filter(&vec![text("a")], &vec![text("j1")]).unwrap()),
        "{\"$or\":[{\"_id\":{\"$in\":[\"j1\"]}},{\"alt_dentifier\":{\"$in\":[\"j1\"]}}],\"account_id\":{\"$in\":[\"a\"]}}"
    );
    let (accounts, ids) = invalid_jobs_keys(&vec![obj(vec![("_id", text("j1")), ("account_id", text("a"))]), obj(vec![])]);
    assert_eq!(json_to_string(&Json::Array(accounts)), "[\"a\",null]");
    assert_eq!(json_to_string(&Json::Array(ids)), "[\"j1\",null]");
}

#[test]
fn account_pages() {
    let page = obj(vec![("accounts", Json::Array(vec![obj(vec![])])), ("request_meta", obj(vec![("count", num(1))]))]);
    match accounts_page(4, 200, Ok(page)) {
        Ok((accounts, next)) => {
            assert_eq!(accounts.len(), 1);
            assert_eq!(next, Some(5));
        }
        Err(_) => panic!("a page"),
    }
    assert!(matches!(accounts_page(0, 200, Ok(obj(vec![]))), Ok((_, None))));
    assert!(matches!(accounts_page(0, 404, Err("x".to_string())), Ok((_, None))));
    assert_eq!(accounts_page(0, 200, Err("eof".to_string())).err(), Some("invalid accounts response: eof".to_string()));
}
