use octy_services::events::models::UpdateEventsOwnerChild;
use octy_services::events::reads::{
    account_types_deleted, conflict_refusals, created_event_types, event_meta_entry, event_type_deletion,
    event_types_not_found, events_query, format_event, format_event_type, live_segments_reply, no_account_types_entry,
    owner_updates, plan_event_types, profile_lookup,
};
use octy_services::json::{json_to_string, Json, JsonNumber};

fn obj(members: Vec<(&str, Json)>) -> Json {
    Json::Object(members.into_iter().map(|(k, v)| (k.to_string(), v)).collect())
}

fn text(s: &str) -> Json {
    Json::Str(s.to_string())
}

fn num(i: i64) -> Json {
    Json::Number(JsonNumber::Int(i))
}

fn strings(v: Vec<&str>) -> Vec<String> {
    v.into_iter().map(|s| s.to_string()).collect()
}

#[test]
fn stored_event_types_and_events_as_returned() {
    let doc = obj(vec![("_id", text("x")), ("event_type", text("e")), ("created_at", obj(vec![("$date", num(0))]))]);
    assert_eq!(
        json_to_string(&format_event_type(&doc, "event_type_id")),
        "{\"_id\":\"x\",\"event_type\":\"e\",\"created_at\":\"Thu, 01 Jan 1970 00:00:00 GMT\",\"event_type_id\":\"x\"}"
    );
    let plain = obj(vec![("_id", text("x")), ("created_at", num(5))]);
    assert_eq!(json_to_string(&format_event_type(&plain, "profile_id")), "{\"_id\":\"x\",\"created_at\":null,\"profile_id\":\"x\"}");
    let event = obj(vec![("_id", text("e1")), ("profile_id", text("p")), ("created_at", obj(vec![("$date", num(0))]))]);
    assert_eq!(
        json_to_string(&format_event(&event, "event_id")),
        "{\"profile_id\":\"p\",\"created_at\":\"Thu, 01 Jan 1970 00:00:00 GMT\",\"event_id\":\"e1\"}"
    );
    let bare = obj(vec![("_id", text("e2"))]);
    assert_eq!(json_to_string(&format_event(&bare, "event_type_id")), "{\"event_type_id\":\"e2\",\"created_at\":null}");
}

#[test]
fn creating_event_types() {
    let batch = vec![
        obj(vec![("event_type_id", text("t1")), ("account_id", text("a")), ("event_type", text("signup")), ("event_properties", Json::Array(vec![]))]),
        obj(vec![("event_type_id", text("t2")), ("account_id", text("a")), ("event_type", text("custom")), ("event_properties", Json::Array(vec![text("x")]))]),
        obj(vec![("event_type_id", text("t3")), ("account_id", text("a")), ("event_type", text("other")), ("event_properties", Json::Array(vec![]))]),
    ];
    let plan = plan_event_types(&batch, &strings(vec!["signup"]), 7);
    assert_eq!(plan.names, strings(vec!["custom", "other"]));
    assert_eq!(
        json_to_string(&plan.documents[0]),
        "{\"_id\":\"t2\",\"account_id\":\"a\",\"event_type\":\"custom\",\"event_properties\":[\"x\"],\"created_at\":7}"
    );
    assert_eq!(
        json_to_string(&plan.failed[0]),
        "{\"event_type\":\"signup\",\"error_message\":\"System event type exists: signup\"}"
    );
    let errors = vec![obj(vec![("index", num(1))]), obj(vec![("index", num(5))]), obj(vec![("code", num(11000))])];
    let conflicts = conflict_refusals(&plan.names, &errors);
    assert_eq!(conflicts.len(), 1);
    assert_eq!(json_to_string(&conflicts[0]), "{\"event_type\":\"other\",\"error_message\":\"Conflict: other\"}");
    let mut failed = plan.failed;
    failed.extend(conflicts);
    let created = created_event_types(&batch, &failed);
    assert_eq!(created.len(), 1);
    assert_eq!(
        json_to_string(&created[0]),
        "{\"event_type_id\":\"t2\",\"event_type\":\"custom\",\"event_properties\":[\"x\"]}"
    );
}

#[test]
fn finding_and_deleting_event_types() {
    let found = event_types_not_found(&strings(vec!["a", "b"]), &vec![obj(vec![("event_type", text("a"))])]);
    assert_eq!(found.len(), 1);
    assert_eq!(json_to_string(&found[0]), "\"b\"");
    let (ok, entry) = event_type_deletion(&text("t"), 1);
    assert!(ok);
    assert_eq!(json_to_string(&entry), "{\"event_type_id\":\"t\"}");
    let (ok, entry) = event_type_deletion(&text("t"), 0);
    assert!(!ok);
    assert_eq!(json_to_string(&entry), "{\"event_type_id\":\"t\",\"error_message\":\"No match found for deletion\"}");
    let deleted = account_types_deleted(&vec![obj(vec![("_id", text("1")), ("event_type", text("x"))]), obj(vec![("_id", text("2"))])]);
    assert_eq!(json_to_string(&deleted[1]), "{\"event_type_id\":\"2\",\"event_type\":\"unknown\"}");
    assert_eq!(
        json_to_string(&no_account_types_entry("acc")),
        "{\"account_id\":\"acc\",\"error_message\":\"No event types found for account_id: acc\"}"
    );
    let meta = event_meta_entry(&obj(vec![("event_type", text("view")), ("event_properties", obj(vec![]))]));
    assert_eq!(json_to_string(&meta), "{\"event_type\":\"view\",\"event_properties\":{}}");
}

#[test]
fn events_listing_queries() {
    let ese = obj(vec![("event_type", text("view")), ("event_properties", obj(vec![("sku", text("1"))]))]);
    assert_eq!(
        json_to_string(&events_query("a", 100, Some(&ese), None, None).unwrap()),
        "{\"account_id\":\"a\",\"created_at\":{\"$gt\":{\"$date\":100}},\"event_type\":\"view\",\"event_properties.sku\":\"1\"}"
    );
    let pids = strings(vec!["p1"]);
    assert_eq!(
        json_to_string(&events_query("a", 100, Some(&obj(vec![])), Some(&pids), Some("buy")).unwrap()),
        "{\"account_id\":\"a\",\"created_at\":{\"$gt\":{\"$date\":100}},\"profile_id\":{\"$in\":[\"p1\"]},\"event_type\":\"buy\"}"
    );
    assert_eq!(
        json_to_string(&events_query("a", 1, None, Some(&pids), Some("")).unwrap()),
        "{\"account_id\":\"a\",\"created_at\":{\"$gt\":{\"$date\":1}},\"profile_id\":{\"$in\":[\"p1\"]}}"
    );
    assert_eq!(
        json_to_string(&events_query("a", 1, None, Some(&vec![]), Some("buy")).unwrap()),
        "{\"account_id\":\"a\",\"created_at\":{\"$gt\":{\"$date\":1}}}"
    );
    assert_eq!(
        events_query("a", 1, Some(&obj(vec![("x", num(1))])), None, None).err(),
        Some("KeyError: event_sequence_event['event_type']".to_string())
    );
    assert_eq!(
        events_query("a", 1, Some(&obj(vec![("event_type", text("v")), ("event_properties", num(1))])), None, None).err(),
        Some("event_sequence_event['event_properties'] is not a dict".to_string())
    );
}

#[test]
fn event_owners_and_service_replies() {
    let profiles = vec![
        UpdateEventsOwnerChild { parent_profile: "P".to_string(), child_profiles: strings(vec!["c1", "c2"]) },
        UpdateEventsOwnerChild { parent_profile: "Q".to_string(), child_profiles: strings(vec!["c2", "c3"]) },
    ];
    let pairs = owner_updates(&profiles);
    let want: Vec<(String, String)> = vec![("c1", "P"), ("c2", "P"), ("c2", "P"), ("c3", "Q")]
        .into_iter()
        .map(|(a, b)| (a.to_string(), b.to_string()))
        .collect();
    assert_eq!(pairs, want);
    assert_eq!(profile_lookup(404, Err("x".to_string())).err(), Some("Profile API error: status 404".to_string()));
    match profile_lookup(200, Ok(obj(vec![("profiles", Json::Array(vec![num(1)])), ("not_found", Json::Array(vec![text("x")]))]))) {
        Ok((found, missing)) => {
            assert_eq!(found.len(), 1);
            assert_eq!(missing.len(), 1);
        }
        Err(_) => panic!("a reply"),
    }
    assert_eq!(
        profile_lookup(200, Err("bad".to_string())).err(),
        Some("Profile API error: invalid JSON response: bad".to_string())
    );
    assert_eq!(live_segments_reply(200, Ok(obj(vec![]))).map(|s| s.len()), Ok(0));
    assert_eq!(live_segments_reply(500, Ok(obj(vec![]))).err(), Some("Segment API error: status 500".to_string()));
}
