use octy_services::dates::fmt_gmt;
use octy_services::events::models::CreateEvent;
use octy_services::events::records::{
    event_document, event_time, live_segment_job_message, no_valid_profiles_refusal, refused_event_entry,
    unknown_profile_refusal, BatchStep, EventBatch, EventTime,
};
use octy_services::profiles::records::{no_profiles_updated_reason, profile_owner, stored_profile};
use octy_services::items::records::{
    create_item_document, creation_outcome, format_item, missing_update_entries, plan_item_update,
};
use octy_services::json::{json_to_string, Json, JsonNumber};
use octy_services::messaging::records::{
    duplicate_template_id, format_date_value, format_template_doc, missing_template_entries, plan_template_update,
    template_creation_outcome, template_deletion_entries, template_update_refused, TemplateBatchEntry,
};
use octy_services::octy_jobs::queue::{sort_jobs, unique_account_ids};
use octy_services::profiles::keys::{build_key_types, check_key_types, py_type_str};
use octy_services::profiles::meta::profile_identifier_meta;

fn obj(members: Vec<(&str, Json)>) -> Json {
    Json::Object(members.into_iter().map(|(k, v)| (k.to_string(), v)).collect())
}

fn text(s: &str) -> Json {
    Json::Str(s.to_string())
}

fn num(i: i64) -> Json {
    Json::Number(JsonNumber::Int(i))
}

fn date(ms: i64) -> Json {
    obj(vec![("$date", num(ms))])
}

#[test]
fn gmt_rendering_of_epoch_millis() {
    assert_eq!(fmt_gmt(0), "Thu, 01 Jan 1970 00:00:00 GMT");
    assert_eq!(fmt_gmt(1_700_000_000_000), "Tue, 14 Nov 2023 22:13:20 GMT");
    assert_eq!(fmt_gmt(i64::MAX), "");
}

#[test]
fn returned_items_lose_private_fields_and_render_dates() {
    let stored = obj(vec![
        ("_id", text("x")),
        ("item_id", text("a")),
        ("account_id", text("acc")),
        ("event_type", text("e")),
        ("created_at", date(0)),
        ("updated_at", Json::Null),
    ]);
    assert_eq!(
        json_to_string(&format_item(&stored)),
        "{\"item_id\":\"a\",\"created_at\":\"Thu, 01 Jan 1970 00:00:00 GMT\",\"updated_at\":null}"
    );
    let odd = obj(vec![("item_id", text("a")), ("created_at", text("yesterday")), ("updated_at", date(0))]);
    assert_eq!(
        json_to_string(&format_item(&odd)),
        "{\"item_id\":\"a\",\"created_at\":\"yesterday\",\"updated_at\":{\"$date\":0}}"
    );
}

#[test]
fn new_item_document_is_active() {
    let item = obj(vec![("item_id", text("a")), ("account_id", text("acc")), ("item_price", num(5))]);
    let doc = create_item_document(&item, &date(9));
    assert_eq!(
        json_to_string(&doc),
        "{\"item_id\":\"a\",\"account_id\":\"acc\",\"item_category\":null,\"item_name\":null,\"item_description\":null,\"item_price\":5,\"event_type\":null,\"status\":\"active\",\"created_at\":{\"$date\":9},\"updated_at\":null}"
    );
}

#[test]
fn creation_outcome_skips_taken_and_repeated_ids() {
    let batch = vec![
        obj(vec![("item_id", text("a")), ("account_id", text("acc"))]),
        obj(vec![("item_id", text("b")), ("event_type", text("e"))]),
        obj(vec![("item_id", text("a"))]),
    ];
    let (created, failed) = creation_outcome(&batch, &vec!["b".to_string()]);
    assert_eq!(created.len(), 1);
    assert_eq!(json_to_string(&created[0]), "{\"item_id\":\"a\"}");
    assert_eq!(
        json_to_string(&failed[0]),
        "{\"item_id\":\"b\",\"error_message\":\"Another item exists with provided item_id : b\"}"
    );
}

#[test]
fn update_plans_and_missing_items() {
    let batch = vec![
        obj(vec![("item_id", text("a")), ("item_name", text("new")), ("status", text("active"))]),
        obj(vec![("item_id", text("z"))]),
    ];
    let stored = obj(vec![("item_id", text("a")), ("account_id", text("acc")), ("created_at", date(0))]);
    let missing = missing_update_entries(&batch, &vec![stored.deep_clone()]);
    assert_eq!(missing.len(), 1);
    assert_eq!(
        json_to_string(&missing[0]),
        "{\"item_id\":\"z\",\"error_message\":\"No item exists with provided item_id : z\"}"
    );
    match plan_item_update(&stored, &batch, &date(5), "NOW") {
        Ok((set, out)) => {
            assert_eq!(
                json_to_string(&set),
                "{\"item_id\":\"a\",\"item_category\":null,\"item_name\":\"new\",\"item_description\":null,\"item_price\":null,\"event_type\":null,\"status\":\"active\",\"updated_at\":{\"$date\":5}}"
            );
            assert_eq!(
                json_to_string(&out),
                "{\"item_id\":\"a\",\"item_name\":\"new\",\"status\":\"active\",\"created_at\":\"Thu, 01 Jan 1970 00:00:00 GMT\",\"updated_at\":\"NOW\"}"
            );
        }
        Err(_) => panic!("the batch has the item"),
    }
    let undated = obj(vec![("item_id", text("a"))]);
    assert_eq!(plan_item_update(&undated, &batch, &date(5), "NOW").err(), Some("KeyError: 'created_at'".to_string()));
    let other = obj(vec![("item_id", text("q")), ("created_at", date(0))]);
    assert_eq!(
        plan_item_update(&other, &batch, &date(5), "NOW").err(),
        Some("StopIteration: item not found in batch".to_string())
    );
}

fn template(id: &str, name: &str) -> TemplateBatchEntry {
    TemplateBatchEntry {
        template_id: id.to_string(),
        account_id: "acc".to_string(),
        friendly_name: name.to_string(),
        template_type: "email".to_string(),
        title: "T".to_string(),
        content: "C".to_string(),
        default_values: vec![("first_name".to_string(), "there".to_string())],
        metadata: None,
    }
}

#[test]
fn template_creation_and_duplicates() {
    let batch = vec![template("t1", "a"), template("t2", "b"), template("t3", "a")];
    let (created, failed) = template_creation_outcome(&batch, &vec!["b".to_string()]);
    assert_eq!(created.len(), 1);
    assert_eq!(
        json_to_string(&created[0]),
        "{\"template_id\":\"t1\",\"friendly_name\":\"a\",\"template_type\":\"email\",\"title\":\"T\",\"content\":\"C\",\"default_values\":{\"first_name\":\"there\"},\"metadata\":null}"
    );
    assert_eq!(failed.len(), 1);
    assert_eq!(duplicate_template_id(&batch), None);
    let dup = vec![template("t1", "a"), template("t1", "b")];
    assert_eq!(duplicate_template_id(&dup), Some("t1".to_string()));
}

#[test]
fn template_updates_and_deletions() {
    let batch = vec![template("t1", "a"), template("t2", "b")];
    let stored = vec![obj(vec![("_id", text("t1")), ("account_id", text("acc")), ("created_at", date(0))])];
    let missing = missing_template_entries(&batch, &stored);
    assert_eq!(
        json_to_string(&missing[0]),
        "{\"template_id\":\"t2\",\"error_message\":\"No template exists with provided template_id : t2\"}"
    );
    let none = missing_template_entries(&batch, &vec![]);
    assert_eq!(none.len(), 2);
    match plan_template_update(&stored[0], &batch, &date(3), "NOW") {
        Some((j, _set, out)) => {
            assert_eq!(j, 0);
            assert_eq!(
                json_to_string(out.get("created_at").expect("created")),
                "\"Thu, 01 Jan 1970 00:00:00 GMT\""
            );
        }
        None => panic!("t1 is in the batch"),
    }
    assert_eq!(
        json_to_string(&template_update_refused(&batch[1], true)),
        "{\"template_id\":\"t2\",\"friendly_name\":\"b\",\"error_message\":\"Another template exists with provided friendly_name : b\"}"
    );
    let pairs = vec![("t1".to_string(), "acc".to_string()), ("t1".to_string(), "other".to_string())];
    let (deleted, failed) = template_deletion_entries(&pairs, &stored);
    assert_eq!(deleted.len(), 1);
    assert_eq!(failed.len(), 1);
    assert_eq!(json_to_string(&format_date_value(&Json::Null)), "null");
    let doc = format_template_doc(&stored[0]);
    assert_eq!(
        json_to_string(&doc),
        "{\"created_at\":\"Thu, 01 Jan 1970 00:00:00 GMT\",\"template_id\":\"t1\"}"
    );
}

#[test]
fn profile_key_types_first_type_wins() {
    let p1 = obj(vec![
        ("customer_id", text("c1")),
        ("platform_info", obj(vec![("os", text("ios"))])),
        ("profile_data", obj(vec![("age", num(3))])),
    ]);
    let p2 = obj(vec![("customer_id", text("c2")), ("profile_data", obj(vec![("age", text("old"))]))]);
    match build_key_types(&vec![p1.deep_clone()]) {
        Ok(types) => assert_eq!(
            types,
            vec![("os".to_string(), "<class 'str'>".to_string()), ("age".to_string(), "<class 'int'>".to_string())]
        ),
        Err(_) => panic!("one profile is consistent"),
    }
    assert_eq!(
        build_key_types(&vec![p1.deep_clone(), p2]).err(),
        Some("Invalid type provided for key 'age'. Got type <class 'int'> expected type <class 'str'> according the data type of the value for the first instance of the key: age.".to_string())
    );
    let dup = obj(vec![
        ("customer_id", text("c3")),
        ("platform_info", obj(vec![("k", num(1))])),
        ("profile_data", obj(vec![("k", num(2))])),
    ]);
    assert_eq!(
        build_key_types(&vec![dup]).err(),
        Some("Duplicate key: 'k', provided in profile with customer_id: c3".to_string())
    );
    assert_eq!(py_type_str(&Json::Null), "<class 'NoneType'>");
    let new_types = vec![("a".to_string(), "<class 'int'>".to_string()), ("b".to_string(), "<class 'str'>".to_string())];
    let stored = vec![obj(vec![("key", text("b")), ("type_", text("<class 'int'>"))])];
    let (record, err) = check_key_types(&new_types, &stored);
    assert_eq!(record, vec![("a".to_string(), "<class 'int'>".to_string())]);
    assert_eq!(
        err,
        Some("Invalid type provided for key 'b'. Got type <class 'str'> expected type <class 'int'>".to_string())
    );
    let (all, none) = check_key_types(&new_types, &vec![]);
    assert_eq!(all.len(), 2);
    assert!(none.is_none());
}

#[test]
fn identifier_metadata() {
    let found = vec![obj(vec![("profile_id", text("p1")), ("customer_id", text("c1")), ("created_at", text("then"))])];
    let merged = vec![obj(vec![
        ("parent_profile_id", text("p0")),
        ("merged_at", text("now")),
        ("merged_profiles", Json::Array(vec![obj(vec![("profile_id", text("p1"))])])),
    ])];
    let meta = profile_identifier_meta("c1", &found, &merged);
    assert_eq!(
        json_to_string(&meta),
        "{\"provided_identifier\":\"c1\",\"profile\":{\"profile_exists\":true,\"profile_id\":\"p1\",\"customer_id\":\"c1\",\"created_at\":\"then\",\"updated_at\":null},\"merged_info\":{\"was_merged\":false,\"merged_at\":null,\"authenticated_id_key\":null,\"authenticated_id_value\":null,\"parent_or_child\":null,\"parent_profile\":{\"parent_profile_id\":null,\"parent_customer_id\":null},\"merged_child_profiles\":[]}}"
    );
    let child = profile_identifier_meta("p1", &found, &merged);
    let info = child.get("merged_info").expect("info");
    assert_eq!(json_to_string(info.get("parent_or_child").expect("role")), "\"child_profile\"");
    assert_eq!(json_to_string(info.get("merged_at").expect("at")), "\"now\"");
}

fn event() -> CreateEvent {
    CreateEvent {
        event_type: "charged".to_string(),
        event_properties: vec![("amount".to_string(), num(3))],
        profile_id: "profile_1".to_string(),
        created_at: None,
    }
}

#[test]
fn event_documents() {
    let e = event();
    assert_eq!(
        json_to_string(&event_document("ev1", &e, &text("type1"), None)),
        "{\"event_id\":\"ev1\",\"profile_id\":\"profile_1\",\"event_type_id\":\"type1\",\"event_type\":\"charged\",\"event_properties\":{\"amount\":3}}"
    );
    assert_eq!(
        json_to_string(&refused_event_entry(&e, "bad")),
        "{\"event_type\":\"charged\",\"event_properties\":{\"amount\":3},\"profile_id\":\"profile_1\",\"error_message\":\"bad\"}"
    );
    let job = live_segment_job_message("acc", "ev1", &e, &text("type1"), &obj(vec![]));
    let meta = job.get("job_meta").expect("meta");
    assert_eq!(json_to_string(meta.get("amqp_routing_key").expect("key")), "\"live.segmentation.cmd.run\"");
}

#[test]
fn event_times() {
    assert!(matches!(event_time(&None), EventTime::Now));
    assert!(matches!(event_time(&Some(String::new())), EventTime::Now));
    assert!(matches!(event_time(&Some("2023-11-14".to_string())), EventTime::Invalid));
    match event_time(&Some("1970-01-02 00:00:00".to_string())) {
        EventTime::At(ms, t) => {
            assert_eq!(ms, 86_400_000);
            assert_eq!(t, "Fri, 02 Jan 1970 00:00:00 GMT");
        }
        _ => panic!("a valid time"),
    }
    match event_time(&Some("2016-12-31 23:59:60".to_string())) {
        EventTime::At(_, t) => assert_eq!(t, "Sat, 31 Dec 2016 23:59:60 GMT"),
        _ => panic!("a leap second is a valid time"),
    }
}

#[test]
fn event_batch_splits_created_and_refused() {
    let e = event();
    let mut batch = EventBatch::new();
    batch.record(&e, BatchStep::BadTime);
    batch.record(&e, BatchStep::Refused("bad".to_string()));
    batch.record(
        &e,
        BatchStep::Created {
            event_id: "ev1".to_string(),
            event_type_id: text("type1"),
            stored_at: date(5),
            shown_at: "Thu, 01 Jan 1970 00:00:00 GMT".to_string(),
        },
    );
    let b = match batch.finish() {
        Ok(b) => b,
        Err(_) => panic!("one event was created"),
    };
    assert_eq!(b.stored.len(), 1);
    assert_eq!(b.returned.len(), 1);
    assert_eq!(b.refused.len(), 2);
    assert_eq!(
        json_to_string(&b.refused[0]),
        json_to_string(&refused_event_entry(&e, "Incorrect date format supplied, should be YYYY-MM-DD HH:MM:SS"))
    );
    assert_eq!(json_to_string(&b.refused[1]), json_to_string(&refused_event_entry(&e, "bad")));
    assert_eq!(
        json_to_string(&b.stored[0]),
        json_to_string(&event_document("ev1", &e, &text("type1"), Some(date(5))))
    );
    assert_eq!(
        json_to_string(&b.returned[0]),
        json_to_string(&event_document("ev1", &e, &text("type1"), Some(text("Thu, 01 Jan 1970 00:00:00 GMT"))))
    );
}

#[test]
fn event_batch_with_nothing_created_is_refused() {
    let e = event();
    let mut batch = EventBatch::new();
    batch.record(&e, BatchStep::Refused("bad".to_string()));
    match batch.finish() {
        Err(none) => {
            assert_eq!(none.message, "Invalid events data provided. No events were created.");
            assert_eq!(none.refused.len(), 1);
        }
        Ok(_) => panic!("nothing was created"),
    }
}

fn job(id: &str, acc: &str, meta: Vec<(&str, Json)>) -> Json {
    obj(vec![("_id", text(id)), ("account_id", text(acc)), ("job_meta", obj(meta))])
}

#[test]
fn job_sorting() {
    let now = 10 * 86_400_000;
    let jobs = vec![
        job("due", "a", vec![("successful_runs", num(0)), ("desired_runs", num(2)), ("status", text("pending")), ("time_interval", num(0))]),
        job("wait", "b", vec![
            ("successful_runs", num(0)),
            ("desired_runs", num(2)),
            ("status", text("pending")),
            ("time_interval", num(10)),
            ("last_run", date(now - 5 * 60_000)),
        ]),
        job("spent", "a", vec![("successful_runs", num(2)), ("desired_runs", num(2))]),
        job("failed", "c", vec![("failed_runs", num(3)), ("fail_threshold", num(2)), ("desired_runs", num(1))]),
        job("hung", "c", vec![("status", text("processing")), ("last_run", date(0)), ("desired_runs", num(1))]),
    ];
    let sorted = sort_jobs(&jobs, now);
    assert_eq!(sorted.runnable.len(), 1);
    assert_eq!(json_to_string(sorted.runnable[0].get("_id").expect("id")), "\"due\"");
    assert_eq!(sorted.invalid.len(), 2);
    assert_eq!(sorted.hung.len(), 1);
    let accounts = unique_account_ids(&jobs);
    assert_eq!(accounts.len(), 3);
}

#[test]
fn event_profile_refusals() {
    let p = vec![obj(vec![("profile_id", text("p1"))])];
    let none: Vec<Json> = Vec::new();
    assert_eq!(unknown_profile_refusal(&p, &none), None);
    assert_eq!(
        unknown_profile_refusal(&p, &p),
        Some("Unknown profile_id supplied with this event instance".to_string())
    );
    assert_eq!(
        unknown_profile_refusal(&none, &none),
        Some("Unknown profile_id supplied with this event instance".to_string())
    );
    assert_eq!(no_valid_profiles_refusal(&p), None);
    assert_eq!(
        no_valid_profiles_refusal(&none),
        Some("No valid profile_id(s) were supplied with event instance(s)".to_string())
    );
}

#[test]
fn profile_update_owner_and_lookup() {
    let docs = vec![
        obj(vec![("_id", text("p1")), ("account_id", text("acc9"))]),
        obj(vec![("_id", text("p2"))]),
        obj(vec![("_id", text("p1")), ("account_id", num(3))]),
    ];
    assert_eq!(stored_profile(&docs, "p1"), Some(2));
    assert_eq!(stored_profile(&docs, "p2"), Some(1));
    assert_eq!(stored_profile(&docs, "p3"), None);
    assert_eq!(profile_owner(&docs[0], "acc1"), "acc9");
    assert_eq!(profile_owner(&docs[1], "acc1"), "acc1");
    assert_eq!(profile_owner(&docs[2], "acc1"), "acc1");
    assert_eq!(no_profiles_updated_reason(true), "[toxic]:: No profiles updated!");
    assert_eq!(no_profiles_updated_reason(false), "No profiles updated!");
}
