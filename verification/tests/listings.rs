use octy_services::items::records::{items_listing_filter, items_page_size, listed_items};
use octy_services::json::{json_to_string, Json, JsonNumber};
use octy_services::messaging::records::templates_query;
use octy_services::profiles::listing::{
    delete_failed_entry, deleted_profile_entry, deletion_account_of, listed_profiles, merged_profile_entry,
    merged_profiles_pipeline, new_segment_tag_doc, nothing_deleted_reason, profiles_filter, profiles_not_found,
    pulled_segment_ids, read_segment_operation, stored_profile_of,
};

fn obj(members: Vec<(&str, Json)>) -> Json {
    Json::Object(members.into_iter().map(|(k, v)| (k.to_string(), v)).collect())
}

fn text(s: &str) -> Json {
    Json::Str(s.to_string())
}

fn num(i: i64) -> Json {
    Json::Number(JsonNumber::Int(i))
}

fn strings(v: Vec<&str>) -> Vec<String> {
    v.into_iter().map(|s| s.to_string()).collect()
}

#[test]
fn items_listings() {
    assert_eq!(json_to_string(&items_listing_filter(&text("a"), "all")), "{\"account_id\":\"a\"}");
    assert_eq!(
        json_to_string(&items_listing_filter(&text("a"), "active")),
        "{\"account_id\":\"a\",\"status\":\"active\"}"
    );
    assert_eq!(items_page_size(true), 200);
    assert_eq!(items_page_size(false), 100);
    let docs = vec![obj(vec![("_id", text("x")), ("item_id", text("i1")), ("account_id", text("a"))]), obj(vec![])];
    let ids = listed_items(&docs, true);
    assert_eq!(json_to_string(&ids[0]), "{\"item_id\":\"i1\"}");
    assert_eq!(json_to_string(&ids[1]), "{\"item_id\":null}");
}

#[test]
fn templates_listing_query() {
    assert_eq!(
        json_to_string(&templates_query("a", None)),
        "{\"$and\":[{\"account_id\":{\"$eq\":\"a\"}},{\"status\":{\"$eq\":\"active\"}}]}"
    );
    let ids = strings(vec!["t1"]);
    assert_eq!(
        json_to_string(&templates_query("a", Some(&ids))),
        "{\"$and\":[{\"account_id\":{\"$eq\":\"a\"}},{\"status\":{\"$eq\":\"active\"}},{\"$or\":[{\"_id\":{\"$in\":[\"t1\"]}},{\"friendly_name\":{\"$in\":[\"t1\"]}},{\"template_type\":{\"$in\":[\"t1\"]}}]}]}"
    );
}

#[test]
fn profiles_listing_filters() {
    assert_eq!(json_to_string(&profiles_filter("a", None, None, None)), "{\"account_id\":\"a\"}");
    let one = strings(vec!["vip"]);
    assert_eq!(
        json_to_string(&profiles_filter("a", Some(&one), Some(&vec![1, 5]), Some("high"))),
        "{\"account_id\":\"a\",\"rfm_score\":{\"$gt\":1,\"$lt\":5},\"churn_probability\":\"high\",\"segment_tags.segment_tag\":\"vip\",\"segment_tags.status\":\"active\"}"
    );
    let two = strings(vec!["a1", "b2"]);
    assert_eq!(
        json_to_string(&profiles_filter("a", Some(&two), Some(&vec![3]), None)),
        "{\"account_id\":\"a\",\"$or\":[{\"$and\":[{\"segment_tags.segment_tag\":\"a1\"},{\"segment_tags.status\":\"active\"}]},{\"$and\":[{\"segment_tags.segment_tag\":\"b2\"},{\"segment_tags.status\":\"active\"}]}]}"
    );
}

#[test]
fn profiles_found_and_not_found() {
    let docs = vec![obj(vec![("_id", text("p1")), ("customer_id", text("c1"))])];
    let found = listed_profiles(&docs, true, &strings(vec!["active"]), true);
    assert_eq!(json_to_string(&found[0]), "{\"profile_id\":\"p1\"}");
    assert_eq!(profiles_not_found(&strings(vec!["p1", "c1", "p9"]), &docs), strings(vec!["c1", "p9"]));
}

#[test]
fn merged_profiles_queries_and_entries() {
    let pipeline = merged_profiles_pipeline("a", &strings(vec!["p1", "p2"]));
    assert_eq!(pipeline.len(), 6);
    assert_eq!(
        json_to_string(&pipeline[0]),
        "{\"$match\":{\"$and\":[{\"account_id\":\"a\"},{\"$or\":[{\"merged_profiles.profile_id\":\"p1\"},{\"merged_profiles.customer_id\":\"p1\"},{\"parent_profile_id\":\"p1\"},{\"parent_customer_id\":\"p1\"}]}]}}"
    );
    assert_eq!(json_to_string(&pipeline[4]), "{\"$sort\":{\"created_at\":-1}}");
    assert_eq!(json_to_string(&pipeline[5]), "{\"$limit\":1}");
    let res = obj(vec![("parent_profile_id", text("p")), ("created_at", obj(vec![("$date", num(0))]))]);
    assert_eq!(
        json_to_string(&merged_profile_entry(&res)),
        "{\"merged_profiles\":[],\"parent_profile_id\":\"p\",\"parent_customer_id\":null,\"authenticated_id_key\":null,\"authenticated_id_value\":null,\"merged_at\":\"Thu, 01 Jan 1970 00:00:00 GMT\"}"
    );
}

#[test]
fn profile_deletions() {
    let found = vec![
        obj(vec![("_id", text("p1")), ("account_id", text("old"))]),
        obj(vec![("_id", text("p1")), ("customer_id", text("c"))]),
    ];
    let stored = stored_profile_of(&found, "p1").expect("found");
    assert_eq!(json_to_string(stored), "{\"_id\":\"p1\",\"customer_id\":\"c\"}");
    assert!(stored_profile_of(&found, "p2").is_none());
    assert_eq!(deletion_account_of(&found[0], "acc"), "old");
    assert_eq!(deletion_account_of(stored, "acc"), "acc");
    assert_eq!(json_to_string(&deleted_profile_entry("p1", stored)), "{\"profile_id\":\"p1\",\"customer_id\":\"c\"}");
    assert_eq!(
        json_to_string(&delete_failed_entry("p1", "timeout")),
        "{\"profile_id\":\"p1\",\"error_message\":\"Delete failed: timeout\"}"
    );
    assert_eq!(nothing_deleted_reason(true), "[toxic]:: No profiles deleted!");
    assert_eq!(nothing_deleted_reason(false), "No profiles deleted!");
}

#[test]
fn segment_tag_operations() {
    let tag = obj(vec![("segment_id", text("s1")), ("segment_tag", text("vip")), ("status", text("active"))]);
    let op = obj(vec![
        ("action", text("create")),
        ("operation_payload", obj(vec![("profile_id", text("p1")), ("segment_tags", Json::Array(vec![tag]))])),
    ]);
    let read = read_segment_operation(&op).expect("an operation");
    assert_eq!(read.action, "create");
    assert_eq!(read.profile_id, "p1");
    assert_eq!(
        json_to_string(&new_segment_tag_doc(&read.segment_tags[0], &num(9)).unwrap()),
        "{\"segment_id\":\"s1\",\"segment_tag\":\"vip\",\"status\":\"active\",\"created_at\":9}"
    );
    assert!(new_segment_tag_doc(&obj(vec![("segment_id", text("s1"))]), &num(9)).is_none());
    assert!(read_segment_operation(&obj(vec![("action", text("create"))])).is_none());
    assert_eq!(pulled_segment_ids(&read.segment_tags), Some(strings(vec!["s1"])));
    assert_eq!(pulled_segment_ids(&vec![obj(vec![])]), None);
}
