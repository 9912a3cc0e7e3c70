use octy_services::items::models::{
    parse_query_bool, validate_item_description, validate_item_id, validate_status, CreateItems, DeleteItems,
    ItemsRejection, UpdateItems,
};
use octy_services::items::store::{deletion_entries, duplicate_item_id, rec_stop_list_update};
use octy_services::json::{json_to_string, Json, JsonNumber};

fn obj(members: Vec<(&str, Json)>) -> Json {
    Json::Object(members.into_iter().map(|(k, v)| (k.to_string(), v)).collect())
}

fn text(s: &str) -> Json {
    Json::Str(s.to_string())
}

fn num(i: i64) -> Json {
    Json::Number(JsonNumber::Int(i))
}

fn item(id: &str, account: &str) -> Json {
    obj(vec![("item_id", text(id)), ("account_id", text(account))])
}

#[test]
fn item_id_rules() {
    assert_eq!(validate_item_id("sku-1"), Ok(()));
    assert_eq!(
        validate_item_id(""),
        Err("Item identifiers must be at least 1 character long and less than 60 characters long.".to_string())
    );
    assert_eq!(
        validate_item_id("a.b,c"),
        Err("Illegal character(s) found in provided item identifier : [',', '.']".to_string())
    );
    assert_eq!(
        validate_item_id("it's \"x\""),
        Err("Illegal character(s) found in provided item identifier : ['\"', \"'\"]".to_string())
    );
}

#[test]
fn item_description_and_status_rules() {
    assert_eq!(validate_item_description("red shoe"), Ok(()));
    assert_eq!(
        validate_item_description(&"d".repeat(41)),
        Err("Item description must be at least 1 character long and less than 40 characters long.".to_string())
    );
    assert_eq!(validate_status("inactive"), Ok(()));
    assert_eq!(
        validate_status("churned"),
        Err("Invalid item status provided. Allowed statuses : 'active', 'inactive'".to_string())
    );
}

#[test]
fn query_bool_words() {
    assert_eq!(parse_query_bool(" TRUE "), Some(true));
    assert_eq!(parse_query_bool("yes"), Some(true));
    assert_eq!(parse_query_bool("1"), Some(true));
    assert_eq!(parse_query_bool("Off"), Some(false));
    assert_eq!(parse_query_bool("n"), Some(false));
    assert_eq!(parse_query_bool("maybe"), None);
    assert_eq!(parse_query_bool(""), None);
}

#[test]
fn duplicate_item_ids_are_found() {
    let batch = vec![item("a", "x"), item("b", "x"), item("a", "x"), item("b", "x")];
    assert_eq!(duplicate_item_id(&batch), Some("a".to_string()));
    let unique = vec![item("a", "x"), item("b", "x")];
    assert_eq!(duplicate_item_id(&unique), None);
}

#[test]
fn deletion_splits_found_and_missing_items() {
    let batch = vec![item("a", "acc"), item("b", "acc")];
    let found = vec![item("a", "acc")];
    let (deleted, failed) = deletion_entries(&batch, &found);
    assert_eq!(deleted.len(), 1);
    assert_eq!(json_to_string(&deleted[0]), "{\"item_id\":\"a\"}");
    assert_eq!(failed.len(), 1);
    assert_eq!(
        json_to_string(&failed[0]),
        "{\"item_id\":\"b\",\"error_message\":\"No item found with item_id : b\"}"
    );
}

#[test]
fn deletion_requires_the_same_account() {
    let batch = vec![item("a", "acc")];
    let found = vec![item("a", "other")];
    let (deleted, failed) = deletion_entries(&batch, &found);
    assert!(deleted.is_empty());
    assert_eq!(failed.len(), 1);
}

fn rec_config(stop: Json) -> Json {
    Json::Array(vec![
        obj(vec![("algorithm_name", text("churn")), ("config_json", obj(vec![]))]),
        obj(vec![
            ("algorithm_name", text("rec")),
            ("config_json", obj(vec![("item_id_stop_list", stop), ("k", num(3))])),
        ]),
    ])
}

#[test]
fn stop_list_loses_deleted_items() {
    let algos = rec_config(Json::Array(vec![
        obj(vec![("item_id", text("a"))]),
        obj(vec![("item_id", text("b"))]),
    ]));
    let deleted = vec![obj(vec![("item_id", text("a"))])];
    match rec_stop_list_update(&algos, &deleted) {
        Ok(Some(c)) => assert_eq!(json_to_string(&c), "{\"item_id_stop_list\":[{\"item_id\":\"b\"}],\"k\":3}"),
        _ => panic!("the rec configuration is updated"),
    }
}

#[test]
fn stop_list_without_rec_configuration() {
    let algos = Json::Array(vec![obj(vec![("algorithm_name", text("churn"))])]);
    match rec_stop_list_update(&algos, &vec![]) {
        Ok(None) => {}
        _ => panic!("nothing to update"),
    }
}

#[test]
fn stop_list_errors() {
    let algos = rec_config(text("not a list"));
    match rec_stop_list_update(&algos, &vec![]) {
        Err(m) => assert_eq!(m, "item_id_stop_list is not a list"),
        _ => panic!("a stop list must be a list"),
    }
    let missing = Json::Array(vec![obj(vec![("algorithm_name", text("rec"))])]);
    match rec_stop_list_update(&missing, &vec![]) {
        Err(m) => assert_eq!(m, "rec algorithm 'config_json' missing or not an object"),
        _ => panic!("config_json is required"),
    }
    let algos = rec_config(Json::Array(vec![obj(vec![("item_id", text("a"))])]));
    let deleted = vec![obj(vec![("item_id", text("a"))]), obj(vec![("item_id", text("a"))])];
    match rec_stop_list_update(&algos, &deleted) {
        Err(m) => assert_eq!(m, "stop-list entry already removed"),
        _ => panic!("an entry cannot be struck twice"),
    }
}

#[test]
fn create_items_body_checks() {
    let good = obj(vec![(
        "items",
        Json::Array(vec![obj(vec![
            ("item_id", text("sku1")),
            ("item_category", text("shoes")),
            ("item_name", text("Runner")),
            ("item_description", text("fast")),
            ("item_price", num(100)),
        ])]),
    )]);
    match CreateItems::from_json(&good, Some(10)) {
        Ok(c) => assert_eq!(c.items.len(), 1),
        Err(_) => panic!("a valid body is accepted"),
    }
    match CreateItems::from_json(&good, None) {
        Err(ItemsRejection::LimitUnavailable) => {}
        _ => panic!("without a readable limit the request fails"),
    }
    let bad = obj(vec![("items", Json::Array(vec![obj(vec![("item_id", text("a,b"))])]))]);
    match CreateItems::from_json(&bad, Some(10)) {
        Err(ItemsRejection::Validation(errs)) => assert!(!errs.is_empty()),
        _ => panic!("an invalid item is refused"),
    }
}

#[test]
fn update_and_delete_items_limits() {
    let body = obj(vec![("items", Json::Array(vec![text("a"), text("b")]))]);
    match DeleteItems::from_json(&body, Some(1)) {
        Err(ItemsRejection::Validation(errs)) => assert_eq!(errs.len(), 1),
        _ => panic!("two items exceed a limit of one"),
    }
    match DeleteItems::from_json(&body, Some(5)) {
        Ok(d) => assert_eq!(d.items, vec!["a".to_string(), "b".to_string()]),
        _ => panic!("within the limit"),
    }
    match DeleteItems::from_json(&obj(vec![("items", Json::Array(vec![obj(vec![])]))]), Some(5)) {
        Err(ItemsRejection::Validation(errs)) => assert_eq!(errs.len(), 1),
        _ => panic!("an item id must be a string"),
    }
    match UpdateItems::from_json(&obj(vec![]), Some(5)) {
        Err(ItemsRejection::Validation(errs)) => assert_eq!(errs[0].kind, "value_error.missing"),
        _ => panic!("items are required"),
    }
}
