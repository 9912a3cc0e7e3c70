use octy_services::events::replies::{batch_create_events_dto, create_event_dto, get_event_types_dto, internal_delete_events_dto};
use octy_services::items::replies::{delete_account_items_dto, get_items_dto};
use octy_services::json::{json_to_string, Json, JsonNumber};
use octy_services::messaging::replies::generate_content_dto;
use octy_services::octy_jobs::replies::delete_account_jobs_dto;
use octy_services::profiles::replies::get_profiles_internal_dto;
use octy_services::recommendation::replies::get_recommendations_dto;

fn obj(members: Vec<(&str, Json)>) -> Json {
    Json::Object(members.into_iter().map(|(k, v)| (k.to_string(), v)).collect())
}

fn text(s: &str) -> Json {
    Json::Str(s.to_string())
}

fn num(i: i64) -> Json {
    Json::Number(JsonNumber::Int(i))
}

#[test]
fn items_page_reply_carries_the_next_cursor() {
    let items = vec![obj(vec![("item_id", text("a"))]), obj(vec![("item_id", text("b"))])];
    let r = get_items_dto(&items, 7, 3);
    assert_eq!(r.status, 200);
    assert_eq!(r.cursor, Some(5));
    assert_eq!(
        json_to_string(&r.body),
        "{\"request_meta\":{\"request_status\":\"Success\",\"message\":\"Items found.\",\"count\":2,\"total\":7},\"items\":[{\"item_id\":\"a\"},{\"item_id\":\"b\"}]}"
    );
}

#[test]
fn account_deletion_replies() {
    let r = delete_account_items_dto(true);
    assert_eq!(r.status, 201);
    assert_eq!(r.cursor, None);
    assert_eq!(
        json_to_string(&r.body),
        "{\"request_meta\":{\"request_status\":\"Success\",\"message\":\"Account Items deleted.\"},\"is_deleted\":true}"
    );
    assert_eq!(
        json_to_string(&delete_account_jobs_dto(false).body),
        "{\"request_meta\":{\"request_status\":\"Success\",\"message\":\"Octy Jobs deleted.\"},\"is_deleted\":false}"
    );
    assert_eq!(
        json_to_string(&internal_delete_events_dto().body),
        "{\"request_meta\":{\"request_status\":\"Success\",\"message\":\"All Events associated with account deleted.\"}}"
    );
}

#[test]
fn event_replies() {
    let created = vec![obj(vec![("event_id", text("e1"))])];
    let refused = vec![obj(vec![("error_message", text("bad"))])];
    let r = batch_create_events_dto(&created, &refused);
    assert_eq!(r.status, 201);
    assert_eq!(
        json_to_string(&r.body),
        "{\"request_meta\":{\"request_status\":\"Success\",\"message\":\"Events created.\",\"count\":1},\"created_events\":[{\"event_id\":\"e1\"}],\"failed_to_create\":[{\"error_message\":\"bad\"}]}"
    );
    let event = obj(vec![("event_id", text("e1")), ("event_type", text("charged")), ("profile_id", text("p1"))]);
    let r = create_event_dto(&event, "Thu, 01 Jan 1970 00:00:00 GMT");
    assert_eq!(
        json_to_string(&r.body),
        "{\"request_meta\":{\"request_status\":\"Success\",\"message\":\"Event created.\"},\"event_id\":\"e1\",\"event_type\":\"charged\",\"event_properties\":null,\"profile_id\":\"p1\",\"created_at\":\"Thu, 01 Jan 1970 00:00:00 GMT\"}"
    );
    let r = get_event_types_dto(&[], 0, 4);
    assert_eq!(r.cursor, Some(4));
}

#[test]
fn internal_profiles_reply_lists_what_was_not_found() {
    let r = get_profiles_internal_dto(&[obj(vec![])], &Json::Array(vec![text("p9")]), 1, 0);
    assert_eq!(r.cursor, Some(1));
    assert_eq!(
        json_to_string(&r.body),
        "{\"request_meta\":{\"request_status\":\"Success\",\"message\":\"Customer profiles found.\",\"count\":1,\"total\":1},\"profiles\":[{}],\"not_found\":[\"p9\"]}"
    );
}

#[test]
fn generated_content_message_depends_on_what_was_made() {
    let none = generate_content_dto(&[], &[text("m")], &[]);
    assert_eq!(
        json_to_string(&none.body),
        "{\"request_meta\":{\"request_status\":\"Success\",\"message\":\"No content generated\",\"count\":0},\"generated_messages\":[],\"failed_messages\":[\"m\"],\"failed_templates\":[]}"
    );
    let some = generate_content_dto(&[text("hi")], &[], &[]);
    assert!(json_to_string(&some.body).contains("\"message\":\"Successfully generated content\",\"count\":1"));
}

#[test]
fn recommendation_reply_reads_the_model_meta() {
    let meta = obj(vec![("training_job_id", text("t1")), ("auc_score", num(1)), ("model_created_at", text("now"))]);
    let r = get_recommendations_dto(&[text("item")], &meta).expect("complete meta");
    assert_eq!(
        json_to_string(&r.body),
        "{\"request_meta\":{\"request_status\":\"Success\",\"message\":\"Successfully predicted recommendations\"},\"recommendations\":[\"item\"],\"model_meta_data\":{\"training_job_id\":\"t1\",\"model_accuracy_score\":1,\"recommender_event_type\":\"charged\",\"model_created_at\":\"now\"}}"
    );
    assert_eq!(get_recommendations_dto(&[], &text("x")).err(), Some("training job meta is not an object".to_string()));
    assert_eq!(
        get_recommendations_dto(&[], &obj(vec![("auc_score", num(1))])).err(),
        Some("training job meta missing training_job_id / auc_score / model_created_at".to_string())
    );
}
