use octy_services::json::{json_to_string, Json, JsonNumber};
use octy_services::recommendation::services::{
    latest_tuning_job, recommendations_for, recommendations_response, training_job_id, training_job_meta,
};

fn obj(members: Vec<(&str, Json)>) -> Json {
    Json::Object(members.into_iter().map(|(k, v)| (k.to_string(), v)).collect())
}

fn text(s: &str) -> Json {
    Json::Str(s.to_string())
}

fn num(i: i64) -> Json {
    Json::Number(JsonNumber::Int(i))
}

fn date(ms: i64) -> Json {
    obj(vec![("$date", num(ms))])
}

const NO_RECOMMENDATIONS: &str = "Profile does not exist or Insufficient number of items available to make recommendations for this profile, if 'recommend_interacted_items' set to 'false' in your recommendations algorithm configurations, try setting it to 'true' if this frequently occurs.";

#[test]
fn training_job_of_the_tuning_job() {
    let job = obj(vec![("best_model_training_job_id", text("tj-1"))]);
    assert_eq!(training_job_id(&job), Ok("tj-1".to_string()));
    let bad = obj(vec![("best_model_training_job_id", num(3))]);
    assert_eq!(training_job_id(&bad), Err("hp tuning job missing best_model_training_job_id".to_string()));
}

#[test]
fn latest_tuning_job_is_the_first_newest() {
    let jobs = vec![
        obj(vec![("updated_at", date(5))]),
        obj(vec![("updated_at", date(9))]),
        obj(vec![("updated_at", date(9))]),
        obj(vec![]),
    ];
    assert_eq!(latest_tuning_job(&jobs), Some(1));
    assert_eq!(latest_tuning_job(&vec![obj(vec![]), obj(vec![])]), Some(0));
    assert_eq!(latest_tuning_job(&vec![]), None);
}

#[test]
fn cached_recommendations_are_cut_to_ten() {
    let items: Vec<Json> = (0..12).map(num).collect();
    let cache = vec![
        obj(vec![("profile_id", text("a")), ("recommendations", Json::Array(items))]),
        obj(vec![("profile_id", text("a")), ("recommendations", Json::Array(vec![num(99)]))]),
    ];
    let out = recommendations_for(&vec!["a".to_string(), "b".to_string()], &cache).unwrap();
    assert_eq!(out.len(), 2);
    assert_eq!(
        json_to_string(&out[0]),
        "{\"profile_id\":\"a\",\"recommendations\":[0,1,2,3,4,5,6,7,8,9],\"error\":null}"
    );
    assert_eq!(
        json_to_string(&out[1]),
        format!("{{\"profile_id\":\"b\",\"recommendations\":[],\"error\":\"{}\"}}", NO_RECOMMENDATIONS)
    );
    let broken = vec![obj(vec![("profile_id", text("a"))])];
    assert_eq!(
        recommendations_for(&vec!["b".to_string(), "a".to_string()], &broken).err(),
        Some("cached recommendation document missing 'recommendations'".to_string())
    );
}

#[test]
fn model_meta_takes_the_training_job_and_creation_date() {
    let job = obj(vec![
        ("best_model_meta_data", obj(vec![("auc_score", num(1))])),
        ("updated_at", date(0)),
    ]);
    let meta = training_job_meta(&job, "tj-1").unwrap();
    assert_eq!(
        json_to_string(&meta),
        "{\"auc_score\":1,\"training_job_id\":\"tj-1\",\"model_created_at\":\"Thu, 01 Jan 1970 00:00:00 GMT\"}"
    );
    let no_date = obj(vec![("best_model_meta_data", obj(vec![]))]);
    assert_eq!(training_job_meta(&no_date, "t").err(), Some("hp tuning job missing updated_at".to_string()));
    let far = obj(vec![("best_model_meta_data", obj(vec![])), ("updated_at", date(i64::MAX))]);
    assert_eq!(training_job_meta(&far, "t").err(), Some("hp tuning job updated_at out of range".to_string()));
    let no_meta = obj(vec![("updated_at", date(0))]);
    assert_eq!(
        training_job_meta(&no_meta, "t").err(),
        Some("hp tuning job best_model_meta_data is not an object".to_string())
    );
}

#[test]
fn recommendations_reply_body() {
    let meta = obj(vec![
        ("auc_score", num(1)),
        ("training_job_id", text("tj")),
        ("model_created_at", text("then")),
    ]);
    let body = recommendations_response(&vec![num(4)], &meta).unwrap();
    assert_eq!(
        json_to_string(&body),
        "{\"request_meta\":{\"request_status\":\"Success\",\"message\":\"Successfully predicted recommendations\"},\"recommendations\":[4],\"model_meta_data\":{\"training_job_id\":\"tj\",\"model_accuracy_score\":1,\"recommender_event_type\":\"charged\",\"model_created_at\":\"then\"}}"
    );
    assert_eq!(
        recommendations_response(&vec![], &obj(vec![("auc_score", num(1))])).err(),
        Some("training job meta missing training_job_id / auc_score / model_created_at".to_string())
    );
    assert_eq!(recommendations_response(&vec![], &num(1)).err(), Some("training job meta is not an object".to_string()));
}
