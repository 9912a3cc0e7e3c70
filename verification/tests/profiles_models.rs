use octy_services::json::{Json, JsonNumber, Loc};
use octy_services::profiles::models::{
    default_tag_statuses, validate_customer_id, validate_status, CreateProfiles, CreateProfilesChild,
    DeleteProfilesHttp, ProfileUpdateInput, UpdateProfilesAmqp,
};

fn obj(members: Vec<(&str, Json)>) -> Json {
    Json::Object(members.into_iter().map(|(k, v)| (k.to_string(), v)).collect())
}

fn text(s: &str) -> Json {
    Json::Str(s.to_string())
}

fn child(customer_id: &str, profile_data: Json) -> CreateProfilesChild {
    CreateProfilesChild {
        customer_id: customer_id.to_string(),
        profile_data,
        platform_info: obj(vec![("os", text("ios"))]),
        has_charged: false,
    }
}

fn update(profile_id: &str, status: Option<&str>) -> ProfileUpdateInput {
    ProfileUpdateInput {
        profile_id: profile_id.to_string(),
        customer_id: None,
        profile_data: None,
        platform_info: None,
        has_charged: None,
        status: status.map(|s| s.to_string()),
        rfm_score: None,
        rfm_segment_desc: None,
        churn_probability: None,
        ltv_prediction: None,
        current_ltv: None,
        segment_tags: None,
    }
}

fn loc_text(loc: &[Loc]) -> Vec<String> {
    loc.iter()
        .map(|l| match l {
            Loc::Key(k) => k.clone(),
            Loc::Index(i) => i.to_string(),
        })
        .collect()
}

#[test]
fn create_profiles_validates_customer_id_and_limit() {
    let profiles = vec![child("a,b", obj(vec![("age", Json::Number(JsonNumber::Int(1)))]))];
    match CreateProfiles::from_json(profiles, 100) {
        Ok(_) => panic!("a customer id with a comma is refused"),
        Err(err) => {
            assert_eq!(err.code, 422);
            assert_eq!(err.reasons.len(), 1);
        }
    }
}

#[test]
fn create_profiles_rejects_null_values() {
    let profiles = vec![child("cust1", obj(vec![("age", Json::Null)]))];
    match CreateProfiles::from_json(profiles, 100) {
        Ok(_) => panic!("a null profile value is refused"),
        Err(err) => {
            assert_eq!(err.code, 422);
            assert_eq!(err.reasons.len(), 1);
        }
    }
}

#[test]
fn create_profiles_accepts_valid_body() {
    let profiles = vec![child("cust1", obj(vec![("age", Json::Number(JsonNumber::Int(30)))]))];
    match CreateProfiles::from_json(profiles, 100) {
        Ok(parsed) => assert_eq!(parsed.profiles.len(), 1),
        Err(_) => panic!("a valid body is accepted"),
    }
}

#[test]
fn amqp_update_skips_validator_when_status_absent() {
    match UpdateProfilesAmqp::from_json("acc1".to_string(), vec![update("p1", None)]) {
        Ok(parsed) => {
            assert_eq!(parsed.profiles.len(), 1);
            assert!(parsed.profiles[0].status.is_none());
        }
        Err(_) => panic!("a profile without status is accepted"),
    }
}

#[test]
fn amqp_update_rejects_bad_status_when_present() {
    match UpdateProfilesAmqp::from_json("acc1".to_string(), vec![update("p1", Some("bogus"))]) {
        Ok(_) => panic!("an unknown status is refused"),
        Err(err) => assert_eq!(err.code, 422),
    }
}

#[test]
fn create_profiles_over_the_limit_names_the_limit() {
    let profiles = vec![
        child("c1", obj(vec![])),
        child("c2", obj(vec![])),
        child("c3", obj(vec![])),
    ];
    match CreateProfiles::from_json(profiles, 2) {
        Ok(_) => panic!("three profiles exceed a limit of two"),
        Err(err) => {
            assert_eq!(err.reasons.len(), 1);
            assert_eq!(loc_text(&err.reasons[0].loc), vec!["body", "profiles"]);
            assert_eq!(
                err.reasons[0].msg,
                "You can only create up to 2 profiles per request. For larger uploads, please use the octy cli."
            );
            assert_eq!(err.reasons[0].kind, "value_error");
        }
    }
}

#[test]
fn create_profiles_error_locations_follow_the_index() {
    let profiles = vec![child("ok", obj(vec![])), child("x,y", obj(vec![]))];
    match CreateProfiles::from_json(profiles, 10) {
        Ok(_) => panic!("the second customer id is refused"),
        Err(err) => {
            assert_eq!(err.reasons.len(), 1);
            assert_eq!(loc_text(&err.reasons[0].loc), vec!["body", "profiles", "1", "customer_id"]);
        }
    }
}

#[test]
fn delete_profiles_limit() {
    let ids = vec!["a".to_string(), "b".to_string()];
    assert!(DeleteProfilesHttp::from_json(ids.clone(), 2).is_ok());
    match DeleteProfilesHttp::from_json(ids, 1) {
        Ok(_) => panic!("two profiles exceed a limit of one"),
        Err(err) => {
            assert_eq!(err.code, 422);
            assert_eq!(err.reasons[0].msg, "You can only delete up to 1 profiles per request.");
        }
    }
}

#[test]
fn status_and_customer_id_validators() {
    assert!(validate_status("active").is_none());
    assert!(validate_status("churned").is_none());
    assert_eq!(
        validate_status("bogus"),
        Some("Invalid status provided. Allowed statuses : 'active', 'inactive' or 'churned'".to_string())
    );
    assert!(validate_customer_id("cust1").is_none());
    assert!(validate_customer_id("a,b").is_some());
}

#[test]
fn default_tag_statuses_is_active_only() {
    assert_eq!(default_tag_statuses(), Some(vec!["active".to_string()]));
}
