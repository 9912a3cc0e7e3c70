use octy_services::amqp::AmqpOutcome;
use octy_services::billing::{data_size_of, BillingUnits, SizeStyle};
use octy_services::json::{json_to_string, Json, JsonNumber};
use octy_services::messaging::assembly::{
    collapse_braces, fill_placeholders, find_template, generated_message_entry, generation_reply_body, item_for_data,
    mention_in_templates, mentions, missing_data_entry, missing_template_entry, profile_item_map,
    recommendation_profiles, reward_for_data, with_template_id, Filling,
};
use octy_services::messaging::generate::GenerateContentChild;
use octy_services::profiles::query::{profiles_query, ProfilesQuery};
use octy_services::profiles::records::{customer_taken_entry, profile_missing_entry};

fn obj(members: Vec<(&str, Json)>) -> Json {
    Json::Object(members.into_iter().map(|(k, v)| (k.to_string(), v)).collect())
}

fn text(s: &str) -> Json {
    Json::Str(s.to_string())
}

fn num(i: i64) -> Json {
    Json::Number(JsonNumber::Int(i))
}

fn data(v: Vec<(&str, Option<&str>)>) -> Vec<(String, Option<String>)> {
    v.into_iter().map(|(k, x)| (k.to_string(), x.map(|s| s.to_string()))).collect()
}

#[test]
fn data_sizes_by_service() {
    let v = obj(vec![("a", text("xy")), ("n", num(1))]);
    // 232 + (49 + 1 + 49 + 2) + (49 + 1 + 28)
    assert_eq!(data_size_of(&v, SizeStyle::Items), Some(411));
    // 64 + the same members
    assert_eq!(data_size_of(&v, SizeStyle::Profiles), Some(243));
    let list = Json::Array(vec![Json::Null, Json::Bool(true)]);
    assert_eq!(data_size_of(&list, SizeStyle::Items), Some(56 + 16 + 16 + 28));
    assert_eq!(data_size_of(&list, SizeStyle::Profiles), Some(56 + 16 + 28));
    assert_eq!(data_size_of(&text("é"), SizeStyle::Events), Some(51));
}

#[test]
fn billing_capture_message() {
    let mut b = BillingUnits::new(text("acc"), text("pro"), text("USD"), "items_data", SizeStyle::Items);
    assert!(matches!(b.complete_data_units("MB"), Ok(None)));
    assert!(b.track_data_units(&obj(vec![])));
    match b.complete_data_units("MB") {
        Ok(Some(msg)) => assert_eq!(
            json_to_string(&msg),
            "{\"units\":[{\"unit_type\":\"data\",\"metric\":\"MB\",\"process_name\":\"items_data\",\"quantity\":1,\"account_id\":\"acc\",\"account_currency\":\"USD\",\"account_type\":\"pro\"}]}"
        ),
        _ => panic!("tracked data is billed"),
    }
    assert!(matches!(b.complete_data_units("MB"), Ok(None)));
    match b.complete_data_units("PB") {
        Err(m) => assert_eq!(m, "Unknown data metric specified: PB"),
        _ => panic!("an unknown metric"),
    }
}

#[test]
fn billing_rounds_by_service() {
    // 1500 bytes in KB: half to even gives 2, half away from zero 2; 2500 gives 2 and 3.
    let mut even = BillingUnits::new(text("a"), text("t"), text("c"), "p", SizeStyle::Events);
    even.data_bytes = 2500;
    even.capturing = true;
    let mut away = BillingUnits::new(text("a"), text("t"), text("c"), "p", SizeStyle::Profiles);
    away.data_bytes = 2500;
    away.capturing = true;
    let q = |r: Result<Option<Json>, String>| -> String {
        let m = r.expect("known metric").expect("a message");
        let units = m.get("units").and_then(|u| u.as_array()).expect("units");
        json_to_string(units[0].get("quantity").expect("quantity"))
    };
    assert_eq!(q(even.complete_data_units("KB")), "2");
    assert_eq!(q(away.complete_data_units("KB")), "3");
    assert_eq!(even.data_bytes, 2500);
    assert_eq!(away.data_bytes, 2500);
}

#[test]
fn items_billing_keeps_the_billed_quantity() {
    let mut b = BillingUnits::new(text("a"), text("t"), text("c"), "items_data", SizeStyle::Items);
    b.data_bytes = 2_600_000;
    b.capturing = true;
    assert!(b.complete_data_units("MB").expect("known metric").is_some());
    assert_eq!(b.data_bytes, 3);
    assert_eq!(b.data_metric, "MB");
    // tracking again adds bytes to the billed quantity, as the service does
    assert!(b.track_data_units(&Json::Null));
    assert_eq!(b.data_bytes, 19);
}

#[test]
fn profiles_listing_queries() {
    match profiles_query(Some(" a,b ,a"), None, None, None, Err("no cursor".to_string()), 5) {
        Ok(ProfilesQuery::ByIds(ids)) => assert_eq!(ids, vec!["a".to_string(), "b".to_string()]),
        _ => panic!("listing by identifiers"),
    }
    match profiles_query(Some("a,b,c"), None, None, None, Ok(0), 2) {
        Err(r) => {
            assert_eq!(r.reason, "Invalid Parameters");
            assert_eq!(r.description, "A maximum number of 2 identifiers can be provided with the \"?ids=\" query param per request");
        }
        _ => panic!("too many identifiers"),
    }
    match profiles_query(None, Some("1-5"), Some("high"), Some("s1,,s2"), Ok(40), 5) {
        Ok(ProfilesQuery::ByParams { cursor, segments, rfm, churn_prob }) => {
            assert_eq!(cursor, 40);
            assert_eq!(segments, Some(vec!["s1".to_string(), "s2".to_string()]));
            assert_eq!(rfm, Some(vec![1, 5]));
            assert_eq!(churn_prob, Some("high".to_string()));
        }
        _ => panic!("listing by parameters"),
    }
    match profiles_query(None, Some("15"), None, None, Ok(0), 5) {
        Err(r) => assert_eq!(r.description, "rfm argument provided in an invalid format. Required format : int-int"),
        _ => panic!("an rfm range needs a dash"),
    }
    match profiles_query(None, None, Some("3"), None, Ok(0), 5) {
        Err(r) => assert_eq!(r.reason, "Invalid query string argument"),
        _ => panic!("churn_prob is a word"),
    }
    match profiles_query(None, None, None, None, Err("set a cursor".to_string()), 5) {
        Err(r) => {
            assert_eq!(r.reason, "Missing Parameters");
            assert_eq!(r.description, "set a cursor");
        }
        _ => panic!("a cursor is needed"),
    }
}

#[test]
fn profile_failure_entries() {
    assert_eq!(
        json_to_string(&customer_taken_entry("c1")),
        "{\"customer_id\":\"c1\",\"error_message\":\"Another profile exists with provided customer_id: c1\"}"
    );
    assert_eq!(
        json_to_string(&profile_missing_entry("p1")),
        "{\"profile_id\":\"p1\",\"error_message\":\"No profile found with profile_id: p1\"}"
    );
}

#[test]
fn toxic_errors_are_not_requeued() {
    let toxic = AmqpOutcome::service_error(&vec!["x".to_string(), "[toxic]:: bad".to_string()], "boom");
    assert_eq!(toxic.status, 422);
    assert_eq!(toxic.detail, "error: boom");
    let plain = AmqpOutcome::service_error(&vec!["x".to_string()], "boom");
    assert_eq!(plain.status, 500);
}

#[test]
fn message_generation_steps() {
    let required = vec![vec!["first_name".to_string(), "item_rec.item_price".to_string(), "item_rec.item_name".to_string()]];
    let messages = vec![GenerateContentChild {
        template_id: "t1".to_string(),
        data: vec![
            data(vec![("item_rec.item_price", Some("profile_1::USD::EUR::0")), ("item_rec.item_name", Some("profile_1"))]),
            data(vec![("item_rec.item_name", Some("profile_2"))]),
        ],
    }];
    assert_eq!(
        recommendation_profiles(&required, &messages),
        vec!["profile_1".to_string(), "profile_2".to_string()]
    );
    let recs = vec![
        obj(vec![("profile_id", text("profile_1")), ("recommendations", Json::Array(vec![obj(vec![("item_id", text("i1"))])]))]),
        obj(vec![("profile_id", text("profile_2")), ("recommendations", Json::Array(vec![]))]),
    ];
    let items = vec![obj(vec![("item_id", text("i1")), ("item_name", text("Lamp")), ("item_price", num(1000))])];
    let pairs = profile_item_map(&recs, &items);
    assert_eq!(pairs.len(), 1);
    assert_eq!(pairs[0].0, "profile_1");
    assert_eq!(collapse_braces("Hi {{first_name}} {x}"), "Hi {first_name} {x}");
    let templates = vec![obj(vec![("_id", text("t0"))]), obj(vec![("template_id", text("t1")), ("title", text("T"))])];
    let t = find_template(&templates, "t1").expect("t1");
    assert_eq!(
        json_to_string(&generated_message_entry("t1", t, "body")),
        "{\"template_id\":\"t1\",\"friendly_name\":null,\"title\":\"T\",\"content\":\"body\"}"
    );
    let d = data(vec![("first_name", None), ("item_rec.item_name", Some("profile_2")), ("item_rec.item_price", Some("profile_1"))]);
    let req = required[0].clone();
    let item = item_for_data(&req, &d, &pairs);
    assert!(item.is_some());
    let defaults = obj(vec![("first_name", text("there"))]);
    let prices = vec![("item_rec.item_price".to_string(), Ok("€10.0".to_string()))];
    match fill_placeholders(&req, &d, &defaults, item, &prices, None) {
        Ok(Filling::Values(values, rec)) => {
            assert_eq!(values, vec![("first_name".to_string(), "there".to_string())]);
            assert_eq!(
                rec,
                vec![("item_price".to_string(), "€10.0".to_string()), ("item_name".to_string(), "Lamp".to_string())]
            );
        }
        _ => panic!("all placeholders are filled"),
    }
    let refused = vec![("item_rec.item_price".to_string(), Err("no rate for XYZ".to_string()))];
    match fill_placeholders(&req, &d, &defaults, item, &refused, None) {
        Err(e) => assert_eq!(e, "no rate for XYZ"),
        _ => panic!("the price's error stands"),
    }
    match fill_placeholders(&req, &d, &defaults, item, &vec![], None) {
        Err(e) => assert_eq!(e, "item_price attribute is not numeric"),
        _ => panic!("an unpriced item_price placeholder fails"),
    }
    let short = data(vec![("first_name", Some("Ada"))]);
    match fill_placeholders(&req, &short, &defaults, None, &prices, None) {
        Ok(Filling::Missing(k)) => assert_eq!(k, "item_rec.item_price"),
        _ => panic!("a key is missing"),
    }
    assert_eq!(
        json_to_string(&missing_data_entry("t1", &short, "k")),
        "{\"template_id\":\"t1\",\"provided_data\":{\"first_name\":\"Ada\"},\"error_message\":\"Missing required data parameter for this message: 'k'\"}"
    );
    let rewards = vec![obj(vec![("requestId", text("c9")), ("htmlSnippet", text("<b>gift</b>"))])];
    let rd = data(vec![("rybbon_reward_card", Some("c9::camp::5"))]);
    let rreq = vec!["rybbon_reward_card".to_string()];
    let reward = reward_for_data(&rreq, &rd, &rewards, "rybbon_reward_card");
    assert!(reward.is_some());
    match fill_placeholders(&rreq, &rd, &defaults, None, &prices, reward) {
        Ok(Filling::Values(values, _)) => {
            assert_eq!(values, vec![("rybbon_reward_card".to_string(), "<b>gift</b>".to_string())])
        }
        _ => panic!("the reward fills its placeholder"),
    }
}

#[test]
fn generation_bookkeeping() {
    let stored = obj(vec![("_id", text("t1")), ("content", text("Hi"))]);
    assert_eq!(json_to_string(&with_template_id(&stored)), "{\"_id\":\"t1\",\"content\":\"Hi\",\"template_id\":\"t1\"}");
    let renamed = obj(vec![("template_id", text("old")), ("_id", text("t2"))]);
    assert_eq!(json_to_string(&with_template_id(&renamed)), "{\"template_id\":\"t2\",\"_id\":\"t2\"}");
    assert_eq!(json_to_string(&with_template_id(&obj(vec![]))), "{}");
    let required = vec![vec!["first_name".to_string()], vec!["item_rec.item_name".to_string()]];
    assert!(mention_in_templates(&required, "item_rec"));
    assert!(!mention_in_templates(&required, "rybbon_reward_card"));
    assert!(!mentions(&required[0], "item_rec"));
    assert!(mentions(&required[1], "item_rec"));
    assert_eq!(
        json_to_string(&missing_template_entry("t9")),
        "{\"template_id\":\"t9\",\"error_message\":\"No template found with this template_id. All messages using this template_id were not created.\"}"
    );
    assert_eq!(
        json_to_string(&generation_reply_body(&vec![], &vec![num(1)], &vec![])),
        "{\"request_meta\":{\"request_status\":\"Success\",\"message\":\"No content generated\",\"count\":0},\"generated_messages\":[],\"failed_messages\":[1],\"failed_templates\":[]}"
    );
    assert_eq!(
        json_to_string(&generation_reply_body(&vec![text("m")], &vec![], &vec![])),
        "{\"request_meta\":{\"request_status\":\"Success\",\"message\":\"Successfully generated content\",\"count\":1},\"generated_messages\":[\"m\"],\"failed_messages\":[],\"failed_templates\":[]}"
    );
}
