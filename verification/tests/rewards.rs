use octy_services::json::{json_to_string, Json, JsonNumber};
use octy_services::messaging::generate::GenerateContentChild;
use octy_services::messaging::rewards::{
    access_token, campaign_page, claim_groups_json, claim_requests, claimed_rewards, group_claims, reward_claims,
    token_request_body,
};
use octy_services::messaging::sources::{items_page, latest_rates, recommendations_reply, retried_status, REQUEST_ATTEMPTS};

fn obj(members: Vec<(&str, Json)>) -> Json {
    Json::Object(members.into_iter().map(|(k, v)| (k.to_string(), v)).collect())
}

fn text(s: &str) -> Json {
    Json::Str(s.to_string())
}

fn num(i: i64) -> Json {
    Json::Number(JsonNumber::Int(i))
}

fn data(pairs: Vec<(&str, Option<&str>)>) -> Vec<(String, Option<String>)> {
    pairs.into_iter().map(|(k, v)| (k.to_string(), v.map(|x| x.to_string()))).collect()
}

fn message(tid: &str, data: Vec<Vec<(String, Option<String>)>>) -> GenerateContentChild {
    GenerateContentChild { template_id: tid.to_string(), data }
}

fn claim(r: &str, c: &str, v: &str) -> (String, String, String) {
    (r.to_string(), c.to_string(), v.to_string())
}

#[test]
fn reward_claims_follow_the_placeholders() {
    let required = vec![vec!["first_name".to_string(), "rybbon_reward_card".to_string()]];
    let messages = vec![
        message("t", vec![
            data(vec![("rybbon_reward_card", Some("c1::zeta::5"))]),
            data(vec![("rybbon_reward_card", Some("c2::alpha::7"))]),
            data(vec![("first_name", Some("Ada"))]),
        ]),
        message("u", vec![data(vec![("rybbon_reward_card", Some("c3::zeta"))])]),
    ];
    let claims = reward_claims(&required, &messages).unwrap();
    assert_eq!(claims, vec![claim("c1", "zeta", "5"), claim("c2", "alpha", "7"), claim("c3", "zeta", "")]);
    let null = vec![message("t", vec![data(vec![("rybbon_reward_card", None)])])];
    assert_eq!(
        reward_claims(&required, &null),
        Err("AttributeError: 'NoneType' object has no attribute 'split'".to_string())
    );
    let no_cards = vec![vec!["first_name".to_string()]];
    assert_eq!(reward_claims(&no_cards, &null), Ok(vec![]));
}

#[test]
fn claims_are_grouped_by_campaign_in_campaign_order() {
    let claims = vec![claim("c1", "zeta", "5"), claim("c2", "alpha", "7"), claim("c3", "zeta", ""), claim("c4", "Zeta", "1")];
    let groups = group_claims(&claims);
    assert_eq!(
        groups,
        vec![
            vec![claim("c4", "Zeta", "1")],
            vec![claim("c2", "alpha", "7")],
            vec![claim("c1", "zeta", "5"), claim("c3", "zeta", "")],
        ]
    );
    assert_eq!(groups.iter().map(|g| g.len()).sum::<usize>(), claims.len());
    assert!(group_claims(&vec![]).is_empty());
    let prefixes = vec![claim("a", "ab", ""), claim("b", "a", ""), claim("c", "", "")];
    let keys: Vec<String> = group_claims(&prefixes).iter().map(|g| g[0].1.clone()).collect();
    assert_eq!(keys, vec!["".to_string(), "a".to_string(), "ab".to_string()]);
}

#[test]
fn claim_requests_keep_valid_claims_of_open_campaigns() {
    let groups = vec![vec![claim("c2", "alpha", "7")], vec![claim("c1", "zeta", "5"), claim("c3", "zeta", "")]];
    let campaigns = vec![obj(vec![("campaignKey", text("zeta")), ("availableRewards", num(1))])];
    let json = claim_groups_json(&groups, &campaigns);
    assert_eq!(
        json_to_string(&json[0][0]),
        "{\"requestId\":\"c2\",\"campaignKey\":\"alpha\",\"value\":\"7\",\"active\":false,\"exceeded\":false}"
    );
    assert_eq!(
        json_to_string(&json[1][1]),
        "{\"requestId\":\"c3\",\"campaignKey\":\"zeta\",\"value\":\"\",\"active\":true,\"exceeded\":false}"
    );
    let requests = claim_requests(&json);
    assert_eq!(requests.len(), 1);
    assert_eq!(
        json_to_string(&requests[0]),
        "{\"campaignKey\":\"zeta\",\"rewardClaims\":[{\"requestId\":\"c1\",\"value\":\"5\"},{\"requestId\":\"c3\",\"value\":\"\"}]}"
    );
}

#[test]
fn claim_requests_hold_a_hundred_claims_each() {
    let group: Vec<(String, String, String)> = (0..250).map(|i| claim(&format!("c{i}"), "k", "1")).collect();
    let campaigns = vec![obj(vec![("campaignKey", text("k"))])];
    let json = claim_groups_json(&vec![group], &campaigns);
    let requests = claim_requests(&json);
    let sizes: Vec<usize> = requests
        .iter()
        .map(|r| match r {
            Json::Object(m) => match &m[1].1 {
                Json::Array(a) => a.len(),
                _ => 0,
            },
            _ => 0,
        })
        .collect();
    assert_eq!(sizes, vec![100, 100, 50]);
}

#[test]
fn token_request_is_form_encoded() {
    assert_eq!(token_request_body("a b&c"), "grant_type=client_credentials&client_id=a+b%26c");
    assert_eq!(access_token(Ok(obj(vec![("access_token", text("tok"))]))), Ok("tok".to_string()));
    assert_eq!(
        access_token(Ok(obj(vec![]))),
        Err("rybbon auth response missing 'access_token'".to_string())
    );
    assert_eq!(access_token(Err("eof".to_string())), Err("rybbon auth response not JSON: eof".to_string()));
}

#[test]
fn campaign_pages() {
    match campaign_page(404, Err("x".to_string())) {
        Ok((page, more)) => {
            assert!(page.is_empty());
            assert!(!more);
        }
        Err(_) => panic!("a failed page ends the listing"),
    }
    let reply = obj(vec![("result", obj(vec![("campaign", Json::Array(vec![num(1), num(2)]))]))]);
    match campaign_page(200, Ok(reply)) {
        Ok((page, more)) => {
            assert_eq!(page.len(), 2);
            assert!(!more);
        }
        Err(_) => panic!("a page"),
    }
    let full = obj(vec![("result", obj(vec![("campaign", Json::Array((0..1000).map(num).collect()))]))]);
    assert!(matches!(campaign_page(201, Ok(full)), Ok((_, true))));
    assert_eq!(
        campaign_page(200, Ok(obj(vec![]))).err(),
        Some("rybbon campaigns response missing 'result.campaign'".to_string())
    );
}

#[test]
fn claim_replies() {
    let granted = obj(vec![
        ("success", Json::Bool(true)),
        ("rewardAvailable", Json::Bool(true)),
        ("result", Json::Array(vec![obj(vec![("requestId", text("c1"))])])),
    ]);
    assert_eq!(claimed_rewards(Ok(granted)).map(|r| r.len()), Ok(1));
    let refused = obj(vec![("success", Json::Bool(false)), ("rewardAvailable", Json::Bool(true)), ("result", Json::Array(vec![num(1)]))]);
    assert_eq!(claimed_rewards(Ok(refused)).map(|r| r.len()), Ok(0));
    assert_eq!(
        claimed_rewards(Ok(obj(vec![("success", Json::Bool(true))]))).err(),
        Some("rybbon claim response missing 'rewardAvailable'".to_string())
    );
    assert_eq!(claimed_rewards(Ok(obj(vec![]))).err(), Some("rybbon claim response missing 'success'".to_string()));
}

#[test]
fn service_replies() {
    assert_eq!(REQUEST_ATTEMPTS, 5);
    assert!(retried_status(502));
    assert!(!retried_status(503));
    assert_eq!(recommendations_reply(400, Err("x".to_string())).map(|r| r.len()), Ok(0));
    assert_eq!(
        recommendations_reply(200, Ok(obj(vec![("recommendations", Json::Array(vec![num(1)]))]))).map(|r| r.len()),
        Ok(1)
    );
    assert_eq!(
        recommendations_reply(200, Ok(obj(vec![]))).err(),
        Some("recommendations response missing 'recommendations'".to_string())
    );
    let page = obj(vec![("items", Json::Array(vec![num(1), num(2)])), ("request_meta", obj(vec![("count", num(2))]))]);
    match items_page(10, 200, Ok(page)) {
        Ok((items, next)) => {
            assert_eq!(items.len(), 2);
            assert_eq!(next, Some(12));
        }
        Err(_) => panic!("a page"),
    }
    let last = obj(vec![("items", Json::Array(vec![])), ("request_meta", obj(vec![("count", num(0))]))]);
    assert!(matches!(items_page(12, 200, Ok(last)), Ok((_, None))));
    assert!(matches!(items_page(0, 404, Err("x".to_string())), Ok((_, None))));
    assert_eq!(
        items_page(0, 200, Ok(obj(vec![("items", Json::Array(vec![]))]))).err(),
        Some("items response missing 'request_meta.count'".to_string())
    );
}

#[test]
fn latest_rates_are_the_last_newest() {
    let date = |ms: i64| obj(vec![("$date", num(ms))]);
    let docs = vec![
        obj(vec![("created_at", date(5)), ("rates", text("a"))]),
        obj(vec![("created_at", date(9)), ("rates", text("b"))]),
        obj(vec![("created_at", date(9)), ("rates", text("c"))]),
        obj(vec![("rates", text("d"))]),
    ];
    assert_eq!(json_to_string(&latest_rates(&docs).unwrap()), "\"c\"");
    assert_eq!(json_to_string(&latest_rates(&vec![obj(vec![])]).unwrap()), "null");
    assert_eq!(latest_rates(&vec![]).err(), Some("no tbl_currency_rates documents found".to_string()));
}
