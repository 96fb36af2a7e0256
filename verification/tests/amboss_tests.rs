use vitality::amboss::{
    amboss_ping, amboss_ping_loop, document_confirms, health_check_request, ping_verdict,
    probe_timestamp, response_confirms, AMBOSS_URL, PING_INTERVAL_SECS, RETRY_STEP_SECS,
};

#[test]
fn probe_fails_on_the_malformed_answer_and_quotes_it() {
    let body = "{\"data\":{\"healthCheck):false}}";
    assert_eq!(amboss_ping(body), Err(format!("Amboss ping error: {}", body)));
}

#[test]
fn probe_fails_when_the_flag_is_false() {
    let body = "{\"data\":{\"healthCheck\":false}}";
    assert_eq!(
        amboss_ping(body),
        Err("Amboss ping error: {\"data\":{\"healthCheck\":false}}".to_string())
    );
}

#[test]
fn probe_succeeds_only_on_a_true_flag() {
    assert_eq!(amboss_ping("{\"data\":{\"healthCheck\":true}}"), Ok(()));
    assert_eq!(amboss_ping(" { \"data\" : { \"healthCheck\" : true , \"x\": 1 } } "), Ok(()));
    for body in [
        "",
        "true",
        "{}",
        "[]",
        "{\"data\":null}",
        "{\"data\":true}",
        "{\"data\":{}}",
        "{\"data\":{\"healthCheck\":\"true\"}}",
        "{\"data\":{\"healthCheck\":1}}",
        "{\"data\":{\"healthcheck\":true}}",
        "{\"healthCheck\":true}",
        "{\"errors\":[{\"message\":\"bad signature\"}],\"data\":null}",
        "<html>502</html>",
    ] {
        assert!(!response_confirms(body));
        assert_eq!(amboss_ping(body), Err(format!("Amboss ping error: {}", body)));
    }
}

#[test]
fn parsed_answer_is_judged_by_its_members() {
    let mut data = serde_json::Map::new();
    data.insert("healthCheck".to_string(), serde_json::Value::Bool(true));
    let mut top = serde_json::Map::new();
    top.insert("data".to_string(), serde_json::Value::Object(data));
    assert!(document_confirms(&serde_json::Value::Object(top)));
    assert!(!document_confirms(&serde_json::Value::Bool(true)));
    assert!(!document_confirms(&serde_json::Value::Null));
}

#[test]
fn verdict_follows_the_confirmation() {
    assert_eq!(ping_verdict(true, "anything"), Ok(()));
    assert_eq!(ping_verdict(false, "why"), Err("Amboss ping error: why".to_string()));
}

#[test]
fn request_body_is_what_the_json_crate_writes() {
    let signature = "d9rzj\"quoted\\back";
    let timestamp = "2024-05-01T12:00:00+0000";
    let mut variables = serde_json::Map::new();
    variables.insert("signature".to_string(), serde_json::Value::String(signature.to_string()));
    variables.insert("timestamp".to_string(), serde_json::Value::String(timestamp.to_string()));
    let mut top = serde_json::Map::new();
    top.insert(
        "query".to_string(),
        serde_json::Value::String(
            "mutation HealthCheck($signature: String!, $timestamp: String!) \
        { healthCheck(signature: $signature, timestamp: $timestamp) }"
                .to_string(),
        ),
    );
    top.insert("variables".to_string(), serde_json::Value::Object(variables));
    let expected = serde_json::Value::Object(top);
    let body = health_check_request(signature, timestamp);
    assert_eq!(body, expected.to_string());
    let parsed: serde_json::Value = serde_json::from_str(&body).unwrap();
    assert_eq!(parsed, expected);
}

#[test]
fn request_body_of_plain_values() {
    assert_eq!(
        health_check_request("sig", "now"),
        "{\"query\":\"mutation HealthCheck($signature: String!, $timestamp: String!) { healthCheck(signature: $signature, timestamp: $timestamp) }\",\"variables\":{\"signature\":\"sig\",\"timestamp\":\"now\"}}"
    );
    assert_eq!(AMBOSS_URL, "https://api.amboss.space/graphql");
}

#[test]
fn timestamp_is_written_in_utc() {
    assert_eq!(probe_timestamp(0), Some("1970-01-01T00:00:00+0000".to_string()));
    assert_eq!(probe_timestamp(1_714_564_800), Some("2024-05-01T12:00:00+0000".to_string()));
    assert_eq!(probe_timestamp(-1), Some("1969-12-31T23:59:59+0000".to_string()));
    assert_eq!(probe_timestamp(i64::MAX), None);
    assert_eq!(probe_timestamp(i64::MIN), None);
}

#[test]
fn first_failure_is_silent_and_later_ones_are_reported() {
    assert_eq!(PING_INTERVAL_SECS, 300);
    assert_eq!(RETRY_STEP_SECS, 10);
    let failed: Result<(), String> = Err("Amboss ping error: x".to_string());
    let step = amboss_ping_loop(300, &failed);
    assert_eq!(step.sleep_time_s, 10);
    assert!(step.alert.is_none());
    let step = amboss_ping_loop(10, &failed);
    assert_eq!(step.sleep_time_s, 20);
    let alert = step.alert.unwrap();
    assert_eq!(alert.subject, "Amboss error");
    assert_eq!(alert.body, "Amboss ping error: x");
    let step = amboss_ping_loop(20, &Ok(()));
    assert_eq!(step.sleep_time_s, 300);
    assert!(step.alert.is_none());
}

#[test]
fn retries_start_over_after_a_full_round() {
    let failed: Result<(), String> = Err("down".to_string());
    let mut pause = 300;
    let mut alerts = 0;
    let mut pauses = Vec::new();
    for _ in 0..31 {
        let step = amboss_ping_loop(pause, &failed);
        if step.alert.is_some() {
            alerts += 1;
        }
        pause = step.sleep_time_s;
        pauses.push(pause);
    }
    assert_eq!(pauses[0], 10);
    assert_eq!(pauses[28], 290);
    assert_eq!(pauses[29], 300);
    assert_eq!(pauses[30], 10);
    assert_eq!(alerts, 29);
    let step = amboss_ping_loop(u64::MAX, &failed);
    assert_eq!(step.sleep_time_s, 10);
    assert!(step.alert.is_none());
}
