//! The reachability probe: a signed, timestamped health check sent to a
//! remote endpoint, and the loop that repeats it.

use vstd::prelude::*;
use crate::json::{
    json_as_bool, json_document, json_get, json_model, json_quote, json_quoted, member,
    parse_json, JsonModel,
};
use crate::notify::{amboss_error, Alert};
use crate::text::concat2;

verus! {

/// Where the health check is sent.
pub const AMBOSS_URL: &'static str = "https://api.amboss.space/graphql";

/// Seconds between two probes while the endpoint answers.
pub const PING_INTERVAL_SECS: u64 = 300;

/// Seconds by which the pause grows with each failure in a row.
pub const RETRY_STEP_SECS: u64 = 10;

/// The GraphQL mutation of the health check.
pub open spec fn health_check_query() -> Seq<char> {
    "mutation HealthCheck($signature: String!, $timestamp: String!) { healthCheck(signature: $signature, timestamp: $timestamp) }"@
}

/// The request body: a JSON object with the mutation and, as its variables,
/// the signature and the timestamp that was signed.
pub open spec fn request_body(signature: Seq<char>, timestamp: Seq<char>) -> Seq<char> {
    "{\"query\":"@ + json_quoted(health_check_query()) + ",\"variables\":{\"signature\":"@
        + json_quoted(signature) + ",\"timestamp\":"@ + json_quoted(timestamp) + "}}"@
}

/// Writes the body of the health check request.
pub fn health_check_request(signature: &str, timestamp: &str) -> (body: String)
    ensures
        body@ == request_body(signature@, timestamp@),
{
    let mut body = String::from_str("{\"query\":");
    body.append(
        json_quote(
            "mutation HealthCheck($signature: String!, $timestamp: String!) { healthCheck(signature: $signature, timestamp: $timestamp) }",
        ).as_str(),
    );
    body.append(",\"variables\":{\"signature\":");
    body.append(json_quote(signature).as_str());
    body.append(",\"timestamp\":");
    body.append(json_quote(timestamp).as_str());
    body.append("}}");
    body
}

/// The endpoint confirms the node when its answer is an object whose member
/// `data` is an object whose member `healthCheck` is `true`.
pub open spec fn confirms(document: Option<JsonModel>) -> bool {
    match document {
        Some(document) => match member(document, "data"@) {
            Some(data) => member(data, "healthCheck"@) == Some(JsonModel::Bool(true)),
            None => false,
        },
        None => false,
    }
}

/// Whether a parsed answer confirms the node.
pub fn document_confirms(document: &serde_json::Value) -> (r: bool)
    ensures
        r == confirms(Some(json_model(*document))),
{
    match json_get(document, "data") {
        Some(data) => match json_get(data, "healthCheck") {
            Some(flag) => match json_as_bool(flag) {
                Some(value) => value,
                None => false,
            },
            None => false,
        },
        None => false,
    }
}

/// Whether the endpoint's answer confirms the node. An answer that is not
/// JSON does not.
pub fn response_confirms(response_text: &str) -> (r: bool)
    ensures
        r == confirms(json_document(response_text@)),
{
    match parse_json(response_text) {
        Ok(document) => document_confirms(&document),
        Err(_) => false,
    }
}

/// The verdict on a probe: success if the answer confirmed the node, else a
/// failure whose reason quotes the whole answer.
pub fn ping_verdict(confirmed: bool, response_text: &str) -> (r: Result<(), String>)
    ensures
        r is Ok <==> confirmed,
        r matches Err(reason) ==> reason@ == "Amboss ping error: "@ + response_text@,
{
    if confirmed {
        Ok(())
    } else {
        Err(concat2("Amboss ping error: ", response_text))
    }
}

/// Judges the endpoint's answer to a health check.
pub fn amboss_ping(response_text: &str) -> (r: Result<(), String>)
    ensures
        r is Ok <==> confirms(json_document(response_text@)),
        r matches Err(reason) ==> reason@ == "Amboss ping error: "@ + response_text@,
{
    ping_verdict(response_confirms(response_text), response_text)
}

/// What the probe loop does after a probe.
pub struct PingStep {
    /// Seconds to pause before the next probe.
    pub sleep_time_s: u64,
    /// The alert to send, if this failure is to be reported.
    pub alert: Option<Alert>,
}

/// The pause after a probe: the regular interval after a success; after a
/// failure a short pause that grows with each further failure, and starts
/// over once it has reached the regular interval.
pub open spec fn next_pause(sleep_time_s: u64, succeeded: bool) -> u64 {
    if succeeded {
        PING_INTERVAL_SECS
    } else if sleep_time_s >= PING_INTERVAL_SECS {
        RETRY_STEP_SECS
    } else {
        (sleep_time_s + RETRY_STEP_SECS) as u64
    }
}

/// A failure is reported unless it is the first after a success or after a
/// full round of retries.
pub open spec fn reports_failure(sleep_time_s: u64, succeeded: bool) -> bool {
    !succeeded && sleep_time_s < PING_INTERVAL_SECS
}

/// One turn of the probe loop: takes the pause that preceded the probe and
/// the probe's outcome, and gives the next pause and the alert to send.
pub fn amboss_ping_loop(sleep_time_s: u64, outcome: &Result<(), String>) -> (step: PingStep)
    ensures
        step.sleep_time_s == next_pause(sleep_time_s, outcome is Ok),
        step.alert is Some <==> reports_failure(sleep_time_s, outcome is Ok),
        step.alert matches Some(alert) ==> outcome matches Err(reason) && alert.subject@
            == "Amboss error"@ && alert.body@ == reason@,
{
    match outcome {
        Ok(_) => PingStep { sleep_time_s: PING_INTERVAL_SECS, alert: None },
        Err(reason) => {
            if sleep_time_s >= PING_INTERVAL_SECS {
                PingStep { sleep_time_s: RETRY_STEP_SECS, alert: None }
            } else {
                PingStep {
                    sleep_time_s: sleep_time_s + RETRY_STEP_SECS,
                    alert: Some(amboss_error(reason.as_str())),
                }
            }
        },
    }
}

/// The notation of the timestamp that is signed: date and time of day to
/// the second, followed by the offset from UTC.
pub const TIMESTAMP_FORMAT: &'static str = "%Y-%m-%dT%H:%M:%S%z";

/// What `chrono` writes for the moment `unix_seconds` after the epoch, taken
/// as a time in UTC, under the pattern `pattern`; nothing for a moment
/// outside the years that `chrono` can hold.
pub uninterp spec fn utc_time_text(unix_seconds: i64, pattern: Seq<char>) -> Option<Seq<char>>;

/// `chrono::DateTime::<Utc>::from_timestamp` and, on the moment it gives,
/// `format` written out with `to_string`. The pattern is the library's own,
/// which `chrono` accepts; the outcome depends on the two arguments alone.
#[verifier::external_body]
pub(crate) fn format_utc(unix_seconds: i64, pattern: &str) -> (r: Option<String>)
    requires
        pattern@ == TIMESTAMP_FORMAT@,
    ensures
        match r {
            Some(text) => utc_time_text(unix_seconds, pattern@) == Some(text@),
            None => utc_time_text(unix_seconds, pattern@) is None,
        },
{
    match chrono::DateTime::<chrono::Utc>::from_timestamp(unix_seconds, 0) {
        Some(moment) => Some(moment.format(pattern).to_string()),
        None => None,
    }
}

/// The timestamp to sign for a probe made `unix_seconds` after the epoch.
pub fn probe_timestamp(unix_seconds: i64) -> (r: Option<String>)
    ensures
        match r {
            Some(text) => utc_time_text(unix_seconds, TIMESTAMP_FORMAT@) == Some(text@),
            None => utc_time_text(unix_seconds, TIMESTAMP_FORMAT@) is None,
        },
{
    format_utc(unix_seconds, TIMESTAMP_FORMAT)
}

/// The pauses that the loop ever makes: whole retry steps up to the
/// regular interval.
pub open spec fn is_loop_pause(sleep_time_s: u64) -> bool {
    sleep_time_s % RETRY_STEP_SECS == 0 && RETRY_STEP_SECS <= sleep_time_s <= PING_INTERVAL_SECS
}

/// The first failure after a success is not reported and is followed by the
/// shortest pause; if the probe then fails again, that failure is reported.
/// And the loop, which starts with the regular interval, never leaves its
/// range of pauses.
pub proof fn law_only_sustained_failure_is_reported(sleep_time_s: u64, succeeded: bool)
    ensures
        !reports_failure(next_pause(sleep_time_s, true), false),
        next_pause(next_pause(sleep_time_s, true), false) == RETRY_STEP_SECS,
        reports_failure(next_pause(next_pause(sleep_time_s, true), false), false),
        is_loop_pause(PING_INTERVAL_SECS),
        is_loop_pause(sleep_time_s) ==> is_loop_pause(next_pause(sleep_time_s, succeeded)),
{
}

} // verus!
