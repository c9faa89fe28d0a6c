use web3_proxy::call::{CallInfo, Elapsed, Timestamp};
use web3_proxy::error::{DecodingFault, ErrorBag, UpstreamFault, Web3ProxyError};
use web3_proxy::json::JsonValue;
use web3_proxy::proxy::{
    admit_call, begin_call, complete_call, decode_body, forward_payload, forward_result, web3,
    ForwardResult, ProxyResponse, UpstreamReply, LOCAL_FAILURE,
};
use web3_proxy::registry::SharedData;
use web3_proxy::request::ParsedRequest;

const STARTED: Timestamp = Timestamp { secs: 1_700_000_000, nanos: 5 };

const TOOK: Elapsed = Elapsed { secs: 1, nanos: 250_000_000 };

const WELL_FORMED: &str = "{\"jsonrpc\":\"2.0\",\"id\":1,\"method\":\"eth_blockNumber\",\"params\":[]}";

fn answered(status: u16, body: &str) -> UpstreamReply {
    UpstreamReply::Answered { status, body: body.as_bytes().to_vec() }
}

fn round(registry: &mut SharedData, key: &str, body: &str, reply: UpstreamReply) -> ProxyResponse {
    web3(registry, key, body.as_bytes().to_vec(), STARTED, TOOK, reply)
}

fn newest(registry: &SharedData, key: &str) -> CallInfo {
    registry.recent_calls(key, Some(1)).unwrap().remove(0)
}

#[test]
fn decode_body_reads_text_and_document() {
    let (text, document) = decode_body(b"[1, 2]".to_vec()).unwrap();
    assert_eq!(text, "[1, 2]");
    assert_eq!(
        document,
        JsonValue::Array(vec![JsonValue::Number("1".to_string()), JsonValue::Number("2".to_string())])
    );
}

#[test]
fn decode_body_refuses_bytes_that_are_not_utf8() {
    let e = decode_body(vec![0x7b, 0xff, 0x7d]).unwrap_err();
    assert!(matches!(e.inner, ErrorBag::DecodingError(DecodingFault::NotUtf8(_))));
    assert_eq!(e.message(), "invalid utf-8 sequence of 1 bytes from index 1");
}

#[test]
fn decode_body_refuses_text_that_is_not_json() {
    let e = decode_body(b"hello".to_vec()).unwrap_err();
    assert!(matches!(e.inner, ErrorBag::DecodingError(DecodingFault::NotJson(_))));
    let e = decode_body(Vec::new()).unwrap_err();
    assert!(matches!(e.inner, ErrorBag::DecodingError(DecodingFault::NotJson(_))));
}

#[test]
fn begin_call_prepares_a_well_formed_request() {
    let pending = begin_call("k", WELL_FORMED.as_bytes().to_vec()).unwrap();
    assert_eq!(pending.key, "k");
    assert_eq!(pending.request, WELL_FORMED);
    assert_eq!(pending.payload, JsonValue::parse(WELL_FORMED).unwrap());
    assert_eq!(
        pending.parsed_request,
        vec![ParsedRequest {
            id: JsonValue::Number("1".to_string()),
            method: "eth_blockNumber".to_string(),
            params: vec![],
        }]
    );
}

#[test]
fn begin_call_refuses_a_body_that_does_not_decode() {
    let e = begin_call("k", vec![0xc3, 0x28]).unwrap_err();
    assert!(matches!(e.inner, ErrorBag::DecodingError(DecodingFault::NotUtf8(_))));
    let e = begin_call("k", b"{\"jsonrpc\"".to_vec()).unwrap_err();
    assert!(matches!(e.inner, ErrorBag::DecodingError(DecodingFault::NotJson(_))));
}

#[test]
fn forward_payload_is_the_document_in_compact_form() {
    let body = "{ \"jsonrpc\" : \"2.0\", \"id\" : 1, \"method\" : \"m\", \"params\" : [ 1.5 ] }";
    let pending = begin_call("k", body.as_bytes().to_vec()).unwrap();
    let call = admit_call(&mut SharedData::new(1), pending);
    assert_eq!(
        forward_payload(&call),
        "{\"id\":1,\"jsonrpc\":\"2.0\",\"method\":\"m\",\"params\":[1.5]}"
    );
}

#[test]
fn admit_call_counts_the_request_and_keeps_it() {
    let mut registry = SharedData::new(3);
    let pending = begin_call("k", WELL_FORMED.as_bytes().to_vec()).unwrap();
    let call = admit_call(&mut registry, pending);
    assert_eq!(call.pending(), &begin_call("k", WELL_FORMED.as_bytes().to_vec()).unwrap());
    let record = registry.get("k").unwrap();
    assert_eq!(record.total_requests, 1);
    assert_eq!(record.total_calls, 0);
    assert!(record.calls.is_empty());
}

#[test]
fn forward_result_relays_status_and_body() {
    assert_eq!(
        forward_result(answered(200, "{\"result\":\"0x1\"}")),
        ForwardResult { status: 200, body: Ok("{\"result\":\"0x1\"}".to_string()) }
    );
    assert_eq!(
        forward_result(answered(404, "")),
        ForwardResult { status: 404, body: Ok(String::new()) }
    );
    assert_eq!(
        forward_result(answered(502, "bad gateway")),
        ForwardResult { status: 502, body: Ok("bad gateway".to_string()) }
    );
}

#[test]
fn forward_result_maps_each_failure_to_the_local_status() {
    let failed = |fault: UpstreamFault| ForwardResult {
        status: 500,
        body: Err(Web3ProxyError::new(ErrorBag::UpstreamError(fault))),
    };
    assert_eq!(LOCAL_FAILURE, 500);
    assert_eq!(forward_result(UpstreamReply::Unreachable), failed(UpstreamFault::Transport));
    assert_eq!(forward_result(UpstreamReply::BodyLost), failed(UpstreamFault::BodyRead));
    assert_eq!(
        forward_result(UpstreamReply::Answered { status: 200, body: vec![0xff, 0xfe] }),
        failed(UpstreamFault::NotUtf8)
    );
}

#[test]
fn forward_failure_has_a_text() {
    let text = |reply: UpstreamReply| forward_result(reply).body.unwrap_err().message();
    assert_eq!(text(UpstreamReply::Unreachable), "Error sending request upstream");
    assert_eq!(text(UpstreamReply::BodyLost), "Error getting body");
    assert_eq!(
        text(UpstreamReply::Answered { status: 200, body: vec![0xc0] }),
        "Error getting body: invalid utf-8"
    );
}

#[test]
fn round_trip_relays_the_upstream_answer_and_records_it() {
    let mut registry = SharedData::new(10);
    let answer = "{\"jsonrpc\":\"2.0\",\"id\":1,\"result\":\"0x10\"}";
    let response = round(&mut registry, "k", WELL_FORMED, answered(200, answer));
    assert_eq!(response, ProxyResponse { status: 200, body: Some(answer.to_string()) });
    let record = registry.get("k").unwrap();
    assert_eq!(record.total_requests, 1);
    assert_eq!(record.total_calls, 1);
    assert_eq!(
        newest(&registry, "k"),
        CallInfo {
            request: Some(WELL_FORMED.to_string()),
            response: Some(answer.to_string()),
            parsed_request: vec![ParsedRequest {
                id: JsonValue::Number("1".to_string()),
                method: "eth_blockNumber".to_string(),
                params: vec![],
            }],
            date: STARTED,
            response_time: TOOK,
        }
    );
}

#[test]
fn malformed_envelope_is_forwarded_and_recorded_without_calls() {
    let mut registry = SharedData::new(10);
    let body = "{\"method\":\"x\"}";
    let pending = begin_call("k", body.as_bytes().to_vec()).unwrap();
    assert_eq!(pending.parsed_request, vec![]);
    assert_eq!(pending.payload, JsonValue::parse(body).unwrap());
    let response = round(&mut registry, "k", body, answered(200, "ok"));
    assert_eq!(response, ProxyResponse { status: 200, body: Some("ok".to_string()) });
    let record = newest(&registry, "k");
    assert_eq!(record.parsed_request, vec![]);
    assert_eq!(record.request, Some(body.to_string()));
    assert_eq!(record.response, Some("ok".to_string()));
}

#[test]
fn batch_is_forwarded_and_recorded_without_calls() {
    let mut registry = SharedData::new(10);
    let body = "[{\"jsonrpc\":\"2.0\",\"id\":1,\"method\":\"m\",\"params\":[]}]";
    let response = round(&mut registry, "k", body, answered(200, "[]"));
    assert_eq!(response.status, 200);
    assert_eq!(newest(&registry, "k").parsed_request, vec![]);
}

#[test]
fn local_failure_is_answered_without_body_and_still_recorded() {
    let mut registry = SharedData::new(10);
    for reply in [
        UpstreamReply::Unreachable,
        UpstreamReply::BodyLost,
        UpstreamReply::Answered { status: 200, body: vec![0x80] },
    ] {
        let response = round(&mut registry, "k", WELL_FORMED, reply);
        assert_eq!(response, ProxyResponse { status: 500, body: None });
        let record = newest(&registry, "k");
        assert_eq!(record.response, None);
        assert_eq!(record.request, Some(WELL_FORMED.to_string()));
        assert_eq!(record.parsed_request.len(), 1);
    }
    let record = registry.get("k").unwrap();
    assert_eq!(record.total_requests, 3);
    assert_eq!(record.total_calls, 3);
}

#[test]
fn upstream_error_status_is_relayed_verbatim() {
    let mut registry = SharedData::new(10);
    let response = round(&mut registry, "k", WELL_FORMED, answered(503, "busy"));
    assert_eq!(response, ProxyResponse { status: 503, body: Some("busy".to_string()) });
    assert_eq!(newest(&registry, "k").response, Some("busy".to_string()));
}

#[test]
fn complete_call_without_a_record_fails_locally() {
    let pending = begin_call("k", WELL_FORMED.as_bytes().to_vec()).unwrap();
    let call = admit_call(&mut SharedData::new(10), pending);
    let mut other = SharedData::new(10);
    let response =
        complete_call(&mut other, call, STARTED, TOOK, forward_result(answered(200, "ok")));
    assert_eq!(response, ProxyResponse { status: 500, body: Some("Key not found".to_string()) });
    assert!(other.get("k").is_none());
}

#[test]
fn requests_of_one_key_are_recorded_in_completion_order() {
    let mut registry = SharedData::new(10);
    let first = admit_call(&mut registry, begin_call("k", b"[1]".to_vec()).unwrap());
    let second = admit_call(&mut registry, begin_call("k", b"[2]".to_vec()).unwrap());
    assert_eq!(registry.get("k").unwrap().total_requests, 2);
    assert_eq!(registry.get("k").unwrap().total_calls, 0);
    complete_call(&mut registry, second, STARTED, TOOK, forward_result(answered(200, "two")));
    complete_call(&mut registry, first, STARTED, TOOK, forward_result(answered(200, "one")));
    let responses: Vec<Option<String>> =
        registry.recent_calls("k", None).unwrap().into_iter().map(|c| c.response).collect();
    assert_eq!(responses, vec![Some("one".to_string()), Some("two".to_string())]);
}

#[test]
fn a_body_that_does_not_decode_is_answered_locally_and_leaves_no_trace() {
    let mut registry = SharedData::new(10);
    let response = web3(&mut registry, "k", vec![0xff], STARTED, TOOK, answered(200, "ok"));
    assert_eq!(
        response,
        ProxyResponse {
            status: 500,
            body: Some("invalid utf-8 sequence of 1 bytes from index 0".to_string()),
        }
    );
    assert!(registry.get("k").is_none());
    let response = web3(&mut registry, "k", b"{".to_vec(), STARTED, TOOK, answered(200, "ok"));
    assert_eq!(
        response,
        ProxyResponse {
            status: 500,
            body: Some("EOF while parsing an object at line 1 column 1".to_string()),
        }
    );
    assert!(registry.get("k").is_none());
}

#[test]
fn the_steps_taken_one_by_one_do_what_the_whole_does() {
    let answer = "{\"result\":true}";
    let mut whole = SharedData::new(3);
    let mut stepwise = SharedData::new(3);
    for body in [WELL_FORMED, "{\"method\":\"x\"}", "[]"] {
        let expected = web3(&mut whole, "k", body.as_bytes().to_vec(), STARTED, TOOK, answered(201, answer));
        let pending = begin_call("k", body.as_bytes().to_vec()).unwrap();
        let call = admit_call(&mut stepwise, pending);
        let result = forward_result(answered(201, answer));
        let response = complete_call(&mut stepwise, call, STARTED, TOOK, result);
        assert_eq!(response, expected);
        assert_eq!(stepwise.get("k"), whole.get("k"));
    }
}

#[test]
fn calls_for_two_keys_interleave_freely() {
    let mut registry = SharedData::new(10);
    let a = admit_call(&mut registry, begin_call("a", b"[1]".to_vec()).unwrap());
    let b = admit_call(&mut registry, begin_call("b", b"[2]".to_vec()).unwrap());
    assert_eq!(forward_payload(&a), "[1]");
    assert_eq!(forward_payload(&b), "[2]");
    complete_call(&mut registry, b, STARTED, TOOK, forward_result(answered(200, "for b")));
    assert_eq!(registry.get("a").unwrap().calls.len(), 0);
    assert_eq!(registry.get("b").unwrap().calls.len(), 1);
    complete_call(&mut registry, a, STARTED, TOOK, forward_result(UpstreamReply::Unreachable));
    assert_eq!(newest(&registry, "a").response, None);
    assert_eq!(newest(&registry, "b").response, Some("for b".to_string()));
    assert_eq!(registry.get("a").unwrap().total_calls, 1);
    assert_eq!(registry.get("b").unwrap().total_calls, 1);
}

#[test]
fn three_round_trips_in_a_queue_of_two() {
    let mut registry = SharedData::new(2);
    for answer in ["C1", "C2", "C3"] {
        round(&mut registry, "k", WELL_FORMED, answered(200, answer));
    }
    let responses: Vec<Option<String>> =
        registry.recent_calls("k", Some(10)).unwrap().into_iter().map(|c| c.response).collect();
    assert_eq!(responses, vec![Some("C3".to_string()), Some("C2".to_string())]);
}
