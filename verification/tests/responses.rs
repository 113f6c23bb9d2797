use merit_rpc::json::Json;
use merit_rpc::parse::parse_body;
use merit_rpc::protocol::{height_step, single_request_step, target_step, Step};

#[test]
fn parse_body_builds_values() {
    // The parse hands back a decoded value, not the text.
    match parse_body("{\"a\":1}") {
        Some(Json::Obj(members)) => {
            assert_eq!(members.len(), 1);
            assert_eq!(members[0].0, "a");
            assert!(matches!(members[0].1, Json::Int(1)));
        },
        other => panic!("expected an object, got {:?}", other),
    }
    assert!(matches!(parse_body("null"), Some(Json::Null)));
    assert!(matches!(parse_body("\"hi\""), Some(Json::Str(_))));
    assert!(matches!(parse_body("18446744073709551615"), Some(Json::UInt(_))));
}

#[test]
fn parse_body_rejects_what_the_protocol_does_not_speak() {
    assert!(parse_body("Internal Server Error").is_none());
    assert!(parse_body("{\"id\":0,\"result\":1.5}").is_none());
    assert!(parse_body("{\"id\":0,\"result\":[1.5]}").is_none());
    assert!(parse_body("").is_none());
}

#[test]
fn parse_body_builds_arrays() {
    match parse_body("[1,\"a\",[true]]") {
        Some(Json::Arr(elems)) => {
            assert_eq!(elems.len(), 3);
            assert!(matches!(elems[0], Json::Int(1)));
            assert!(matches!(elems[1], Json::Str(_)));
            assert!(matches!(elems[2], Json::Arr(_)));
        },
        other => panic!("expected an array, got {:?}", other),
    }
}

#[test]
fn array_results_return_through_the_generic_call() {
    // The generic call's payload is method-specific: an array result is
    // a valid result shape and comes back as a value.
    match single_request_step(parse_body("{\"id\":0,\"result\":[1,2,3]}")) {
        Step::Done(Ok(Json::Arr(elems))) => assert_eq!(elems.len(), 3),
        other => panic!("expected the array result, got {:?}", step_kind(&other)),
    }
    // The typed queries still retry on it: an array is no height.
    assert!(matches!(height_step(parse_body("{\"id\":0,\"result\":[1,2,3]}")), Step::Retry));
}

#[test]
fn result_shape_returns_at_once() {
    // A valid result-shaped response: the generic call returns Ok, no retry.
    let parsed = parse_body("{\"id\":0,\"result\":12345}");
    assert!(parsed.is_some());
    match single_request_step(parsed) {
        Step::Done(Ok(Json::Int(12345))) => {},
        other => panic!("expected the result, got {:?}", step_kind(&other)),
    }
}

#[test]
fn error_shape_is_a_typed_error_for_the_generic_call() {
    let body = "{\"error\":{\"code\":-32601,\"message\":\"method not found\"}}";
    match single_request_step(parse_body(body)) {
        Step::Done(Err(e)) => {
            assert_eq!(e.code, -32601);
            assert_eq!(e.message.as_deref(), Some("method not found"));
        },
        other => panic!("expected the typed error, got {:?}", step_kind(&other)),
    }
}

#[test]
fn error_shape_makes_the_convenience_calls_retry() {
    // The asymmetry: the same error-shaped body that the generic call
    // hands to its caller makes the height and target queries retry.
    let body = "{\"error\":{\"code\":-32601,\"message\":\"method not found\"}}";
    assert!(matches!(height_step(parse_body(body)), Step::Retry));
    assert!(matches!(target_step(parse_body(body)), Step::Retry));
    assert!(matches!(single_request_step(parse_body(body)), Step::Done(Err(_))));
}

#[test]
fn height_query_returns_the_height() {
    match height_step(parse_body("{\"id\":0,\"result\":12345}")) {
        Step::Done(h) => assert_eq!(h, 12345),
        Step::Retry => panic!("expected the height"),
    }
}

#[test]
fn target_query_decodes_the_target() {
    let key_hex: String = (0u8..32).map(|b| format!("{:02x}", b)).collect();
    let body = format!(
        "{{\"id\":0,\"result\":{{\"id\":7,\"key\":\"{}\",\"header\":\"00ff\",\
         \"difficulty\":1000}}}}",
        key_hex,
    );
    match target_step(parse_body(&body)) {
        Step::Done(t) => {
            assert_eq!(t.id, 7);
            assert_eq!(t.key, (0u8..32).collect::<Vec<u8>>());
            assert_eq!(t.header, vec![0x00, 0xff]);
            assert_eq!(t.difficulty, 1000);
        },
        Step::Retry => panic!("expected the mining target"),
    }
}

#[test]
fn target_rejects_bad_hex_fields() {
    // A key of the wrong length, odd-length hex, or non-hex digits are
    // decode failures, so the query retries instead of crashing.
    let sixty_two = "00".repeat(31);
    let body = format!(
        "{{\"id\":0,\"result\":{{\"id\":7,\"key\":\"{}\",\"header\":\"00\",\"difficulty\":1}}}}",
        sixty_two,
    );
    assert!(matches!(target_step(parse_body(&body)), Step::Retry));

    let key_hex = "00".repeat(32);
    let body = format!(
        "{{\"id\":0,\"result\":{{\"id\":7,\"key\":\"{}\",\"header\":\"0\",\"difficulty\":1}}}}",
        key_hex,
    );
    assert!(matches!(target_step(parse_body(&body)), Step::Retry));

    let body = format!(
        "{{\"id\":0,\"result\":{{\"id\":7,\"key\":\"{}\",\"header\":\"zz\",\"difficulty\":1}}}}",
        key_hex,
    );
    assert!(matches!(target_step(parse_body(&body)), Step::Retry));
}

#[test]
fn malformed_bodies_and_transport_failures_retry_then_succeed() {
    // First attempt: a 500-style unparsable body. Every operation retries.
    let first = "Internal Server Error";
    assert!(matches!(single_request_step(parse_body(first)), Step::Retry));
    assert!(matches!(height_step(parse_body(first)), Step::Retry));
    assert!(matches!(target_step(parse_body(first)), Step::Retry));

    // A failed transport (no body at all) retries too.
    assert!(matches!(single_request_step(None), Step::Retry));
    assert!(matches!(height_step(None), Step::Retry));
    assert!(matches!(target_step(None), Step::Retry));

    // Next attempt: a well-formed result. The call returns it.
    match height_step(parse_body("{\"id\":0,\"result\":42}")) {
        Step::Done(h) => assert_eq!(h, 42),
        Step::Retry => panic!("expected the height after the retry"),
    }
}

#[test]
fn error_message_is_optional() {
    match single_request_step(parse_body("{\"error\":{\"code\":5}}")) {
        Step::Done(Err(e)) => {
            assert_eq!(e.code, 5);
            assert_eq!(e.message, None);
        },
        _ => panic!("expected the typed error"),
    }
    match single_request_step(parse_body("{\"error\":{\"code\":5,\"message\":null}}")) {
        Step::Done(Err(e)) => {
            assert_eq!(e.code, 5);
            assert_eq!(e.message, None);
        },
        _ => panic!("expected the typed error"),
    }
}

#[test]
fn a_body_fitting_both_shapes_is_ambiguous() {
    // A body holding an error object and a full result shape at once is
    // no well-formed response: every operation treats it as a decode
    // failure and retries.
    let body = "{\"error\":{\"code\":1},\"id\":0,\"result\":5}";
    assert!(matches!(single_request_step(parse_body(body)), Step::Retry));
    assert!(matches!(height_step(parse_body(body)), Step::Retry));
    assert!(matches!(target_step(parse_body(body)), Step::Retry));

    // With the result shape incomplete the error shape alone fits.
    let body = "{\"error\":{\"code\":1},\"id\":0}";
    assert!(matches!(single_request_step(parse_body(body)), Step::Done(Err(_))));
}

#[test]
fn broken_error_shape_falls_through_to_the_result_shape() {
    // An "error" member that is no object does not fit the error shape;
    // the body still decodes through the result shape.
    let body = "{\"error\":5,\"id\":0,\"result\":7}";
    match height_step(parse_body(body)) {
        Step::Done(h) => assert_eq!(h, 7),
        Step::Retry => panic!("expected the result shape to fit"),
    }
}

#[test]
fn neither_shape_retries() {
    assert!(matches!(single_request_step(parse_body("{\"result\":5}")), Step::Retry));
    assert!(matches!(single_request_step(parse_body("{\"id\":0}")), Step::Retry));
    assert!(matches!(single_request_step(parse_body("{}")), Step::Retry));
    assert!(matches!(height_step(parse_body("{\"id\":0,\"result\":-3}")), Step::Retry));
    assert!(matches!(height_step(parse_body("{\"id\":0,\"result\":\"12\"}")), Step::Retry));
}

fn step_kind<T, E>(s: &Step<Result<T, E>>) -> &'static str {
    match s {
        Step::Retry => "a retry",
        Step::Done(Ok(_)) => "a result",
        Step::Done(Err(_)) => "a typed error",
    }
}
