use merit_rpc::client::Rpc;
use merit_rpc::json::Json;
use merit_rpc::protocol::{height_request, request_body, target_request};

fn text(bytes: Vec<u8>) -> String {
    String::from_utf8(bytes).expect("request bodies are UTF-8")
}

#[test]
fn height_request_exact_body() {
    assert_eq!(
        text(height_request()),
        "{\"jsonrpc\":\"2.0\",\"id\":0,\"method\":\"merit_getHeight\",\"params\":{}}",
    );
}

#[test]
fn target_request_exact_body() {
    assert_eq!(
        text(target_request("pubkey1")),
        "{\"jsonrpc\":\"2.0\",\"id\":0,\"method\":\"merit_getBlockTemplate\",\
         \"params\":{\"miner\":\"pubkey1\"}}",
    );
}

#[test]
fn envelope_always_fixes_version_and_id() {
    // Whatever the method and params, the envelope pins jsonrpc and id.
    let bodies = vec![
        text(request_body("custom_method", &Json::Null)),
        text(request_body("", &Json::Bool(true))),
        text(request_body("m", &Json::Int(-42))),
        text(request_body("n", &Json::UInt(u64::MAX))),
    ];
    for body in bodies {
        assert!(body.starts_with("{\"jsonrpc\":\"2.0\",\"id\":0,\"method\":"));
    }
}

#[test]
fn envelope_serializes_params() {
    assert!(text(request_body("m", &Json::Int(-42))).ends_with("\"params\":-42}"));
    assert!(
        text(request_body("n", &Json::UInt(u64::MAX)))
            .ends_with("\"params\":18446744073709551615}")
    );
    assert!(text(request_body("o", &Json::Int(i64::MIN)))
        .ends_with("\"params\":-9223372036854775808}"));
    let members = vec![
        ("a".to_owned(), Json::Str("x\"y".to_owned())),
        ("b".to_owned(), Json::Null),
    ];
    assert!(text(request_body("p", &Json::Obj(members)))
        .ends_with("\"params\":{\"a\":\"x\\\"y\",\"b\":null}}"));
}

#[test]
fn envelope_serializes_array_params() {
    assert!(text(request_body("q", &Json::Arr(Vec::new()))).ends_with("\"params\":[]}"));
    let elems = vec![
        Json::Int(1),
        Json::Str("x".to_owned()),
        Json::Arr(vec![Json::Bool(true)]),
    ];
    assert!(text(request_body("q", &Json::Arr(elems)))
        .ends_with("\"params\":[1,\"x\",[true]]}"));
}

#[test]
fn envelope_escapes_method_name() {
    assert_eq!(
        text(request_body("a\"b\\c\n", &Json::Obj(Vec::new()))),
        "{\"jsonrpc\":\"2.0\",\"id\":0,\"method\":\"a\\\"b\\\\c\\u000a\",\"params\":{}}",
    );
}

#[test]
fn client_url_and_config() {
    let rpc = Rpc::new("localhost:18445".to_owned(), "miner-token".to_owned());
    assert_eq!(rpc.url(), "http://localhost:18445");
    assert_eq!(rpc.endpoint, "localhost:18445");
    assert_eq!(rpc.token, "miner-token");
}
