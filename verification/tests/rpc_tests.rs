use eth_indexer::error::TickError;
use eth_indexer::json::Json;
use eth_indexer::rpc::{code_call, code_of, endpoint_url, interpret_response, is_eoa, latest_block_call, rpc_call};

fn text(s: &str) -> Json {
    Json::Text(s.to_string())
}

fn object(members: Vec<(&str, Json)>) -> Json {
    Json::Object(members.into_iter().map(|(k, v)| (k.to_string(), v)).collect())
}

fn names(doc: &Json) -> Vec<String> {
    match doc {
        Json::Object(members) => members.iter().map(|(k, _)| k.clone()).collect(),
        _ => panic!("no object"),
    }
}

#[test]
fn endpoint_is_the_base_address_and_the_key() {
    assert_eq!(endpoint_url("abc123"), "https://mainnet.infura.io/v3/abc123");
    assert_eq!(endpoint_url(""), "https://mainnet.infura.io/v3/");
}

#[test]
fn request_has_version_method_parameters_and_identifier() {
    let body = rpc_call("eth_chainId", vec![Json::Integer(7), Json::Null]);
    assert_eq!(names(&body), vec!["jsonrpc", "method", "params", "id"]);
    assert_eq!(body.get("jsonrpc").unwrap().as_str(), Some("2.0"));
    assert_eq!(body.get("method").unwrap().as_str(), Some("eth_chainId"));
    assert_eq!(body.get("id").unwrap().as_i64(), Some(1));
    let params = body.get("params").unwrap().as_array().unwrap();
    assert_eq!(params.len(), 2);
    assert_eq!(params[0].as_i64(), Some(7));
    assert!(params[1].is_null());
}

#[test]
fn latest_block_is_asked_for_with_full_transactions() {
    let body = latest_block_call();
    assert_eq!(body.get("method").unwrap().as_str(), Some("eth_getBlockByNumber"));
    let params = body.get("params").unwrap().as_array().unwrap();
    assert_eq!(params.len(), 2);
    assert_eq!(params[0].as_str(), Some("latest"));
    assert!(matches!(params[1], Json::Bool(true)));
}

#[test]
fn code_is_asked_for_at_the_latest_block() {
    let body = code_call("0xabc");
    assert_eq!(body.get("method").unwrap().as_str(), Some("eth_getCode"));
    let params = body.get("params").unwrap().as_array().unwrap();
    assert_eq!(params.len(), 2);
    assert_eq!(params[0].as_str(), Some("0xabc"));
    assert_eq!(params[1].as_str(), Some("latest"));
}

#[test]
fn only_the_bare_prefix_is_the_code_of_an_account() {
    assert!(is_eoa("0x"));
    assert!(!is_eoa(""));
    assert!(!is_eoa("0x0"));
    assert!(!is_eoa("0X"));
    assert!(!is_eoa("0x60806040"));
    assert!(!is_eoa(" 0x"));
}

#[test]
fn code_is_the_result_where_that_is_a_string() {
    assert_eq!(code_of(&object(vec![("result", text("0x6080"))])).unwrap(), "0x6080");
    assert_eq!(code_of(&object(vec![("result", text("0x"))])).unwrap(), "0x");
    assert_eq!(code_of(&object(vec![("result", text(""))])).unwrap(), "");
}

#[test]
fn answer_without_a_string_result_is_a_protocol_failure() {
    assert!(matches!(code_of(&object(vec![("result", Json::Null)])), Err(TickError::Protocol)));
    assert!(matches!(code_of(&object(vec![("result", Json::Integer(5))])), Err(TickError::Protocol)));
    assert!(matches!(code_of(&object(vec![])), Err(TickError::Protocol)));
    assert!(matches!(code_of(&Json::Array(vec![])), Err(TickError::Protocol)));
}

#[test]
fn success_status_with_a_document_is_handed_back() {
    let doc = interpret_response(200, Some(object(vec![("result", text("0x"))]))).unwrap();
    assert_eq!(doc.get("result").unwrap().as_str(), Some("0x"));
    assert!(interpret_response(299, Some(Json::Null)).unwrap().is_null());
    assert!(interpret_response(204, Some(object(vec![("error", Json::Null)]))).is_ok());
}

#[test]
fn other_status_is_a_transport_failure_with_the_status() {
    for status in [0u16, 100, 199, 300, 404, 429, 500, 503, u16::MAX] {
        let r = interpret_response(status, Some(object(vec![("result", text("0x"))])));
        match r {
            Err(TickError::Transport { status: Some(s) }) => assert_eq!(s, status),
            other => panic!("unexpected {:?}", other),
        }
    }
    assert!(matches!(interpret_response(500, None), Err(TickError::Transport { status: Some(500) })));
}

#[test]
fn body_that_is_no_document_is_a_protocol_failure() {
    assert!(matches!(interpret_response(200, None), Err(TickError::Protocol)));
}

#[test]
fn error_object_is_an_rpc_failure() {
    let error = object(vec![("code", Json::Integer(-32601)), ("message", text("method not found"))]);
    match interpret_response(200, Some(object(vec![("result", text("0x")), ("error", error)]))) {
        Err(TickError::Rpc { code, message }) => {
            assert_eq!(code, -32601);
            assert_eq!(message, "method not found");
        }
        other => panic!("unexpected {:?}", other),
    }
}

#[test]
fn error_object_without_code_or_message_counts_as_zero_and_empty() {
    match interpret_response(200, Some(object(vec![("error", object(vec![]))]))) {
        Err(TickError::Rpc { code, message }) => {
            assert_eq!(code, 0);
            assert_eq!(message, "");
        }
        other => panic!("unexpected {:?}", other),
    }
    match interpret_response(200, Some(object(vec![("error", text("boom"))]))) {
        Err(TickError::Rpc { code, message }) => {
            assert_eq!(code, 0);
            assert_eq!(message, "");
        }
        other => panic!("unexpected {:?}", other),
    }
    let error = object(vec![("code", text("7")), ("message", Json::Integer(7))]);
    match interpret_response(200, Some(object(vec![("error", error)]))) {
        Err(TickError::Rpc { code, message }) => {
            assert_eq!(code, 0);
            assert_eq!(message, "");
        }
        other => panic!("unexpected {:?}", other),
    }
}
