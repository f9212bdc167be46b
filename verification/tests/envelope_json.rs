use liblspc::envelope::{
    encode_notification, encode_request, encode_response, LspError, LspResult, Notification,
    Request, RequestId, Response,
};
use liblspc::json::{dec_i64, dec_u64};

#[test]
fn request_exact_bytes() {
    let req = Request {
        id: RequestId::Int(0),
        method: b"initialize".to_vec(),
        params: b"{}".to_vec(),
    };
    let body = encode_request(&req);
    assert_eq!(
        body,
        b"{\"jsonrpc\":\"2.0\",\"id\":0,\"method\":\"initialize\",\"params\":{}}".to_vec()
    );
}

#[test]
fn request_parses_back_structurally() {
    let req = Request {
        id: RequestId::Int(42),
        method: b"textDocument/definition".to_vec(),
        params: b"{\"position\":{\"line\":3,\"character\":1}}".to_vec(),
    };
    let body = encode_request(&req);
    let v: serde_json::Value = serde_json::from_slice(&body).unwrap();
    assert_eq!(v.get("jsonrpc").unwrap().as_str().unwrap(), "2.0");
    assert_eq!(v.get("id").unwrap().as_i64().unwrap(), 42);
    assert_eq!(v.get("method").unwrap().as_str().unwrap(), "textDocument/definition");
    assert_eq!(v.get("params").unwrap().get("position").unwrap().get("line").unwrap().as_i64().unwrap(), 3);
}

#[test]
fn request_with_string_id() {
    let req = Request {
        id: RequestId::Str(b"req-1".to_vec()),
        method: b"m".to_vec(),
        params: b"null".to_vec(),
    };
    let body = encode_request(&req);
    assert_eq!(body, b"{\"jsonrpc\":\"2.0\",\"id\":\"req-1\",\"method\":\"m\",\"params\":null}".to_vec());
}

#[test]
fn request_with_negative_id() {
    let req = Request { id: RequestId::Int(-7), method: b"m".to_vec(), params: b"1".to_vec() };
    let body = encode_request(&req);
    assert_eq!(body, b"{\"jsonrpc\":\"2.0\",\"id\":-7,\"method\":\"m\",\"params\":1}".to_vec());
}

#[test]
fn method_escaping() {
    let req = Request {
        id: RequestId::Int(1),
        method: b"a\"b\\c\nd".to_vec(),
        params: b"{}".to_vec(),
    };
    let body = encode_request(&req);
    let v: serde_json::Value = serde_json::from_slice(&body).unwrap();
    assert_eq!(v.get("method").unwrap().as_str().unwrap(), "a\"b\\c\nd");
    let text = String::from_utf8(body).unwrap();
    assert!(text.contains("a\\\"b\\\\c\\u000Ad"));
}

#[test]
fn notification_exact_bytes() {
    let n = Notification { method: b"initialized".to_vec(), params: b"{}".to_vec() };
    let body = encode_notification(&n);
    assert_eq!(body, b"{\"jsonrpc\":\"2.0\",\"method\":\"initialized\",\"params\":{}}".to_vec());
    let v: serde_json::Value = serde_json::from_slice(&body).unwrap();
    assert!(v.get("id").is_none());
}

#[test]
fn response_with_result() {
    let resp = Response {
        id: RequestId::Int(3),
        value: LspResult::Success(Some(b"{\"ok\":true}".to_vec())),
    };
    let body = encode_response(&resp);
    assert_eq!(body, b"{\"jsonrpc\":\"2.0\",\"id\":3,\"result\":{\"ok\":true}}".to_vec());
}

#[test]
fn response_without_result_is_null() {
    let resp = Response { id: RequestId::Int(3), value: LspResult::Success(None) };
    let body = encode_response(&resp);
    assert_eq!(body, b"{\"jsonrpc\":\"2.0\",\"id\":3,\"result\":null}".to_vec());
}

#[test]
fn response_with_error() {
    let resp = Response {
        id: RequestId::Int(9),
        value: LspResult::Failure(LspError {
            message: b"boom".to_vec(),
            code: -32803,
            data: None,
        }),
    };
    let body = encode_response(&resp);
    assert_eq!(
        body,
        b"{\"jsonrpc\":\"2.0\",\"id\":9,\"error\":{\"message\":\"boom\",\"code\":-32803}}".to_vec()
    );
}

#[test]
fn response_error_with_data() {
    let resp = Response {
        id: RequestId::Str(b"x".to_vec()),
        value: LspResult::Failure(LspError {
            message: b"bad".to_vec(),
            code: 1,
            data: Some(b"[1,2]".to_vec()),
        }),
    };
    let body = encode_response(&resp);
    assert_eq!(
        body,
        b"{\"jsonrpc\":\"2.0\",\"id\":\"x\",\"error\":{\"message\":\"bad\",\"code\":1,\"data\":[1,2]}}"
            .to_vec()
    );
}

#[test]
fn decimal_digits() {
    assert_eq!(dec_u64(0), b"0".to_vec());
    assert_eq!(dec_u64(10), b"10".to_vec());
    assert_eq!(dec_u64(18446744073709551615), b"18446744073709551615".to_vec());
    assert_eq!(dec_i64(-1), b"-1".to_vec());
    assert_eq!(dec_i64(-9223372036854775808), b"-9223372036854775808".to_vec());
    assert_eq!(dec_i64(9223372036854775807), b"9223372036854775807".to_vec());
}
