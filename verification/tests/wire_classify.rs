use liblspc::envelope::RequestId;
use liblspc::wire::{classify, Classified};

#[test]
fn classify_notification() {
    let body = b"{\"jsonrpc\":\"2.0\",\"method\":\"window/showMessage\",\"params\":{\"type\":3}}"
        .to_vec();
    match classify(&body) {
        Classified::Notification(n) => {
            assert_eq!(n.method, b"window/showMessage".to_vec());
            assert!(n.id.is_none());
            let params: serde_json::Value =
                serde_json::from_slice(&n.params.unwrap()).unwrap();
            assert_eq!(params.get("type").unwrap().as_i64().unwrap(), 3);
        }
        other => panic!("expected a notification, got {:?}", other),
    }
}

#[test]
fn classify_notification_without_params() {
    let body = b"{\"jsonrpc\":\"2.0\",\"method\":\"exit\"}".to_vec();
    match classify(&body) {
        Classified::Notification(n) => {
            assert_eq!(n.method, b"exit".to_vec());
            assert!(n.params.is_none());
        }
        other => panic!("expected a notification, got {:?}", other),
    }
}

#[test]
fn classify_server_request_keeps_id() {
    let body =
        b"{\"jsonrpc\":\"2.0\",\"id\":5,\"method\":\"workspace/configuration\",\"params\":[]}"
            .to_vec();
    match classify(&body) {
        Classified::Notification(n) => {
            assert_eq!(n.method, b"workspace/configuration".to_vec());
            match n.id {
                Some(RequestId::Int(5)) => {}
                other => panic!("expected id 5, got {:?}", other),
            }
        }
        other => panic!("expected the notification shape, got {:?}", other),
    }
}

#[test]
fn classify_response_with_result() {
    let body = b"{\"jsonrpc\":\"2.0\",\"id\":0,\"result\":{}}".to_vec();
    match classify(&body) {
        Classified::Response(r) => {
            match r.id {
                RequestId::Int(0) => {}
                other => panic!("expected id 0, got {:?}", other),
            }
            assert_eq!(r.result.unwrap(), b"{}".to_vec());
            assert!(r.error.is_none());
        }
        other => panic!("expected a response, got {:?}", other),
    }
}

#[test]
fn classify_response_with_error() {
    let body =
        b"{\"jsonrpc\":\"2.0\",\"id\":0,\"error\":{\"message\":\"boom\",\"code\":-32000}}".to_vec();
    match classify(&body) {
        Classified::Response(r) => {
            assert!(r.result.is_none());
            let e = r.error.unwrap();
            assert_eq!(e.message, b"boom".to_vec());
            assert_eq!(e.code, -32000);
            assert!(e.data.is_none());
        }
        other => panic!("expected a response, got {:?}", other),
    }
}

#[test]
fn classify_response_with_string_id() {
    let body = b"{\"jsonrpc\":\"2.0\",\"id\":\"abc\",\"result\":1}".to_vec();
    match classify(&body) {
        Classified::Response(r) => {
            match r.id {
                RequestId::Str(s) => assert_eq!(s, b"abc".to_vec()),
                other => panic!("expected a string id, got {:?}", other),
            }
            assert_eq!(r.result.unwrap(), b"1".to_vec());
        }
        other => panic!("expected a response, got {:?}", other),
    }
}

#[test]
fn classify_invalid_bodies() {
    assert!(matches!(classify(&b"hello".to_vec()), Classified::Invalid));
    assert!(matches!(classify(&Vec::new()), Classified::Invalid));
    assert!(matches!(classify(&b"[1,2,3]".to_vec()), Classified::Invalid));
    // Not UTF-8 at all.
    assert!(matches!(classify(&vec![0xff, 0xfe, 0x00]), Classified::Invalid));
    // An object that is neither shape: no method, no jsonrpc/id pair.
    assert!(matches!(classify(&b"{\"x\":1}".to_vec()), Classified::Invalid));
    // A response shape without an id.
    assert!(matches!(classify(&b"{\"jsonrpc\":\"2.0\",\"result\":{}}".to_vec()), Classified::Invalid));
}

#[test]
fn classify_notification_shape_wins() {
    // A body with both a method and result fields is tried as a
    // notification first.
    let body = b"{\"jsonrpc\":\"2.0\",\"id\":1,\"method\":\"m\",\"result\":{}}".to_vec();
    assert!(matches!(classify(&body), Classified::Notification(_)));
}
