//! End-to-end scenarios over the codec, the classifier and the dispatcher,
//! driven the way the transport loops drive them.

use liblspc::dispatch::{Dispatcher, ResponseRoute, RpcOutcome};
use liblspc::frame::{encode_frame, read_frame, FrameStep};
use liblspc::wire::{classify, Classified};

fn frame_body(stream: &[u8]) -> Vec<u8> {
    match read_frame(&stream.to_vec()) {
        FrameStep::Frame { body, .. } => body,
        other => panic!("expected a frame, got {:?}", other),
    }
}

#[test]
fn initialize_request_succeeds_on_result_frame() {
    let mut d = Dispatcher::new();
    let st = d.begin_request(&b"initialize".to_vec(), &b"{}".to_vec()).unwrap();
    assert_eq!(st.id, 0);

    // What the server sends back, as raw stream bytes.
    let reply = b"Content-Length: 36\r\n\r\n{\"jsonrpc\":\"2.0\",\"id\":0,\"result\":{}}";
    let body = frame_body(reply);
    let resp = match classify(&body) {
        Classified::Response(r) => r,
        other => panic!("expected a response, got {:?}", other),
    };
    match d.on_response(resp) {
        ResponseRoute::Complete { token, outcome } => {
            assert_eq!(token, st.token);
            match outcome {
                RpcOutcome::Payload(p) => assert_eq!(p, b"{}".to_vec()),
                other => panic!("expected the empty result object, got {:?}", other),
            }
        }
        ResponseRoute::Discard => panic!("the call must resolve"),
    }
    assert!(!d.has_pending(st.id));
}

#[test]
fn initialize_request_fails_on_error_frame() {
    let mut d = Dispatcher::new();
    let st = d.begin_request(&b"initialize".to_vec(), &b"{}".to_vec()).unwrap();

    let body = b"{\"jsonrpc\":\"2.0\",\"id\":0,\"error\":{\"message\":\"boom\",\"code\":-32000}}";
    let framed = encode_frame(&body.to_vec());
    let got = frame_body(&framed);
    let resp = match classify(&got) {
        Classified::Response(r) => r,
        other => panic!("expected a response, got {:?}", other),
    };
    match d.on_response(resp) {
        ResponseRoute::Complete { token, outcome } => {
            assert_eq!(token, st.token);
            match outcome {
                RpcOutcome::Failure(e) => {
                    assert_eq!(e.message, b"boom".to_vec());
                    assert_eq!(e.code, -32000);
                }
                RpcOutcome::Payload(_) => panic!("an error response must surface as an error"),
            }
        }
        ResponseRoute::Discard => panic!("the call must resolve"),
    }
}

#[test]
fn timed_out_request_leaves_no_pending_entry() {
    let mut d = Dispatcher::new();
    let st = d.begin_request(&b"slow/thing".to_vec(), &b"{}".to_vec()).unwrap();
    // Nothing arrives within the window: the timer fires first.
    assert!(d.on_timeout(st.id));
    assert!(!d.has_pending(st.id));
    // The response that arrives later completes nothing.
    let late = b"{\"jsonrpc\":\"2.0\",\"id\":0,\"result\":{}}";
    match classify(&late.to_vec()) {
        Classified::Response(r) => {
            assert!(matches!(d.on_response(r), ResponseRoute::Discard));
        }
        other => panic!("expected a response, got {:?}", other),
    }
}

#[test]
fn outgoing_request_round_trips_through_the_codec() {
    // The whole outbound path: the dispatcher serializes the envelope, the
    // writer frames it; then the same bytes, decoded, are structurally the
    // request that was sent.
    let mut d = Dispatcher::new();
    let st = d
        .begin_request(&b"initialize".to_vec(), &b"{\"capabilities\":{}}".to_vec())
        .unwrap();
    let framed = encode_frame(&st.payload);
    let body = frame_body(&framed);
    assert_eq!(body, st.payload);
    let v: serde_json::Value = serde_json::from_slice(&body).unwrap();
    assert_eq!(v.get("jsonrpc").unwrap().as_str().unwrap(), "2.0");
    assert_eq!(v.get("id").unwrap().as_i64().unwrap(), st.id);
    assert_eq!(v.get("method").unwrap().as_str().unwrap(), "initialize");
    assert!(v.get("params").unwrap().get("capabilities").unwrap().is_object());
}

#[test]
fn notification_delivery_stops_after_subscription_drop() {
    let mut d = Dispatcher::new();
    let reg = d.on_notification(b"window/showMessage".to_vec());

    let stream = encode_frame(
        &b"{\"jsonrpc\":\"2.0\",\"method\":\"window/showMessage\",\"params\":{\"type\":3,\"message\":\"hi\"}}"
            .to_vec(),
    );
    let body = frame_body(&stream);
    let msg = match classify(&body) {
        Classified::Notification(n) => n,
        other => panic!("expected a notification, got {:?}", other),
    };
    // First delivery: the handler is invoked exactly once, with the params.
    match d.dispatch(&msg) {
        liblspc::dispatch::DispatchAction::InvokeNotification { token, params } => {
            assert_eq!(token, reg.token);
            let v: serde_json::Value = serde_json::from_slice(&params).unwrap();
            assert_eq!(v.get("message").unwrap().as_str().unwrap(), "hi");
        }
        other => panic!("expected an invocation, got {:?}", other),
    }
    // The subscription is dropped; the second identical frame finds no
    // handler.
    d.release(reg.subscription);
    assert!(matches!(d.dispatch(&msg), liblspc::dispatch::DispatchAction::NoHandler));
}
