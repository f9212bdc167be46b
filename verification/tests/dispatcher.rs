use liblspc::dispatch::{
    DispatchAction, Dispatcher, HandlerKind, ResponseRoute, RpcOutcome, ShutdownError,
    Subscription,
};
use liblspc::envelope::{LspError, RequestId};
use liblspc::wire::{AnyNotification, AnyResponse};

fn response_ok(id: i64, result: &[u8]) -> AnyResponse {
    AnyResponse { id: RequestId::Int(id), result: Some(result.to_vec()), error: None }
}

#[test]
fn new_dispatcher_is_open_and_empty() {
    let d = Dispatcher::new();
    assert!(d.is_open());
    assert_eq!(d.pending_count(), 0);
}

#[test]
fn request_ids_are_distinct_and_monotonic() {
    let mut d = Dispatcher::new();
    let a = d.begin_request(&b"alpha".to_vec(), &b"{}".to_vec()).unwrap();
    let b = d.begin_request(&b"beta".to_vec(), &b"{}".to_vec()).unwrap();
    let c = d.begin_request(&b"gamma".to_vec(), &b"{}".to_vec()).unwrap();
    assert_eq!(a.id, 0);
    assert_eq!(b.id, 1);
    assert_eq!(c.id, 2);
    assert_ne!(a.token, b.token);
    assert_ne!(b.token, c.token);
    assert_eq!(d.pending_count(), 3);
}

#[test]
fn request_payload_is_the_encoded_envelope() {
    let mut d = Dispatcher::new();
    let st = d.begin_request(&b"initialize".to_vec(), &b"{}".to_vec()).unwrap();
    assert_eq!(
        st.payload,
        b"{\"jsonrpc\":\"2.0\",\"id\":0,\"method\":\"initialize\",\"params\":{}}".to_vec()
    );
}

#[test]
fn each_response_completes_its_own_request() {
    let mut d = Dispatcher::new();
    let a = d.begin_request(&b"alpha".to_vec(), &b"{}".to_vec()).unwrap();
    let b = d.begin_request(&b"beta".to_vec(), &b"{}".to_vec()).unwrap();
    // Answer the second request first.
    match d.on_response(response_ok(b.id, b"2")) {
        ResponseRoute::Complete { token, outcome } => {
            assert_eq!(token, b.token);
            match outcome {
                RpcOutcome::Payload(p) => assert_eq!(p, b"2".to_vec()),
                other => panic!("expected a payload, got {:?}", other),
            }
        }
        ResponseRoute::Discard => panic!("expected completion"),
    }
    assert!(d.has_pending(a.id));
    assert!(!d.has_pending(b.id));
    match d.on_response(response_ok(a.id, b"1")) {
        ResponseRoute::Complete { token, .. } => assert_eq!(token, a.token),
        ResponseRoute::Discard => panic!("expected completion"),
    }
    assert_eq!(d.pending_count(), 0);
}

#[test]
fn error_response_yields_failure() {
    let mut d = Dispatcher::new();
    let st = d.begin_request(&b"initialize".to_vec(), &b"{}".to_vec()).unwrap();
    let resp = AnyResponse {
        id: RequestId::Int(st.id),
        result: None,
        error: Some(LspError { message: b"boom".to_vec(), code: -32000, data: None }),
    };
    match d.on_response(resp) {
        ResponseRoute::Complete { token, outcome } => {
            assert_eq!(token, st.token);
            match outcome {
                RpcOutcome::Failure(e) => {
                    assert_eq!(e.message, b"boom".to_vec());
                    assert_eq!(e.code, -32000);
                }
                RpcOutcome::Payload(_) => panic!("an error response must never decode as a result"),
            }
        }
        ResponseRoute::Discard => panic!("expected completion"),
    }
}

#[test]
fn error_wins_over_result_when_both_present() {
    let mut d = Dispatcher::new();
    let st = d.begin_request(&b"m".to_vec(), &b"{}".to_vec()).unwrap();
    let resp = AnyResponse {
        id: RequestId::Int(st.id),
        result: Some(b"{}".to_vec()),
        error: Some(LspError { message: b"no".to_vec(), code: 1, data: None }),
    };
    match d.on_response(resp) {
        ResponseRoute::Complete { outcome: RpcOutcome::Failure(e), .. } => {
            assert_eq!(e.message, b"no".to_vec());
        }
        other => panic!("expected the failure, got {:?}", other),
    }
}

#[test]
fn empty_response_completes_with_null() {
    let mut d = Dispatcher::new();
    let st = d.begin_request(&b"shutdown".to_vec(), &b"null".to_vec()).unwrap();
    let resp = AnyResponse { id: RequestId::Int(st.id), result: None, error: None };
    match d.on_response(resp) {
        ResponseRoute::Complete { outcome: RpcOutcome::Payload(p), .. } => {
            assert_eq!(p, b"null".to_vec());
        }
        other => panic!("expected a null payload, got {:?}", other),
    }
}

#[test]
fn unknown_response_is_discarded() {
    let mut d = Dispatcher::new();
    let st = d.begin_request(&b"m".to_vec(), &b"{}".to_vec()).unwrap();
    assert!(matches!(d.on_response(response_ok(99, b"{}")), ResponseRoute::Discard));
    assert!(matches!(
        d.on_response(AnyResponse {
            id: RequestId::Str(b"alien".to_vec()),
            result: None,
            error: None
        }),
        ResponseRoute::Discard
    ));
    // The pending request is untouched by either.
    assert!(d.has_pending(st.id));
}

#[test]
fn timeout_removes_pending_entry() {
    let mut d = Dispatcher::new();
    let st = d.begin_request(&b"m".to_vec(), &b"{}".to_vec()).unwrap();
    assert!(d.has_pending(st.id));
    assert!(d.on_timeout(st.id));
    assert!(!d.has_pending(st.id));
    // A late response for the timed-out id is discarded silently.
    assert!(matches!(d.on_response(response_ok(st.id, b"{}")), ResponseRoute::Discard));
    // A second timeout finds nothing.
    assert!(!d.on_timeout(st.id));
}

#[test]
fn kill_resolves_every_pending_request() {
    let mut d = Dispatcher::new();
    let a = d.begin_request(&b"a".to_vec(), &b"{}".to_vec()).unwrap();
    let b = d.begin_request(&b"b".to_vec(), &b"{}".to_vec()).unwrap();
    let c = d.begin_request(&b"c".to_vec(), &b"{}".to_vec()).unwrap();
    let tokens = d.kill();
    assert_eq!(tokens, vec![a.token, b.token, c.token]);
    assert_eq!(d.pending_count(), 0);
    assert!(!d.is_open());
    // A request after kill fails immediately with the shutdown error.
    assert_eq!(d.begin_request(&b"d".to_vec(), &b"{}".to_vec()).unwrap_err(), ShutdownError);
    // Kill is idempotent: nothing further to resolve.
    assert_eq!(d.kill(), Vec::<u64>::new());
}

#[test]
fn kill_clears_handler_tables() {
    let mut d = Dispatcher::new();
    d.try_register(b"m".to_vec(), HandlerKind::Notification).unwrap();
    let _ = d.on_io();
    d.kill();
    assert!(!d.has_notification_handler(&b"m".to_vec()));
    assert_eq!(d.io_observers.len(), 0);
}

#[test]
fn second_registration_fails_fast() {
    let mut d = Dispatcher::new();
    let first = d.try_register(b"window/showMessage".to_vec(), HandlerKind::Notification);
    assert!(first.is_ok());
    let second = d.try_register(b"window/showMessage".to_vec(), HandlerKind::Notification);
    assert!(second.is_err());
    // Registering a request handler for the same method conflicts too: one
    // table serves both.
    let third = d.try_register(b"window/showMessage".to_vec(), HandlerKind::Request);
    assert!(third.is_err());
    // A different method is fine.
    assert!(d.try_register(b"window/logMessage".to_vec(), HandlerKind::Notification).is_ok());
}

#[test]
fn notify_payload_is_the_encoded_envelope() {
    let d = Dispatcher::new();
    let payload = d.notify_payload(&b"initialized".to_vec(), &b"{}".to_vec()).unwrap();
    assert_eq!(
        payload,
        b"{\"jsonrpc\":\"2.0\",\"method\":\"initialized\",\"params\":{}}".to_vec()
    );
}

#[test]
fn notify_after_kill_is_refused() {
    let mut d = Dispatcher::new();
    d.kill();
    assert_eq!(d.notify_payload(&b"m".to_vec(), &b"{}".to_vec()).unwrap_err(), ShutdownError);
}

#[test]
fn dispatch_invokes_registered_handler_then_none_after_release() {
    let mut d = Dispatcher::new();
    let reg = d.on_notification(b"window/showMessage".to_vec());
    let msg = AnyNotification {
        method: b"window/showMessage".to_vec(),
        id: None,
        params: Some(b"{\"type\":3}".to_vec()),
    };
    match d.dispatch(&msg) {
        DispatchAction::InvokeNotification { token, params } => {
            assert_eq!(token, reg.token);
            assert_eq!(params, b"{\"type\":3}".to_vec());
        }
        other => panic!("expected an invocation, got {:?}", other),
    }
    // Dropping the subscription removes the handler; the second delivery
    // finds none.
    d.release(reg.subscription);
    assert!(matches!(d.dispatch(&msg), DispatchAction::NoHandler));
}

#[test]
fn detached_subscription_keeps_handler_registered() {
    let mut d = Dispatcher::new();
    let mut reg = d.on_notification(b"m".to_vec());
    reg.subscription.detach();
    d.release(reg.subscription);
    assert!(d.has_notification_handler(&b"m".to_vec()));
}

#[test]
fn dispatch_without_params_passes_null() {
    let mut d = Dispatcher::new();
    let _reg = d.on_notification(b"exit".to_vec());
    let msg = AnyNotification { method: b"exit".to_vec(), id: None, params: None };
    match d.dispatch(&msg) {
        DispatchAction::InvokeNotification { params, .. } => {
            assert_eq!(params, b"null".to_vec());
        }
        other => panic!("expected an invocation, got {:?}", other),
    }
}

#[test]
fn dispatch_request_handler() {
    let mut d = Dispatcher::new();
    let reg = d.on_request(b"workspace/configuration".to_vec());
    let msg = AnyNotification {
        method: b"workspace/configuration".to_vec(),
        id: Some(RequestId::Int(7)),
        params: Some(b"[]".to_vec()),
    };
    match d.dispatch(&msg) {
        DispatchAction::InvokeRequest { token, id, params } => {
            assert_eq!(token, reg.token);
            assert!(matches!(id, RequestId::Int(7)));
            assert_eq!(params, b"[]".to_vec());
        }
        other => panic!("expected a request invocation, got {:?}", other),
    }
    // The same message without an id has nothing to answer.
    let without_id = AnyNotification {
        method: b"workspace/configuration".to_vec(),
        id: None,
        params: None,
    };
    assert!(matches!(d.dispatch(&without_id), DispatchAction::Ignore));
}

#[test]
fn dispatch_unregistered_method_is_dropped() {
    let d = Dispatcher::new();
    let msg = AnyNotification { method: b"nobody/home".to_vec(), id: None, params: None };
    assert!(matches!(d.dispatch(&msg), DispatchAction::NoHandler));
}

#[test]
fn remove_notification_handler_frees_the_method() {
    let mut d = Dispatcher::new();
    let _ = d.on_notification(b"m".to_vec());
    assert!(d.has_notification_handler(&b"m".to_vec()));
    assert!(d.has_request_handler(&b"m".to_vec()));
    d.remove_notification_handler(&b"m".to_vec());
    assert!(!d.has_notification_handler(&b"m".to_vec()));
    // The method can be registered again afterwards.
    assert!(d.try_register(b"m".to_vec(), HandlerKind::Notification).is_ok());
    d.remove_request_handler(&b"m".to_vec());
    assert!(!d.has_request_handler(&b"m".to_vec()));
}

#[test]
fn io_observers_share_the_id_counter() {
    let mut d = Dispatcher::new();
    let st = d.begin_request(&b"m".to_vec(), &b"{}".to_vec()).unwrap();
    assert_eq!(st.id, 0);
    let io = d.on_io();
    assert_eq!(io.id, 1);
    let st2 = d.begin_request(&b"m".to_vec(), &b"{}".to_vec()).unwrap();
    assert_eq!(st2.id, 2);
    assert_eq!(d.io_observers, vec![1]);
    match io.subscription {
        Subscription::Io { id, bound } => {
            assert_eq!(id, 1);
            assert!(bound);
        }
        other => panic!("expected an io subscription, got {:?}", other),
    }
}

#[test]
fn releasing_io_subscription_removes_observer() {
    let mut d = Dispatcher::new();
    let io1 = d.on_io();
    let io2 = d.on_io();
    d.release(io1.subscription);
    assert_eq!(d.io_observers, vec![io2.id]);
    let mut io2sub = io2.subscription;
    io2sub.detach();
    d.release(io2sub);
    assert_eq!(d.io_observers, vec![io2.id]);
}
