//! Classification of incoming frame bodies.
//!
//! A body is tried as a notification/request shape first and as a response
//! shape second; one that satisfies neither is reported as invalid so the
//! reader can log and discard it without stopping. The JSON grammar itself
//! is serde_json's; the two decoders stand behind named, trusted contracts,
//! and everything that acts on their output is verified.

use crate::envelope::{LspError, RequestId};
use vstd::prelude::*;

verus! {

/// Ghost mirror of a request id.
pub enum RequestIdV {
    Int(int),
    Str(Seq<u8>),
}

impl View for RequestId {
    type V = RequestIdV;

    open spec fn view(&self) -> RequestIdV {
        match self {
            RequestId::Int(i) => RequestIdV::Int(*i as int),
            RequestId::Str(s) => RequestIdV::Str(s@),
        }
    }
}

/// Ghost mirror of a server-reported error object.
pub struct LspErrorV {
    pub message: Seq<u8>,
    pub code: int,
    pub data: Option<Seq<u8>>,
}

impl View for LspError {
    type V = LspErrorV;

    open spec fn view(&self) -> LspErrorV {
        LspErrorV {
            message: self.message@,
            code: self.code as int,
            data: match self.data {
                Some(ref d) => Some(d@),
                None => None,
            },
        }
    }
}

/// An incoming notification or server-to-client request: a method name, an
/// id when a response is expected, and parameters as JSON text.
#[derive(Debug, Clone)]
pub struct AnyNotification {
    pub method: Vec<u8>,
    pub id: Option<RequestId>,
    pub params: Option<Vec<u8>>,
}

/// Ghost mirror of `AnyNotification`.
pub struct AnyNotificationV {
    pub method: Seq<u8>,
    pub id: Option<RequestIdV>,
    pub params: Option<Seq<u8>>,
}

impl View for AnyNotification {
    type V = AnyNotificationV;

    open spec fn view(&self) -> AnyNotificationV {
        AnyNotificationV {
            method: self.method@,
            id: match self.id {
                Some(ref i) => Some(i@),
                None => None,
            },
            params: match self.params {
                Some(ref p) => Some(p@),
                None => None,
            },
        }
    }
}

/// An incoming response: the id it answers, and its result or error, the
/// result as JSON text.
#[derive(Debug, Clone)]
pub struct AnyResponse {
    pub id: RequestId,
    pub result: Option<Vec<u8>>,
    pub error: Option<LspError>,
}

/// Ghost mirror of `AnyResponse`.
pub struct AnyResponseV {
    pub id: RequestIdV,
    pub result: Option<Seq<u8>>,
    pub error: Option<LspErrorV>,
}

impl View for AnyResponse {
    type V = AnyResponseV;

    open spec fn view(&self) -> AnyResponseV {
        AnyResponseV {
            id: self.id@,
            result: match self.result {
                Some(ref p) => Some(p@),
                None => None,
            },
            error: match self.error {
                Some(ref e) => Some(e@),
                None => None,
            },
        }
    }
}

/// What the notification decoder returns on a given body: `Some` exactly
/// when the body is a JSON object with a string `method` field whose `id`,
/// if present, is an integer or a string.
pub uninterp spec fn notification_of(s: Seq<u8>) -> Option<AnyNotificationV>;

/// What the response-head decoder returns on a given body: `Some` exactly
/// when the body is a JSON object with a string `jsonrpc` field and an
/// integer or string `id`; it carries that id and the `result` field as
/// JSON text.
pub uninterp spec fn response_head_of(s: Seq<u8>) -> Option<(RequestIdV, Option<Seq<u8>>)>;

/// What the response-error decoder returns on a given body: the decoded
/// `error` field — `Some(None)` when the field is absent or null,
/// `Some(Some(..))` when it is an object with a string `message` and an
/// integer `code`, and `None` when the body or the field is malformed.
pub uninterp spec fn response_error_of(s: Seq<u8>) -> Option<Option<LspErrorV>>;

/// A body decodes as a response exactly when both its head (jsonrpc and
/// id) and its error field, if any, are well formed.
pub open spec fn response_of(s: Seq<u8>) -> Option<AnyResponseV> {
    match (response_head_of(s), response_error_of(s)) {
        (Some(h), Some(e)) => Some(AnyResponseV { id: h.0, result: h.1, error: e }),
        _ => None,
    }
}

pub open spec fn view_opt_notification(r: Option<AnyNotification>) -> Option<AnyNotificationV> {
    match r {
        Some(n) => Some(n@),
        None => None,
    }
}

pub open spec fn view_opt_head(r: Option<(RequestId, Option<Vec<u8>>)>) -> Option<
    (RequestIdV, Option<Seq<u8>>),
> {
    match r {
        Some((id, Some(p))) => Some((id@, Some(p@))),
        Some((id, None)) => Some((id@, None)),
        None => None,
    }
}

pub open spec fn view_opt_error(r: Option<Option<LspError>>) -> Option<Option<LspErrorV>> {
    match r {
        Some(Some(e)) => Some(Some(e@)),
        Some(None) => Some(None),
        None => None,
    }
}

pub open spec fn view_opt_response(r: Option<AnyResponse>) -> Option<AnyResponseV> {
    match r {
        Some(n) => Some(n@),
        None => None,
    }
}

/// Relies on serde_json::from_slice through serde_json::Value: extracts the
/// fields a derived deserializer for the notification shape would, with
/// params re-serialized as JSON text by Value's Display; the result depends
/// on the body bytes alone.
#[verifier::external_body]
fn decode_notification(bytes: &Vec<u8>) -> (r: Option<AnyNotification>)
    ensures
        view_opt_notification(r) == notification_of(bytes@),
{
    let v: serde_json::Value = serde_json::from_slice(bytes).ok()?;
    let method = v.get("method")?.as_str()?.as_bytes().to_vec();
    let id = match v.get("id") {
        None => None,
        Some(i) => match (i.as_i64(), i.as_str()) {
            (Some(n), _) => Some(RequestId::Int(n)),
            (_, Some(s)) => Some(RequestId::Str(s.as_bytes().to_vec())),
            _ => return None,
        },
    };
    let params = v.get("params").map(|p| p.to_string().into_bytes());
    Some(AnyNotification { method, id, params })
}

/// Relies on serde_json::from_slice through serde_json::Value: the
/// `jsonrpc` and `id` fields the response shape requires, and the `result`
/// field re-serialized as JSON text by Value's Display; the result depends
/// on the body bytes alone.
#[verifier::external_body]
fn decode_response_head(bytes: &Vec<u8>) -> (r: Option<(RequestId, Option<Vec<u8>>)>)
    ensures
        view_opt_head(r) == response_head_of(bytes@),
{
    let v: serde_json::Value = serde_json::from_slice(bytes).ok()?;
    v.get("jsonrpc")?.as_str()?;
    let i = v.get("id")?;
    let id = match (i.as_i64(), i.as_str()) {
        (Some(n), _) => RequestId::Int(n),
        (_, Some(s)) => RequestId::Str(s.as_bytes().to_vec()),
        _ => return None,
    };
    Some((id, v.get("result").map(|p| p.to_string().into_bytes())))
}

/// Relies on serde_json::from_slice through serde_json::Value: the `error`
/// field of a response body, with its `data` re-serialized as JSON text by
/// Value's Display; the result depends on the body bytes alone.
#[verifier::external_body]
fn decode_response_error(bytes: &Vec<u8>) -> (r: Option<Option<LspError>>)
    ensures
        view_opt_error(r) == response_error_of(bytes@),
{
    let v: serde_json::Value = serde_json::from_slice(bytes).ok()?;
    match v.get("error") {
        None => Some(None),
        Some(e) if e.is_null() => Some(None),
        Some(e) => Some(Some(LspError {
            message: e.get("message")?.as_str()?.as_bytes().to_vec(),
            code: e.get("code")?.as_i64()?,
            data: e.get("data").map(|d| d.to_string().into_bytes()),
        })),
    }
}

/// Decodes a response body from its two decoded parts.
fn decode_response(bytes: &Vec<u8>) -> (r: Option<AnyResponse>)
    ensures
        view_opt_response(r) == response_of(bytes@),
{
    match (decode_response_head(bytes), decode_response_error(bytes)) {
        (Some((id, result)), Some(error)) => Some(AnyResponse { id, result, error }),
        _ => None,
    }
}

/// A frame body, classified.
#[derive(Debug, Clone)]
pub enum Classified {
    /// A notification or server-to-client request, to be dispatched by
    /// method name.
    Notification(AnyNotification),
    /// A response, to be matched against the pending table.
    Response(AnyResponse),
    /// Neither shape: logged as a protocol warning and discarded; never
    /// fatal to the reader.
    Invalid,
}

/// Classifies a frame body: the notification shape is tried first, then the
/// response shape; a body satisfying neither is `Invalid`.
pub fn classify(bytes: &Vec<u8>) -> (r: Classified)
    ensures
        notification_of(bytes@) matches Some(n) ==> (r matches Classified::Notification(m) && m@
            == n),
        notification_of(bytes@) is None ==> (response_of(bytes@) matches Some(p) ==> (r
            matches Classified::Response(q) && q@ == p)),
        notification_of(bytes@) is None && response_of(bytes@) is None ==> r is Invalid,
{
    match decode_notification(bytes) {
        Some(n) => Classified::Notification(n),
        None => match decode_response(bytes) {
            Some(resp) => Classified::Response(resp),
            None => Classified::Invalid,
        },
    }
}

} // verus!
