//! JSON-RPC envelopes and their serialization to wire bytes.
//!
//! Method names, parameters, results and error payloads are carried as UTF-8
//! bytes; parameters and results hold pre-serialized JSON text that this
//! runtime never interprets. The protocol-version field of every emitted
//! envelope is the literal `"2.0"`.

use crate::json::{push_all, push_escaped, dec_i64, spec_dec_i64, spec_escape};
use vstd::prelude::*;

verus! {

/// A request correlation key: a signed integer or a string.
#[derive(Debug, Clone)]
pub enum RequestId {
    Int(i64),
    Str(Vec<u8>),
}

/// A server-reported error: a message, a numeric code, and optional opaque
/// JSON data.
#[derive(Debug, Clone)]
pub struct LspError {
    pub message: Vec<u8>,
    pub code: i64,
    pub data: Option<Vec<u8>>,
}

/// An outgoing request envelope.
#[derive(Debug, Clone)]
pub struct Request {
    pub id: RequestId,
    pub method: Vec<u8>,
    pub params: Vec<u8>,
}

/// An outgoing notification envelope: no id, no response expected.
#[derive(Debug, Clone)]
pub struct Notification {
    pub method: Vec<u8>,
    pub params: Vec<u8>,
}

/// The payload of a response envelope: a result or an error, never both.
#[derive(Debug, Clone)]
pub enum LspResult {
    Success(Option<Vec<u8>>),
    Failure(LspError),
}

/// An outgoing response envelope, addressed to the id of the request it
/// answers.
#[derive(Debug, Clone)]
pub struct Response {
    pub id: RequestId,
    pub value: LspResult,
}

/// `"jsonrpc":"2.0"` — the opening of every envelope.
pub open spec fn spec_rpc_version_field() -> Seq<u8> {
    seq![
        123u8, 34u8, 106u8, 115u8, 111u8, 110u8, 114u8, 112u8, 99u8, 34u8, 58u8, 34u8, 50u8, 46u8,
        48u8, 34u8,
    ]
}

/// A JSON string literal holding exactly the bytes of `s`.
pub open spec fn spec_json_string(s: Seq<u8>) -> Seq<u8> {
    seq![34u8] + spec_escape(s) + seq![34u8]
}

/// The id as a JSON value: a bare numeral or a string literal.
pub open spec fn spec_id_json(id: RequestId) -> Seq<u8> {
    match id {
        RequestId::Int(i) => spec_dec_i64(i as int),
        RequestId::Str(s) => spec_json_string(s@),
    }
}

/// `,"id":<id>`
pub open spec fn spec_id_field(id: RequestId) -> Seq<u8> {
    seq![44u8, 34u8, 105u8, 100u8, 34u8, 58u8] + spec_id_json(id)
}

/// `,"method":<name>`
pub open spec fn spec_method_field(method: Seq<u8>) -> Seq<u8> {
    seq![44u8, 34u8, 109u8, 101u8, 116u8, 104u8, 111u8, 100u8, 34u8, 58u8] + spec_json_string(
        method,
    )
}

/// `,"params":<params>`
pub open spec fn spec_params_field(params: Seq<u8>) -> Seq<u8> {
    seq![44u8, 34u8, 112u8, 97u8, 114u8, 97u8, 109u8, 115u8, 34u8, 58u8] + params
}

/// The wire body of a request envelope.
pub open spec fn spec_request_json(id: RequestId, method: Seq<u8>, params: Seq<u8>) -> Seq<u8> {
    spec_rpc_version_field() + spec_id_field(id) + spec_method_field(method) + spec_params_field(
        params,
    ) + seq![125u8]
}

/// The wire body of a notification envelope.
pub open spec fn spec_notification_json(method: Seq<u8>, params: Seq<u8>) -> Seq<u8> {
    spec_rpc_version_field() + spec_method_field(method) + spec_params_field(params) + seq![125u8]
}

/// `null`
pub open spec fn spec_null() -> Seq<u8> {
    seq![110u8, 117u8, 108u8, 108u8]
}

/// `,"result":<result>`; an absent result is emitted as JSON null.
pub open spec fn spec_result_field(result: Option<Vec<u8>>) -> Seq<u8> {
    seq![44u8, 34u8, 114u8, 101u8, 115u8, 117u8, 108u8, 116u8, 34u8, 58u8] + match result {
        Some(r) => r@,
        None => spec_null(),
    }
}

/// `,"error":{"message":<message>,"code":<code>}` with `,"data":<data>` before
/// the closing brace when data is present.
pub open spec fn spec_error_field(e: LspError) -> Seq<u8> {
    seq![44u8, 34u8, 101u8, 114u8, 114u8, 111u8, 114u8, 34u8, 58u8] + seq![
        123u8, 34u8, 109u8, 101u8, 115u8, 115u8, 97u8, 103u8, 101u8, 34u8, 58u8,
    ] + spec_json_string(e.message@) + seq![44u8, 34u8, 99u8, 111u8, 100u8, 101u8, 34u8, 58u8]
        + spec_dec_i64(e.code as int) + (match e.data {
        Some(d) => seq![44u8, 34u8, 100u8, 97u8, 116u8, 97u8, 34u8, 58u8] + d@,
        None => Seq::<u8>::empty(),
    }) + seq![125u8]
}

/// The wire body of a response envelope.
pub open spec fn spec_response_json(id: RequestId, value: LspResult) -> Seq<u8> {
    spec_rpc_version_field() + spec_id_field(id) + (match value {
        LspResult::Success(result) => spec_result_field(result),
        LspResult::Failure(e) => spec_error_field(e),
    }) + seq![125u8]
}

fn push_byte_lit(dst: &mut Vec<u8>, b: u8)
    ensures
        final(dst)@ == old(dst)@.push(b),
{
    dst.push(b);
}

/// Appends `"jsonrpc":"2.0"` preceded by the opening brace.
fn push_version_field(dst: &mut Vec<u8>)
    ensures
        final(dst)@ == old(dst)@ + spec_rpc_version_field(),
{
    push_byte_lit(dst, 123);
    push_byte_lit(dst, 34);
    push_byte_lit(dst, 106);
    push_byte_lit(dst, 115);
    push_byte_lit(dst, 111);
    push_byte_lit(dst, 110);
    push_byte_lit(dst, 114);
    push_byte_lit(dst, 112);
    push_byte_lit(dst, 99);
    push_byte_lit(dst, 34);
    push_byte_lit(dst, 58);
    push_byte_lit(dst, 34);
    push_byte_lit(dst, 50);
    push_byte_lit(dst, 46);
    push_byte_lit(dst, 48);
    push_byte_lit(dst, 34);
    proof {
        assert(dst@ =~= old(dst)@ + spec_rpc_version_field());
    }
}

fn push_json_string(dst: &mut Vec<u8>, s: &Vec<u8>)
    ensures
        final(dst)@ == old(dst)@ + spec_json_string(s@),
{
    push_byte_lit(dst, 34);
    push_escaped(dst, s);
    push_byte_lit(dst, 34);
    proof {
        assert(dst@ =~= old(dst)@ + spec_json_string(s@));
    }
}

fn push_id_field(dst: &mut Vec<u8>, id: &RequestId)
    ensures
        final(dst)@ == old(dst)@ + spec_id_field(*id),
{
    push_byte_lit(dst, 44);
    push_byte_lit(dst, 34);
    push_byte_lit(dst, 105);
    push_byte_lit(dst, 100);
    push_byte_lit(dst, 34);
    push_byte_lit(dst, 58);
    match id {
        RequestId::Int(i) => {
            let digits = dec_i64(*i);
            push_all(dst, &digits);
        },
        RequestId::Str(s) => {
            push_json_string(dst, s);
        },
    }
    proof {
        assert(dst@ =~= old(dst)@ + spec_id_field(*id));
    }
}

fn push_method_field(dst: &mut Vec<u8>, method: &Vec<u8>)
    ensures
        final(dst)@ == old(dst)@ + spec_method_field(method@),
{
    push_byte_lit(dst, 44);
    push_byte_lit(dst, 34);
    push_byte_lit(dst, 109);
    push_byte_lit(dst, 101);
    push_byte_lit(dst, 116);
    push_byte_lit(dst, 104);
    push_byte_lit(dst, 111);
    push_byte_lit(dst, 100);
    push_byte_lit(dst, 34);
    push_byte_lit(dst, 58);
    push_json_string(dst, method);
    proof {
        assert(dst@ =~= old(dst)@ + spec_method_field(method@));
    }
}

fn push_params_field(dst: &mut Vec<u8>, params: &Vec<u8>)
    ensures
        final(dst)@ == old(dst)@ + spec_params_field(params@),
{
    push_byte_lit(dst, 44);
    push_byte_lit(dst, 34);
    push_byte_lit(dst, 112);
    push_byte_lit(dst, 97);
    push_byte_lit(dst, 114);
    push_byte_lit(dst, 97);
    push_byte_lit(dst, 109);
    push_byte_lit(dst, 115);
    push_byte_lit(dst, 34);
    push_byte_lit(dst, 58);
    push_all(dst, params);
    proof {
        assert(dst@ =~= old(dst)@ + spec_params_field(params@));
    }
}

/// Serializes a request envelope.
pub fn encode_request(req: &Request) -> (r: Vec<u8>)
    ensures
        r@ == spec_request_json(req.id, req.method@, req.params@),
{
    let mut out: Vec<u8> = Vec::new();
    push_version_field(&mut out);
    push_id_field(&mut out, &req.id);
    push_method_field(&mut out, &req.method);
    push_params_field(&mut out, &req.params);
    push_byte_lit(&mut out, 125);
    proof {
        assert(out@ =~= spec_request_json(req.id, req.method@, req.params@));
    }
    out
}

/// Serializes a notification envelope.
pub fn encode_notification(n: &Notification) -> (r: Vec<u8>)
    ensures
        r@ == spec_notification_json(n.method@, n.params@),
{
    let mut out: Vec<u8> = Vec::new();
    push_version_field(&mut out);
    push_method_field(&mut out, &n.method);
    push_params_field(&mut out, &n.params);
    push_byte_lit(&mut out, 125);
    proof {
        assert(out@ =~= spec_notification_json(n.method@, n.params@));
    }
    out
}

/// Serializes a response envelope; this is the only path on which this
/// client-side runtime produces a response.
pub fn encode_response(resp: &Response) -> (r: Vec<u8>)
    ensures
        r@ == spec_response_json(resp.id, resp.value),
{
    let mut out: Vec<u8> = Vec::new();
    push_version_field(&mut out);
    push_id_field(&mut out, &resp.id);
    match &resp.value {
        LspResult::Success(result) => {
            push_byte_lit(&mut out, 44);
            push_byte_lit(&mut out, 34);
            push_byte_lit(&mut out, 114);
            push_byte_lit(&mut out, 101);
            push_byte_lit(&mut out, 115);
            push_byte_lit(&mut out, 117);
            push_byte_lit(&mut out, 108);
            push_byte_lit(&mut out, 116);
            push_byte_lit(&mut out, 34);
            push_byte_lit(&mut out, 58);
            match result {
                Some(payload) => push_all(&mut out, payload),
                None => {
                    push_byte_lit(&mut out, 110);
                    push_byte_lit(&mut out, 117);
                    push_byte_lit(&mut out, 108);
                    push_byte_lit(&mut out, 108);
                },
            }
            proof {
                assert(out@ =~= spec_rpc_version_field() + spec_id_field(resp.id)
                    + spec_result_field(match resp.value {
                    LspResult::Success(result) => result,
                    LspResult::Failure(_) => None,
                }));
            }
        },
        LspResult::Failure(e) => {
            push_error_field(&mut out, e);
        },
    }
    push_byte_lit(&mut out, 125);
    proof {
        assert(out@ =~= spec_response_json(resp.id, resp.value));
    }
    out
}

fn push_error_field(dst: &mut Vec<u8>, e: &LspError)
    ensures
        final(dst)@ == old(dst)@ + spec_error_field(*e),
{
    push_byte_lit(dst, 44);
    push_byte_lit(dst, 34);
    push_byte_lit(dst, 101);
    push_byte_lit(dst, 114);
    push_byte_lit(dst, 114);
    push_byte_lit(dst, 111);
    push_byte_lit(dst, 114);
    push_byte_lit(dst, 34);
    push_byte_lit(dst, 58);
    push_byte_lit(dst, 123);
    push_byte_lit(dst, 34);
    push_byte_lit(dst, 109);
    push_byte_lit(dst, 101);
    push_byte_lit(dst, 115);
    push_byte_lit(dst, 115);
    push_byte_lit(dst, 97);
    push_byte_lit(dst, 103);
    push_byte_lit(dst, 101);
    push_byte_lit(dst, 34);
    push_byte_lit(dst, 58);
    push_json_string(dst, &e.message);
    push_byte_lit(dst, 44);
    push_byte_lit(dst, 34);
    push_byte_lit(dst, 99);
    push_byte_lit(dst, 111);
    push_byte_lit(dst, 100);
    push_byte_lit(dst, 101);
    push_byte_lit(dst, 34);
    push_byte_lit(dst, 58);
    let code_digits = dec_i64(e.code);
    push_all(dst, &code_digits);
    match &e.data {
        Some(d) => {
            push_byte_lit(dst, 44);
            push_byte_lit(dst, 34);
            push_byte_lit(dst, 100);
            push_byte_lit(dst, 97);
            push_byte_lit(dst, 116);
            push_byte_lit(dst, 97);
            push_byte_lit(dst, 34);
            push_byte_lit(dst, 58);
            push_all(dst, d);
        },
        None => {},
    }
    push_byte_lit(dst, 125);
    proof {
        assert(dst@ =~= old(dst)@ + spec_error_field(*e));
    }
}

} // verus!
