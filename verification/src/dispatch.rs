//! The dispatcher: the correlation core of the runtime.
//!
//! It allocates request ids from a monotonic counter, keeps the
//! pending-response table that pairs each in-flight id with the waiter that
//! must be completed, keeps the per-method handler table and the I/O
//! observer table, and decides — as a pure function of its state and one
//! incoming message — what the surrounding loops must do. Waiters and
//! handlers themselves live with the caller, keyed by the tokens handed out
//! here; no entry is ever silently dropped: a response consumes its entry,
//! a timeout removes it, and shutdown drains every remaining entry so that
//! every waiter resolves.

use crate::envelope::{
    LspError, RequestId, spec_notification_json, spec_null, spec_request_json, Notification,
    Request, encode_notification, encode_request,
};
use crate::json::push_all;
use crate::wire::AnyNotification;
use crate::wire::AnyResponse;
use vstd::prelude::*;

verus! {

/// Request or notify refused because the connection is shut down.
#[derive(Debug, Clone, PartialEq, Eq)]
pub struct ShutdownError;

/// A second handler was registered for a method that already has one.
#[derive(Debug, Clone, PartialEq, Eq)]
pub struct HandlerConflictError;

/// One in-flight request: its wire id and the waiter to complete.
#[derive(Debug, Clone)]
pub struct PendingEntry {
    pub id: i64,
    pub token: u64,
}

/// What a registered handler answers.
#[derive(Debug, Clone, Copy, PartialEq, Eq, Structural)]
pub enum HandlerKind {
    /// Invoked with the params only; nothing is sent back.
    Notification,
    /// Invoked with the params; its result is sent back as a response
    /// addressed to the incoming message's id.
    Request,
}

/// One registered handler: the method it serves, the caller-side token of
/// its closure, and whether it answers.
#[derive(Debug, Clone)]
pub struct HandlerEntry {
    pub method: Vec<u8>,
    pub token: u64,
    pub kind: HandlerKind,
}

/// A handle controlling the registered lifetime of one handler or observer.
/// Releasing a bound subscription removes its entry; a detached one leaves
/// the entry registered for the life of the connection.
#[derive(Debug)]
pub enum Subscription {
    Notification { method: Vec<u8>, bound: bool },
    Io { id: i64, bound: bool },
}

/// A freshly started request: the wire id it was assigned, the waiter token
/// the response will complete, and the serialized envelope to enqueue.
#[derive(Debug)]
pub struct StartedRequest {
    pub id: i64,
    pub token: u64,
    pub payload: Vec<u8>,
}

/// A successful registration: the token the caller files its handler under,
/// and the subscription that controls the entry's lifetime.
#[derive(Debug)]
pub struct HandlerRegistration {
    pub token: u64,
    pub subscription: Subscription,
}

/// A fresh I/O observer registration.
#[derive(Debug)]
pub struct IoRegistration {
    pub id: i64,
    pub subscription: Subscription,
}

/// What a matched response resolves its waiter with.
#[derive(Debug)]
pub enum RpcOutcome {
    /// The result as JSON text; `null` when the response carried neither
    /// result nor error.
    Payload(Vec<u8>),
    /// The server-supplied error object.
    Failure(LspError),
}

/// Where an incoming response goes.
#[derive(Debug)]
pub enum ResponseRoute {
    /// Complete the waiter filed under `token` with `outcome`.
    Complete { token: u64, outcome: RpcOutcome },
    /// No pending entry matches (a late or alien response): discard it
    /// silently, never panic.
    Discard,
}

/// What the dispatch loop must do with an incoming notification or
/// server-to-client request.
#[derive(Debug)]
pub enum DispatchAction {
    /// Invoke the notification handler filed under `token` with the params.
    InvokeNotification { token: u64, params: Vec<u8> },
    /// Invoke the request handler filed under `token`; its result must be
    /// serialized back as a response addressed to `id`.
    InvokeRequest { token: u64, id: RequestId, params: Vec<u8> },
    /// A request handler is registered but the message carries no id to
    /// answer: nothing to do.
    Ignore,
    /// No handler is registered for the method: log and drop.
    NoHandler,
}

/// The first pending entry with the given id, at or after `i`.
pub open spec fn spec_find_pending_from(s: Seq<PendingEntry>, id: i64, i: int) -> Option<int>
    decreases s.len() - i,
{
    if i < 0 || i >= s.len() {
        None
    } else if s[i].id == id {
        Some(i)
    } else {
        spec_find_pending_from(s, id, i + 1)
    }
}

pub open spec fn spec_find_pending(s: Seq<PendingEntry>, id: i64) -> Option<int> {
    spec_find_pending_from(s, id, 0)
}

/// The first handler entry for the given method, at or after `i`.
pub open spec fn spec_find_handler_from(s: Seq<HandlerEntry>, m: Seq<u8>, i: int) -> Option<int>
    decreases s.len() - i,
{
    if i < 0 || i >= s.len() {
        None
    } else if s[i].method@ == m {
        Some(i)
    } else {
        spec_find_handler_from(s, m, i + 1)
    }
}

pub open spec fn spec_find_handler(s: Seq<HandlerEntry>, m: Seq<u8>) -> Option<int> {
    spec_find_handler_from(s, m, 0)
}

/// The first observer with the given id, at or after `i`.
pub open spec fn spec_find_io_from(s: Seq<i64>, id: i64, i: int) -> Option<int>
    decreases s.len() - i,
{
    if i < 0 || i >= s.len() {
        None
    } else if s[i] == id {
        Some(i)
    } else {
        spec_find_io_from(s, id, i + 1)
    }
}

pub open spec fn spec_find_io(s: Seq<i64>, id: i64) -> Option<int> {
    spec_find_io_from(s, id, 0)
}

/// The params a handler receives: the message's, or JSON null.
pub open spec fn spec_msg_params(m: AnyNotification) -> Seq<u8> {
    match m.params {
        Some(p) => p@,
        None => spec_null(),
    }
}

/// How a response resolves its waiter: a present error wins over a present
/// result; neither means a null result.
pub open spec fn spec_outcome_matches(o: RpcOutcome, error: Option<LspError>, result: Option<Vec<u8>>) -> bool {
    match error {
        Some(e) => o == RpcOutcome::Failure(e),
        None => match result {
            Some(p) => o == RpcOutcome::Payload(p),
            None => o matches RpcOutcome::Payload(q) && q@ == spec_null(),
        },
    }
}

/// The correlation state of one connection.
#[derive(Debug)]
pub struct Dispatcher {
    /// Monotonic counter: the next request id, and the id given to the next
    /// I/O observer.
    pub next_id: i64,
    /// Whether the pending table still accepts entries; cleared by `kill`.
    pub open: bool,
    /// The pending-response table.
    pub pending: Vec<PendingEntry>,
    /// The handler table, serving notifications and server-to-client
    /// requests alike: at most one handler per method.
    pub handlers: Vec<HandlerEntry>,
    /// The ids of the registered I/O observers.
    pub io_observers: Vec<i64>,
    /// The next waiter or handler token to hand out.
    pub next_token: u64,
}

impl Dispatcher {
    /// Well-formedness: ids and tokens in the tables are pairwise distinct
    /// and below the counters that allocate them; methods are unique.
    pub open spec fn wf(&self) -> bool {
        &&& 0 <= self.next_id
        &&& forall|i: int, j: int|
            0 <= i < j < self.pending@.len() ==> #[trigger] self.pending@[i].id
                != #[trigger] self.pending@[j].id
        &&& forall|i: int, j: int|
            0 <= i < j < self.pending@.len() ==> #[trigger] self.pending@[i].token
                != #[trigger] self.pending@[j].token
        &&& forall|i: int|
            0 <= i < self.pending@.len() ==> 0 <= #[trigger] self.pending@[i].id < self.next_id
        &&& forall|i: int|
            0 <= i < self.pending@.len() ==> #[trigger] self.pending@[i].token < self.next_token
        &&& forall|i: int, j: int|
            0 <= i < j < self.handlers@.len() ==> #[trigger] self.handlers@[i].method@
                != #[trigger] self.handlers@[j].method@
        &&& forall|i: int, j: int|
            0 <= i < j < self.io_observers@.len() ==> #[trigger] self.io_observers@[i]
                != #[trigger] self.io_observers@[j]
        &&& forall|i: int|
            0 <= i < self.io_observers@.len() ==> 0 <= #[trigger] self.io_observers@[i]
                < self.next_id
    }

    /// A fresh, open dispatcher with empty tables.
    pub fn new() -> (d: Dispatcher)
        ensures
            d.wf(),
            d.next_id == 0,
            d.next_token == 0,
            d.open,
            d.pending@.len() == 0,
            d.handlers@.len() == 0,
            d.io_observers@.len() == 0,
    {
        Dispatcher {
            next_id: 0,
            open: true,
            pending: Vec::new(),
            handlers: Vec::new(),
            io_observers: Vec::new(),
            next_token: 0,
        }
    }

    fn find_pending_index(&self, id: i64) -> (r: Option<usize>)
        ensures
            match r {
                Some(k) => spec_find_pending(self.pending@, id) == Some(k as int) && k
                    < self.pending@.len(),
                None => spec_find_pending(self.pending@, id) is None,
            },
    {
        let ghost s = self.pending@;
        let mut k: usize = 0;
        while k < self.pending.len()
            invariant
                0 <= k <= s.len(),
                s == self.pending@,
                spec_find_pending(s, id) == spec_find_pending_from(s, id, k as int),
            decreases s.len() - k,
        {
            if self.pending[k].id == id {
                return Some(k);
            }
            k = k + 1;
        }
        None
    }

    fn find_handler_index(&self, method: &Vec<u8>) -> (r: Option<usize>)
        ensures
            match r {
                Some(k) => spec_find_handler(self.handlers@, method@) == Some(k as int) && k
                    < self.handlers@.len(),
                None => spec_find_handler(self.handlers@, method@) is None,
            },
    {
        let ghost s = self.handlers@;
        let mut k: usize = 0;
        while k < self.handlers.len()
            invariant
                0 <= k <= s.len(),
                s == self.handlers@,
                spec_find_handler(s, method@) == spec_find_handler_from(s, method@, k as int),
            decreases s.len() - k,
        {
            if bytes_eq(&self.handlers[k].method, method) {
                return Some(k);
            }
            k = k + 1;
        }
        None
    }

    fn find_io_index(&self, id: i64) -> (r: Option<usize>)
        ensures
            match r {
                Some(k) => spec_find_io(self.io_observers@, id) == Some(k as int) && k
                    < self.io_observers@.len(),
                None => spec_find_io(self.io_observers@, id) is None,
            },
    {
        let ghost s = self.io_observers@;
        let mut k: usize = 0;
        while k < self.io_observers.len()
            invariant
                0 <= k <= s.len(),
                s == self.io_observers@,
                spec_find_io(s, id) == spec_find_io_from(s, id, k as int),
            decreases s.len() - k,
        {
            if self.io_observers[k] == id {
                return Some(k);
            }
            k = k + 1;
        }
        None
    }

    /// Starts a request: allocates the next id and waiter token, inserts the
    /// pending entry, and serializes the envelope — or refuses with a
    /// shutdown error once the connection is killed, inserting nothing.
    pub fn begin_request(&mut self, method: &Vec<u8>, params: &Vec<u8>) -> (r: Result<
        StartedRequest,
        ShutdownError,
    >)
        requires
            old(self).wf(),
            old(self).next_id < i64::MAX,
            old(self).next_token < u64::MAX,
        ensures
            final(self).wf(),
            r is Ok <==> old(self).open,
            r is Err ==> *final(self) == *old(self),
            r matches Ok(st) ==> {
                &&& st.id == old(self).next_id
                &&& st.token == old(self).next_token
                &&& st.payload@ == spec_request_json(RequestId::Int(st.id), method@, params@)
                &&& final(self).pending@ == old(self).pending@.push(
                    PendingEntry { id: st.id, token: st.token },
                )
                &&& final(self).next_id == old(self).next_id + 1
                &&& final(self).next_token == old(self).next_token + 1
                &&& final(self).open
                &&& final(self).handlers@ == old(self).handlers@
                &&& final(self).io_observers@ == old(self).io_observers@
            },
    {
        if !self.open {
            return Err(ShutdownError);
        }
        let id = self.next_id;
        let token = self.next_token;
        self.next_id = self.next_id + 1;
        self.next_token = self.next_token + 1;
        let payload = encode_request(
            &Request { id: RequestId::Int(id), method: clone_bytes(method), params: clone_bytes(params) },
        );
        self.pending.push(PendingEntry { id, token });
        proof {
            let p = self.pending@;
            let o = old(self).pending@;
            assert forall|i: int, j: int| 0 <= i < j < p.len() implies #[trigger] p[i].id
                != #[trigger] p[j].id by {
                if j < p.len() - 1 {
                    assert(p[i] == o[i] && p[j] == o[j]);
                } else {
                    assert(p[i] == o[i] && o[i].id < old(self).next_id);
                }
            }
            assert forall|i: int, j: int| 0 <= i < j < p.len() implies #[trigger] p[i].token
                != #[trigger] p[j].token by {
                if j < p.len() - 1 {
                    assert(p[i] == o[i] && p[j] == o[j]);
                } else {
                    assert(p[i] == o[i] && o[i].token < old(self).next_token);
                }
            }
        }
        Ok(StartedRequest { id, token, payload })
    }

    /// Serializes a notification envelope — or refuses with a shutdown
    /// error once the connection is killed.
    pub fn notify_payload(&self, method: &Vec<u8>, params: &Vec<u8>) -> (r: Result<
        Vec<u8>,
        ShutdownError,
    >)
        ensures
            r is Ok <==> self.open,
            r matches Ok(payload) ==> payload@ == spec_notification_json(method@, params@),
    {
        if !self.open {
            return Err(ShutdownError);
        }
        Ok(
            encode_notification(
                &Notification { method: clone_bytes(method), params: clone_bytes(params) },
            ),
        )
    }

    /// Routes an incoming response: the pending entry with its id, if any,
    /// is consumed and its waiter completed — a present error always as a
    /// failure, a present result as a payload, neither as a null payload. A
    /// response matching no entry is discarded and changes nothing.
    pub fn on_response(&mut self, resp: AnyResponse) -> (r: ResponseRoute)
        requires
            old(self).wf(),
        ensures
            final(self).wf(),
            final(self).open == old(self).open,
            final(self).next_id == old(self).next_id,
            final(self).next_token == old(self).next_token,
            final(self).handlers@ == old(self).handlers@,
            final(self).io_observers@ == old(self).io_observers@,
            resp.id matches RequestId::Str(_) ==> r is Discard && final(self).pending@ == old(
                self,
            ).pending@,
            resp.id matches RequestId::Int(i) ==> match spec_find_pending(old(self).pending@, i) {
                None => r is Discard && final(self).pending@ == old(self).pending@,
                Some(k) => {
                    &&& r matches ResponseRoute::Complete { token, outcome } && token == old(
                        self,
                    ).pending@[k].token && spec_outcome_matches(outcome, resp.error, resp.result)
                    &&& final(self).pending@ == old(self).pending@.remove(k)
                },
            },
    {
        let AnyResponse { id, result, error } = resp;
        let num = match id {
            RequestId::Int(i) => i,
            RequestId::Str(_) => {
                return ResponseRoute::Discard;
            },
        };
        match self.find_pending_index(num) {
            None => ResponseRoute::Discard,
            Some(k) => {
                let entry = self.pending.remove(k);
                proof {
                    lemma_remove_keeps_pending_wf(old(self).pending@, k as int);
                }
                let outcome = match error {
                    Some(e) => RpcOutcome::Failure(e),
                    None => match result {
                        Some(p) => RpcOutcome::Payload(p),
                        None => RpcOutcome::Payload(null_bytes()),
                    },
                };
                ResponseRoute::Complete { token: entry.token, outcome }
            },
        }
    }

    /// Removes the pending entry for a timed-out request, so a late
    /// response for it is discarded rather than completing anything.
    pub fn on_timeout(&mut self, id: i64) -> (removed: bool)
        requires
            old(self).wf(),
        ensures
            final(self).wf(),
            final(self).open == old(self).open,
            final(self).next_id == old(self).next_id,
            final(self).next_token == old(self).next_token,
            final(self).handlers@ == old(self).handlers@,
            final(self).io_observers@ == old(self).io_observers@,
            removed <==> spec_find_pending(old(self).pending@, id) is Some,
            match spec_find_pending(old(self).pending@, id) {
                Some(k) => final(self).pending@ == old(self).pending@.remove(k),
                None => final(self).pending@ == old(self).pending@,
            },
            spec_find_pending(final(self).pending@, id) is None,
    {
        match self.find_pending_index(id) {
            None => false,
            Some(k) => {
                proof {
                    lemma_find_pending_found(old(self).pending@, id, 0, k as int);
                }
                self.pending.remove(k);
                proof {
                    lemma_remove_keeps_pending_wf(old(self).pending@, k as int);
                    lemma_removed_id_gone(old(self).pending@, id, k as int);
                }
                true
            },
        }
    }

    /// Tears the connection down: closes the pending table and returns the
    /// waiter token of every entry it held, so the caller can complete each
    /// with a shutdown error and no waiter hangs; clears the handler and
    /// observer tables. Safe to call again: a second call returns nothing.
    pub fn kill(&mut self) -> (tokens: Vec<u64>)
        requires
            old(self).wf(),
        ensures
            final(self).wf(),
            tokens@ == old(self).pending@.map_values(|e: PendingEntry| e.token),
            !final(self).open,
            final(self).pending@.len() == 0,
            final(self).handlers@.len() == 0,
            final(self).io_observers@.len() == 0,
            final(self).next_id == old(self).next_id,
            final(self).next_token == old(self).next_token,
    {
        let mut tokens: Vec<u64> = Vec::new();
        let mut k: usize = 0;
        while k < self.pending.len()
            invariant
                0 <= k <= self.pending@.len(),
                self == old(self),
                tokens@ == self.pending@.take(k as int).map_values(|e: PendingEntry| e.token),
            decreases self.pending@.len() - k,
        {
            tokens.push(self.pending[k].token);
            k = k + 1;
            proof {
                assert(tokens@ =~= self.pending@.take(k as int).map_values(
                    |e: PendingEntry| e.token,
                ));
            }
        }
        proof {
            assert(self.pending@.take(self.pending@.len() as int) =~= self.pending@);
        }
        self.open = false;
        self.pending = Vec::new();
        self.handlers = Vec::new();
        self.io_observers = Vec::new();
        tokens
    }

    /// Registers a handler for a method — or reports the conflict when one
    /// is already registered, changing nothing.
    pub fn try_register(&mut self, method: Vec<u8>, kind: HandlerKind) -> (r: Result<
        HandlerRegistration,
        HandlerConflictError,
    >)
        requires
            old(self).wf(),
            old(self).next_token < u64::MAX,
        ensures
            final(self).wf(),
            r is Err <==> spec_find_handler(old(self).handlers@, method@) is Some,
            r is Err ==> *final(self) == *old(self),
            r matches Ok(reg) ==> {
                &&& reg.token == old(self).next_token
                &&& reg.subscription matches Subscription::Notification { method: m, bound }
                    && m@ == method@ && bound
                &&& final(self).handlers@ == old(self).handlers@.push(
                    HandlerEntry { method, token: reg.token, kind },
                )
                &&& final(self).next_token == old(self).next_token + 1
                &&& final(self).pending@ == old(self).pending@
                &&& final(self).io_observers@ == old(self).io_observers@
                &&& final(self).open == old(self).open
                &&& final(self).next_id == old(self).next_id
            },
    {
        match self.find_handler_index(&method) {
            Some(_) => Err(HandlerConflictError),
            None => {
                proof {
                    lemma_find_handler_none_means_absent(self.handlers@, method@, 0);
                }
                let token = self.next_token;
                self.next_token = self.next_token + 1;
                let sub_method = clone_bytes(&method);
                self.handlers.push(HandlerEntry { method, token, kind });
                proof {
                    let h = self.handlers@;
                    let o = old(self).handlers@;
                    assert forall|i: int, j: int| 0 <= i < j < h.len() implies #[trigger] h[i].method@
                        != #[trigger] h[j].method@ by {
                        if j < h.len() - 1 {
                            assert(h[i] == o[i] && h[j] == o[j]);
                        } else {
                            assert(h[i] == o[i]);
                        }
                    }
                }
                Ok(
                    HandlerRegistration {
                        token,
                        subscription: Subscription::Notification { method: sub_method, bound: true },
                    },
                )
            },
        }
    }

    /// Registers a notification handler. Registering a second handler for
    /// the same method is a programming error; the fallible path for it is
    /// `try_register`.
    pub fn on_notification(&mut self, method: Vec<u8>) -> (r: HandlerRegistration)
        requires
            old(self).wf(),
            old(self).next_token < u64::MAX,
            spec_find_handler(old(self).handlers@, method@) is None,
        ensures
            final(self).wf(),
            r.token == old(self).next_token,
            r.subscription matches Subscription::Notification { method: m, bound } && m@ == method@
                && bound,
            final(self).handlers@ == old(self).handlers@.push(
                HandlerEntry { method, token: r.token, kind: HandlerKind::Notification },
            ),
            final(self).next_token == old(self).next_token + 1,
            final(self).pending@ == old(self).pending@,
            final(self).io_observers@ == old(self).io_observers@,
            final(self).open == old(self).open,
            final(self).next_id == old(self).next_id,
    {
        match self.try_register(method, HandlerKind::Notification) {
            Ok(reg) => reg,
            Err(_) => vstd::pervasive::unreached(),
        }
    }

    /// Registers a handler for server-to-client requests of a method, in
    /// the same table and under the same single-handler-per-method rule.
    pub fn on_request(&mut self, method: Vec<u8>) -> (r: HandlerRegistration)
        requires
            old(self).wf(),
            old(self).next_token < u64::MAX,
            spec_find_handler(old(self).handlers@, method@) is None,
        ensures
            final(self).wf(),
            r.token == old(self).next_token,
            r.subscription matches Subscription::Notification { method: m, bound } && m@ == method@
                && bound,
            final(self).handlers@ == old(self).handlers@.push(
                HandlerEntry { method, token: r.token, kind: HandlerKind::Request },
            ),
            final(self).next_token == old(self).next_token + 1,
            final(self).pending@ == old(self).pending@,
            final(self).io_observers@ == old(self).io_observers@,
            final(self).open == old(self).open,
            final(self).next_id == old(self).next_id,
    {
        match self.try_register(method, HandlerKind::Request) {
            Ok(reg) => reg,
            Err(_) => vstd::pervasive::unreached(),
        }
    }

    /// Registers an I/O observer under a fresh id from the shared counter.
    pub fn on_io(&mut self) -> (r: IoRegistration)
        requires
            old(self).wf(),
            old(self).next_id < i64::MAX,
        ensures
            final(self).wf(),
            r.id == old(self).next_id,
            r.subscription matches Subscription::Io { id, bound } && id == r.id && bound,
            final(self).io_observers@ == old(self).io_observers@.push(r.id),
            final(self).next_id == old(self).next_id + 1,
            final(self).pending@ == old(self).pending@,
            final(self).handlers@ == old(self).handlers@,
            final(self).open == old(self).open,
            final(self).next_token == old(self).next_token,
    {
        let id = self.next_id;
        self.next_id = self.next_id + 1;
        self.io_observers.push(id);
        proof {
            let s = self.io_observers@;
            let o = old(self).io_observers@;
            assert forall|i: int, j: int| 0 <= i < j < s.len() implies #[trigger] s[i]
                != #[trigger] s[j] by {
                if j < s.len() - 1 {
                    assert(s[i] == o[i] && s[j] == o[j]);
                } else {
                    assert(s[i] == o[i]);
                }
            }
        }
        IoRegistration { id, subscription: Subscription::Io { id, bound: true } }
    }

    /// Decides what to do with an incoming notification or server-to-client
    /// request: look the method up and hand back the registered handler's
    /// token, or report that none is registered.
    pub fn dispatch(&self, msg: &AnyNotification) -> (r: DispatchAction)
        requires
            self.wf(),
        ensures
            spec_find_handler(self.handlers@, msg.method@) is None ==> r is NoHandler,
            spec_find_handler(self.handlers@, msg.method@) matches Some(k) ==> {
                let e = self.handlers@[k];
                match e.kind {
                    HandlerKind::Notification => r matches DispatchAction::InvokeNotification {
                        token,
                        params,
                    } && token == e.token && params@ == spec_msg_params(*msg),
                    HandlerKind::Request => match msg.id {
                        Some(mid) => r matches DispatchAction::InvokeRequest { token, id, params }
                            && token == e.token && id@ == mid@ && params@ == spec_msg_params(*msg),
                        None => r is Ignore,
                    },
                }
            },
    {
        let k = match self.find_handler_index(&msg.method) {
            None => {
                return DispatchAction::NoHandler;
            },
            Some(k) => k,
        };
        let token = self.handlers[k].token;
        match self.handlers[k].kind {
            HandlerKind::Notification => DispatchAction::InvokeNotification {
                token,
                params: msg_params(msg),
            },
            HandlerKind::Request => match &msg.id {
                Some(mid) => DispatchAction::InvokeRequest {
                    token,
                    id: clone_id(mid),
                    params: msg_params(msg),
                },
                None => DispatchAction::Ignore,
            },
        }
    }

    /// Is a handler registered for this method? Serves notification and
    /// request handlers alike, as they share one table.
    pub fn has_notification_handler(&self, method: &Vec<u8>) -> (r: bool)
        ensures
            r <==> spec_find_handler(self.handlers@, method@) is Some,
    {
        self.find_handler_index(method).is_some()
    }

    /// Same as `has_notification_handler`: both kinds share one table.
    pub fn has_request_handler(&self, method: &Vec<u8>) -> (r: bool)
        ensures
            r <==> spec_find_handler(self.handlers@, method@) is Some,
    {
        self.has_notification_handler(method)
    }

    /// Removes the handler entry for a method, if any.
    pub fn remove_notification_handler(&mut self, method: &Vec<u8>)
        requires
            old(self).wf(),
        ensures
            final(self).wf(),
            match spec_find_handler(old(self).handlers@, method@) {
                Some(k) => final(self).handlers@ == old(self).handlers@.remove(k),
                None => final(self).handlers@ == old(self).handlers@,
            },
            final(self).pending@ == old(self).pending@,
            final(self).io_observers@ == old(self).io_observers@,
            final(self).open == old(self).open,
            final(self).next_id == old(self).next_id,
            final(self).next_token == old(self).next_token,
    {
        match self.find_handler_index(method) {
            None => {},
            Some(k) => {
                self.handlers.remove(k);
                proof {
                    lemma_remove_keeps_handlers_wf(old(self).handlers@, k as int);
                }
            },
        }
    }

    /// Same as `remove_notification_handler`: both kinds share one table.
    pub fn remove_request_handler(&mut self, method: &Vec<u8>)
        requires
            old(self).wf(),
        ensures
            final(self).wf(),
            match spec_find_handler(old(self).handlers@, method@) {
                Some(k) => final(self).handlers@ == old(self).handlers@.remove(k),
                None => final(self).handlers@ == old(self).handlers@,
            },
            final(self).pending@ == old(self).pending@,
            final(self).io_observers@ == old(self).io_observers@,
            final(self).open == old(self).open,
            final(self).next_id == old(self).next_id,
            final(self).next_token == old(self).next_token,
    {
        self.remove_notification_handler(method);
    }

    /// Releases a subscription: a bound one removes the entry it owns, a
    /// detached one leaves everything registered.
    pub fn release(&mut self, sub: Subscription)
        requires
            old(self).wf(),
        ensures
            final(self).wf(),
            final(self).pending@ == old(self).pending@,
            final(self).open == old(self).open,
            final(self).next_id == old(self).next_id,
            final(self).next_token == old(self).next_token,
            match sub {
                Subscription::Notification { ref method, bound } => {
                    &&& final(self).io_observers@ == old(self).io_observers@
                    &&& if bound {
                        match spec_find_handler(old(self).handlers@, method@) {
                            Some(k) => final(self).handlers@ == old(self).handlers@.remove(k),
                            None => final(self).handlers@ == old(self).handlers@,
                        }
                    } else {
                        final(self).handlers@ == old(self).handlers@
                    }
                },
                Subscription::Io { id, bound } => {
                    &&& final(self).handlers@ == old(self).handlers@
                    &&& if bound {
                        match spec_find_io(old(self).io_observers@, id) {
                            Some(k) => final(self).io_observers@ == old(self).io_observers@.remove(
                                k,
                            ),
                            None => final(self).io_observers@ == old(self).io_observers@,
                        }
                    } else {
                        final(self).io_observers@ == old(self).io_observers@
                    }
                },
            },
    {
        match sub {
            Subscription::Notification { method, bound } => {
                if bound {
                    self.remove_notification_handler(&method);
                }
            },
            Subscription::Io { id, bound } => {
                if bound {
                    match self.find_io_index(id) {
                        None => {},
                        Some(k) => {
                            self.io_observers.remove(k);
                            proof {
                                lemma_remove_keeps_io_wf(old(self).io_observers@, k as int);
                            }
                        },
                    }
                }
            },
        }
    }

    /// Is a request with this id still pending?
    pub fn has_pending(&self, id: i64) -> (r: bool)
        ensures
            r <==> spec_find_pending(self.pending@, id) is Some,
    {
        self.find_pending_index(id).is_some()
    }

    /// The number of requests currently in flight.
    pub fn pending_count(&self) -> (r: usize)
        ensures
            r == self.pending@.len(),
    {
        self.pending.len()
    }

    /// Whether the connection still accepts requests.
    pub fn is_open(&self) -> (r: bool)
        ensures
            r == self.open,
    {
        self.open
    }
}

impl Subscription {
    /// Detaches the handle from its entry: the registration then lives for
    /// the rest of the connection, and releasing removes nothing.
    pub fn detach(&mut self)
        ensures
            *old(self) matches Subscription::Notification { ref method, .. } ==> (*final(self)
                matches Subscription::Notification { method: ref m2, bound } && m2@ == method@
                && !bound),
            *old(self) matches Subscription::Io { id, .. } ==> (*final(self)
                matches Subscription::Io { id: id2, bound } && id2 == id && !bound),
    {
        match self {
            Subscription::Notification { bound, .. } => {
                *bound = false;
            },
            Subscription::Io { bound, .. } => {
                *bound = false;
            },
        }
    }
}

/// Byte-for-byte equality of two byte vectors.
pub fn bytes_eq(a: &Vec<u8>, b: &Vec<u8>) -> (r: bool)
    ensures
        r <==> a@ == b@,
{
    if a.len() != b.len() {
        return false;
    }
    let mut k: usize = 0;
    while k < a.len()
        invariant
            0 <= k <= a@.len(),
            a@.len() == b@.len(),
            forall|j: int| 0 <= j < k ==> a@[j] == b@[j],
        decreases a@.len() - k,
    {
        if a[k] != b[k] {
            return false;
        }
        k = k + 1;
    }
    proof {
        assert(a@ =~= b@);
    }
    true
}

/// A fresh copy of a byte vector.
pub fn clone_bytes(v: &Vec<u8>) -> (r: Vec<u8>)
    ensures
        r@ == v@,
{
    let mut r: Vec<u8> = Vec::new();
    push_all(&mut r, v);
    r
}

/// A fresh copy of a request id.
pub fn clone_id(id: &RequestId) -> (r: RequestId)
    ensures
        r@ == id@,
{
    match id {
        RequestId::Int(i) => RequestId::Int(*i),
        RequestId::Str(s) => RequestId::Str(clone_bytes(s)),
    }
}

/// The four bytes of JSON `null`.
pub fn null_bytes() -> (r: Vec<u8>)
    ensures
        r@ == spec_null(),
{
    let mut r: Vec<u8> = Vec::new();
    r.push(110);
    r.push(117);
    r.push(108);
    r.push(108);
    proof {
        assert(r@ =~= spec_null());
    }
    r
}

/// The params a handler receives, as fresh bytes.
fn msg_params(msg: &AnyNotification) -> (r: Vec<u8>)
    ensures
        r@ == spec_msg_params(*msg),
{
    match &msg.params {
        Some(p) => clone_bytes(p),
        None => null_bytes(),
    }
}

/// A found pending index is a true, first match.
pub proof fn lemma_find_pending_found(s: Seq<PendingEntry>, id: i64, i: int, k: int)
    requires
        0 <= i,
        spec_find_pending_from(s, id, i) == Some(k),
    ensures
        i <= k < s.len(),
        s[k].id == id,
        forall|m: int| i <= m < k ==> s[m].id != id,
    decreases s.len() - i,
{
    if i < s.len() && s[i].id != id {
        lemma_find_pending_found(s, id, i + 1, k);
    }
}

/// A handler search that found nothing means the method is absent.
proof fn lemma_find_handler_none_means_absent(s: Seq<HandlerEntry>, m: Seq<u8>, i: int)
    requires
        0 <= i,
        spec_find_handler_from(s, m, i) is None,
    ensures
        forall|j: int| i <= j < s.len() ==> s[j].method@ != m,
    decreases s.len() - i,
{
    if i < s.len() {
        lemma_find_handler_none_means_absent(s, m, i + 1);
    }
}

proof fn lemma_remove_keeps_pending_wf(s: Seq<PendingEntry>, k: int)
    requires
        0 <= k < s.len(),
        forall|i: int, j: int| 0 <= i < j < s.len() ==> #[trigger] s[i].id != #[trigger] s[j].id,
        forall|i: int, j: int|
            0 <= i < j < s.len() ==> #[trigger] s[i].token != #[trigger] s[j].token,
    ensures
        forall|i: int, j: int|
            0 <= i < j < s.remove(k).len() ==> #[trigger] s.remove(k)[i].id
                != #[trigger] s.remove(k)[j].id,
        forall|i: int, j: int|
            0 <= i < j < s.remove(k).len() ==> #[trigger] s.remove(k)[i].token
                != #[trigger] s.remove(k)[j].token,
        forall|i: int|
            0 <= i < s.remove(k).len() ==> (#[trigger] s.remove(k)[i] == s[i] || s.remove(k)[i]
                == s[i + 1]),
{
    let t = s.remove(k);
    assert forall|i: int| 0 <= i < t.len() implies (#[trigger] t[i] == s[i] || t[i] == s[i
        + 1]) by {
        if i < k {
            assert(t[i] == s[i]);
        } else {
            assert(t[i] == s[i + 1]);
        }
    }
    assert forall|i: int, j: int| 0 <= i < j < t.len() implies #[trigger] t[i].id
        != #[trigger] t[j].id by {
        let i2 = if i < k { i } else { i + 1 };
        let j2 = if j < k { j } else { j + 1 };
        assert(t[i] == s[i2] && t[j] == s[j2]);
    }
    assert forall|i: int, j: int| 0 <= i < j < t.len() implies #[trigger] t[i].token
        != #[trigger] t[j].token by {
        let i2 = if i < k { i } else { i + 1 };
        let j2 = if j < k { j } else { j + 1 };
        assert(t[i] == s[i2] && t[j] == s[j2]);
    }
}

proof fn lemma_remove_keeps_handlers_wf(s: Seq<HandlerEntry>, k: int)
    requires
        0 <= k < s.len(),
        forall|i: int, j: int|
            0 <= i < j < s.len() ==> #[trigger] s[i].method@ != #[trigger] s[j].method@,
    ensures
        forall|i: int, j: int|
            0 <= i < j < s.remove(k).len() ==> #[trigger] s.remove(k)[i].method@
                != #[trigger] s.remove(k)[j].method@,
{
    let t = s.remove(k);
    assert forall|i: int, j: int| 0 <= i < j < t.len() implies #[trigger] t[i].method@
        != #[trigger] t[j].method@ by {
        let i2 = if i < k { i } else { i + 1 };
        let j2 = if j < k { j } else { j + 1 };
        assert(t[i] == s[i2] && t[j] == s[j2]);
    }
}

proof fn lemma_remove_keeps_io_wf(s: Seq<i64>, k: int)
    requires
        0 <= k < s.len(),
        forall|i: int, j: int| 0 <= i < j < s.len() ==> #[trigger] s[i] != #[trigger] s[j],
    ensures
        forall|i: int, j: int|
            0 <= i < j < s.remove(k).len() ==> #[trigger] s.remove(k)[i] != #[trigger] s.remove(
                k,
            )[j],
        forall|i: int|
            0 <= i < s.remove(k).len() ==> (#[trigger] s.remove(k)[i] == s[i] || s.remove(k)[i]
                == s[i + 1]),
{
    let t = s.remove(k);
    assert forall|i: int| 0 <= i < t.len() implies (#[trigger] t[i] == s[i] || t[i] == s[i
        + 1]) by {
        if i < k {
            assert(t[i] == s[i]);
        } else {
            assert(t[i] == s[i + 1]);
        }
    }
    assert forall|i: int, j: int| 0 <= i < j < t.len() implies #[trigger] t[i]
        != #[trigger] t[j] by {
        let i2 = if i < k { i } else { i + 1 };
        let j2 = if j < k { j } else { j + 1 };
        assert(t[i] == s[i2] && t[j] == s[j2]);
    }
}

/// After removing the entry found for `id`, no entry with `id` remains.
proof fn lemma_removed_id_gone(s: Seq<PendingEntry>, id: i64, k: int)
    requires
        spec_find_pending(s, id) == Some(k),
        forall|i: int, j: int| 0 <= i < j < s.len() ==> #[trigger] s[i].id != #[trigger] s[j].id,
    ensures
        spec_find_pending(s.remove(k), id) is None,
{
    lemma_find_pending_found(s, id, 0, k);
    let t = s.remove(k);
    assert forall|i: int| 0 <= i < t.len() implies t[i].id != id by {
        if i < k {
            assert(t[i] == s[i]);
        } else {
            assert(t[i] == s[i + 1]);
            assert(s[i + 1].id != s[k].id);
        }
    }
    lemma_no_match_means_none(t, id, 0);
}

proof fn lemma_no_match_means_none(s: Seq<PendingEntry>, id: i64, i: int)
    requires
        0 <= i,
        forall|m: int| 0 <= m < s.len() ==> #[trigger] s[m].id != id,
    ensures
        spec_find_pending_from(s, id, i) is None,
    decreases s.len() - i,
{
    if i < s.len() {
        lemma_no_match_means_none(s, id, i + 1);
    }
}


/// Correlation: the pending entry matched for an id is exactly the entry
/// registered under it. With all ids and tokens pairwise distinct, a
/// response carrying one request's id never completes another request's
/// waiter.
pub proof fn lemma_response_correlation(d: Dispatcher, i: int)
    requires
        d.wf(),
        0 <= i < d.pending@.len(),
    ensures
        spec_find_pending(d.pending@, d.pending@[i].id) == Some(i),
        forall|j: int|
            0 <= j < d.pending@.len() && j != i ==> #[trigger] d.pending@[j].id
                != d.pending@[i].id && d.pending@[j].token != d.pending@[i].token,
{
    lemma_find_pending_first(d.pending@, d.pending@[i].id, 0, i);
}

/// A found-first helper: an entry that matches, with no earlier match, is
/// what the search returns.
pub proof fn lemma_find_pending_first(s: Seq<PendingEntry>, id: i64, j: int, k: int)
    requires
        0 <= j <= k < s.len(),
        s[k].id == id,
        forall|m: int| j <= m < k ==> #[trigger] s[m].id != id,
    ensures
        spec_find_pending_from(s, id, j) == Some(k),
    decreases k - j,
{
    if j < k {
        lemma_find_pending_first(s, id, j + 1, k);
    }
}

/// A response whose error field is set always resolves its caller with the
/// server's failure, never with a successfully decoded result.
pub proof fn lemma_error_response_yields_failure(
    o: RpcOutcome,
    error: Option<LspError>,
    result: Option<Vec<u8>>,
)
    requires
        spec_outcome_matches(o, error, result),
        error is Some,
    ensures
        o matches RpcOutcome::Failure(e) && Some(e) == error,
        !(o matches RpcOutcome::Payload(_)),
{
}

/// Fail fast on the second registration: once an entry for a method stands
/// in the handler table, a lookup for that method finds one — so
/// `try_register` for it answers with the conflict error and changes
/// nothing.
pub proof fn lemma_second_registration_conflicts(s: Seq<HandlerEntry>, i: int)
    requires
        0 <= i < s.len(),
    ensures
        spec_find_handler(s, s[i].method@) is Some,
{
    lemma_handler_match_found(s, s[i].method@, 0, i);
}

proof fn lemma_handler_match_found(s: Seq<HandlerEntry>, m: Seq<u8>, j: int, k: int)
    requires
        0 <= j <= k < s.len(),
        s[k].method@ == m,
    ensures
        spec_find_handler_from(s, m, j) is Some,
    decreases k - j,
{
    if j < k && s[j].method@ != m {
        lemma_handler_match_found(s, m, j + 1, k);
    }
}

/// Shutdown resolves every pending waiter: the token list that `kill`
/// returns holds the token of every entry the pending table held, in
/// order, so no caller is left hanging.
pub proof fn lemma_shutdown_resolves_all(d: Dispatcher)
    ensures
        d.pending@.map_values(|e: PendingEntry| e.token).len() == d.pending@.len(),
        forall|i: int|
            0 <= i < d.pending@.len() ==> d.pending@.map_values(|e: PendingEntry| e.token)[i]
                == #[trigger] d.pending@[i].token,
{
}

} // verus!
