//! Client-side transport and RPC runtime support for the Language Server
//! Protocol: the `Content-Length`-framed wire codec, JSON-RPC envelope
//! construction, and the dispatcher state that correlates outgoing requests
//! with their responses and routes server-initiated messages to registered
//! handlers.

pub mod dispatch;
pub mod envelope;
pub mod frame;
pub mod json;
pub mod supervisor;
pub mod utils;
pub mod wire;

pub use dispatch::{Dispatcher, Subscription};
pub use envelope::{LspError, LspResult, Notification, Request, RequestId, Response};
pub use frame::{FrameBuffer, FrameStep};
pub use supervisor::{IoKind, ProccessId, ServerInfo};
pub use utils::defer;
pub use wire::{AnyNotification, AnyResponse, Classified};

use vstd::prelude::*;

verus! {

/// Fixed window, in milliseconds, that a pending request is given before it
/// resolves with a timeout.
pub const LSP_REQUEST_TIMEOUT_MS: u64 = 5000;

} // verus!
