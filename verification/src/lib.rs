//! An interceptor that sends every request of a page through an encrypted tunnel to a
//! forward proxy: the registry of tunnels, the handshake that sets a tunnel up, the
//! request as it travels, the multipart encoding of forms, and the steps of a call.
//!
//! The library decides and computes; it does no input or output. A handshake and a call
//! are state machines: each step takes what happened and says what to do next, and
//! whoever drives them sends the requests, seals and opens the messages, and waits.

use vstd::prelude::*;

pub mod body;
pub mod compression;
pub mod constants;
pub mod error;
pub mod fetch;
pub mod formdata;
pub mod framing;
pub mod host;
pub mod http_caller;
pub mod init_tunnel;
pub mod json;
pub mod network_state;
pub mod request;
pub mod resource;
pub mod response;
pub mod service_provider;
pub mod streaming;
pub mod string_map;
pub mod text;

verus! {

} // verus!
