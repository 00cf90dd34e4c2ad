use vstd::prelude::*;

verus! {

/// Milliseconds to wait between two looks at a provider's session while it is connecting.
pub const FETCH_RETRY_SLEEP_DELAY: i32 = 50;

/// Milliseconds to wait between two attempts of the tunnel handshake request.
pub const INIT_TUNNEL_RETRY_SLEEP_DELAY: i32 = 1000;

/// The most requests that one fetch sends to the proxy.
pub const FETCH_RETRY_ATTEMPTS: u32 = 3;

/// The most handshake requests that one tunnel initialisation sends.
pub const INIT_TUNNEL_RETRY_ATTEMPTS: u32 = 3;

/// The length in bytes of a public key of the key exchange.
pub const PUBLIC_KEY_LENGTH: usize = 32;

/// The most bytes of a blob that one streamed chunk carries.
pub const STREAM_CHUNK_SIZE: usize = 1048576;

} // verus!
