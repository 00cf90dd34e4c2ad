use crate::text::{decimal_spec, push_decimal, push_text};
use vstd::prelude::*;

verus! {

/// Why a tunnel could not be set up.
#[derive(Clone, Copy, Debug, PartialEq, Eq, Structural)]
pub enum TunnelInitError {
    /// Every attempt to reach the proxy failed.
    Unreachable,
    /// The proxy's answer did not pass the key exchange.
    HandshakeRejected,
    /// The proxy's answer could not be decoded.
    MalformedResponse,
}

/// Why a call failed.
#[derive(Debug, PartialEq, Eq)]
pub enum L8Error {
    /// The resource is neither a text, a URL nor a request, or it names no valid URL.
    InvalidResource,
    /// The body has a shape that cannot be sent.
    InvalidBody,
    /// The headers have a shape that cannot be sent.
    InvalidHeaders,
    /// No tunnel was ever started for the provider.
    NotInitialized,
    /// The provider's tunnel could not be set up.
    TunnelInit(TunnelInitError),
    /// The request could not be sealed for the tunnel.
    SealFailed,
    /// The request did not reach the proxy.
    TransportFailed,
    /// The proxy answered with a status of 400 or above.
    ProxyBadStatus { status: u16, text: String },
    /// The proxy's answer could not be opened.
    DecryptFailed,
    /// The proxy's answer, or what it held, could not be decoded.
    DecodeFailed,
    /// The caller's abort signal had fired.
    Aborted { reason: String },
    /// The call was driven out of turn.
    OutOfTurn,
}

impl Clone for L8Error {
    fn clone(&self) -> (copy: Self)
        ensures
            copy == *self,
    {
        match self {
            L8Error::InvalidResource => L8Error::InvalidResource,
            L8Error::InvalidBody => L8Error::InvalidBody,
            L8Error::InvalidHeaders => L8Error::InvalidHeaders,
            L8Error::NotInitialized => L8Error::NotInitialized,
            L8Error::TunnelInit(why) => L8Error::TunnelInit(*why),
            L8Error::SealFailed => L8Error::SealFailed,
            L8Error::TransportFailed => L8Error::TransportFailed,
            L8Error::ProxyBadStatus { status, text } => L8Error::ProxyBadStatus {
                status: *status,
                text: text.clone(),
            },
            L8Error::DecryptFailed => L8Error::DecryptFailed,
            L8Error::DecodeFailed => L8Error::DecodeFailed,
            L8Error::Aborted { reason } => L8Error::Aborted { reason: reason.clone() },
            L8Error::OutOfTurn => L8Error::OutOfTurn,
        }
    }
}

impl L8Error {
    /// The message that goes with the error.
    pub open spec fn text(&self) -> Seq<char> {
        match self {
            L8Error::InvalidResource => "Invalid resource type for fetch. Expected a string, URL object, or Request object that names a valid URL."@,
            L8Error::InvalidBody => "Invalid body type for fetch. Expected a string, ArrayBuffer, TypedArray, DataView, Blob, File, URLSearchParams, FormData, or ReadableStream."@,
            L8Error::InvalidHeaders => "Invalid headers type. Expected Headers or Object."@,
            L8Error::NotInitialized => "Network state is not initialized. Please call `await layer8.initEncryptedTunnel(..)` first."@,
            L8Error::TunnelInit(TunnelInitError::Unreachable) => "Failed to initialize tunnel: the proxy could not be reached"@,
            L8Error::TunnelInit(TunnelInitError::HandshakeRejected) => "Failed to create nTor Client"@,
            L8Error::TunnelInit(TunnelInitError::MalformedResponse) => "Failed to deserialize response body to InitTunnelResponse"@,
            L8Error::SealFailed => "Failed to encrypt request data"@,
            L8Error::TransportFailed => "Failed to send request"@,
            L8Error::ProxyBadStatus { status, text } => "Unexpected response from the proxy server: "@
                + decimal_spec(*status as nat) + "; With body: "@ + text@,
            L8Error::DecryptFailed => "Failed to decrypt response data"@,
            L8Error::DecodeFailed => "Failed to deserialize response"@,
            L8Error::Aborted { reason } => "Request was aborted, reason: "@ + reason@,
            L8Error::OutOfTurn => "The call was driven out of turn. Please report bug to l8 team."@,
        }
    }

    /// The message that goes with the error. A bad status names the status and the text
    /// of the proxy's answer; an aborted call names the reason.
    pub fn message(&self) -> (message: String)
        ensures
            message@ == self.text(),
    {
        match self {
            L8Error::InvalidResource => "Invalid resource type for fetch. Expected a string, URL object, or Request object that names a valid URL.".to_owned(),
            L8Error::InvalidBody => "Invalid body type for fetch. Expected a string, ArrayBuffer, TypedArray, DataView, Blob, File, URLSearchParams, FormData, or ReadableStream.".to_owned(),
            L8Error::InvalidHeaders => "Invalid headers type. Expected Headers or Object.".to_owned(),
            L8Error::NotInitialized => "Network state is not initialized. Please call `await layer8.initEncryptedTunnel(..)` first.".to_owned(),
            L8Error::TunnelInit(TunnelInitError::Unreachable) => "Failed to initialize tunnel: the proxy could not be reached".to_owned(),
            L8Error::TunnelInit(TunnelInitError::HandshakeRejected) => "Failed to create nTor Client".to_owned(),
            L8Error::TunnelInit(TunnelInitError::MalformedResponse) => "Failed to deserialize response body to InitTunnelResponse".to_owned(),
            L8Error::SealFailed => "Failed to encrypt request data".to_owned(),
            L8Error::TransportFailed => "Failed to send request".to_owned(),
            L8Error::ProxyBadStatus { status, text } => {
                let mut message = "Unexpected response from the proxy server: ".to_owned();
                push_decimal(&mut message, *status as u32);
                push_text(&mut message, "; With body: ");
                push_text(&mut message, text.as_str());
                message
            },
            L8Error::DecryptFailed => "Failed to decrypt response data".to_owned(),
            L8Error::DecodeFailed => "Failed to deserialize response".to_owned(),
            L8Error::Aborted { reason } => {
                let mut message = "Request was aborted, reason: ".to_owned();
                push_text(&mut message, reason.as_str());
                message
            },
            L8Error::OutOfTurn => "The call was driven out of turn. Please report bug to l8 team.".to_owned(),
        }
    }
}

} // verus!
