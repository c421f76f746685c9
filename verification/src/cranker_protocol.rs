//! The versions of the protocol between router and connector.

use crate::text;
use vstd::prelude::*;

verus! {

pub const CRANKER_PROTOCOL_VERSION_1_0: &'static str = "1.0";

pub const CRANKER_PROTOCOL_VERSION_2_0: &'static str = "2.0";

pub const CRANKER_PROTOCOL_VERSION_3_0: &'static str = "3.0";

pub const SUPPORTING_HTTP_VERSION_1_1: &'static str = "HTTP/1.1";

/// The connector asked for a version that the router does not speak.
#[derive(Debug)]
pub struct CrankerProtocolVersionNotSupportedException {
    pub version: String,
}

/// The connector asked for no version.
#[derive(Debug)]
pub struct CrankerProtocolVersionNotFoundException;

impl CrankerProtocolVersionNotSupportedException {
    pub fn new(version: String) -> (r: CrankerProtocolVersionNotSupportedException)
        ensures
            r.version@ == version@,
    {
        CrankerProtocolVersionNotSupportedException { version }
    }

    /// The error as it is shown.
    pub fn to_string(&self) -> (r: String)
        ensures
            r@ == "Cranker version "@ + self.version@ + " not supported!"@,
    {
        let mut r = text::concat("Cranker version ", self.version.as_str());
        r.push_str(" not supported!");
        r
    }
}

impl CrankerProtocolVersionNotFoundException {
    pub fn new() -> (r: CrankerProtocolVersionNotFoundException)
        ensures
            r == CrankerProtocolVersionNotFoundException,
    {
        CrankerProtocolVersionNotFoundException
    }

    /// The error as it is shown.
    pub fn to_string(&self) -> (r: String)
        ensures
            r@
                == "Version is null. Please set header Sec-WebSocket-Protocol for cranker protocol negotiation"@,
    {
        "Version is null. Please set header Sec-WebSocket-Protocol for cranker protocol negotiation".to_string()
    }
}

} // verus!
