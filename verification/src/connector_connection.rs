//! A connection of a connector, as it is shown to the outside.

use crate::text;
use vstd::prelude::*;

verus! {

/// Information about one of the connector sockets connected to this router.
#[derive(Clone, Debug, Hash, PartialEq, Eq)]
pub struct ConnectorConnection {
    /// The domain field of a connector connection.
    /// Only available in V3 as an extension of the
    /// protocol.
    pub domain: String,
    /// The port the socket is connected on
    pub port: i32,
    /// A unique ID of this socket
    pub router_socket_id: String,
    /// The protocol version, e.g. cranker_1.0, cranker_3.0
    pub protocol: String,
    /// How many inflight request being proxying. Only available
    /// in V3 since it's multiplexing the underlying WebSocket
    pub inflight: i32,
}

/// What a [`ConnectorConnection`] says.
#[verifier::ext_equal]
pub struct ConnectionView {
    pub domain: Seq<char>,
    pub port: i32,
    pub router_socket_id: Seq<char>,
    pub protocol: Seq<char>,
    pub inflight: i32,
}

impl View for ConnectorConnection {
    type V = ConnectionView;

    open spec fn view(&self) -> ConnectionView {
        ConnectionView {
            domain: self.domain@,
            port: self.port,
            router_socket_id: self.router_socket_id@,
            protocol: self.protocol@,
            inflight: self.inflight,
        }
    }
}

/// Whether a connection is shown without its domain.
pub fn _if_ser_domain(domain: &String) -> (r: bool)
    ensures
        r == (domain@ == "*"@),
{
    text::str_eq(domain.as_str(), "*")
}

/// Whether a connection is shown without the number of its requests.
pub fn _if_ser_inflight(ifl: &i32) -> (r: bool)
    ensures
        r == (*ifl < 0),
{
    *ifl < 0
}

} // verus!
