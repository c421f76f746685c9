//! A connector, as it is shown to the outside.

use crate::connector_connection::{ConnectionView, ConnectorConnection};
use crate::net::IpAddr;
use vstd::prelude::*;

verus! {

/// Information about a connector instance that is connected to this router.
/// Note that one instance may have multiple connections.
#[derive(Clone, Debug, Hash, PartialEq, Eq)]
pub struct ConnectorInstance {
    /// How many connections are there
    pub connection_count: usize,
    /// Dark mode status
    pub dark_mode: bool,
    /// The unique ID of the connector.
    pub connector_id: String,
    /// The current idle connections that this
    /// connector has registered to the router.
    pub connections: Vec<ConnectorConnection>,
    /// The remote IP Address of the connector
    /// instance
    pub ip: IpAddr,
}

/// What a [`ConnectorInstance`] says.
#[verifier::ext_equal]
pub struct InstanceView {
    pub connection_count: int,
    pub dark_mode: bool,
    pub connector_id: Seq<char>,
    pub connections: Seq<ConnectionView>,
    pub ip: IpAddr,
}

impl View for ConnectorInstance {
    type V = InstanceView;

    open spec fn view(&self) -> InstanceView {
        InstanceView {
            connection_count: self.connection_count as int,
            dark_mode: self.dark_mode,
            connector_id: self.connector_id@,
            connections: self.connections@.map_values(|c: ConnectorConnection| c@),
            ip: self.ip,
        }
    }
}

impl InstanceView {
    /// One more connection.
    pub open spec fn with(self, c: ConnectionView) -> InstanceView {
        InstanceView {
            connection_count: self.connection_count + 1,
            connections: self.connections.push(c),
            ..self
        }
    }
}

} // verus!
