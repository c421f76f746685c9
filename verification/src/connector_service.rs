//! A service, as it is shown to the outside.

use crate::connector_instance::{ConnectorInstance, InstanceView};
use vstd::prelude::*;

verus! {

/// Information about a service that is connected to this router.
/// A "service" is 1 or more connector instances that register the same route.
#[derive(Clone, Debug, Hash, PartialEq, Eq)]
pub struct ConnectorService {
    /// The path prefix of the service.
    pub route: String,
    /// The component name that the connector registered
    pub component_name: String,
    /// The connectors that serve this route.
    pub connectors: Vec<ConnectorInstance>,
    /// If this connector serves from the root of the URL path,
    /// iff. "*" equals the registered route
    pub is_catch_all: bool,
}

/// What a [`ConnectorService`] says.
#[verifier::ext_equal]
pub struct ServiceView {
    pub route: Seq<char>,
    pub component_name: Seq<char>,
    pub connectors: Seq<InstanceView>,
    pub is_catch_all: bool,
}

impl View for ConnectorService {
    type V = ServiceView;

    open spec fn view(&self) -> ServiceView {
        ServiceView {
            route: self.route@,
            component_name: self.component_name@,
            connectors: self.connectors@.map_values(|c: ConnectorInstance| c@),
            is_catch_all: self.is_catch_all,
        }
    }
}

} // verus!
