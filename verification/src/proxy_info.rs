//! What a proxy listener is told of a request.

use crate::exceptions::{opt_exception_clone, CrankerRouterException, ExceptionView};
use crate::net::SocketAddr;
use crate::text::str_eq;
use vstd::prelude::*;

verus! {

/// An info trait to tell the information during Cranker
/// proxying a request. It's applied to multiple proxy
/// listener hooks.
///
/// Information about a proxied request and response.
/// Use `CrankerRouterBuilder.with_proxy_listeners()` to
/// subscribe to events that exposes this data.
pub trait ProxyInfo {
    /// A unique id of the underlying router socket.
    fn router_socket_id(&self) -> String;

    fn route(&self) -> String;

    /// The address of the service connector that this request is
    /// being proxied to.
    fn service_address(&self) -> SocketAddr;

    /// V3 domain. Return "*" (catch all) by default
    /// for backward compatibility
    fn domain(&self) -> (r: String)
        default_ensures
            r@ == "*"@,
    {
        "*".to_string()
    }

    /// If the proxied request is using catch all
    /// fallback route and the connector/connection/service
    /// behind the scene.
    fn is_catch_all(&self) -> bool;

    /// A unique ID for the service connector.
    fn connector_id(&self) -> String;

    /// The time in millis from when the router received the
    /// request until it sent the last response byte.
    fn duration_millis(&self) -> i64;

    /// The number of bytes uploaded by the client in the request
    fn bytes_received(&self) -> i64;

    /// The number of bytes sent to the client on the response
    fn bytes_sent(&self) -> i64;

    /// Response bodies are sent from a connector to the router
    /// as a number of binary websocket frames. This is a count
    /// of the number of frames received on this socket.
    ///
    /// This can be used to understand how target services are
    /// streaming responses to clients, especially if used in
    /// conjunction with bytesSent() as it can give an idea of
    /// average response chunk size.
    fn response_body_frames(&self) -> i64;

    /// If the response was not proxied successfully, then this
    /// has the exception.
    fn error_if_any(&self) -> Option<CrankerRouterException>;

    /// Wait time in millis seconds to get a websocket (which is
    /// used for proxy requests)
    fn socket_wait_in_millis(&self) -> i64;
}

/// What is known of a proxied request at one point in time.
#[derive(Debug)]
pub struct ProxyInfoData {
    pub router_socket_id: String,
    pub route: String,
    pub service_address: SocketAddr,
    pub connector_id: String,
    pub duration_millis: i64,
    pub bytes_received: i64,
    pub bytes_sent: i64,
    pub response_body_frames: i64,
    pub error: Option<CrankerRouterException>,
    pub socket_wait_in_millis: i64,
}

/// What a [`ProxyInfoData`] says.
#[verifier::ext_equal]
pub struct ProxyInfoView {
    pub router_socket_id: Seq<char>,
    pub route: Seq<char>,
    pub service_address: SocketAddr,
    pub connector_id: Seq<char>,
    pub duration_millis: i64,
    pub bytes_received: i64,
    pub bytes_sent: i64,
    pub response_body_frames: i64,
    pub error: Option<ExceptionView>,
    pub socket_wait_in_millis: i64,
}

impl View for ProxyInfoData {
    type V = ProxyInfoView;

    open spec fn view(&self) -> ProxyInfoView {
        ProxyInfoView {
            router_socket_id: self.router_socket_id@,
            route: self.route@,
            service_address: self.service_address,
            connector_id: self.connector_id@,
            duration_millis: self.duration_millis,
            bytes_received: self.bytes_received,
            bytes_sent: self.bytes_sent,
            response_body_frames: self.response_body_frames,
            error: crate::exceptions::opt_exception(self.error),
            socket_wait_in_millis: self.socket_wait_in_millis,
        }
    }
}

impl ProxyInfo for ProxyInfoData {
    fn router_socket_id(&self) -> (r: String)
        ensures
            r@ == self@.router_socket_id,
    {
        self.router_socket_id.clone()
    }

    fn route(&self) -> (r: String)
        ensures
            r@ == self@.route,
    {
        self.route.clone()
    }

    fn service_address(&self) -> (r: SocketAddr)
        ensures
            r == self@.service_address,
    {
        self.service_address
    }

    fn is_catch_all(&self) -> (r: bool)
        ensures
            r == (self@.route == "*"@),
    {
        str_eq(self.route.as_str(), "*")
    }

    fn connector_id(&self) -> (r: String)
        ensures
            r@ == self@.connector_id,
    {
        self.connector_id.clone()
    }

    fn duration_millis(&self) -> (r: i64)
        ensures
            r == self@.duration_millis,
    {
        self.duration_millis
    }

    fn bytes_received(&self) -> (r: i64)
        ensures
            r == self@.bytes_received,
    {
        self.bytes_received
    }

    fn bytes_sent(&self) -> (r: i64)
        ensures
            r == self@.bytes_sent,
    {
        self.bytes_sent
    }

    fn response_body_frames(&self) -> (r: i64)
        ensures
            r == self@.response_body_frames,
    {
        self.response_body_frames
    }

    fn error_if_any(&self) -> (r: Option<CrankerRouterException>)
        ensures
            crate::exceptions::opt_exception(r) == self@.error,
    {
        opt_exception_clone(&self.error)
    }

    fn socket_wait_in_millis(&self) -> (r: i64)
        ensures
            r == self@.socket_wait_in_millis,
    {
        self.socket_wait_in_millis
    }
}

} // verus!
