//! Which of the sockets that match a path is used.

use crate::config::RouterSettings;
use crate::net::{RequestUri, SocketAddr};
use crate::router_socket::RouterSocketInfo;
use crate::text;
use axum::http::HeaderMap;
use vstd::prelude::*;

verus! {

/// With this trait, library users can implement their own logic to filter out
/// whether a target-path-matched router socket should be used or not.
/// For example, we can filter by the RouterSocket's domain.
pub trait RouterSocketFilter: Sync + Send {
    fn should_use(
        &self,
        target_path: &String,
        method: &String,
        original_uri: &RequestUri,
        headers: &HeaderMap,
        addr: &SocketAddr,
        cranker_router_config: &RouterSettings,
        router_socket: &RouterSocketInfo,
    ) -> bool;

    /// Whether, when no socket passes, the first that matches the path is used.
    fn should_fallback_to_first_path_matched(&self) -> (r: bool)
        default_ensures
            !r,
    {
        false
    }

    /// Whether, when no socket that matches the path is used, one of the catch-all route is.
    fn should_fallback_to_catch_all(&self) -> (r: bool)
        default_ensures
            !r,
    {
        false
    }
}

pub struct DefaultRouterSocketFilter;

impl DefaultRouterSocketFilter {
    pub fn new() -> (r: Self)
        ensures
            r == DefaultRouterSocketFilter,
    {
        DefaultRouterSocketFilter
    }
}

impl RouterSocketFilter for DefaultRouterSocketFilter {
    fn should_use(
        &self,
        target_path: &String,
        method: &String,
        original_uri: &RequestUri,
        headers: &HeaderMap,
        addr: &SocketAddr,
        cranker_router_config: &RouterSettings,
        router_socket: &RouterSocketInfo,
    ) -> (r: bool)
        ensures
            r,
    {
        true
    }
}

pub struct DomainRouterSocketFilter;

impl DomainRouterSocketFilter {
    pub fn new() -> (r: Self)
        ensures
            r == DomainRouterSocketFilter,
    {
        DomainRouterSocketFilter
    }
}

impl RouterSocketFilter for DomainRouterSocketFilter {
    /// A socket is used for the host that is its domain.
    fn should_use(
        &self,
        target_path: &String,
        method: &String,
        original_uri: &RequestUri,
        headers: &HeaderMap,
        addr: &SocketAddr,
        cranker_router_config: &RouterSettings,
        router_socket: &RouterSocketInfo,
    ) -> (r: bool)
        ensures
            r == (original_uri.host matches Some(host) && host@ == router_socket.domain@),
    {
        match &original_uri.host {
            Some(host) => text::str_eq(host.as_str(), router_socket.domain.as_str()),
            None => false,
        }
    }

    fn should_fallback_to_first_path_matched(&self) -> (r: bool)
        ensures
            r,
    {
        true
    }
}

} // verus!
