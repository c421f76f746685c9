//! Cranker router.

pub mod client_request;
pub mod config;
pub mod config_laws;
pub mod connect_info;
pub mod connection_laws;
pub mod connector_connection;
pub mod connector_instance;
pub mod connector_service;
pub mod context_map;
pub mod cranker_protocol;
pub mod cranker_protocol_request_builder;
pub mod cranker_protocol_response;
pub mod dark_host;
pub mod dark_mode_manager;
pub mod dash;
pub mod error_laws;
pub mod exceptions;
pub mod exchange;
pub mod farm_laws;
pub mod forwarded;
pub mod forwarded_laws;
pub mod forwarding_laws;
pub mod frames;
pub mod headers;
pub mod http_laws;
pub mod http_utils;
mod ids;
pub mod ip_validator;
pub mod linked_map;
pub mod listener_laws;
pub mod listeners;
pub mod net;
pub mod octets;
pub mod proxy_info;
pub mod proxy_listener;
pub mod registration;
pub mod registration_laws;
pub mod request_context;
pub mod request_laws;
pub mod response_laws;
pub mod route_identify;
pub mod route_laws;
pub mod route_map;
pub mod route_resolver;
pub mod router_info;
pub mod router_socket;
pub mod router_socket_filter;
pub mod router_socket_v1;
pub mod router_socket_v3;
pub mod shown_laws;
pub mod socket_search;
pub mod text;
pub mod text_laws;
pub mod time_utils;
pub mod v1_socket_laws;
pub mod v3_laws;
pub mod v3_response_laws;
pub mod v3_socket_laws;
pub mod websocket_farm;
