# scr-axum-cranker-router

A Cranker router: a reverse proxy to which the services connect, rather than the other way round.
A connector opens web sockets to the router and registers a route; the router hands a client's
request to one of the sockets of the route that matches the request's path.

The logic is written and proved in Verus. It decides; it does no input or output.

- `src/` is the library.
  - `registration`, `config`: who may register, and the settings.
  - `websocket_farm`, `route_resolver`, `socket_search`, `router_socket_filter`,
    `dark_mode_manager`: which socket serves a request.
  - `http_utils`, `forwarded`, `cranker_protocol*`, `frames`: the headers that are sent on, and the
    messages and frames of the protocol's versions.
  - `client_request`, `exchange`, `router_socket`, `router_socket_v1`, `router_socket_v3`,
    `request_context`, `listeners`: a request on its way, as steps from an event to what has to be
    done about it.
  - `*_laws`: what holds of several functions together.
  - `headers`, `octets`, `linked_map`, `dash`, `context_map`, `route_map`, `ids`, `time_utils`, and
    the first part of `text`: what is trusted of other crates and of the standard library.
- `app/` runs the library: the axum handlers, the web sockets, the queues and the timers.
- `tests/` runs the library on concrete values.
