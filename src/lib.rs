//! Routing and relay decisions of a TLS-terminating HTTP reverse proxy.
//!
//! The library decides, for each inbound request, whether to answer it at
//! once or which backend origin receives it, builds the outbound target, and
//! shapes the client-facing response head from the backend's reply. The
//! network, TLS and streaming work is done by the surrounding server.
pub mod headers;
pub mod proxy;
pub mod router;

pub use headers::{filter_hop_by_hop, is_connection, Header, HeaderView};
pub use proxy::{client_head, decide, same_text, target_url, Decision, ForwardError, ResponseHead};
pub use router::{rule, RouteNotFound, RouteRule, RoutingTable};
