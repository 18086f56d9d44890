//! The network side of a desktop client for live streams: the upstream proxy, the
//! local forwarder in front of it, and the local servers that fetch images, playlists
//! and streams for the player.
//!
//! Everything here decides or computes; sockets, clients and servers are the
//! program's own business.

pub mod boundary;
pub mod client;
pub mod commands;
pub mod decimal;
pub mod forward;
pub mod hls;
pub mod hls_laws;
pub mod http_head;
pub mod http_laws;
pub mod local;
pub mod net_proxy;
pub mod proxy_laws;
pub mod relay;
pub mod relay_laws;
pub mod server;
pub mod socks5;
pub mod text;
pub mod text_laws;
pub mod tunnel;
pub mod tunnel_laws;
pub mod view_laws;
