pub mod protocol_error;
pub mod text;
pub mod tunnel_request;
pub mod tunnel_response;
pub mod proc_net_tcp;
pub mod port_changes;
pub mod protocol;
pub mod config;
pub mod port_manager;
pub mod error;
pub mod peer;
pub mod daemon;
pub mod ipc;
pub mod helpers;
pub mod tunnel;
pub mod commands;
pub mod framing;
