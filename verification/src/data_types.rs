//! The records that the programs exchange and are configured with.

use vstd::prelude::*;

verus! {

/// A message from the client: its sequence number and its text.
pub struct Message {
    pub seq_number: u8,
    pub message: String,
}

/// What the client program is started with.
pub struct ClientArgs {
    /// ip address
    pub target_ip: String,
    /// port of server
    pub target_port: u16,
    /// timeout when resending
    pub timeout: u64,
    /// amount of retries for resending
    pub max_retries: u16,
}

/// What the server program is started with.
pub struct ServerArgs {
    /// ip address
    pub listen_ip: String,
    /// port of server
    pub listen_port: u16,
}

/// What the proxy program is started with.
pub struct ProxyArgs {
    /// address the proxy listens on for the client
    pub listen_ip: String,
    /// port the proxy listens on for the client
    pub listen_port: String,
    /// address of the server the proxy forwards to
    pub target_ip: String,
    /// port of the server the proxy forwards to
    pub target_port: String,
    /// drop chance (%) for packets from client
    pub client_drop: u32,
    /// drop chance (%) for packets from server
    pub server_drop: u32,
    /// delay chance (%) for packets from client
    pub client_delay: u32,
    /// delay chance (%) for packets from server
    pub server_delay: u32,
    /// minimum delay time (ms) for client packets
    pub client_delay_time_min: u32,
    /// maximum delay time (ms) for client packets
    pub client_delay_time_max: u32,
    /// minimum delay time (ms) for server packets
    pub server_delay_time_min: u32,
    /// maximum delay time (ms) for server packets
    pub server_delay_time_max: u32,
}

} // verus!
