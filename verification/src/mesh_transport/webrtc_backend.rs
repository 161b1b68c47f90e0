//! WebRTC backend configuration.

use vstd::prelude::*;

verus! {

/// WebRTC backend configuration.
#[derive(Debug, Clone)]
pub struct WebRtcConfig {
    /// STUN server URLs.
    pub stun_servers: Vec<String>,
    /// TURN servers as (url, username, credential).
    pub turn_servers: Vec<(String, String, String)>,
    /// Label of the data channel.
    pub data_channel_label: String,
    /// Simulated network latency for testing.
    pub simulated_latency_ms: u64,
}

impl Default for WebRtcConfig {
    fn default() -> (r: Self)
        ensures
            r.stun_servers@.len() == 1,
            r.stun_servers@[0]@ == "stun:stun.l.google.com:19302"@,
            r.turn_servers@.len() == 0,
            r.data_channel_label@ == "mesh"@,
            r.simulated_latency_ms == 10,
    {
        let mut stun_servers: Vec<String> = Vec::new();
        stun_servers.push(String::from_str("stun:stun.l.google.com:19302"));
        WebRtcConfig {
            stun_servers,
            turn_servers: Vec::new(),
            data_channel_label: String::from_str("mesh"),
            simulated_latency_ms: 10,
        }
    }
}

} // verus!
