//! Packets at the proxy boundary and the plugins that handle them.

use vstd::prelude::*;

verus! {

/// Direction of a packet at the proxy boundary.
#[derive(Debug, Clone, Copy, PartialEq, Eq, Structural)]
pub enum PacketDirection {
    ClientToServer,
    ServerToClient,
}

/// Transport kind the proxy sees on its outer interface.
#[derive(Debug, Clone, Copy, PartialEq, Eq, Structural)]
pub enum TransportKind {
    Udp,
    Tcp,
    IpxOverUdp,
    WebRtcData,
}

/// Minimal envelope the core passes into Lua/WASM handlers.
#[derive(Debug, Clone)]
pub struct PacketEnvelope {
    pub conn_id: String,
    pub direction: PacketDirection,
    pub transport: TransportKind,
    /// Raw bytes as base64; plugins decide how to parse.
    pub payload_b64: String,
    /// Game-engine fingerprint (e.g., "gamespy", "quake3").
    pub protocol_hint: Option<String>,
}

/// Result of a handler invocation.
#[derive(Debug, Clone)]
pub struct PacketHandlerResult {
    /// Drop the packet entirely.
    pub drop: bool,
    /// New bytes to forward instead of the original.
    pub rewritten_payload_b64: Option<String>,
}

/// Registration record for a protocol plugin.
#[derive(Debug, Clone)]
pub struct ProtocolPluginDescriptor {
    pub id: String,
    pub display_name: String,
    /// Detection fingerprints (DNS names, ports, first bytes).
    pub fingerprints: Vec<ProtocolFingerprint>,
}

/// How a plugin's traffic is recognised.
#[derive(Debug, Clone)]
pub struct ProtocolFingerprint {
    pub hostname_suffix: Option<String>,
    pub udp_port: Option<u16>,
    pub tcp_port: Option<u16>,
    /// Hex prefix of the first bytes.
    pub payload_prefix_hex: Option<String>,
}

} // verus!
