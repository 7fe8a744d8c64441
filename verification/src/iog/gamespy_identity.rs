//! How a GameSpy title identifies itself on the wire.

use vstd::prelude::*;

verus! {

/// The ports a GameSpy title uses.
#[derive(Debug, Clone)]
pub struct GameSpyPortMap {
    /// Primary heartbeat port (usually UDP 27900).
    pub heartbeat_udp: u16,
    /// Master list TCP (often 28900).
    pub master_list_tcp: Option<u16>,
    /// Game-specific query UDP (often 6500).
    pub query_udp: Option<u16>,
    /// Connection manager port.
    pub conn_mgr_tcp: Option<u16>,
    /// Search manager port.
    pub search_mgr_tcp: Option<u16>,
    /// Chat/IRC port (e.g., 6667).
    pub chat_tcp: Option<u16>,
}

/// A region or SKU of a title.
#[derive(Debug, Clone)]
pub struct GameSpyRegion {
    /// Region code, e.g. "US", "EU", "JP", "NTSC-U", "PAL".
    pub code: String,
    /// Platform disambiguator (pc, ps2, xbox, gc).
    pub platform: Option<String>,
}

/// A GameSpy title.
#[derive(Debug, Clone)]
pub struct GameSpyIdentity {
    /// Short gamename string used on the wire.
    pub game_id: String,
    /// Human-readable title.
    pub title: String,
    /// Region/SKU separation.
    pub region: Option<GameSpyRegion>,
    /// Port configuration.
    pub ports: GameSpyPortMap,
}

} // verus!
