//! GameSpy master-server logic: recognising heartbeats and keying server
//! adverts for discovery.

use vstd::prelude::*;
use vstd::string::StringExecFns;

use crate::detect::{bytes_at, find_subsequence};

verus! {

broadcast use vstd::string::group_string_axioms;

/// Key under which a game is advertised.
#[derive(Debug, Clone)]
pub struct GameKey {
    pub gamename: String,
}

/// A server advert published for decentralised discovery.
#[derive(Debug)]
pub struct ServerAdvert {
    pub server_id: String,
    pub game_id: String,
    pub region_code: Option<String>,
    pub address: String,
    pub port: u16,
    pub capabilities: serde_json::Value,
    pub timestamp: i64,
}

/// The bytes of `\heartbeat\`.
pub open spec fn heartbeat_marker() -> Seq<u8> {
    seq![0x5cu8, 0x68u8, 0x65u8, 0x61u8, 0x72u8, 0x74u8, 0x62u8, 0x65u8, 0x61u8, 0x74u8, 0x5cu8]
}

/// Whether a packet is a GameSpy query-and-reporting heartbeat: it holds
/// the key `\heartbeat\` somewhere.
pub fn is_gamespy_heartbeat(packet: &[u8]) -> (r: bool)
    ensures
        r == exists|i: int| bytes_at(packet@, heartbeat_marker(), i),
{
    let marker: [u8; 11] = [0x5c, 0x68, 0x65, 0x61, 0x72, 0x74, 0x62, 0x65, 0x61, 0x74, 0x5c];
    assert(marker@ =~= heartbeat_marker());
    match find_subsequence(packet, marker.as_slice()) {
        Some(i) => {
            assert(bytes_at(packet@, heartbeat_marker(), i as int));
            true
        },
        None => false,
    }
}

/// The discovery key text of an advert: the game id, then `::` and the
/// region code when there is one.
pub open spec fn kad_key_text_of(advert: ServerAdvert) -> Seq<char> {
    match advert.region_code {
        Some(r) => advert.game_id@ + "::"@ + r@,
        None => advert.game_id@,
    }
}

/// The discovery key text of an advert.
pub fn kad_key_text(advert: &ServerAdvert) -> (k: String)
    ensures
        k@ == kad_key_text_of(*advert),
{
    let mut key = advert.game_id.clone();
    match &advert.region_code {
        Some(region) => {
            key.append("::");
            key.append(region.as_str());
        },
        None => {},
    }
    key
}

} // verus!
