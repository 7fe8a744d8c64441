//! The Internet-of-Games protocol model: packets at the proxy boundary,
//! protocol plugins, GameSpy identities and master-server adverts.

pub mod dns;
pub mod gamespy;
pub mod gamespy_identity;
pub mod protocol;
