//! Session profiles with platform constraints, and how proposals are held
//! against them.

pub mod conditioning;
pub mod profile;
