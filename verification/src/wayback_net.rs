//! Configuration and errors of the TUN devices behind the Wayback proxy.

use vstd::prelude::*;
use vstd::string::StringExecFns;

verus! {

/// OS-specific TUN setup errors.
#[derive(Debug)]
pub enum TunError {
    /// An IO error while configuring the device, with its text.
    Io(String),
    /// Unsupported platform or configuration.
    Unsupported,
    /// Invalid TUN configuration.
    InvalidConfig(String),
}

/// The text of a TUN error.
pub open spec fn tun_error_text(e: TunError) -> Seq<char> {
    match e {
        TunError::Io(m) => "IO error while configuring TUN device: "@ + m@,
        TunError::Unsupported => "Unsupported platform or configuration"@,
        TunError::InvalidConfig(m) => "Invalid TUN configuration: "@ + m@,
    }
}

impl TunError {
    /// The human-readable text of the error.
    pub fn message(&self) -> (s: String)
        ensures
            s@ == tun_error_text(*self),
    {
        match self {
            TunError::Io(m) => {
                let mut s = String::from_str("IO error while configuring TUN device: ");
                s.append(m.as_str());
                s
            },
            TunError::Unsupported => String::from_str("Unsupported platform or configuration"),
            TunError::InvalidConfig(m) => {
                let mut s = String::from_str("Invalid TUN configuration: ");
                s.append(m.as_str());
                s
            },
        }
    }
}

/// Configuration for creating a TUN device.
#[derive(Debug, Clone)]
pub struct TunConfig {
    /// Requested interface name; the OS may choose a different one.
    pub name: Option<String>,
    /// IPv4 address/cidr to assign.
    pub ipv4_cidr: Option<String>,
}

impl Default for TunConfig {
    /// The interface "wayback-tun0" on the private segment 10.13.37.1/24.
    fn default() -> (c: Self)
        ensures
            c.name matches Some(n) && n@ == "wayback-tun0"@,
            c.ipv4_cidr matches Some(a) && a@ == "10.13.37.1/24"@,
    {
        TunConfig {
            name: Some(String::from_str("wayback-tun0")),
            ipv4_cidr: Some(String::from_str("10.13.37.1/24")),
        }
    }
}

} // verus!
