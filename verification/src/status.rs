//! Connection state of each supervised vMix instance.

use vstd::prelude::*;

verus! {

/// Where the connection to one instance stands.
#[derive(Clone, Debug, PartialEq, Eq)]
pub enum ConnectionStatus {
    Connecting,
    Connected { vmix_version: String, edition: String },
    Unreachable { message: String },
    Disabled,
}

impl ConnectionStatus {
    pub fn is_connected(&self) -> (r: bool)
        ensures
            r == (*self is Connected),
    {
        match self {
            ConnectionStatus::Connected { .. } => true,
            _ => false,
        }
    }
}

/// Status of one configured instance, as the property inspector lists it.
#[derive(Clone, Debug, PartialEq, Eq)]
pub struct InstanceStatus {
    pub id: String,
    pub name: String,
    pub color: String,
    pub host: String,
    pub port: u16,
    pub enabled: bool,
    pub status: ConnectionStatus,
}

} // verus!
