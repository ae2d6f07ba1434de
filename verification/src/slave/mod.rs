//! What the master knows of one slave device.

pub mod ports;
pub mod queue;

use self::ports::Ports;
use vstd::prelude::*;

verus! {

/// A slave device.
#[derive(Debug, PartialEq, Clone)]
pub struct Slave {
    /// The station address that the master has assigned to the device.
    pub configured_address: u16,
    /// The name of the device.
    pub name: String,
    /// The ports of the device.
    pub ports: Ports,
}

} // verus!
