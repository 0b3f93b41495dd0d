//! The protocol messages the core sends and receives, and the network
//! address of a device.
//!
//! Only the fields the core's logic reads are modelled; the wire layout,
//! checksums and field packing belong to the external codec that turns
//! these values into datagrams and back.

use vstd::prelude::*;

verus! {

/// A device's network address: IPv4 host and UDP port. The address may
/// change between sessions; it is never part of a device's identity.
#[derive(Clone, Copy, Debug, PartialEq, Eq, Structural)]
pub struct DeviceAddr {
    pub host: u32,
    pub port: u16,
}

/// Power level carried by a power-set request.
#[derive(Clone, Copy, Debug, PartialEq, Eq, Structural)]
pub enum PowerLevel {
    Standby,
    Enabled,
}

/// A color in the protocol's hue/saturation/brightness/kelvin encoding.
#[derive(Clone, Copy, Debug, PartialEq, Eq, Structural)]
pub struct Hsbk {
    pub hue: u16,
    pub saturation: u16,
    pub brightness: u16,
    pub kelvin: u16,
}

/// A decoded protocol message, reduced to the variants the core's logic
/// distinguishes.
pub enum Message {
    /// Ask a device for its human-readable label.
    GetLabel,
    /// A device's reply carrying its label.
    StateLabel { label: String },
    /// Set a device's power level.
    SetPower { level: PowerLevel },
    /// Set a device's color over `duration` milliseconds.
    SetColor { color: Hsbk, duration: u32 },
    /// A device's reply to the broadcast discovery probe.
    StateService { port: u32 },
    /// A bare acknowledgement.
    Acknowledgement,
}

} // verus!
