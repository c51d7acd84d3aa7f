//! Identity of this device and the trust state of a peer.
use vstd::prelude::*;

verus! {

/// Kind of vehicle a device is.
#[derive(Debug, Clone, Copy, PartialEq, Eq, Structural)]
pub enum VehicleType {
    BaseStation,
    Quadcopter,
    FlyingWing,
    FixedWing,
    Rover,
}

/// What this device knows of itself.
#[derive(Debug, Clone, Copy, PartialEq, Eq, Structural)]
pub struct DeviceSelf {
    pub device_type: VehicleType,
    pub address: Option<u8>,
}

/// Trust state of a peer. A peer first seen on the air starts as `Unknown`;
/// the key exchange drives the other transitions.
#[derive(Debug, Clone, Copy, PartialEq, Eq, Structural)]
pub enum DeviceStatus {
    Unknown,
    RequestingAddress,
    Unauthorized,
    KeyExchangeInitiated,
    Online,
}

} // verus!
