//! Wire formats of the vehicle's devices.
pub mod calibrated_chassis;
pub mod chassis;
pub mod framing;
pub mod imu;
pub mod measures;
pub mod n10;
