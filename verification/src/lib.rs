//! Verified core of a sensor-to-display workshop system: an accelerometer
//! firmware that streams samples over TCP, and a backend that shows one 3D
//! shape per connected sensor.

pub mod rng;
pub mod shape;
pub mod geometry;
pub mod protocol;
pub mod addr_table;
pub mod registry;
pub mod endpoint_registry;
pub mod i2c;
pub mod lis3dh;
pub mod render;
pub mod uplink;
pub mod exti;
pub mod gpio;
pub mod diagnostics;
pub mod sensor;
pub mod demo;
