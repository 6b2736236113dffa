//! Safe, synchronised access to a virtual display: capture buffers, versioned
//! dirty-rectangle views over them, and the registry and update protocol of a
//! connection handle.

pub mod buffer;
pub mod chunks;
pub mod handle;
pub mod ppm;
pub mod registry;
