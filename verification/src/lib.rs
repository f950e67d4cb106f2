//! Host-side driver core for a family of CAN-attached robotics peripherals.
//!
//! The crate implements the transport layers of the driver: the 29-bit
//! arbitration-identifier codec, the bit-packed vendor message codec, the
//! fragmentation and reassembly engine for oversize messages, the per-device
//! request/acknowledgement state machine, the device facades (distance
//! sensor and switchable power module), and the framing used by the
//! TCP/WebSocket bridge.  All I/O (the CAN hardware layer and the sockets)
//! stays outside: callers hand frames and timestamps in, and take frames to
//! transmit out.

pub mod bridge;
pub mod driver;
pub mod errors;
pub mod fragments;
pub mod ids;
pub mod lasercan;
pub mod messages;
pub mod mitocandria;

pub use errors::ErrorKind;
pub use errors::GrappleError;
pub use errors::GrappleResult;
pub use ids::MessageId;
pub use messages::GrappleDeviceMessage;
