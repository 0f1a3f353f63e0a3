//! Protocol engine for a lightweight binary RPC protocol used by a
//! home-automation hub to exchange device-entity state and commands with
//! clients over plain TCP.
//!
//! The crate covers the framing codec (varint and frame layers), the
//! per-connection handshake state machine, the payload schemas of the
//! protocol messages, the component router, and the fan-out bus that
//! broadcasts events to every live client.  All I/O stays outside: the
//! library works on byte buffers and plain values.

pub mod components;
pub mod frame;
pub mod messages;
pub mod msgtype;
pub mod proto;
pub mod server;
pub mod session;
pub mod utils;
pub mod varint;

pub use components::{ComponentManager, ComponentUpdate};
pub use msgtype::MessageTypes;
pub use server::EspHomeApiServer;
pub use session::{ConnectionState, Device, EspHomeApiClient};
pub use utils::{name_to_hash, name_to_object, name_to_unique};
pub use varint::{from_varuint, to_varuint};
