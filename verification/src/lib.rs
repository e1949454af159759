//! Art-Net transport core for a pixel map: the packet codec, the adapter that
//! turns colour samples into packets, the decisions of the two socket workers
//! and the queue-backed server handle.

pub mod command;
pub mod wire;
pub mod codec;
pub mod adapter;
pub mod intensity;
pub mod artnet;
pub mod worker;

pub use artnet::{ArtNetServer, InboundFeed, WorkerEndpoints};
pub use adapter::{build_commands, AdapterError, Rgb, ZoneTarget};
pub use codec::{decode, encode};
pub use intensity::{intensities, intensity};
pub use command::{Command, CommandModel, DecodeError, EncodeError, MAX_PAYLOAD, MAX_UNIVERSE};
