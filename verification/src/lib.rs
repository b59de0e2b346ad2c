//! Wire protocol and stream framing for an arena-shooter server: typed
//! packets are wrapped in a nine-byte header, and a per-connection buffer
//! cuts complete envelopes out of an arbitrarily chunked byte stream.

pub mod bytes;
pub mod client;
pub mod codec;
pub mod envelope;
pub mod laws;
pub mod packet;
pub mod reassembly;
pub mod stream;

pub use client::ClientPacket;
pub use envelope::{FramingError, PacketProtocol};
pub use packet::Packet;
pub use reassembly::PacketBuf;
