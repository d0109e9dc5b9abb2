//! `tinyframe`: a TinyFrame-style protocol engine for embedded targets.
//!
//! Checksum coverage follows TinyFrame framing semantics:
//! - SOF is a framing sentinel and is **not** included in checksum calculation.
//! - LEN / ID / TYPE and payload bytes are included.

pub mod error;
pub mod peer;
pub mod listener;
pub mod frame;
pub mod checksum;
pub mod transport;
pub mod call_log;
pub mod parser;
pub mod tx_core;
pub mod tx_pipeline;
pub mod channel;
pub mod tinyframe;
pub mod builder;
pub mod observer_store;
pub mod rx_dispatch_core;
pub mod rx_parser_core;
pub mod strategy;
pub mod utils;
pub mod roundtrip;
pub mod laws;

pub use error::{Error, ParseError};
pub use peer::Peer;
pub use listener::{FrameCallback, ListenerAction};
pub use frame::{Frame, ReceivedFrame};
pub use checksum::{Checksum, NoChecksum, XorChecksum, Crc8Maxim, Crc16, Crc32};
pub use transport::{Transport, BufferTransport};
pub use channel::FrameChannel;
pub use tinyframe::TinyFrame;
pub use builder::TinyFrameBuilder;
pub use strategy::{DispatchPolicy, IdAllocator, IdThenTypeDispatch, SequentialIdAllocator};
