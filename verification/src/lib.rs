//! A single-file binary container for typed, multi-dimensional numeric vectors.
//!
//! The container is a four-byte header followed by a stream of tagged,
//! length-prefixed blocks. This crate holds the format itself and the rules
//! of opening a container: the byte codec, the header, the blocks with their
//! Meta-Information payload, the scan that validates a file image, and the
//! decisions of the open/close life cycle as a state machine. It touches no
//! file: a driver performs the actions the state machine asks for and feeds
//! the outcomes back in.

pub mod binary;
pub mod block;
pub mod codec;
pub mod demo;
pub mod error;
pub mod header;
pub mod image;
pub mod meta;
pub mod resolution;
pub mod storage;
