//! Decision core of a full-duplex RPC connection engine.
//!
//! A connection is driven by two units: a writer that drains outbound
//! messages onto the write half of a socket, and a reader that frames
//! inbound messages from the read half and dispatches them. The units'
//! decisions live here as state machines whose every step is checked
//! against a model of the whole run; the asynchronous plumbing that feeds
//! them events and performs their actions lives outside this crate.

use vstd::prelude::*;

pub mod builder;
pub mod slot;
pub mod writer;
pub mod reader;

pub use builder::Builder;
pub use reader::{ReadEvent, ReadKind, ReaderAction, ReaderPhase, ReaderUnit};
pub use slot::{CompletionSlot, SendingMessage};
pub use writer::{WriterAction, WriterPhase, WriterUnit};
