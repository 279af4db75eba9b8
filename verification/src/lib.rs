//! The wire protocol of lan-mouse and the logic of its clipboard sharing.
//!
//! - [`event`]: the events that two peers exchange and their encoding into datagrams,
//!   [`input_event`]: the pointer and keyboard events among them, [`wire`]: the integers in them;
//! - [`chunk`]: clipboard text in pieces that fit a datagram, [`assembly`]: the pieces put together
//!   again;
//! - [`clipboard`]: which texts are shared and which are applied, [`tools`]: the command line tools
//!   that read and write the clipboard, [`task`]: the task that works with them, step by step,
//!   [`text`]: what these need of texts;
//! - [`event_laws`], [`layout_laws`], [`assembly_laws`], [`tool_laws`]: what the parts promise
//!   together.
pub mod assembly;
pub mod assembly_laws;
pub mod chunk;
pub mod clipboard;
pub mod event;
pub mod event_laws;
pub mod input_event;
pub mod layout_laws;
pub mod task;
pub mod text;
pub mod tool_laws;
pub mod tools;
pub mod wire;

pub use assembly::{ClipboardAssembly, ClipboardAssemblyError};
pub use chunk::{clipboard_chunks, ClipboardChunk, CLIPBOARD_CHUNK_SIZE, MAX_CLIPBOARD_SIZE};
pub use event::{EventType, Position, ProtoEvent, ProtocolError, MAX_EVENT_SIZE};
