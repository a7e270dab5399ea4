//! Acquisition and streaming core for a multi-channel neural-signal ADC.
//!
//! - [`commands`]: opcodes and the startup and readout command sequences.
//! - [`sync`]: the timing-guarded update of a DMA pointer register.
//! - [`engine`]: the double-buffered receive engine and its state machine.
//! - [`queue`]: the bounded frame queue between interrupt and task.
//! - [`delivery`]: ordering of frame delivery over a whole run.
//! - [`packet`]: MTU-bounded packets, the packetizer and reassembly.
//! - [`session`]: the sender and command-watcher decisions of a session.
//! - [`adv`]: advertisement data records.
//! - [`liveview`]: the per-channel minimum/maximum summary.
//! - [`link`]: the dongle's USB and connection decisions, the status LED.
pub mod commands;
pub mod sync;
pub mod engine;
pub mod queue;
pub mod delivery;
pub mod packet;
pub mod session;
pub mod adv;
pub mod liveview;
pub mod link;
