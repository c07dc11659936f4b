//! Core of a firmware runtime for real-time experiment-timing hardware.
//!
//! Two subsystems manage hardware-owned memory under an explicit ownership
//! protocol, with no OS protection behind them:
//!
//! - [`analyzer`]: an event-capture engine that arms a DMA writer over a fixed
//!   ring buffer and streams snapshots of it, oldest byte first, to one client
//!   at a time ([`analyzer_proto`] gives the wire format of a snapshot).
//! - [`ethmac`]: a zero-copy packet buffer exchange over two fixed regions per
//!   direction, handed back and forth between hardware and software by a slot
//!   index handshake.
//!
//! The memory-mapped registers that drive both are modelled as explicit
//! register state, so every decision the runtime takes against them is
//! verified; a platform layer binds the same operations to the real registers.

pub mod analyzer;
pub mod analyzer_proto;
pub mod console;
pub mod ethmac;
pub mod event_loop;
pub mod sched;
