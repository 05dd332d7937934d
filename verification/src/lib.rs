//! Host-side harness for a cycle-accurate 68000 simulation engine.
//!
//! The engine itself lives behind a foreign boundary. This library holds what
//! the host decides and computes around it: the register and state model, the
//! pluggable memory capability with its flat-buffer implementation, the
//! startup memory image, and the sequencing rules (boot, one instruction,
//! run to an address) as state machines that a driver feeds with what it
//! observed after each engine cycle.

pub mod bridge;
pub mod cpu;
pub mod harness;
pub mod memory;
pub mod registry;
