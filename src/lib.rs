//! Locating byte signatures in another process's address space, and
//! deriving minimal unique signatures for a given address.
//!
//! The library holds the matching, scanning, synthesis and pointer-chain
//! logic. Reads of foreign memory are not performed here: the scan, the
//! synthesis and the pointer-chain resolution are state machines that name
//! the next read they need and take its outcome back. `MemoryImage` is a
//! reader over bytes held in memory that drives them to the end.

pub mod chain;
pub mod error;
pub mod image;
pub mod pattern;
pub mod process;
pub mod scan;
pub mod synth;
pub mod text;

pub use error::MfError;
pub use chain::PointerChain;
pub use image::MemoryImage;
pub use pattern::{ByteMatch, DynPattern, Matcher, Pattern};
pub use process::{open_process_by_name, ModuleEntry, OwnedProcess, ProcessEntry};
pub use scan::Scan;
pub use synth::{Step, Synthesis};
pub use text::StrRead;
