//! Bookkeeping for per-job overlay mounts on top of a shared read-only tree.
//!
//! The crate holds the decisions of the mount lifecycle: how the layers of a
//! job are laid out, which mounts are active, what is written to the state
//! document, and how the report of the unmount tool is read. Creating
//! directories, running the tool and writing the document are left to the
//! caller, which hands the outcomes back as plain values.

pub mod antares;

pub use antares::{AntaresConfig, AntaresManager, AntaresPaths};
