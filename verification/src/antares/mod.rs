//! Antares: the overlay mount manager.
//!
//! - `text`: searching and comparing strings
//! - `paths`: the configured roots and how a name is joined to a root
//! - `layer_id`: fresh identifiers for layer directories
//! - `record`: the record of one mount
//! - `registry`: the active mounts, one record for each job
//! - `unmount`: reading the report of the unmount tool
//! - `state`: the persisted document and what loading it gives
//! - `manager`: the lifecycle manager
//! - `laws`: what holds of every registry

pub mod text;
pub mod paths;
pub mod layer_id;
pub mod record;
pub mod registry;
pub mod unmount;
pub mod state;
pub mod manager;
pub mod laws;

pub use manager::{AntaresManager, Removal};
pub use paths::AntaresPaths;
pub use record::AntaresConfig;
pub use registry::MountRegistry;
pub use state::{AntaresError, AntaresState, StateSource};
pub use unmount::{UnmountOutcome, UnmountReport};
