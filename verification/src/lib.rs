//! Recovery of task-level events from the hardware trace of an RTIC
//! application.
//!
//! The crate resolves the numeric identifiers that a traced target emits
//! (interrupt numbers, watchpoint values) to the tasks of the application, and
//! turns batches of decoded trace packets into task events with absolute
//! timestamps.

pub mod assoc;
pub mod binding;
pub mod declaration;
pub mod error;
pub mod instrument;
pub mod manifest;
pub mod maps;
pub mod packet;
pub mod probe;
pub mod recovery;
pub mod resolve;
pub mod syntax;
pub mod text;

pub use crate::error::RecoveryError;
pub use crate::instrument::trace;
pub use crate::maps::TaskResolveMaps;
pub use crate::recovery::Metadata;
pub use crate::resolve::TaskResolver;
