//! What the manifest of the traced application declares for tracing.

use vstd::prelude::*;

verus! {

/// The crate that describes the target's hardware, and the two watchpoint
/// comparators that report the entry and the exit of software tasks.
#[derive(PartialEq, Eq, Debug)]
pub struct ManifestProperties {
    /// The name of the hardware description crate.
    pub pac_name: String,
    /// The version of that crate.
    pub pac_version: String,
    /// The features of that crate that are switched on.
    pub pac_features: Vec<String>,
    /// The path to the enumeration of the target's interrupts.
    pub interrupt_path: String,
    /// The comparator that reports the entry of a software task.
    pub dwt_enter_id: usize,
    /// The comparator that reports the exit of a software task.
    pub dwt_exit_id: usize,
}

} // verus!
