//! Progress messages emitted by long-running operations.
use vstd::prelude::*;

verus! {

/// Progress messages emitted by long-running backend operations.
/// Used by the TUI to drive progress bars and log displays.
#[derive(Debug)]
pub enum ProgressMsg {
    /// The operation has started and the total work unit count is known.
    Started { total: u64, label: String },
    /// One work unit completed.
    Tick { current: u64, total: u64, detail: Option<String> },
    /// A non-fatal warning (e.g. unreadable file).
    Warning { message: String },
    /// The operation completed successfully.
    Finished { processed: u64, errors: u64 },
    /// The operation failed with a fatal error.
    Failed { error: String },
}

} // verus!
