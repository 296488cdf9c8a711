//! Progress and result records of an import session.
use vstd::prelude::*;

verus! {

/// Processing phase during an import.
#[derive(Debug, Clone, Copy, PartialEq, Eq, Structural)]
pub enum ImportPhase {
    Reading,
    Converting,
    Writing,
    Saving,
    Complete,
    Failed,
}

/// Progress update of an import session.
#[derive(Debug, Clone)]
pub struct ImportProgress {
    pub session_id: String,
    pub current_index: usize,
    pub total_files: usize,
    pub current_file: String,
    pub phase: ImportPhase,
    pub error: Option<String>,
}

/// Log line of an import session.
#[derive(Debug, Clone)]
pub struct ImportLogEntry {
    pub session_id: String,
    pub message: String,
}

/// A file that failed to import.
#[derive(Debug, Clone)]
pub struct FailedFile {
    pub name: String,
    pub path: String,
    pub error: String,
}

/// Final result of an import session.
#[derive(Debug, Clone)]
pub struct ImportResult {
    pub session_id: String,
    pub total_files: usize,
    pub successful: usize,
    pub failed: usize,
    pub failed_files: Vec<FailedFile>,
    pub videos_copied: usize,
}

} // verus!
