//! The summary screen's state after a run.

use vstd::prelude::*;
use crate::process::{FileResult, ProcessingStats};

verus! {

/// What the summary screen shows.
#[derive(Debug)]
pub struct SummaryState {
    pub stats: ProcessingStats,
    pub results: Vec<FileResult>,
    pub dry_run: bool,
    pub log_path: Option<String>,
    /// Whether the run was cancelled; what was done up to then is kept.
    pub cancelled: bool,
}

impl SummaryState {
    /// The summary of a run that was not cancelled.
    pub fn new(stats: ProcessingStats, results: Vec<FileResult>, dry_run: bool, log_path: Option<String>) -> (r: Self)
        ensures
            r.stats == stats,
            r.results@ == results@,
            r.dry_run == dry_run,
            r.log_path == log_path,
            !r.cancelled,
    {
        Self::new_with_status(stats, results, dry_run, log_path, false)
    }

    /// The summary of a run, cancelled or not.
    pub fn new_with_status(
        stats: ProcessingStats,
        results: Vec<FileResult>,
        dry_run: bool,
        log_path: Option<String>,
        cancelled: bool,
    ) -> (r: Self)
        ensures
            r.stats == stats,
            r.results@ == results@,
            r.dry_run == dry_run,
            r.log_path == log_path,
            r.cancelled == cancelled,
    {
        SummaryState { stats, results, dry_run, log_path, cancelled }
    }
}

} // verus!
