//! Storage analysis: where the space of a volume goes.

pub mod analyzer;
pub mod constants;
pub mod debug;
pub mod distribution;
pub mod file_types;
pub mod file_views;
pub mod folders;
pub mod help_cmd;
pub mod order;
pub mod ranking;
pub mod scan;
pub mod shell;
pub mod space;
pub mod tally;
pub mod timestamps;
pub mod types;

pub use analyzer::{DriveReport, StorageAnalyzer};
pub use debug::debug_test;
pub use scan::DriveScan;
pub use types::{
    AnalysisError, DriveAnalysis, FileInfo, FileTypeEntry, FileTypeStats, FolderCandidate,
    FolderSize,
};
