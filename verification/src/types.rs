//! The records that a scan produces and the summaries derived from them.
//! Every size is a whole number of bytes; fractions of a gigabyte or a
//! megabyte appear only where a size is shown.

use vstd::prelude::*;

verus! {

/// Why a volume could not be analysed.
#[derive(Debug, Clone, Copy, PartialEq, Eq, Structural)]
pub enum AnalysisError {
    /// The volume did not say how much space it has.
    VolumeUnavailable,
    /// Nothing readable lies at the given root.
    InvalidVolumeIdentifier,
}

/// How much space a volume has, as it said at the moment it was asked.
#[derive(Debug, Clone, Copy, PartialEq, Eq)]
pub struct DriveAnalysis {
    /// All bytes of the volume.
    pub total_size: u64,
    /// The bytes in use: all bytes less the free ones. Below zero where the
    /// volume names more free bytes than bytes.
    pub used_space: i128,
    /// The free bytes.
    pub free_space: u64,
    /// The free share of the volume in hundredths of a percent, rounded
    /// down; 0 for a volume of no bytes, and above 10,000 where the volume
    /// names more free bytes than bytes.
    pub free_space_percent_x100: u128,
}

/// One file found by a scan.
#[derive(Debug, Clone, PartialEq, Eq)]
pub struct FileInfo {
    /// Absolute path of the file.
    pub full_path: String,
    /// Size in bytes.
    pub size_bytes: u64,
    /// Time of the last modification, written as `DATE_FORMAT` says; `None`
    /// where the file system gave none.
    pub last_modified: Option<String>,
    /// Time of the last access, written the same way; not every file system
    /// keeps it.
    pub last_accessed: Option<String>,
}

/// A directory with the files beneath it, at any depth, added up.
#[derive(Debug, Clone, PartialEq, Eq)]
pub struct FolderSize {
    /// Path of the directory.
    pub folder: String,
    /// Sum of the sizes of the files beneath it, in bytes.
    pub size_bytes: u64,
    /// Number of files beneath it.
    pub file_count: usize,
}

/// A directory as a scan met it, before anything is added up.
#[derive(Debug, Clone, PartialEq, Eq)]
pub struct FolderCandidate {
    /// Path of the directory.
    pub path: String,
    /// Its own name, the last part of the path.
    pub name: String,
    /// How many levels below the scan's root it lies; the root's children
    /// are at depth 1.
    pub depth: usize,
}

/// What the files of one extension add up to.
#[derive(Debug, Clone, Copy, PartialEq, Eq)]
pub struct FileTypeStats {
    /// Sum of the sizes, in bytes.
    pub total_size: u64,
    /// Number of files.
    pub count: usize,
}

/// One line of the distribution by file type.
#[derive(Debug, Clone, PartialEq, Eq)]
pub struct FileTypeEntry {
    /// The extension in lower case, or `NO_EXTENSION`.
    pub extension: String,
    /// What the files of that extension add up to.
    pub stats: FileTypeStats,
}

impl Default for FileTypeStats {
    fn default() -> (stats: Self)
        ensures
            stats.total_size == 0,
            stats.count == 0,
    {
        FileTypeStats { total_size: 0, count: 0 }
    }
}

/// What an optional text says, where there is one.
pub open spec fn text_of(text: Option<String>) -> Option<Seq<char>> {
    match text {
        Some(held) => Some(held@),
        None => None,
    }
}

/// A copy of an optional text.
pub fn copy_optional_text(text: &Option<String>) -> (copy: Option<String>)
    ensures
        copy == *text,
{
    match text {
        Some(t) => Some(t.clone()),
        None => None,
    }
}

impl FileInfo {
    /// A copy of the record, field by field.
    pub fn duplicate(&self) -> (copy: FileInfo)
        ensures
            copy == *self,
    {
        FileInfo {
            full_path: self.full_path.clone(),
            size_bytes: self.size_bytes,
            last_modified: copy_optional_text(&self.last_modified),
            last_accessed: copy_optional_text(&self.last_accessed),
        }
    }
}

impl FolderSize {
    /// A copy of the summary, field by field.
    pub fn duplicate(&self) -> (copy: FolderSize)
        ensures
            copy == *self,
    {
        FolderSize {
            folder: self.folder.clone(),
            size_bytes: self.size_bytes,
            file_count: self.file_count,
        }
    }
}

impl FileTypeEntry {
    /// A copy of the line, field by field.
    pub fn duplicate(&self) -> (copy: FileTypeEntry)
        ensures
            copy == *self,
    {
        FileTypeEntry { extension: self.extension.clone(), stats: self.stats }
    }
}

} // verus!
