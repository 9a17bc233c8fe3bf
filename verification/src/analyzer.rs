//! The analyzer: it keeps the snapshot of each volume that was scanned and
//! answers every question about a volume from that snapshot.

use crate::constants::{OLD_DAYS, RECENT_DAYS, TOP_COUNT};
use crate::distribution::get_file_type_distribution;
use crate::file_types::tally_of;
use crate::file_views::{
    files_modified_before, files_modified_within, largest_files, modified_before,
    modified_within,
};
use crate::folders::{
    folder_bytes, folder_count, get_largest_folders, large_enough, summaries_add_up,
};
use crate::ranking::{first_n, first_of, is_ranked, is_ranking_of, is_top_of};
use crate::scan::DriveScan;
use crate::space::{get_drive_space, space_of};
use crate::tally::is_distribution_of;
use crate::timestamps::current_timestamp;
use crate::types::{AnalysisError, DriveAnalysis, FileInfo, FileTypeEntry, FolderSize};
use vstd::hash_map::StringHashMap;
use vstd::prelude::*;

verus! {

/// The snapshots after one more scan was handed in for `drive`. The first
/// snapshot of a volume stays: a later one is dropped. A scan that did not
/// come about adds nothing.
pub open spec fn after_caching(
    cached: Map<Seq<char>, DriveScan>,
    drive: Seq<char>,
    outcome: Option<DriveScan>,
) -> Map<Seq<char>, DriveScan> {
    if cached.contains_key(drive) {
        cached
    } else {
        match outcome {
            Some(scan) => cached.insert(drive, scan),
            None => cached,
        }
    }
}

/// What handing in a scan for `drive` returns: an error only where the
/// volume has no snapshot and the scan did not come about.
pub open spec fn caching_result(
    cached: Map<Seq<char>, DriveScan>,
    drive: Seq<char>,
    outcome: Option<DriveScan>,
) -> Result<(), AnalysisError> {
    if cached.contains_key(drive) || outcome is Some {
        Ok(())
    } else {
        Err(AnalysisError::InvalidVolumeIdentifier)
    }
}

/// Asking twice gives the same: once a volume has its snapshot, no later
/// scan of it, whatever it brought, changes any snapshot.
pub proof fn lemma_first_snapshot_stays(
    cached: Map<Seq<char>, DriveScan>,
    drive: Seq<char>,
    first: DriveScan,
    later: Option<DriveScan>,
)
    ensures
        after_caching(after_caching(cached, drive, Some(first)), drive, later) == after_caching(
            cached,
            drive,
            Some(first),
        ),
        after_caching(cached, drive, Some(first)).contains_key(drive),
        !cached.contains_key(drive) ==> after_caching(cached, drive, Some(first))[drive] == first,
{
}

/// `top` is the head of the distribution by file type of `files`: its
/// first `n` lines.
pub open spec fn is_top_distribution(
    top: Seq<FileTypeEntry>,
    files: Seq<FileInfo>,
    n: usize,
) -> bool {
    exists|lines: Seq<FileTypeEntry>|
        is_distribution_of(lines, tally_of(files)) && top == #[trigger] first_of(lines, n)
}

/// `list` ranks the files that were modified within `RECENT_DAYS` days
/// before `now`.
pub open spec fn is_recent_view(list: Seq<FileInfo>, files: Seq<FileInfo>, now: i64) -> bool {
    is_ranking_of(list, files.filter(modified_within(now, RECENT_DAYS)))
}

/// `list` ranks the files that were last modified more than `OLD_DAYS` days
/// before `now`.
pub open spec fn is_old_view(list: Seq<FileInfo>, files: Seq<FileInfo>, now: i64) -> bool {
    is_ranking_of(list, files.filter(modified_before(now, OLD_DAYS)))
}

/// Everything that is reported of one volume. Each list holds
/// `TOP_COUNT` lines at most.
#[derive(Debug, PartialEq, Eq)]
pub struct DriveReport {
    /// The space of the volume, or why it is not known.
    pub space: Result<DriveAnalysis, AnalysisError>,
    /// The largest folders.
    pub largest_folders: Vec<FolderSize>,
    /// The file types that hold the most.
    pub file_types: Vec<FileTypeEntry>,
    /// The largest files.
    pub largest_files: Vec<FileInfo>,
    /// The largest files among those modified lately.
    pub recent_files: Vec<FileInfo>,
    /// The largest files among those not modified for long.
    pub old_files: Vec<FileInfo>,
}

/// The report says of the snapshot, at the moment `now`, what a full
/// report has to say; `readout` is the volume's answer about its space.
pub open spec fn is_report_of(
    report: DriveReport,
    scan: DriveScan,
    readout: Option<(u64, u64)>,
    now: i64,
) -> bool {
    &&& report.space == space_of(readout)
    &&& is_top_of(report.largest_folders@, scan.folders().filter(large_enough()), TOP_COUNT)
    &&& summaries_add_up(report.largest_folders@, scan.files())
    &&& is_top_distribution(report.file_types@, scan.files(), TOP_COUNT)
    &&& is_top_of(report.largest_files@, scan.files(), TOP_COUNT)
    &&& is_ranked(scan.files()) ==> report.largest_files@ == first_of(scan.files(), TOP_COUNT)
    &&& is_top_of(
        report.recent_files@,
        scan.files().filter(modified_within(now, RECENT_DAYS)),
        TOP_COUNT,
    )
    &&& is_top_of(
        report.old_files@,
        scan.files().filter(modified_before(now, OLD_DAYS)),
        TOP_COUNT,
    )
}

/// The `TOP_COUNT` largest folders of a snapshot among those that hold more
/// than the threshold, each with what the snapshot's files add up to
/// beneath it.
fn largest_folders_of(scan: &DriveScan) -> (top: Vec<FolderSize>)
    ensures
        is_top_of(top@, scan.folders().filter(large_enough()), TOP_COUNT),
        summaries_add_up(top@, scan.files()),
        is_ranked(scan.folders()) ==> top@ == first_of(
            scan.folders().filter(large_enough()),
            TOP_COUNT,
        ),
{
    let summaries = scan.folder_list();
    let ranked = get_largest_folders(summaries);
    let top = first_n(ranked, TOP_COUNT);
    proof {
        assert(top@ == first_of(ranked@, TOP_COUNT));
        assert forall|i: int| 0 <= i < top@.len() implies (#[trigger] top@[i]).size_bytes
            == folder_bytes(scan.files(), top@[i].folder@) && top@[i].file_count == folder_count(
            scan.files(),
            top@[i].folder@,
        ) by {
            assert(top@[i] == ranked@[i]);
            assert(summaries@.contains(ranked@[i]));
            let at = choose|at: int| 0 <= at < summaries@.len() && summaries@[at] == ranked@[i];
            assert(summaries@[at].size_bytes == folder_bytes(scan.files(), summaries@[at].folder@));
        }
    }
    top
}

/// The analyzer of the volumes of one machine.
pub struct StorageAnalyzer {
    drives: Vec<String>,
    cache: StringHashMap<DriveScan>,
}

impl View for StorageAnalyzer {
    type V = Map<Seq<char>, DriveScan>;

    /// The snapshots taken so far, by volume. The list of the machine's
    /// volumes is no part of it: `volumes` gives that.
    closed spec fn view(&self) -> Map<Seq<char>, DriveScan> {
        self.cache@
    }
}

impl StorageAnalyzer {
    /// The volumes that the machine has.
    pub closed spec fn volumes(&self) -> Seq<String> {
        self.drives@
    }

    /// An analyzer for the given volumes, with no snapshot yet.
    pub fn new(drives: Vec<String>) -> (analyzer: StorageAnalyzer)
        ensures
            analyzer.volumes() == drives@,
            analyzer@ == Map::<Seq<char>, DriveScan>::empty(),
    {
        StorageAnalyzer { drives, cache: StringHashMap::new() }
    }

    /// The volumes that the machine has.
    pub fn drives(&self) -> (drives: &Vec<String>)
        ensures
            drives@ == self.volumes(),
    {
        &self.drives
    }

    /// Tells whether the volume has its snapshot already, so that no scan
    /// is needed.
    pub fn is_cached(&self, drive: &str) -> (cached: bool)
        ensures
            cached == self@.contains_key(drive@),
    {
        self.cache.contains_key(drive)
    }

    /// Takes in what a scan of the volume brought; `None` stands for a scan
    /// that did not come about because nothing readable lies at the root.
    /// A volume keeps its first snapshot: where it has one, the scan is
    /// dropped.
    pub fn collect_and_cache_files(&mut self, drive: &str, outcome: Option<DriveScan>) -> (done:
        Result<(), AnalysisError>)
        ensures
            final(self)@ == after_caching(old(self)@, drive@, outcome),
            final(self).volumes() == old(self).volumes(),
            done == caching_result(old(self)@, drive@, outcome),
    {
        if self.cache.contains_key(drive) {
            return Ok(());
        }
        match outcome {
            Some(scan) => {
                self.cache.insert(drive.to_owned(), scan);
                Ok(())
            },
            None => Err(AnalysisError::InvalidVolumeIdentifier),
        }
    }

    /// The snapshot of the volume, where it has one.
    pub fn cached_scan(&self, drive: &str) -> (scan: Option<&DriveScan>)
        ensures
            match scan {
                Some(found) => self@.contains_key(drive@) && *found == self@[drive@],
                None => !self@.contains_key(drive@),
            },
    {
        self.cache.get(drive)
    }

    /// The space of a volume, from the answer that the volume just gave;
    /// an error exactly where it gave none. Nothing of it is kept.
    pub fn get_drive_space(&self, readout: Option<(u64, u64)>) -> (space: Result<
        DriveAnalysis,
        AnalysisError,
    >)
        ensures
            space == space_of(readout),
            space is Err <==> readout is None,
    {
        get_drive_space(readout)
    }

    /// The `TOP_COUNT` largest folders of the volume among those that a
    /// report may list and that hold more than the threshold, each with
    /// what the files of the volume's snapshot add up to beneath it; `None`
    /// for a volume without snapshot.
    pub fn get_largest_folders(&self, drive: &str) -> (top: Option<Vec<FolderSize>>)
        ensures
            top is Some <==> self@.contains_key(drive@),
            top matches Some(list) ==> is_top_of(
                list@,
                self@[drive@].folders().filter(large_enough()),
                TOP_COUNT,
            ) && summaries_add_up(list@, self@[drive@].files()),
            top matches Some(list) ==> (is_ranked(self@[drive@].folders()) ==> list@ == first_of(
                self@[drive@].folders().filter(large_enough()),
                TOP_COUNT,
            )),
    {
        match self.cache.get(drive) {
            Some(scan) => Some(largest_folders_of(scan)),
            None => None,
        }
    }

    /// The `TOP_COUNT` file types of the volume that hold the most, among
    /// those that hold more than the threshold; `None` for a volume without
    /// snapshot.
    pub fn get_file_type_distribution(&self, drive: &str) -> (top: Option<Vec<FileTypeEntry>>)
        ensures
            top is Some <==> self@.contains_key(drive@),
            top matches Some(list) ==> is_top_distribution(
                list@,
                self@[drive@].files(),
                TOP_COUNT,
            ),
    {
        match self.cache.get(drive) {
            Some(scan) => {
                let lines = get_file_type_distribution(scan.file_list());
                let top = first_n(lines, TOP_COUNT);
                assert(top@ == first_of(lines@, TOP_COUNT));
                Some(top)
            },
            None => None,
        }
    }

    /// The `TOP_COUNT` largest files of the volume; `None` for a volume
    /// without snapshot. Where the snapshot's files are ranked already,
    /// these are its first files as they stand.
    pub fn get_largest_files(&self, drive: &str) -> (top: Option<Vec<FileInfo>>)
        ensures
            top is Some <==> self@.contains_key(drive@),
            top matches Some(list) ==> is_top_of(list@, self@[drive@].files(), TOP_COUNT),
            top matches Some(list) ==> (is_ranked(self@[drive@].files()) ==> list@ == first_of(
                self@[drive@].files(),
                TOP_COUNT,
            )),
    {
        match self.cache.get(drive) {
            Some(scan) => {
                let ranked = largest_files(scan.file_list());
                let top = first_n(ranked, TOP_COUNT);
                assert(top@ == first_of(ranked@, TOP_COUNT));
                Some(top)
            },
            None => None,
        }
    }

    /// The files of the volume that were modified within `RECENT_DAYS` days
    /// before `now`, largest first; `None` for a volume without snapshot.
    pub fn recent_large_files_at(&self, drive: &str, now: i64) -> (recent: Option<Vec<FileInfo>>)
        ensures
            recent is Some <==> self@.contains_key(drive@),
            recent matches Some(list) ==> is_recent_view(list@, self@[drive@].files(), now),
            recent matches Some(list) ==> (is_ranked(self@[drive@].files()) ==> list@
                == self@[drive@].files().filter(modified_within(now, RECENT_DAYS))),
    {
        match self.cache.get(drive) {
            Some(scan) => Some(files_modified_within(scan.file_list(), now, RECENT_DAYS)),
            None => None,
        }
    }

    /// The files of the volume that were last modified more than `OLD_DAYS`
    /// days before `now`, largest first; `None` for a volume without
    /// snapshot.
    pub fn old_large_files_at(&self, drive: &str, now: i64) -> (old: Option<Vec<FileInfo>>)
        ensures
            old is Some <==> self@.contains_key(drive@),
            old matches Some(list) ==> is_old_view(list@, self@[drive@].files(), now),
            old matches Some(list) ==> (is_ranked(self@[drive@].files()) ==> list@
                == self@[drive@].files().filter(modified_before(now, OLD_DAYS))),
    {
        match self.cache.get(drive) {
            Some(scan) => Some(files_modified_before(scan.file_list(), now, OLD_DAYS)),
            None => None,
        }
    }

    /// The files of the volume that were modified within the last
    /// `RECENT_DAYS` days, largest first; `None` for a volume without
    /// snapshot. The days are counted back from the moment of the call.
    pub fn get_recent_large_files(&self, drive: &str) -> (recent: Option<Vec<FileInfo>>)
        ensures
            recent is Some <==> self@.contains_key(drive@),
            recent matches Some(list) ==> exists|now: i64|
                is_recent_view(list@, self@[drive@].files(), now),
    {
        let at = current_timestamp();
        let recent = self.recent_large_files_at(drive, at);
        proof {
            if recent is Some {
                assert(is_recent_view(recent->0@, self@[drive@].files(), at));
            }
        }
        recent
    }

    /// The files of the volume that were not modified for more than
    /// `OLD_DAYS` days, largest first; `None` for a volume without
    /// snapshot. The days are counted back from the moment of the call.
    pub fn get_old_large_files(&self, drive: &str) -> (old: Option<Vec<FileInfo>>)
        ensures
            old is Some <==> self@.contains_key(drive@),
            old matches Some(list) ==> exists|now: i64|
                is_old_view(list@, self@[drive@].files(), now),
    {
        let at = current_timestamp();
        let old = self.old_large_files_at(drive, at);
        proof {
            if old is Some {
                assert(is_old_view(old->0@, self@[drive@].files(), at));
            }
        }
        old
    }

    /// The full report of the volume at the moment `now`; `None` for a
    /// volume without snapshot. A volume that does not say how much space
    /// it has still gets the rest of its report.
    pub fn analyze_drive_at(&self, drive: &str, readout: Option<(u64, u64)>, now: i64) -> (report:
        Option<DriveReport>)
        ensures
            report is Some <==> self@.contains_key(drive@),
            report matches Some(made) ==> is_report_of(made, self@[drive@], readout, now),
    {
        match self.cache.get(drive) {
            Some(scan) => {
                let files = scan.file_list();
                let folders = largest_folders_of(scan);
                let lines = get_file_type_distribution(files);
                let largest = largest_files(files);
                let recent = files_modified_within(files, now, RECENT_DAYS);
                let old = files_modified_before(files, now, OLD_DAYS);
                let report = DriveReport {
                    space: get_drive_space(readout),
                    largest_folders: folders,
                    file_types: first_n(lines, TOP_COUNT),
                    largest_files: first_n(largest, TOP_COUNT),
                    recent_files: first_n(recent, TOP_COUNT),
                    old_files: first_n(old, TOP_COUNT),
                };
                assert(report.file_types@ == first_of(lines@, TOP_COUNT));
                assert(report.largest_files@ == first_of(largest@, TOP_COUNT));
                assert(report.recent_files@ == first_of(recent@, TOP_COUNT));
                assert(report.old_files@ == first_of(old@, TOP_COUNT));
                Some(report)
            },
            None => None,
        }
    }

    /// The full report of the volume at the moment of the call; `None` for
    /// a volume without snapshot.
    pub fn analyze_drive(&self, drive: &str, readout: Option<(u64, u64)>) -> (report: Option<
        DriveReport,
    >)
        ensures
            report is Some <==> self@.contains_key(drive@),
            report matches Some(made) ==> exists|now: i64|
                is_report_of(made, self@[drive@], readout, now),
    {
        let at = current_timestamp();
        let report = self.analyze_drive_at(drive, readout, at);
        proof {
            if report is Some {
                assert(is_report_of(report->0, self@[drive@], readout, at));
            }
        }
        report
    }
}

} // verus!
