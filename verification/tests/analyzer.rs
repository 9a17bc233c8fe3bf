use chrono::{Duration, Utc};
use storage_analyzer::analyzer::StorageAnalyzer;
use storage_analyzer::debug::debug_test;
use storage_analyzer::scan::{sizes_fit, DriveScan};
use storage_analyzer::space::get_drive_space;
use storage_analyzer::types::{
    AnalysisError, DriveAnalysis, FileInfo, FileTypeEntry, FileTypeStats, FolderCandidate,
    FolderSize,
};

const MB: u64 = 1_048_576;
const GB: u64 = 1_073_741_824;
// 2024-06-30 12:00:00 UTC
const NOON: i64 = 1_719_748_800;

fn file(path: &str, size: u64, modified: Option<&str>) -> FileInfo {
    FileInfo {
        full_path: path.to_string(),
        size_bytes: size,
        last_modified: modified.map(|text| text.to_string()),
        last_accessed: None,
    }
}

fn candidate(path: &str, name: &str, depth: usize) -> FolderCandidate {
    FolderCandidate { path: path.to_string(), name: name.to_string(), depth }
}

fn paths(files: &[FileInfo]) -> Vec<String> {
    files.iter().map(|f| f.full_path.clone()).collect()
}

fn three_files() -> Vec<FileInfo> {
    vec![
        file("C:/a.txt", 50 * MB, Some("2024-06-20 12:00:00")),
        file("C:/b.log", 200 * MB, Some("2023-12-13 12:00:00")),
        file("C:/c.txt", 5 * MB, Some("2024-06-25 12:00:00")),
    ]
}

fn analyzer_with(drive: &str, files: Vec<FileInfo>, candidates: Vec<FolderCandidate>) -> StorageAnalyzer {
    let mut analyzer = StorageAnalyzer::new(vec![drive.to_string()]);
    let scan = DriveScan::new(files, &candidates);
    assert!(scan.is_some());
    assert_eq!(analyzer.collect_and_cache_files(drive, scan), Ok(()));
    analyzer
}

#[test]
fn scenario_of_three_files() {
    let analyzer = analyzer_with("C:/", three_files(), Vec::new());
    let largest = analyzer.get_largest_files("C:/").unwrap();
    assert_eq!(paths(&largest), vec!["C:/b.log", "C:/a.txt", "C:/c.txt"]);
    let recent = analyzer.recent_large_files_at("C:/", NOON).unwrap();
    assert_eq!(paths(&recent), vec!["C:/a.txt", "C:/c.txt"]);
    let old = analyzer.old_large_files_at("C:/", NOON).unwrap();
    assert_eq!(paths(&old), vec!["C:/b.log"]);
    let types = analyzer.get_file_type_distribution("C:/").unwrap();
    let names: Vec<&str> = types.iter().map(|l| l.extension.as_str()).collect();
    assert_eq!(names, vec!["log", "txt"]);
    assert_eq!(types[0].stats, FileTypeStats { total_size: 200 * MB, count: 1 });
    assert_eq!(types[1].stats, FileTypeStats { total_size: 55 * MB, count: 2 });
}

#[test]
fn scenario_of_a_file_without_modification_time() {
    let files = vec![
        file("C:/dated.bin", 10, Some("2024-06-29 12:00:00")),
        file("C:/ancient.bin", 10, Some("2001-01-01 00:00:00")),
        file("C:/undated.bin", 99, None),
    ];
    let analyzer = analyzer_with("C:/", files, Vec::new());
    let largest = analyzer.get_largest_files("C:/").unwrap();
    assert!(paths(&largest).contains(&"C:/undated.bin".to_string()));
    let recent = analyzer.recent_large_files_at("C:/", NOON).unwrap();
    assert_eq!(paths(&recent), vec!["C:/dated.bin"]);
    let old = analyzer.old_large_files_at("C:/", NOON).unwrap();
    assert_eq!(paths(&old), vec!["C:/ancient.bin"]);
}

#[test]
fn scenario_of_a_folder_at_the_threshold() {
    let files = vec![
        file("C:/at/x.bin", 107_374_182, None),
        file("C:/over/x.bin", 107_374_183, None),
    ];
    let candidates = vec![candidate("C:/at", "at", 1), candidate("C:/over", "over", 1)];
    let analyzer = analyzer_with("C:/", files, candidates);
    let folders = analyzer.get_largest_folders("C:/").unwrap();
    assert_eq!(
        folders,
        vec![FolderSize { folder: "C:/over".to_string(), size_bytes: 107_374_183, file_count: 1 }]
    );
}

#[test]
fn asking_twice_gives_the_same_lists() {
    let mut files = Vec::new();
    for i in 0..40u64 {
        let stamp = if i % 2 == 0 { Some("2024-06-29 12:00:00") } else { None };
        files.push(file(&format!("C:/f{:02}", i % 13), 1000 - (i / 4), stamp));
    }
    let analyzer = analyzer_with("C:/", files, Vec::new());
    let first = analyzer.get_largest_files("C:/").unwrap();
    let second = analyzer.get_largest_files("C:/").unwrap();
    assert_eq!(first, second);
    // a snapshot whose files are ranked already gives them as they stand
    let ranked = vec![
        file("C:/twin", 5, Some("2024-06-29 12:00:00")),
        file("C:/twin", 5, None),
        file("C:/twin", 5, Some("2001-01-01 00:00:00")),
        file("C:/z", 1, None),
    ];
    let again = analyzer_with("D:/", ranked.clone(), Vec::new());
    assert_eq!(again.get_largest_files("D:/").unwrap(), ranked);
    assert_eq!(again.get_largest_files("D:/").unwrap(), ranked);
    assert_eq!(
        again.recent_large_files_at("D:/", NOON).unwrap(),
        vec![ranked[0].clone()]
    );
    assert_eq!(again.old_large_files_at("D:/", NOON).unwrap(), vec![ranked[2].clone()]);
}

#[test]
fn largest_folders_say_what_the_snapshot_holds() {
    let files = vec![
        file("C:/a/x.bin", 200_000_000, None),
        file("C:/a/.hidden/deep/y.bin", 7, None),
        file("C:/b/z.bin", 300_000_000, None),
    ];
    let candidates = vec![
        candidate("C:/a", "a", 1),
        candidate("C:/a/.hidden", ".hidden", 2),
        candidate("C:/b", "b", 1),
    ];
    let analyzer = analyzer_with("C:/", files, candidates);
    assert_eq!(
        analyzer.get_largest_folders("C:/").unwrap(),
        vec![
            FolderSize { folder: "C:/b".to_string(), size_bytes: 300_000_000, file_count: 1 },
            FolderSize { folder: "C:/a".to_string(), size_bytes: 200_000_007, file_count: 2 },
        ]
    );
}

#[test]
fn volume_without_snapshot_has_no_answers() {
    let analyzer = analyzer_with("C:/", three_files(), Vec::new());
    assert!(analyzer.is_cached("C:/"));
    assert!(!analyzer.is_cached("D:/"));
    assert!(!analyzer.is_cached("c:/"));
    assert!(analyzer.cached_scan("C:/").is_some());
    assert!(analyzer.cached_scan("D:/").is_none());
    assert_eq!(analyzer.get_largest_files("D:/"), None);
    assert_eq!(analyzer.get_largest_folders("D:/"), None);
    assert_eq!(analyzer.get_file_type_distribution("D:/"), None);
    assert_eq!(analyzer.recent_large_files_at("D:/", NOON), None);
    assert_eq!(analyzer.old_large_files_at("D:/", NOON), None);
    assert_eq!(analyzer.get_recent_large_files("D:/"), None);
    assert_eq!(analyzer.get_old_large_files("D:/"), None);
    assert_eq!(analyzer.analyze_drive_at("D:/", Some((10, 5)), NOON), None);
    assert_eq!(analyzer.analyze_drive("D:/", Some((10, 5))), None);
}

#[test]
fn new_analyzer_knows_its_drives_and_nothing_else() {
    let analyzer = StorageAnalyzer::new(vec!["C:\\".to_string(), "D:\\".to_string()]);
    assert_eq!(analyzer.drives(), &vec!["C:\\".to_string(), "D:\\".to_string()]);
    assert!(!analyzer.is_cached("C:\\"));
    assert!(!analyzer.is_cached("D:\\"));
}

#[test]
fn second_scan_of_a_volume_is_dropped() {
    let mut analyzer = analyzer_with("C:/", three_files(), Vec::new());
    let before = analyzer.cached_scan("C:/").unwrap().file_list().clone();
    let later = DriveScan::new(vec![file("C:/new.bin", 1, None)], &Vec::new());
    assert_eq!(analyzer.collect_and_cache_files("C:/", later), Ok(()));
    let after = analyzer.cached_scan("C:/").unwrap().file_list().clone();
    assert_eq!(before, three_files());
    assert_eq!(after, before);
    assert_eq!(analyzer.collect_and_cache_files("C:/", None), Ok(()));
    assert_eq!(analyzer.cached_scan("C:/").unwrap().file_list(), &before);
    assert_eq!(analyzer.drives(), &vec!["C:/".to_string()]);
}

#[test]
fn failed_scan_is_an_invalid_volume() {
    let mut analyzer = StorageAnalyzer::new(Vec::new());
    assert_eq!(
        analyzer.collect_and_cache_files("Q:/", None),
        Err(AnalysisError::InvalidVolumeIdentifier)
    );
    assert!(!analyzer.is_cached("Q:/"));
    let scan = DriveScan::new(three_files(), &Vec::new());
    assert_eq!(analyzer.collect_and_cache_files("Q:/", scan), Ok(()));
    assert!(analyzer.is_cached("Q:/"));
}

#[test]
fn volumes_are_kept_apart() {
    let mut analyzer = analyzer_with("C:/", three_files(), Vec::new());
    let scan = DriveScan::new(vec![file("D:/only.bin", 77, None)], &Vec::new());
    assert_eq!(analyzer.collect_and_cache_files("D:/", scan), Ok(()));
    assert_eq!(paths(&analyzer.get_largest_files("D:/").unwrap()), vec!["D:/only.bin"]);
    assert_eq!(analyzer.get_largest_files("C:/").unwrap().len(), 3);
}

#[test]
fn scan_keeps_files_and_reportable_folders() {
    let files = vec![
        file("C:/data/a.bin", 100, None),
        file("C:/data/.git/b.bin", 20, None),
    ];
    let candidates = vec![
        candidate("C:/data", "data", 1),
        candidate("C:/data/.git", ".git", 2),
    ];
    let scan = DriveScan::new(files.clone(), &candidates).unwrap();
    assert_eq!(scan.file_list(), &files);
    assert_eq!(
        scan.folder_list(),
        &vec![FolderSize { folder: "C:/data".to_string(), size_bytes: 120, file_count: 2 }]
    );
}

#[test]
fn scan_of_more_bytes_than_can_be_counted_is_refused() {
    let files = vec![file("C:/a", u64::MAX, None), file("C:/b", 1, None)];
    assert!(!sizes_fit(&files));
    assert!(DriveScan::new(files, &Vec::new()).is_none());
    let fitting = vec![file("C:/a", u64::MAX - 1, None), file("C:/b", 1, None)];
    assert!(sizes_fit(&fitting));
    assert!(DriveScan::new(fitting, &Vec::new()).is_some());
    assert!(sizes_fit(&Vec::new()));
}

#[test]
fn lists_are_cut_to_ten() {
    let mut files = Vec::new();
    let mut candidates = Vec::new();
    for i in 0..12u64 {
        files.push(file(&format!("C:/dir{:02}/f.e{:02}", i, i), (i + 1) * GB, None));
        candidates.push(candidate(&format!("C:/dir{:02}", i), &format!("dir{:02}", i), 1));
    }
    let analyzer = analyzer_with("C:/", files, candidates);
    let largest = analyzer.get_largest_files("C:/").unwrap();
    assert_eq!(largest.len(), 10);
    assert_eq!(largest[0].full_path, "C:/dir11/f.e11");
    assert_eq!(largest[9].full_path, "C:/dir02/f.e02");
    let folders = analyzer.get_largest_folders("C:/").unwrap();
    assert_eq!(folders.len(), 10);
    assert_eq!(folders[0].folder, "C:/dir11");
    assert_eq!(folders[9].folder, "C:/dir02");
    let types = analyzer.get_file_type_distribution("C:/").unwrap();
    assert_eq!(types.len(), 10);
    assert_eq!(types[0].extension, "e11");
    assert_eq!(types[9].extension, "e02");
}

#[test]
fn full_report_holds_every_section() {
    let candidates = vec![candidate("C:/big", "big", 1), candidate("C:/small", "small", 1)];
    let files = vec![
        file("C:/big/a.txt", 150 * MB, Some("2024-06-20 12:00:00")),
        file("C:/big/b.log", 200 * MB, Some("2023-12-13 12:00:00")),
        file("C:/small/c.txt", 5 * MB, Some("2024-06-25 12:00:00")),
    ];
    let analyzer = analyzer_with("C:/", files, candidates);
    let report = analyzer.analyze_drive_at("C:/", Some((1000 * GB, 250 * GB)), NOON).unwrap();
    assert_eq!(
        report.space,
        Ok(DriveAnalysis {
            total_size: 1000 * GB,
            used_space: 750 * (GB as i128),
            free_space: 250 * GB,
            free_space_percent_x100: 2500,
        })
    );
    assert_eq!(
        report.largest_folders,
        vec![FolderSize { folder: "C:/big".to_string(), size_bytes: 350 * MB, file_count: 2 }]
    );
    assert_eq!(
        report.file_types,
        vec![
            FileTypeEntry {
                extension: "log".to_string(),
                stats: FileTypeStats { total_size: 200 * MB, count: 1 }
            },
            FileTypeEntry {
                extension: "txt".to_string(),
                stats: FileTypeStats { total_size: 155 * MB, count: 2 }
            },
        ]
    );
    assert_eq!(paths(&report.largest_files), vec!["C:/big/b.log", "C:/big/a.txt", "C:/small/c.txt"]);
    assert_eq!(paths(&report.recent_files), vec!["C:/big/a.txt", "C:/small/c.txt"]);
    assert_eq!(paths(&report.old_files), vec!["C:/big/b.log"]);
}

#[test]
fn full_report_survives_an_unavailable_volume() {
    let analyzer = analyzer_with("C:/", three_files(), Vec::new());
    let report = analyzer.analyze_drive_at("C:/", None, NOON).unwrap();
    assert_eq!(report.space, Err(AnalysisError::VolumeUnavailable));
    assert_eq!(report.largest_files.len(), 3);
    assert_eq!(report.file_types.len(), 2);
    assert_eq!(paths(&report.recent_files), vec!["C:/a.txt", "C:/c.txt"]);
}

fn days_ago(days: i64) -> String {
    (Utc::now() - Duration::days(days)).format("%Y-%m-%d %H:%M:%S").to_string()
}

fn aged_files(prefix: &str) -> Vec<FileInfo> {
    vec![
        file(&format!("{}fresh.bin", prefix), 10, Some(&days_ago(1))),
        file(&format!("{}middle.bin", prefix), 20, Some(&days_ago(100))),
        file(&format!("{}stale.bin", prefix), 30, Some(&days_ago(400))),
        file(&format!("{}unknown.bin", prefix), 40, None),
    ]
}

#[test]
fn recent_and_old_files_as_of_now() {
    let analyzer = analyzer_with("C:/", aged_files("C:/"), Vec::new());
    assert_eq!(paths(&analyzer.get_recent_large_files("C:/").unwrap()), vec!["C:/fresh.bin"]);
    assert_eq!(paths(&analyzer.get_old_large_files("C:/").unwrap()), vec!["C:/stale.bin"]);
    let report = analyzer.analyze_drive("C:/", Some((8, 8))).unwrap();
    assert_eq!(paths(&report.recent_files), vec!["C:/fresh.bin"]);
    assert_eq!(paths(&report.old_files), vec!["C:/stale.bin"]);
    assert_eq!(report.largest_files.len(), 4);
}

#[test]
fn debug_run_looks_at_drive_c() {
    let analyzer = analyzer_with("C:\\", aged_files("C:\\"), Vec::new());
    let (recent, old) = debug_test(&analyzer).unwrap();
    assert_eq!(paths(&recent), vec!["C:\\fresh.bin"]);
    assert_eq!(paths(&old), vec!["C:\\stale.bin"]);
    let elsewhere = analyzer_with("D:\\", aged_files("D:\\"), Vec::new());
    assert_eq!(debug_test(&elsewhere), None);
}

#[test]
fn drive_space_in_whole_bytes() {
    let expected = DriveAnalysis {
        total_size: 1000,
        used_space: 667,
        free_space: 333,
        free_space_percent_x100: 3330,
    };
    assert_eq!(get_drive_space(Some((1000, 333))), Ok(expected));
    let analyzer = StorageAnalyzer::new(Vec::new());
    assert_eq!(analyzer.get_drive_space(Some((1000, 333))), Ok(expected));
}

#[test]
fn drive_space_rounds_the_share_down() {
    assert_eq!(get_drive_space(Some((3, 1))).unwrap().free_space_percent_x100, 3333);
    assert_eq!(get_drive_space(Some((3, 2))).unwrap().free_space_percent_x100, 6666);
    assert_eq!(get_drive_space(Some((7, 7))).unwrap().free_space_percent_x100, 10_000);
    assert_eq!(get_drive_space(Some((7, 0))).unwrap().free_space_percent_x100, 0);
    let full = get_drive_space(Some((u64::MAX, u64::MAX))).unwrap();
    assert_eq!(full.free_space_percent_x100, 10_000);
    assert_eq!(full.used_space, 0);
    let nearly = get_drive_space(Some((u64::MAX, u64::MAX - 1))).unwrap();
    assert_eq!(nearly.free_space_percent_x100, 9_999);
    assert_eq!(nearly.used_space, 1);
}

#[test]
fn drive_space_of_an_empty_volume() {
    assert_eq!(
        get_drive_space(Some((0, 0))),
        Ok(DriveAnalysis { total_size: 0, used_space: 0, free_space: 0, free_space_percent_x100: 0 })
    );
}

#[test]
fn volume_without_answer_is_unavailable() {
    assert_eq!(get_drive_space(None), Err(AnalysisError::VolumeUnavailable));
    let analyzer = StorageAnalyzer::new(Vec::new());
    assert_eq!(analyzer.get_drive_space(None), Err(AnalysisError::VolumeUnavailable));
}

#[test]
fn every_answer_is_a_reading() {
    for (total, free) in [(0, 0), (5, 6), (0, 1), (1, u64::MAX), (u64::MAX, 0), (9, 9)] {
        assert!(get_drive_space(Some((total, free))).is_ok());
    }
}

#[test]
fn more_free_bytes_than_bytes_are_read_as_they_came() {
    assert_eq!(
        get_drive_space(Some((5, 6))),
        Ok(DriveAnalysis {
            total_size: 5,
            used_space: -1,
            free_space: 6,
            free_space_percent_x100: 12_000,
        })
    );
    assert_eq!(
        get_drive_space(Some((0, 1))),
        Ok(DriveAnalysis { total_size: 0, used_space: 0 - 1, free_space: 1, free_space_percent_x100: 0 })
    );
    let quota = get_drive_space(Some((100 * GB, 250 * GB))).unwrap();
    assert_eq!(quota.used_space, -150 * (GB as i128));
    assert_eq!(quota.free_space_percent_x100, 25_000);
    let extreme = get_drive_space(Some((1, u64::MAX))).unwrap();
    assert_eq!(extreme.used_space, 1 - (u64::MAX as i128));
    assert_eq!(extreme.free_space_percent_x100, (u64::MAX as u128) * 10_000);
    let other = get_drive_space(Some((u64::MAX, 0))).unwrap();
    assert_eq!(other.used_space, u64::MAX as i128);
}
