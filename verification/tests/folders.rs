use storage_analyzer::constants::{
    DATE_FORMAT, GB_TO_BYTES, MAX_FOLDER_DEPTH, MB_TO_BYTES, MIN_FILE_TYPE_SIZE_BYTES,
    MIN_FOLDER_SIZE_BYTES, NO_EXTENSION, OLD_DAYS, RECENT_DAYS, SECONDS_PER_DAY, TOP_COUNT,
};
use storage_analyzer::folders::{
    calculate_folder_size, folder_sizes, get_largest_folders, is_hidden, lies_beneath,
    lies_beneath_bytes, may_be_reported,
};
use storage_analyzer::types::{FileInfo, FolderCandidate, FolderSize};

const FOLDER_THRESHOLD: u64 = 107_374_182;

fn sized(path: &str, size: u64) -> FileInfo {
    FileInfo { full_path: path.to_string(), size_bytes: size, last_modified: None, last_accessed: None }
}

fn candidate(path: &str, name: &str, depth: usize) -> FolderCandidate {
    FolderCandidate { path: path.to_string(), name: name.to_string(), depth }
}

fn summary(folder: &str, size_bytes: u64, file_count: usize) -> FolderSize {
    FolderSize { folder: folder.to_string(), size_bytes, file_count }
}

fn tree() -> Vec<FileInfo> {
    vec![
        sized("C:/data/a.bin", 100),
        sized("C:/data/deep/er/and/deeper/b.bin", 20),
        sized("C:/data/.cache/c.bin", 3),
        sized("C:/database/d.bin", 4000),
        sized("C:/data", 50000),
        sized("C:/other/e.bin", 600000),
        sized("C:\\data\\f.bin", 7000000),
    ]
}

#[test]
fn folder_size_adds_up_every_file_beneath() {
    let got = calculate_folder_size("C:/data", &tree());
    assert_eq!(got, summary("C:/data", 123, 3));
}

#[test]
fn folder_size_counts_files_under_hidden_folders() {
    let got = calculate_folder_size("C:/data/.cache", &tree());
    assert_eq!(got, summary("C:/data/.cache", 3, 1));
    let above = calculate_folder_size("C:/data", &tree());
    assert_eq!(above.size_bytes, 100 + 20 + 3);
}

#[test]
fn folder_size_of_the_root_takes_all_beneath_it() {
    let got = calculate_folder_size("C:/", &tree());
    assert_eq!(got, summary("C:/", 100 + 20 + 3 + 4000 + 50000 + 600000, 6));
    let backslash = calculate_folder_size("C:\\", &tree());
    assert_eq!(backslash, summary("C:\\", 7000000, 1));
}

#[test]
fn folder_size_of_an_empty_folder_is_zero() {
    assert_eq!(calculate_folder_size("C:/nothing", &tree()), summary("C:/nothing", 0, 0));
    assert_eq!(calculate_folder_size("C:/data", &Vec::new()), summary("C:/data", 0, 0));
}

#[test]
fn beneath_needs_a_separator_after_the_folder() {
    assert!(lies_beneath("C:/data/a.bin", "C:/data"));
    assert!(lies_beneath("C:/data/x/y/a.bin", "C:/data"));
    assert!(lies_beneath("C:\\data\\a.bin", "C:\\data"));
    assert!(lies_beneath("C:/data/a.bin", "C:/data/"));
    assert!(lies_beneath("C:/a", "C:/"));
    assert!(!lies_beneath("C:/database/a.bin", "C:/data"));
    assert!(!lies_beneath("C:/data", "C:/data"));
    assert!(!lies_beneath("C:/data/", "C:/data/"));
    assert!(!lies_beneath("C:/dat", "C:/data"));
    assert!(!lies_beneath("D:/data/a.bin", "C:/data"));
    assert!(lies_beneath("/a", ""));
    assert!(!lies_beneath("a", ""));
    assert!(!lies_beneath("", ""));
}

#[test]
fn beneath_is_told_from_the_bytes() {
    assert!(lies_beneath_bytes(b"ab/c", b"ab"));
    assert!(lies_beneath_bytes(b"ab\\c", b"ab"));
    assert!(!lies_beneath_bytes(b"abc", b"ab"));
    assert!(lies_beneath_bytes(b"a/c", b"a/"));
    assert!(lies_beneath("C:/caf\u{e9}/a", "C:/caf\u{e9}"));
    assert!(!lies_beneath("C:/caf\u{e9}s/a", "C:/caf\u{e9}"));
}

#[test]
fn hidden_names_start_with_a_dot() {
    assert!(is_hidden(".git"));
    assert!(is_hidden("."));
    assert!(!is_hidden("git"));
    assert!(!is_hidden("a.b"));
    assert!(!is_hidden(""));
}

#[test]
fn folders_are_reported_down_to_depth_three() {
    assert!(!may_be_reported(&candidate("C:/", "C:/", 0)));
    assert!(may_be_reported(&candidate("C:/a", "a", 1)));
    assert!(may_be_reported(&candidate("C:/a/b", "b", 2)));
    assert!(may_be_reported(&candidate("C:/a/b/c", "c", 3)));
    assert!(!may_be_reported(&candidate("C:/a/b/c/d", "d", 4)));
    assert!(!may_be_reported(&candidate("C:/.a", ".a", 1)));
    assert!(may_be_reported(&candidate("C:/.a/b", "b", 2)));
}

#[test]
fn folder_sizes_skips_hidden_and_deep_folders() {
    let candidates = vec![
        candidate("C:/data", "data", 1),
        candidate("C:/data/.cache", ".cache", 2),
        candidate("C:/data/deep", "deep", 2),
        candidate("C:/data/deep/er/and/deeper", "deeper", 5),
        candidate("C:/database", "database", 1),
    ];
    let got = folder_sizes(&candidates, &tree());
    assert_eq!(
        got,
        vec![
            summary("C:/data", 123, 3),
            summary("C:/data/deep", 20, 1),
            summary("C:/database", 4000, 1),
        ]
    );
}

#[test]
fn folder_exactly_at_the_threshold_is_left_out() {
    let files = vec![
        sized("C:/at/one.bin", FOLDER_THRESHOLD - 10),
        sized("C:/at/sub/two.bin", 10),
        sized("C:/over/one.bin", FOLDER_THRESHOLD),
        sized("C:/over/.hidden/two.bin", 1),
    ];
    let candidates = vec![candidate("C:/at", "at", 1), candidate("C:/over", "over", 1)];
    let summaries = folder_sizes(&candidates, &files);
    assert_eq!(summaries[0].size_bytes, FOLDER_THRESHOLD);
    assert_eq!(summaries[1].size_bytes, FOLDER_THRESHOLD + 1);
    let largest = get_largest_folders(&summaries);
    assert_eq!(largest, vec![summary("C:/over", FOLDER_THRESHOLD + 1, 2)]);
}

#[test]
fn largest_folders_come_largest_first() {
    let summaries = vec![
        summary("C:/b", FOLDER_THRESHOLD + 5, 1),
        summary("C:/tiny", 12, 100),
        summary("C:/c", FOLDER_THRESHOLD + 9, 2),
        summary("C:/a", FOLDER_THRESHOLD + 5, 3),
    ];
    let largest = get_largest_folders(&summaries);
    let names: Vec<&str> = largest.iter().map(|f| f.folder.as_str()).collect();
    assert_eq!(names, vec!["C:/c", "C:/a", "C:/b"]);
    assert!(get_largest_folders(&Vec::new()).is_empty());
}

#[test]
fn constants_are_whole_bytes() {
    assert_eq!(GB_TO_BYTES, 1 << 30);
    assert_eq!(MB_TO_BYTES, 1 << 20);
    // a tenth and a hundredth of a gigabyte, rounded down
    assert_eq!(MIN_FOLDER_SIZE_BYTES, GB_TO_BYTES / 10);
    assert_eq!(MIN_FILE_TYPE_SIZE_BYTES, GB_TO_BYTES / 100);
    assert!((MIN_FOLDER_SIZE_BYTES as f64) / (GB_TO_BYTES as f64) <= 0.1);
    assert!(((MIN_FOLDER_SIZE_BYTES + 1) as f64) / (GB_TO_BYTES as f64) > 0.1);
    assert!((MIN_FILE_TYPE_SIZE_BYTES as f64) / (GB_TO_BYTES as f64) <= 0.01);
    assert!(((MIN_FILE_TYPE_SIZE_BYTES + 1) as f64) / (GB_TO_BYTES as f64) > 0.01);
    assert_eq!(SECONDS_PER_DAY, 24 * 60 * 60);
    assert_eq!(RECENT_DAYS, 30);
    assert_eq!(OLD_DAYS, 180);
    assert_eq!(TOP_COUNT, 10);
    assert_eq!(MAX_FOLDER_DEPTH, 3);
    assert_eq!(DATE_FORMAT, "%Y-%m-%d %H:%M:%S");
    assert_eq!(NO_EXTENSION, "(No Extension)");
}
