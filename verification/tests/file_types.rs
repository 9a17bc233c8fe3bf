use storage_analyzer::distribution::get_file_type_distribution;
use storage_analyzer::file_types::{file_type, file_type_label};
use storage_analyzer::tally::ExtensionTally;
use storage_analyzer::types::{FileInfo, FileTypeEntry, FileTypeStats};

const MB: u64 = 1_048_576;
const THRESHOLD: u64 = 10_737_418;

fn sized(path: &str, size: u64) -> FileInfo {
    FileInfo { full_path: path.to_string(), size_bytes: size, last_modified: None, last_accessed: None }
}

fn line(extension: &str, total_size: u64, count: usize) -> FileTypeEntry {
    FileTypeEntry { extension: extension.to_string(), stats: FileTypeStats { total_size, count } }
}

#[test]
fn file_type_is_the_extension_in_lower_case() {
    assert_eq!(file_type("C:/docs/report.txt"), "txt");
    assert_eq!(file_type("C:/docs/REPORT.TXT"), "txt");
    assert_eq!(file_type("C:/docs/Photo.JpEg"), "jpeg");
    assert_eq!(file_type("archive.tar.gz"), "gz");
    assert_eq!(file_type("C:/docs/\u{c9}t\u{e9}.\u{c9}T\u{c9}"), "\u{e9}t\u{e9}");
}

#[test]
fn file_without_extension_gets_the_sentinel() {
    assert_eq!(file_type("C:/docs/README"), "(No Extension)");
    assert_eq!(file_type("C:/home/.bashrc"), "(No Extension)");
    assert_eq!(file_type(""), "(No Extension)");
    assert_eq!(file_type("C:/dir.d/plain"), "(No Extension)");
}

#[test]
fn file_type_label_lowers_or_names_the_sentinel() {
    assert_eq!(file_type_label(Some("LOG".to_string())), "log");
    assert_eq!(file_type_label(Some("log".to_string())), "log");
    assert_eq!(file_type_label(Some(String::new())), "");
    assert_eq!(file_type_label(None), "(No Extension)");
}

#[test]
fn distribution_of_the_three_files() {
    let files = vec![
        sized("C:/a.txt", 50 * MB),
        sized("C:/b.log", 200 * MB),
        sized("C:/c.txt", 5 * MB),
    ];
    let lines = get_file_type_distribution(&files);
    assert_eq!(lines, vec![line("log", 200 * MB, 1), line("txt", 55 * MB, 2)]);
}

#[test]
fn distribution_groups_without_regard_to_case() {
    let files = vec![
        sized("C:/one.TXT", 20 * MB),
        sized("C:/two.txt", 30 * MB),
        sized("C:/three.Txt", 1),
    ];
    let lines = get_file_type_distribution(&files);
    assert_eq!(lines, vec![line("txt", 50 * MB + 1, 3)]);
}

#[test]
fn distribution_drops_a_type_at_the_threshold() {
    let files = vec![
        sized("C:/at.aaa", THRESHOLD),
        sized("C:/over.bbb", THRESHOLD + 1),
        sized("C:/half.ccc", THRESHOLD / 2),
        sized("C:/other_half.ccc", THRESHOLD / 2),
        sized("C:/more.ccc", 2 + THRESHOLD % 2),
    ];
    let lines = get_file_type_distribution(&files);
    assert_eq!(lines, vec![line("ccc", THRESHOLD + 2, 3), line("bbb", THRESHOLD + 1, 1)]);
}

#[test]
fn distribution_orders_equal_sizes_by_type_name() {
    let files = vec![
        sized("C:/x.zip", 40 * MB),
        sized("C:/y.avi", 40 * MB),
        sized("C:/z", 40 * MB),
        sized("C:/w.mp4", 41 * MB),
    ];
    let lines = get_file_type_distribution(&files);
    let names: Vec<&str> = lines.iter().map(|l| l.extension.as_str()).collect();
    assert_eq!(names, vec!["mp4", "(No Extension)", "avi", "zip"]);
}

#[test]
fn distribution_of_no_files_is_empty() {
    assert!(get_file_type_distribution(&Vec::new()).is_empty());
}

#[test]
fn distribution_lists_no_more_than_the_files_hold() {
    let files = vec![
        sized("C:/a.iso", 700 * MB),
        sized("C:/b.iso", 650 * MB),
        sized("C:/c.txt", 3),
        sized("C:/d.mkv", 900 * MB),
        sized("C:/e", 12),
    ];
    let total: u64 = files.iter().map(|f| f.size_bytes).sum();
    let lines = get_file_type_distribution(&files);
    let listed: u64 = lines.iter().map(|l| l.stats.total_size).sum();
    assert_eq!(listed, 2250 * MB);
    assert!(listed <= total);
    assert_eq!(total - listed, 15);
}

#[test]
fn distribution_lists_everything_when_nothing_is_dropped() {
    let files = vec![
        sized("C:/a.iso", 700 * MB),
        sized("C:/b.iso", 650 * MB),
        sized("C:/d.mkv", 900 * MB),
    ];
    let total: u64 = files.iter().map(|f| f.size_bytes).sum();
    let listed: u64 = get_file_type_distribution(&files).iter().map(|l| l.stats.total_size).sum();
    assert_eq!(listed, total);
}

#[test]
fn distribution_does_not_depend_on_the_order_of_the_files() {
    let mut files = Vec::new();
    for i in 0..3000u64 {
        let extension = ["txt", "LOG", "bin", "Txt", "dat"][(i % 5) as usize];
        files.push(sized(&format!("C:/dir{}/f{}.{}", i % 7, i, extension), 30_000 + i));
    }
    let forward = get_file_type_distribution(&files);
    files.reverse();
    let backward = get_file_type_distribution(&files);
    files.rotate_left(1234);
    let rotated = get_file_type_distribution(&files);
    assert_eq!(forward, backward);
    assert_eq!(forward, rotated);
    let names: Vec<&str> = forward.iter().map(|l| l.extension.as_str()).collect();
    assert_eq!(names, vec!["txt", "dat", "bin", "log"]);
    assert_eq!(forward[0].stats, FileTypeStats { total_size: 37_798_800, count: 1200 });
    assert_eq!(forward[3].stats, FileTypeStats { total_size: 18_899_100, count: 600 });
}

#[test]
fn tally_counts_files_by_type() {
    let tally = ExtensionTally::new()
        .record("txt".to_string(), 20 * MB)
        .record("log".to_string(), 11 * MB)
        .record("txt".to_string(), 5)
        .record("tmp".to_string(), 7);
    assert_eq!(
        tally.into_distribution(),
        vec![line("txt", 20 * MB + 5, 2), line("log", 11 * MB, 1)]
    );
}

#[test]
fn tally_add_takes_many_files_at_once() {
    let tally = ExtensionTally::new()
        .add("iso".to_string(), FileTypeStats { total_size: 30 * MB, count: 4 })
        .add("iso".to_string(), FileTypeStats { total_size: 10 * MB, count: 2 });
    assert_eq!(tally.into_distribution(), vec![line("iso", 40 * MB, 6)]);
}

#[test]
fn merged_tallies_equal_the_tally_of_all_files() {
    let left = ExtensionTally::new()
        .record("txt".to_string(), 6 * MB)
        .record("log".to_string(), 30 * MB);
    let right = ExtensionTally::new()
        .record("bin".to_string(), 12 * MB)
        .record("txt".to_string(), 6 * MB);
    let whole = ExtensionTally::new()
        .record("txt".to_string(), 6 * MB)
        .record("log".to_string(), 30 * MB)
        .record("bin".to_string(), 12 * MB)
        .record("txt".to_string(), 6 * MB);
    let expected = vec![line("log", 30 * MB, 1), line("bin", 12 * MB, 1), line("txt", 12 * MB, 2)];
    assert_eq!(whole.into_distribution(), expected);
    assert_eq!(left.merge(right).into_distribution(), expected);
}

#[test]
fn merging_in_either_order_gives_the_same() {
    let make_left = || ExtensionTally::new().record("a".to_string(), 11 * MB).record("b".to_string(), 12 * MB);
    let make_right = || ExtensionTally::new().record("b".to_string(), 13 * MB).record("c".to_string(), 14 * MB);
    assert_eq!(
        make_left().merge(make_right()).into_distribution(),
        make_right().merge(make_left()).into_distribution()
    );
}

#[test]
fn merging_with_the_empty_tally_changes_nothing() {
    let make = || ExtensionTally::new().record("a".to_string(), 11 * MB);
    let expected = vec![line("a", 11 * MB, 1)];
    assert_eq!(make().merge(ExtensionTally::new()).into_distribution(), expected);
    assert_eq!(ExtensionTally::new().merge(make()).into_distribution(), expected);
    assert!(ExtensionTally::new().into_distribution().is_empty());
}

#[test]
fn file_type_stats_start_at_zero() {
    let stats = FileTypeStats::default();
    assert_eq!(stats.total_size, 0);
    assert_eq!(stats.count, 0);
}
