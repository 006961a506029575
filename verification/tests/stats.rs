use downloads_organizer::report::{analyze_folder, ExtStat};
use downloads_organizer::sweep::FileRecord;
use downloads_organizer::week::{date_before, is_new_week, report_due, report_status_line, Date};
use downloads_organizer::FilePath;

fn path(parts: &[&str]) -> FilePath {
    FilePath { parts: parts.iter().map(|s| s.to_string()).collect() }
}

fn record(p: &[&str], size: u64) -> FileRecord {
    FileRecord { path: path(p), size, mtime: 0 }
}

fn row<'a>(rows: &'a [ExtStat], key: &str) -> &'a ExtStat {
    rows.iter().find(|e| e.ext == key).expect("missing breakdown row")
}

#[test]
fn folder_statistics_are_exact() {
    let archive = path(&["root", "Unused"]);
    let files = vec![
        record(&["root", "a.jpg"], 100),
        record(&["root", "b.JPG"], 50),
        record(&["root", "notes.txt"], 7),
        record(&["root", "README"], 3),
        record(&["root", "Unused", "Documents", "old.txt"], 40),
    ];
    let stats = analyze_folder(&files, &archive);
    assert_eq!(stats.total_size, 200);
    assert_eq!(stats.unused_count, 1);
    assert_eq!(stats.unused_size, 40);
    assert_eq!(stats.by_ext.len(), 3);
    // Keys are lowercased, so a.jpg and b.JPG share one row.
    let jpg = row(&stats.by_ext, "jpg");
    assert_eq!(jpg.count, 2);
    assert_eq!(jpg.size, 150);
    let txt = row(&stats.by_ext, "txt");
    assert_eq!(txt.count, 2);
    assert_eq!(txt.size, 47);
    // A file without extension is counted under `unknown`.
    let unknown = row(&stats.by_ext, "unknown");
    assert_eq!(unknown.count, 1);
    assert_eq!(unknown.size, 3);
}

#[test]
fn empty_folder_statistics() {
    let archive = path(&["root", "Unused"]);
    let stats = analyze_folder(&vec![], &archive);
    assert_eq!(stats.total_size, 0);
    assert_eq!(stats.unused_count, 0);
    assert_eq!(stats.unused_size, 0);
    assert_eq!(stats.by_ext.len(), 0);
}

#[test]
fn date_ordering() {
    let a = Date { year: 2024, month: 5, day: 10 };
    assert!(date_before(&a, &Date { year: 2025, month: 1, day: 1 }));
    assert!(date_before(&a, &Date { year: 2024, month: 6, day: 1 }));
    assert!(date_before(&a, &Date { year: 2024, month: 5, day: 11 }));
    assert!(!date_before(&a, &a));
    assert!(!date_before(&a, &Date { year: 2023, month: 12, day: 31 }));
}

#[test]
fn new_week_decision() {
    let week_start = Date { year: 2024, month: 5, day: 5 };
    assert!(is_new_week(None, week_start));
    assert!(is_new_week(Some(Date { year: 2024, month: 5, day: 4 }), week_start));
    assert!(!is_new_week(Some(week_start), week_start));
    assert!(!is_new_week(Some(Date { year: 2024, month: 5, day: 8 }), week_start));
}

#[test]
fn report_due_without_usable_status() {
    // No status recorded, or one that does not parse: a report is due.
    assert!(report_due(None));
    assert!(report_due(Some("not a date")));
    assert!(report_due(Some("")));
}

#[test]
fn report_due_for_old_and_fresh_status() {
    // A report last generated long ago is due again; one generated today
    // is not, since today never precedes the running week's start.
    assert!(report_due(Some("1970-01-01")));
    let today = report_status_line().expect("today should render");
    assert!(!report_due(Some(today.as_str())));
}

#[test]
fn status_line_is_iso_formatted() {
    let line = report_status_line().expect("today should render");
    let bytes = line.as_bytes();
    assert_eq!(bytes.len(), 10);
    assert_eq!(bytes[4], b'-');
    assert_eq!(bytes[7], b'-');
    for i in [0, 1, 2, 3, 5, 6, 8, 9] {
        assert!(bytes[i].is_ascii_digit());
    }
}
