use downloads_organizer::sweep::{is_stale, sweep_plan, FileRecord, CUTOFF_SECS};
use downloads_organizer::FilePath;

const DAY: u64 = 24 * 60 * 60;

fn path(parts: &[&str]) -> FilePath {
    FilePath { parts: parts.iter().map(|s| s.to_string()).collect() }
}

fn parts(names: &[&str]) -> Vec<String> {
    names.iter().map(|s| s.to_string()).collect()
}

fn record(p: &[&str], mtime: u64) -> FileRecord {
    FileRecord { path: path(p), size: 1, mtime }
}

#[test]
fn staleness_boundary() {
    assert_eq!(CUTOFF_SECS, 30 * DAY);
    let now = 100 * DAY;
    assert!(is_stale(now - 31 * DAY, now, CUTOFF_SECS));
    assert!(is_stale(now - 30 * DAY, now, CUTOFF_SECS));
    assert!(!is_stale(now - 30 * DAY + 1, now, CUTOFF_SECS));
    assert!(!is_stale(now - 10 * DAY, now, CUTOFF_SECS));
    assert!(!is_stale(now + DAY, now, CUTOFF_SECS));
    assert!(!is_stale(0, CUTOFF_SECS - 1, CUTOFF_SECS));
}

#[test]
fn sweep_relocates_only_stale_unarchived_files() {
    // Three files: stale, fresh, and stale but already archived. Only the
    // first is relocated; the sweep leaves the other two in place.
    let now = 100 * DAY;
    let archive = path(&["root", "Unused"]);
    let files = vec![
        record(&["root", "old.pdf"], now - 40 * DAY),
        record(&["root", "recent.pdf"], now - 10 * DAY),
        record(&["root", "Unused", "Documents", "ancient.pdf"], now - 40 * DAY),
    ];
    let steps = sweep_plan(&files, &archive, CUTOFF_SECS, now);
    assert_eq!(steps.len(), 1);
    assert_eq!(steps[0].from.parts, parts(&["root", "old.pdf"]));
    assert_eq!(steps[0].dir.parts, parts(&["root", "Unused", "Documents"]));
    assert_eq!(steps[0].to.parts, parts(&["root", "Unused", "Documents", "old.pdf"]));
}

#[test]
fn scenario_stale_notes_archived_once() {
    // root/notes.txt, modified 40 days ago with a 30-day cutoff, goes to
    // root/Unused/Documents/notes.txt; a second sweep leaves it there.
    let now = 100 * DAY;
    let archive = path(&["root", "Unused"]);
    let before = vec![record(&["root", "notes.txt"], now - 40 * DAY)];
    let steps = sweep_plan(&before, &archive, CUTOFF_SECS, now);
    assert_eq!(steps.len(), 1);
    assert_eq!(steps[0].to.parts, parts(&["root", "Unused", "Documents", "notes.txt"]));
    let after = vec![record(&["root", "Unused", "Documents", "notes.txt"], now - 40 * DAY)];
    assert_eq!(sweep_plan(&after, &archive, CUTOFF_SECS, now).len(), 0);
}

#[test]
fn sweep_never_moves_marker_files() {
    // A file that keeps the in-progress marker extension is never
    // relocated by a sweep pass: not while fresh, and not even once its
    // modification time is far past the cutoff.
    let now = 100 * DAY;
    let archive = path(&["root", "Unused"]);
    let files = vec![
        record(&["root", "draft.tmp"], now - 60),
        record(&["root", "draft.tmp"], now - 40 * DAY),
    ];
    assert_eq!(sweep_plan(&files, &archive, CUTOFF_SECS, now).len(), 0);
    // Dropping the marker makes the stale file eligible again.
    let renamed = vec![record(&["root", "draft.txt"], now - 40 * DAY)];
    assert_eq!(sweep_plan(&renamed, &archive, CUTOFF_SECS, now).len(), 1);
}

#[test]
fn sweep_reaches_into_category_folders() {
    let now = 100 * DAY;
    let archive = path(&["root", "Unused"]);
    let files = vec![record(&["root", "Images", "old.png"], now - 31 * DAY)];
    let steps = sweep_plan(&files, &archive, CUTOFF_SECS, now);
    assert_eq!(steps.len(), 1);
    assert_eq!(steps[0].to.parts, parts(&["root", "Unused", "Images", "old.png"]));
}

#[test]
fn sweep_keeps_visiting_order() {
    let now = 100 * DAY;
    let archive = path(&["root", "Unused"]);
    let files = vec![
        record(&["root", "b.mp3"], now - 40 * DAY),
        record(&["root", "a.png"], now - 40 * DAY),
    ];
    let steps = sweep_plan(&files, &archive, CUTOFF_SECS, now);
    assert_eq!(steps.len(), 2);
    assert_eq!(steps[0].from.parts, parts(&["root", "b.mp3"]));
    assert_eq!(steps[1].from.parts, parts(&["root", "a.png"]));
}
