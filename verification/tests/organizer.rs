use downloads_organizer::events::{process_event, EventOutcome, SweepCursor, SWEEP_INTERVAL_SECS};
use downloads_organizer::mover::plan_move;
use downloads_organizer::path::{extension_of, str_eq};
use downloads_organizer::stability::{
    stability_step, watch_until_stable, Probe, StepVerdict, WatchOutcome,
};
use downloads_organizer::{Category, FilePath, MovePlan};

fn path(parts: &[&str]) -> FilePath {
    FilePath { parts: parts.iter().map(|s| s.to_string()).collect() }
}

fn parts(names: &[&str]) -> Vec<String> {
    names.iter().map(|s| s.to_string()).collect()
}

#[test]
fn extensions_of_names() {
    assert_eq!(extension_of("photo.jpg"), Some("jpg"));
    assert_eq!(extension_of("archive.tar.gz"), Some("gz"));
    assert_eq!(extension_of("README"), None);
    assert_eq!(extension_of(".gitignore"), None);
    assert_eq!(extension_of("trailing."), Some(""));
    assert_eq!(extension_of(""), None);
}

#[test]
fn path_operations() {
    let root = path(&["root"]);
    let child = root.child("photo.jpg");
    assert_eq!(child.parts, parts(&["root", "photo.jpg"]));
    assert_eq!(child.file_name().map(|s| s.as_str()), Some("photo.jpg"));
    assert!(child.starts_with(&root));
    assert!(!root.starts_with(&child));
    assert!(child.equals(&path(&["root", "photo.jpg"])));
    assert!(!child.equals(&root));
    assert!(child.duplicate().equals(&child));
    assert_eq!(child.path_extension(), Some("jpg"));
    assert!(str_eq("tmp", "tmp"));
    assert!(!str_eq("tmp", "TMP"));
    assert!(path(&["root", "draft.tmp"]).is_transient());
    assert!(!path(&["root", "draft.txt"]).is_transient());
    assert!(!path(&["root", "draft.TMP"]).is_transient());
}

#[test]
fn move_plan_renames_into_category_folder() {
    let root = path(&["root"]);
    let from = path(&["root", "notes.txt"]);
    match plan_move(&from, &root, Category::Documents) {
        MovePlan::Rename { dir, to } => {
            assert_eq!(dir.parts, parts(&["root", "Documents"]));
            assert_eq!(to.parts, parts(&["root", "Documents", "notes.txt"]));
        }
        _ => panic!("expected a rename"),
    }
}

#[test]
fn placing_twice_is_a_no_op_the_second_time() {
    let root = path(&["root"]);
    let from = path(&["root", "song.mp3"]);
    let to = match plan_move(&from, &root, Category::Audio) {
        MovePlan::Rename { to, .. } => to,
        _ => panic!("expected a rename"),
    };
    assert_eq!(to.parts, parts(&["root", "Audio", "song.mp3"]));
    // The second call plans no rename, so it also fires no notification.
    assert!(matches!(plan_move(&to, &root, Category::Audio), MovePlan::NoOp));
}

#[test]
fn move_plan_of_empty_path_is_invalid() {
    let root = path(&["root"]);
    let empty = FilePath::empty();
    assert!(matches!(plan_move(&empty, &root, Category::Others), MovePlan::Invalid));
}

#[test]
fn detector_steps() {
    assert_eq!(stability_step(0, Probe::Size(0)), StepVerdict::Settled);
    assert_eq!(stability_step(0, Probe::Size(10)), StepVerdict::Unsettled { prev: 10 });
    assert_eq!(stability_step(10, Probe::Size(10)), StepVerdict::Settled);
    assert_eq!(stability_step(10, Probe::Missing), StepVerdict::Gone);
    assert_eq!(stability_step(10, Probe::Failed), StepVerdict::Error);
}

#[test]
fn detector_settles_only_after_a_repeated_size() {
    // A file written in bursts: sizes 1000, then 5000, each burst one
    // settle interval apart. It settles only once 5000 repeats.
    let bursts = vec![Probe::Size(1000), Probe::Size(5000), Probe::Size(5000)];
    assert_eq!(watch_until_stable(&bursts), WatchOutcome::Settled { checks: 3 });
    assert_eq!(watch_until_stable(&vec![Probe::Size(1000)]), WatchOutcome::Unsettled);
    assert_eq!(
        watch_until_stable(&vec![Probe::Size(1000), Probe::Size(5000)]),
        WatchOutcome::Unsettled
    );
    // An already empty file is trivially stable at the first check.
    assert_eq!(watch_until_stable(&vec![Probe::Size(0)]), WatchOutcome::Settled { checks: 1 });
}

#[test]
fn scenario_photo_written_in_three_chunks() {
    // 10MB arriving in three 1-second-spaced chunks: the move happens
    // only after the third chunk plus one settle interval, into
    // root/Images/photo.jpg.
    let root = path(&["root"]);
    let archive = path(&["root", "Unused"]);
    let photo = path(&["root", "photo.jpg"]);
    let growing = vec![
        Probe::Size(3_000_000),
        Probe::Size(6_000_000),
        Probe::Size(10_000_000),
    ];
    assert_eq!(watch_until_stable(&growing), WatchOutcome::Unsettled);
    let mut settled = growing.clone();
    settled.push(Probe::Size(10_000_000));
    match process_event(&photo, &root, &archive, true, &settled) {
        EventOutcome::Stable { checks, category, plan } => {
            assert_eq!(checks, 4);
            assert_eq!(category, Category::Images);
            match plan {
                MovePlan::Rename { dir, to } => {
                    assert_eq!(dir.parts, parts(&["root", "Images"]));
                    assert_eq!(to.parts, parts(&["root", "Images", "photo.jpg"]));
                }
                _ => panic!("expected a rename"),
            }
        }
        _ => panic!("expected the file to settle"),
    }
}

#[test]
fn scenario_in_progress_marker_is_never_processed() {
    // draft.tmp carries the in-progress marker: the live-event path skips
    // it however long it keeps settling.
    let root = path(&["root"]);
    let archive = path(&["root", "Unused"]);
    let draft = path(&["root", "draft.tmp"]);
    let probes = vec![Probe::Size(5), Probe::Size(5)];
    assert!(matches!(
        process_event(&draft, &root, &archive, true, &probes),
        EventOutcome::SkippedTemporary
    ));
    // The marker match is exact, as the original filesystem treats it.
    let upper = path(&["root", "draft.TMP"]);
    assert!(!matches!(
        process_event(&upper, &root, &archive, true, &probes),
        EventOutcome::SkippedTemporary
    ));
}

#[test]
fn scenario_vanished_path_is_benign() {
    // The file disappears between the notification and the first
    // metadata check: the event completes with no move and no failure.
    let root = path(&["root"]);
    let archive = path(&["root", "Unused"]);
    let gone = path(&["root", "gone.pdf"]);
    let probes = vec![Probe::Missing];
    match process_event(&gone, &root, &archive, true, &probes) {
        EventOutcome::FileGone { checks } => assert_eq!(checks, 1),
        _ => panic!("expected the benign gone outcome"),
    }
    // Vanishing after a first size check is just as benign.
    let later = vec![Probe::Size(7), Probe::Missing];
    match process_event(&gone, &root, &archive, true, &later) {
        EventOutcome::FileGone { checks } => assert_eq!(checks, 2),
        _ => panic!("expected the benign gone outcome"),
    }
}

#[test]
fn events_in_archive_area_or_for_directories_are_skipped() {
    let root = path(&["root"]);
    let archive = path(&["root", "Unused"]);
    let archived = path(&["root", "Unused", "Documents", "old.txt"]);
    let probes = vec![Probe::Size(0)];
    assert!(matches!(
        process_event(&archived, &root, &archive, true, &probes),
        EventOutcome::SkippedArchive
    ));
    let dir = path(&["root", "Videos"]);
    assert!(matches!(
        process_event(&dir, &root, &archive, false, &probes),
        EventOutcome::SkippedNonFile
    ));
}

#[test]
fn metadata_failure_is_reported() {
    let root = path(&["root"]);
    let archive = path(&["root", "Unused"]);
    let p = path(&["root", "locked.txt"]);
    let probes = vec![Probe::Size(3), Probe::Failed];
    match process_event(&p, &root, &archive, true, &probes) {
        EventOutcome::FailedMetadata { checks } => assert_eq!(checks, 2),
        _ => panic!("expected the failure outcome"),
    }
}

#[test]
fn sweep_cadence() {
    assert_eq!(SWEEP_INTERVAL_SECS, 60);
    let mut cursor = SweepCursor::new(100);
    assert!(!cursor.due(100));
    assert!(!cursor.due(159));
    assert!(cursor.due(160));
    assert!(cursor.due(500));
    // A clock reading from before the last sweep never makes one due.
    assert!(!cursor.due(40));
    cursor.reset(160);
    assert_eq!(cursor.last_sweep, 160);
    assert!(!cursor.due(219));
    assert!(cursor.due(220));
}
