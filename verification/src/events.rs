//! The event loop's decision core.
//!
//! The application blocks on the watcher, reads metadata, sleeps, renames
//! and notifies; this module decides everything else. `process_event`
//! carries one change notification through the filters, the stability
//! watch, the classifier and the mover's plan. `SweepCursor` decides
//! when the periodic sweep runs.

use vstd::prelude::*;
use crate::category::{Category, classify, spec_classify};
use crate::mover::{MovePlan, SpecPlan, plan_move, spec_plan_move};
use crate::path::{FilePath, spec_path_extension, spec_transient};
use crate::stability::{Probe, WatchOutcome, spec_watch, watch_until_stable};

verus! {

/// Seconds of wall-clock time between two sweep passes.
pub const SWEEP_INTERVAL_SECS: u64 = 60;

/// Seconds the detector waits between two size observations.
pub const SETTLE_INTERVAL_SECS: u64 = 1;

/// How one change notification was handled, at the specification level.
pub enum SpecEventOutcome {
    SkippedArchive,
    SkippedNonFile,
    SkippedTemporary,
    FileGone { checks: usize },
    FailedMetadata { checks: usize },
    StillUnsettled,
    Stable { checks: usize, category: Category, plan: SpecPlan },
}

/// How one change notification was handled.
pub enum EventOutcome {
    /// The path lies in the archive area: live events there are ignored.
    SkippedArchive,
    /// The path does not name a regular file.
    SkippedNonFile,
    /// The file carries the in-progress marker extension.
    SkippedTemporary,
    /// The file vanished while settling: benign, no move, no failure.
    FileGone { checks: usize },
    /// A metadata read failed: reported to the caller, no move.
    FailedMetadata { checks: usize },
    /// The observations ran out before the file settled.
    StillUnsettled,
    /// The file settled after `checks` observations; carry out `plan`.
    Stable { checks: usize, category: Category, plan: MovePlan },
}

impl View for EventOutcome {
    type V = SpecEventOutcome;

    open spec fn view(&self) -> SpecEventOutcome {
        match self {
            EventOutcome::SkippedArchive => SpecEventOutcome::SkippedArchive,
            EventOutcome::SkippedNonFile => SpecEventOutcome::SkippedNonFile,
            EventOutcome::SkippedTemporary => SpecEventOutcome::SkippedTemporary,
            EventOutcome::FileGone { checks } => SpecEventOutcome::FileGone { checks: *checks },
            EventOutcome::FailedMetadata { checks } => SpecEventOutcome::FailedMetadata {
                checks: *checks,
            },
            EventOutcome::StillUnsettled => SpecEventOutcome::StillUnsettled,
            EventOutcome::Stable { checks, category, plan } => SpecEventOutcome::Stable {
                checks: *checks,
                category: *category,
                plan: plan@,
            },
        }
    }
}

/// What handling one change notification amounts to: the filters in
/// order (archive area, non-file, transient marker), then the stability
/// watch over `probes`, then classification and the mover's plan against
/// the watched root.
pub open spec fn spec_process_event(
    path: Seq<Seq<char>>,
    root: Seq<Seq<char>>,
    archive: Seq<Seq<char>>,
    is_file: bool,
    probes: Seq<Probe>,
) -> SpecEventOutcome {
    if archive.is_prefix_of(path) {
        SpecEventOutcome::SkippedArchive
    } else if !is_file {
        SpecEventOutcome::SkippedNonFile
    } else if spec_transient(path) {
        SpecEventOutcome::SkippedTemporary
    } else {
        match spec_watch(0, probes, 0) {
            WatchOutcome::Gone { checks } => SpecEventOutcome::FileGone { checks },
            WatchOutcome::Failed { checks } => SpecEventOutcome::FailedMetadata { checks },
            WatchOutcome::Unsettled => SpecEventOutcome::StillUnsettled,
            WatchOutcome::Settled { checks } => {
                let cat = spec_classify(spec_path_extension(path));
                SpecEventOutcome::Stable {
                    checks,
                    category: cat,
                    plan: spec_plan_move(path, root, cat),
                }
            },
        }
    }
}

/// Handles one change notification for `path`. `is_file` says whether
/// the path named a regular file when the event was looked at; `probes`
/// are the size observations gathered at settle-interval spacing.
pub fn process_event(
    path: &FilePath,
    watch_root: &FilePath,
    archive_root: &FilePath,
    is_file: bool,
    probes: &Vec<Probe>,
) -> (r: EventOutcome)
    ensures
        r@ == spec_process_event(path@, watch_root@, archive_root@, is_file, probes@),
{
    if path.starts_with(archive_root) {
        return EventOutcome::SkippedArchive;
    }
    if !is_file {
        return EventOutcome::SkippedNonFile;
    }
    if path.is_transient() {
        return EventOutcome::SkippedTemporary;
    }
    let ext = path.path_extension();
    match watch_until_stable(probes) {
        WatchOutcome::Settled { checks } => {
            let cat = classify(ext);
            let plan = plan_move(path, watch_root, cat);
            EventOutcome::Stable { checks, category: cat, plan }
        },
        WatchOutcome::Gone { checks } => EventOutcome::FileGone { checks },
        WatchOutcome::Failed { checks } => EventOutcome::FailedMetadata { checks },
        WatchOutcome::Unsettled => EventOutcome::StillUnsettled,
    }
}

/// The sweep cursor: the loop's record of when the last sweep
/// completed, in seconds of whatever clock the caller reads.
pub struct SweepCursor {
    pub last_sweep: u64,
}

impl SweepCursor {
    /// A cursor that treats `now` as the moment of the last sweep.
    pub fn new(now: u64) -> (r: SweepCursor)
        ensures
            r.last_sweep == now,
    {
        SweepCursor { last_sweep: now }
    }

    /// Whether the periodic sweep is due at `now`: a whole sweep
    /// interval has elapsed since the last one. A clock reading from
    /// before the last sweep never makes a sweep due.
    pub fn due(&self, now: u64) -> (r: bool)
        ensures
            r == (now - self.last_sweep >= SWEEP_INTERVAL_SECS),
    {
        now >= self.last_sweep && now - self.last_sweep >= SWEEP_INTERVAL_SECS
    }

    /// Records that a sweep completed at `now`.
    pub fn reset(&mut self, now: u64)
        ensures
            final(self).last_sweep == now,
    {
        self.last_sweep = now;
    }
}

/// LAW (gone-path safety): when an event passes the filters and the very
/// first metadata observation finds the path gone, the event completes
/// as the benign `FileGone` after that single check: no move is planned
/// and no failure is reported.
pub proof fn lemma_gone_path_safe(
    path: Seq<Seq<char>>,
    root: Seq<Seq<char>>,
    archive: Seq<Seq<char>>,
    probes: Seq<Probe>,
)
    requires
        !archive.is_prefix_of(path),
        !spec_transient(path),
        probes.len() > 0,
        probes[0] == Probe::Missing,
    ensures
        spec_process_event(path, root, archive, true, probes) == (SpecEventOutcome::FileGone {
            checks: 1,
        }),
{
}

} // verus!
