//! The sweep: archiving files that have not been modified for the cutoff
//! age.
//!
//! The application walks the watched tree (skipping the archive root
//! itself, as `FilePath::equals` decides), gathers one `FileRecord` per
//! file it reaches, and asks `sweep_plan` which renames to perform. Files
//! under the archive root are never reached by that walk and are planned
//! around here as well, so an already archived file is never moved twice;
//! a file that keeps the in-progress marker extension is never archived,
//! however stale it has become.

use vstd::prelude::*;
use crate::category::{Category, classify, spec_classify};
use crate::mover::{MovePlan, SpecPlan, plan_move, spec_plan_move, spec_target_path};
use crate::path::{FilePath, spec_path_extension, spec_transient};

verus! {

/// Seconds of inactivity after which a file counts as stale: thirty days.
pub const CUTOFF_SECS: u64 = 30 * 24 * 60 * 60;

/// Whether a file last modified at `mtime` is stale at `now`: at least
/// `cutoff` seconds have passed since its last modification.
pub open spec fn spec_stale(mtime: u64, now: u64, cutoff: u64) -> bool {
    now - mtime >= cutoff
}

/// Decides staleness; times are seconds since an arbitrary common epoch.
pub fn is_stale(mtime: u64, now: u64, cutoff: u64) -> (r: bool)
    ensures
        r == spec_stale(mtime, now, cutoff),
{
    now >= cutoff && mtime <= now - cutoff
}

/// One file met during the walk over the watched tree.
pub struct FileRecord {
    pub path: FilePath,
    /// Size in bytes.
    pub size: u64,
    /// Modification time, in seconds since an arbitrary common epoch.
    pub mtime: u64,
}

/// A planned archival move, at the specification level.
pub struct SweepMove {
    pub from: Seq<Seq<char>>,
    pub dir: Seq<Seq<char>>,
    pub to: Seq<Seq<char>>,
    pub category: Category,
}

/// A planned archival move: ensure `dir` exists, rename `from` to `to`,
/// then notify with the file's name and `category`.
pub struct RenameStep {
    pub from: FilePath,
    pub dir: FilePath,
    pub to: FilePath,
    pub category: Category,
}

impl View for RenameStep {
    type V = SweepMove;

    open spec fn view(&self) -> SweepMove {
        SweepMove { from: self.from@, dir: self.dir@, to: self.to@, category: self.category }
    }
}

/// What the sweep does with one file: nothing when the file lies in the
/// archive area, carries the in-progress marker extension, or is not
/// stale; otherwise the mover's rename towards the archive root, which
/// is a no-op for a file already correctly archived.
pub open spec fn spec_sweep_file(
    f: FileRecord,
    archive: Seq<Seq<char>>,
    cutoff: u64,
    now: u64,
) -> Seq<SweepMove> {
    if archive.is_prefix_of(f.path@) || spec_transient(f.path@) || !spec_stale(
        f.mtime,
        now,
        cutoff,
    ) {
        Seq::empty()
    } else {
        let cat = spec_classify(spec_path_extension(f.path@));
        match spec_plan_move(f.path@, archive, cat) {
            SpecPlan::Rename { dir, to } => seq![
                SweepMove { from: f.path@, dir, to, category: cat },
            ],
            _ => Seq::empty(),
        }
    }
}

/// The renames a sweep performs over `files`, in visiting order.
pub open spec fn spec_sweep(
    files: Seq<FileRecord>,
    archive: Seq<Seq<char>>,
    cutoff: u64,
    now: u64,
) -> Seq<SweepMove>
    decreases files.len(),
{
    if files.len() == 0 {
        Seq::empty()
    } else {
        spec_sweep(files.drop_last(), archive, cutoff, now) + spec_sweep_file(
            files.last(),
            archive,
            cutoff,
            now,
        )
    }
}

/// LAW (sweep safety): a sweep plans no move for a file that is not
/// stale, nor for one already lying in the archive area, nor — however
/// stale — for one that keeps the in-progress marker extension. A file
/// the sweep archived stays where it was put, a fresh file stays where
/// its owner left it, and a file still being written is never archived.
pub proof fn lemma_sweep_spares(f: FileRecord, archive: Seq<Seq<char>>, cutoff: u64, now: u64)
    requires
        archive.is_prefix_of(f.path@) || spec_transient(f.path@) || !spec_stale(
            f.mtime,
            now,
            cutoff,
        ),
    ensures
        spec_sweep_file(f, archive, cutoff, now) == Seq::<SweepMove>::empty(),
{
}

/// LAW (archival is final): every move a sweep plans targets a path
/// inside the archive area, so a later sweep — whatever its cutoff or
/// clock — plans no further move for the file at that path: rerunning
/// the sweep leaves an archived file where it was put.
pub proof fn lemma_swept_file_stays(
    f: FileRecord,
    archive: Seq<Seq<char>>,
    cutoff: u64,
    now: u64,
    g: FileRecord,
    cutoff2: u64,
    now2: u64,
)
    requires
        spec_sweep_file(f, archive, cutoff, now).len() > 0,
        g.path@ == spec_sweep_file(f, archive, cutoff, now)[0].to,
    ensures
        spec_sweep_file(g, archive, cutoff2, now2) == Seq::<SweepMove>::empty(),
{
    let cat = spec_classify(spec_path_extension(f.path@));
    let to = spec_target_path(f.path@, archive, cat);
    assert(spec_sweep_file(f, archive, cutoff, now)[0].to == to);
    assert(to.subrange(0, archive.len() as int) =~= archive);
    assert(archive.is_prefix_of(g.path@));
    lemma_sweep_spares(g, archive, cutoff2, now2);
}

/// Plans one sweep pass: for each visited file that is stale at `now`,
/// does not lie in the archive area and does not carry the in-progress
/// marker, the rename that files it under the archive root's category
/// subfolder. Untouched files yield no step.
pub fn sweep_plan(files: &Vec<FileRecord>, archive_root: &FilePath, cutoff: u64, now: u64) -> (r:
    Vec<RenameStep>)
    ensures
        r@.map_values(|s: RenameStep| s@) == spec_sweep(files@, archive_root@, cutoff, now),
{
    let mut r: Vec<RenameStep> = Vec::new();
    let n = files.len();
    assert(files@.take(0) =~= Seq::<FileRecord>::empty());
    assert(r@.map_values(|s: RenameStep| s@) =~= Seq::<SweepMove>::empty());
    for i in 0..n
        invariant
            n == files@.len(),
            r@.map_values(|s: RenameStep| s@) == spec_sweep(
                files@.take(i as int),
                archive_root@,
                cutoff,
                now,
            ),
    {
        let ghost pre = files@.take(i as int);
        let ghost post = files@.take(i as int + 1);
        proof {
            assert(post.drop_last() =~= pre);
            assert(post.last() == files@[i as int]);
        }
        let f = &files[i];
        if !f.path.starts_with(archive_root) && !f.path.is_transient() && is_stale(
            f.mtime,
            now,
            cutoff,
        ) {
            let cat = classify(f.path.path_extension());
            let plan = plan_move(&f.path, archive_root, cat);
            match plan {
                MovePlan::Rename { dir, to } => {
                    let step = RenameStep { from: f.path.duplicate(), dir, to, category: cat };
                    r.push(step);
                },
                _ => {},
            }
        }
        proof {
            assert(r@.map_values(|s: RenameStep| s@) =~= spec_sweep(
                post,
                archive_root@,
                cutoff,
                now,
            ));
        }
    }
    proof {
        assert(files@.take(n as int) =~= files@);
    }
    r
}

} // verus!
