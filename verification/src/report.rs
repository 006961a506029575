//! The report analyzer: the statistics behind the weekly report.
//!
//! Over the files gathered by a walk of the watched tree it computes the
//! total size, the per-extension file counts and sizes (keyed by the
//! lowercased extension, `unknown` when there is none), and the count
//! and size of the files already archived. Rendering those statistics to
//! HTML is string templating and stays with the application.

use vstd::prelude::*;
use vstd::pervasive::VecAdditionalExecFns;
use crate::path::{FilePath, spec_path_extension};
use crate::sweep::FileRecord;

verus! {

/// What `str::to_lowercase` returns for `s`: a function of the
/// characters alone.
pub uninterp spec fn lower_of(s: Seq<char>) -> Seq<char>;

/// Relies on str::to_lowercase: the result depends on the characters
/// alone.
#[verifier::external_body]
fn lowercase(s: &str) -> (r: String)
    ensures
        r@ == lower_of(s@),
{
    s.to_lowercase()
}

/// The key a file is counted under: its lowercased extension, or
/// `unknown` when it has none.
pub open spec fn spec_ext_key(p: Seq<Seq<char>>) -> Seq<char> {
    match spec_path_extension(p) {
        Some(e) => lower_of(e),
        None => "unknown"@,
    }
}

/// How many of `files` are counted under `key`.
pub open spec fn spec_count_ext(files: Seq<FileRecord>, key: Seq<char>) -> int
    decreases files.len(),
{
    if files.len() == 0 {
        0
    } else {
        spec_count_ext(files.drop_last(), key) + (if spec_ext_key(files.last().path@) == key {
            1int
        } else {
            0int
        })
    }
}

/// The summed size of the `files` counted under `key`.
pub open spec fn spec_size_ext(files: Seq<FileRecord>, key: Seq<char>) -> int
    decreases files.len(),
{
    if files.len() == 0 {
        0
    } else {
        spec_size_ext(files.drop_last(), key) + (if spec_ext_key(files.last().path@) == key {
            files.last().size as int
        } else {
            0int
        })
    }
}

/// The summed size of all of `files`.
pub open spec fn spec_total_size(files: Seq<FileRecord>) -> int
    decreases files.len(),
{
    if files.len() == 0 {
        0
    } else {
        spec_total_size(files.drop_last()) + files.last().size as int
    }
}

/// How many of `files` lie under the archive root.
pub open spec fn spec_unused_count(files: Seq<FileRecord>, archive: Seq<Seq<char>>) -> int
    decreases files.len(),
{
    if files.len() == 0 {
        0
    } else {
        spec_unused_count(files.drop_last(), archive) + (if archive.is_prefix_of(
            files.last().path@,
        ) {
            1int
        } else {
            0int
        })
    }
}

/// The summed size of the `files` that lie under the archive root.
pub open spec fn spec_unused_size(files: Seq<FileRecord>, archive: Seq<Seq<char>>) -> int
    decreases files.len(),
{
    if files.len() == 0 {
        0
    } else {
        spec_unused_size(files.drop_last(), archive) + (if archive.is_prefix_of(
            files.last().path@,
        ) {
            files.last().size as int
        } else {
            0int
        })
    }
}

/// One row of the per-extension breakdown.
pub struct ExtStat {
    /// The lowercased extension, or `unknown`.
    pub ext: String,
    pub count: usize,
    /// Summed bytes; wide enough that no sum of `u64` sizes overflows.
    pub size: u128,
}

/// The statistics the weekly report renders.
pub struct FolderStats {
    pub total_size: u128,
    pub by_ext: Vec<ExtStat>,
    pub unused_count: usize,
    pub unused_size: u128,
}

proof fn lemma_count_le_len(files: Seq<FileRecord>, key: Seq<char>)
    ensures
        0 <= spec_count_ext(files, key) <= files.len(),
    decreases files.len(),
{
    if files.len() > 0 {
        lemma_count_le_len(files.drop_last(), key);
    }
}

proof fn lemma_size_bounds(files: Seq<FileRecord>, key: Seq<char>)
    ensures
        0 <= spec_size_ext(files, key) <= files.len() * (u64::MAX as int),
        0 <= spec_total_size(files) <= files.len() * (u64::MAX as int),
    decreases files.len(),
{
    if files.len() > 0 {
        lemma_size_bounds(files.drop_last(), key);
    }
}

proof fn lemma_unused_bounds(files: Seq<FileRecord>, archive: Seq<Seq<char>>)
    ensures
        0 <= spec_unused_count(files, archive) <= files.len(),
        0 <= spec_unused_size(files, archive) <= files.len() * (u64::MAX as int),
    decreases files.len(),
{
    if files.len() > 0 {
        lemma_unused_bounds(files.drop_last(), archive);
    }
}

/// A key that no file carries counts zero files and zero bytes.
proof fn lemma_absent_key(files: Seq<FileRecord>, key: Seq<char>)
    requires
        forall|t: int| 0 <= t < files.len() ==> spec_ext_key(files[t].path@) != key,
    ensures
        spec_count_ext(files, key) == 0,
        spec_size_ext(files, key) == 0,
    decreases files.len(),
{
    if files.len() > 0 {
        assert(forall|t: int|
            0 <= t < files.drop_last().len() ==> spec_ext_key(
                files.drop_last()[t].path@,
            ) != key);
        lemma_absent_key(files.drop_last(), key);
    }
}

proof fn lemma_group_step(files: Seq<FileRecord>, i: int, key: Seq<char>)
    requires
        0 <= i < files.len(),
    ensures
        spec_count_ext(files.take(i + 1), key) == spec_count_ext(files.take(i), key) + (
        if spec_ext_key(files[i].path@) == key {
            1int
        } else {
            0int
        }),
        spec_size_ext(files.take(i + 1), key) == spec_size_ext(files.take(i), key) + (
        if spec_ext_key(files[i].path@) == key {
            files[i].size as int
        } else {
            0int
        }),
{
    assert(files.take(i + 1).drop_last() =~= files.take(i));
    assert(files.take(i + 1).last() == files[i]);
}

proof fn lemma_totals_step(files: Seq<FileRecord>, i: int, archive: Seq<Seq<char>>)
    requires
        0 <= i < files.len(),
    ensures
        spec_total_size(files.take(i + 1)) == spec_total_size(files.take(i)) + files[i].size as int,
        spec_unused_count(files.take(i + 1), archive) == spec_unused_count(files.take(i), archive)
            + (if archive.is_prefix_of(files[i].path@) {
            1int
        } else {
            0int
        }),
        spec_unused_size(files.take(i + 1), archive) == spec_unused_size(files.take(i), archive) + (
        if archive.is_prefix_of(files[i].path@) {
            files[i].size as int
        } else {
            0int
        }),
{
    assert(files.take(i + 1).drop_last() =~= files.take(i));
    assert(files.take(i + 1).last() == files[i]);
}


/// Every entry's count and size are exact over `files`.
pub open spec fn entries_exact(files: Seq<FileRecord>, by: Seq<ExtStat>) -> bool {
    forall|k: int|
        0 <= k < by.len() ==> (#[trigger] by[k]).count as int == spec_count_ext(files, by[k].ext@)
            && by[k].size as int == spec_size_ext(files, by[k].ext@)
}

/// No two entries share a key.
pub open spec fn entries_unique(by: Seq<ExtStat>) -> bool {
    forall|k1: int, k2: int|
        0 <= k1 < k2 < by.len() ==> (#[trigger] by[k1].ext@) != (#[trigger] by[k2].ext@)
}

/// Some entry carries `key`.
pub open spec fn has_key(by: Seq<ExtStat>, key: Seq<char>) -> bool {
    exists|k: int| 0 <= k < by.len() && (#[trigger] by[k]).ext@ == key
}

/// Every one of the first `upto` files has an entry for its key.
pub open spec fn entries_complete(files: Seq<FileRecord>, by: Seq<ExtStat>, upto: int) -> bool {
    forall|t: int| 0 <= t < upto ==> has_key(by, spec_ext_key((#[trigger] files[t]).path@))
}

proof fn lemma_update_entry(
    files: Seq<FileRecord>,
    i: int,
    old_by: Seq<ExtStat>,
    new_by: Seq<ExtStat>,
    j: int,
)
    requires
        0 <= i < files.len(),
        entries_exact(files.take(i), old_by),
        entries_unique(old_by),
        entries_complete(files, old_by, i),
        0 <= j < old_by.len(),
        old_by[j].ext@ == spec_ext_key(files[i].path@),
        new_by.len() == old_by.len(),
        forall|k: int| 0 <= k < old_by.len() && k != j ==> new_by[k] == old_by[k],
        new_by[j].ext@ == old_by[j].ext@,
        new_by[j].count as int == old_by[j].count + 1,
        new_by[j].size as int == old_by[j].size + files[i].size,
    ensures
        entries_exact(files.take(i + 1), new_by),
        entries_unique(new_by),
        entries_complete(files, new_by, i + 1),
{
    let key = spec_ext_key(files[i].path@);
    assert forall|k: int|
        0 <= k < new_by.len() implies (#[trigger] new_by[k]).count as int == spec_count_ext(
        files.take(i + 1),
        new_by[k].ext@,
    ) && new_by[k].size as int == spec_size_ext(files.take(i + 1), new_by[k].ext@) by {
        lemma_group_step(files, i, new_by[k].ext@);
        if k != j {
            if k < j {
                assert(old_by[k].ext@ != old_by[j].ext@);
            } else {
                assert(old_by[j].ext@ != old_by[k].ext@);
            }
        }
    }
    assert(forall|k: int| 0 <= k < new_by.len() ==> (#[trigger] new_by[k]).ext@ == old_by[k].ext@);
    assert forall|t: int| 0 <= t < i + 1 implies has_key(
        new_by,
        spec_ext_key((#[trigger] files[t]).path@),
    ) by {
        if t == i {
            assert(new_by[j].ext@ == spec_ext_key(files[t].path@));
        } else {
            assert(has_key(old_by, spec_ext_key(files[t].path@)));
            let k0 = choose|k: int|
                0 <= k < old_by.len() && (#[trigger] old_by[k]).ext@ == spec_ext_key(
                    files[t].path@,
                );
            assert(new_by[k0].ext@ == spec_ext_key(files[t].path@));
        }
    }
}

proof fn lemma_push_entry(
    files: Seq<FileRecord>,
    i: int,
    old_by: Seq<ExtStat>,
    new_by: Seq<ExtStat>,
)
    requires
        0 <= i < files.len(),
        entries_exact(files.take(i), old_by),
        entries_unique(old_by),
        entries_complete(files, old_by, i),
        !has_key(old_by, spec_ext_key(files[i].path@)),
        new_by.len() == old_by.len() + 1,
        forall|k: int| 0 <= k < old_by.len() ==> new_by[k] == old_by[k],
        new_by.last().ext@ == spec_ext_key(files[i].path@),
        new_by.last().count as int == 1,
        new_by.last().size as int == files[i].size,
    ensures
        entries_exact(files.take(i + 1), new_by),
        entries_unique(new_by),
        entries_complete(files, new_by, i + 1),
{
    let key = spec_ext_key(files[i].path@);
    assert forall|t: int| 0 <= t < i implies spec_ext_key((#[trigger] files[t]).path@) != key by {
        if spec_ext_key(files[t].path@) == key {
            assert(has_key(old_by, key));
        }
    }
    assert(forall|t: int|
        0 <= t < files.take(i).len() ==> spec_ext_key(
            (#[trigger] files.take(i)[t]).path@,
        ) != key);
    lemma_absent_key(files.take(i), key);
    assert forall|k: int|
        0 <= k < new_by.len() implies (#[trigger] new_by[k]).count as int == spec_count_ext(
        files.take(i + 1),
        new_by[k].ext@,
    ) && new_by[k].size as int == spec_size_ext(files.take(i + 1), new_by[k].ext@) by {
        lemma_group_step(files, i, new_by[k].ext@);
        if k < old_by.len() {
            assert(new_by[k].ext@ != key);
        }
    }
    assert forall|k1: int, k2: int|
        0 <= k1 < k2 < new_by.len() implies (#[trigger] new_by[k1].ext@) != (
    #[trigger] new_by[k2].ext@) by {
        if k2 == new_by.len() - 1 {
            assert(new_by[k1].ext@ != key);
        }
    }
    assert forall|t: int| 0 <= t < i + 1 implies has_key(
        new_by,
        spec_ext_key((#[trigger] files[t]).path@),
    ) by {
        if t == i {
            assert(new_by[new_by.len() - 1].ext@ == spec_ext_key(files[t].path@));
        } else {
            assert(has_key(old_by, spec_ext_key(files[t].path@)));
            let k0 = choose|k: int|
                0 <= k < old_by.len() && (#[trigger] old_by[k]).ext@ == spec_ext_key(
                    files[t].path@,
                );
            assert(new_by[k0].ext@ == spec_ext_key(files[t].path@));
        }
    }
}

/// Computes the report statistics over the walked files: exact total
/// size; for every key that occurs, one entry (and no duplicates) with
/// the exact count and summed size of the files counted under it; and
/// the exact count and size of the files already under the archive root.
pub fn analyze_folder(files: &Vec<FileRecord>, archive_root: &FilePath) -> (r: FolderStats)
    ensures
        r.total_size as int == spec_total_size(files@),
        r.unused_count as int == spec_unused_count(files@, archive_root@),
        r.unused_size as int == spec_unused_size(files@, archive_root@),
        entries_exact(files@, r.by_ext@),
        entries_unique(r.by_ext@),
        entries_complete(files@, r.by_ext@, files@.len() as int),
{
    let mut total: u128 = 0;
    let mut unused_count: usize = 0;
    let mut unused_size: u128 = 0;
    let mut by_ext: Vec<ExtStat> = Vec::new();
    let n = files.len();
    assert(files@.take(0) =~= Seq::<FileRecord>::empty());
    for i in 0..n
        invariant
            n == files@.len(),
            total as int == spec_total_size(files@.take(i as int)),
            unused_count as int == spec_unused_count(files@.take(i as int), archive_root@),
            unused_size as int == spec_unused_size(files@.take(i as int), archive_root@),
            entries_exact(files@.take(i as int), by_ext@),
            entries_unique(by_ext@),
            entries_complete(files@, by_ext@, i as int),
    {
        let f = &files[i];
        let key: String = match f.path.path_extension() {
            Some(e) => lowercase(e),
            None => String::from_str("unknown"),
        };
        assert(key@ == spec_ext_key(f.path@));
        proof {
            lemma_totals_step(files@, i as int, archive_root@);
            lemma_size_bounds(files@.take(i as int), key@);
            lemma_unused_bounds(files@.take(i as int), archive_root@);
            assert((i + 1) * (u64::MAX as int) <= n * (u64::MAX as int)) by (nonlinear_arith)
                requires
                    i + 1 <= n,
            ;
        }
        total = total + (f.size as u128);
        if f.path.starts_with(archive_root) {
            unused_count = unused_count + 1;
            unused_size = unused_size + (f.size as u128);
        }
        let mut j: usize = 0;
        while j < by_ext.len() && !(by_ext[j].ext == key)
            invariant
                j <= by_ext.len(),
                forall|t: int| 0 <= t < j ==> (#[trigger] by_ext@[t].ext@) != key@,
            decreases by_ext.len() - j,
        {
            j = j + 1;
        }
        let ghost old_by = by_ext@;
        if j < by_ext.len() {
            let c = by_ext[j].count;
            let s = by_ext[j].size;
            let ext_copy = by_ext[j].ext.clone();
            proof {
                lemma_count_le_len(files@.take(i as int), key@);
            }
            by_ext.set(j, ExtStat { ext: ext_copy, count: c + 1, size: s + (f.size as u128) });
            proof {
                lemma_update_entry(files@, i as int, old_by, by_ext@, j as int);
            }
        } else {
            proof {
                assert(!has_key(old_by, key@));
            }
            by_ext.push(ExtStat { ext: key, count: 1, size: f.size as u128 });
            proof {
                lemma_push_entry(files@, i as int, old_by, by_ext@);
            }
        }
    }
    proof {
        assert(files@.take(n as int) =~= files@);
    }
    FolderStats { total_size: total, by_ext, unused_count, unused_size }
}

} // verus!
