//! The stability detector: judging when a file has finished being written.
//!
//! The detector polls the file's size once per settle interval. Each poll
//! is a `Probe`; the application performs the metadata reads and the
//! sleeps and feeds the observed values in. The file is judged settled
//! exactly when an observed size equals the previously observed one (the
//! initial previous size is zero, so a first observation of an empty file
//! settles at once). A missing path is a benign `Gone`; any other
//! metadata failure stops the watch with an error.

use vstd::prelude::*;

verus! {

/// One observation of a path's metadata.
#[derive(Clone, Copy, PartialEq, Eq, Structural, Debug)]
pub enum Probe {
    /// The file exists and has this size in bytes.
    Size(u64),
    /// The path no longer exists.
    Missing,
    /// The metadata read failed for another reason.
    Failed,
}

/// The detector's verdict after a single observation.
#[derive(Clone, Copy, PartialEq, Eq, Structural, Debug)]
pub enum StepVerdict {
    /// The size matched the previous observation: the file has settled.
    Settled,
    /// The size changed: wait one settle interval and probe again.
    Unsettled { prev: u64 },
    /// The path vanished while settling: benign, stop without action.
    Gone,
    /// The metadata read failed: stop and report.
    Error,
}

/// The outcome of watching a file across a whole run of observations.
/// `checks` counts the observations consumed, the deciding one included.
#[derive(Clone, Copy, PartialEq, Eq, Structural, Debug)]
pub enum WatchOutcome {
    /// The file settled: its size repeated across one settle interval.
    Settled { checks: usize },
    /// The path vanished while settling.
    Gone { checks: usize },
    /// A metadata read failed.
    Failed { checks: usize },
    /// The observations ran out with the file still growing.
    Unsettled,
}

/// What one observation does to the detector's state.
pub open spec fn spec_step(prev: u64, p: Probe) -> StepVerdict {
    match p {
        Probe::Size(s) => if s == prev {
            StepVerdict::Settled
        } else {
            StepVerdict::Unsettled { prev: s }
        },
        Probe::Missing => StepVerdict::Gone,
        Probe::Failed => StepVerdict::Error,
    }
}

/// One step of the detector: compare the freshly observed probe against
/// the previously observed size.
pub fn stability_step(prev: u64, p: Probe) -> (r: StepVerdict)
    ensures
        r == spec_step(prev, p),
{
    match p {
        Probe::Size(s) => if s == prev {
            StepVerdict::Settled
        } else {
            StepVerdict::Unsettled { prev: s }
        },
        Probe::Missing => StepVerdict::Gone,
        Probe::Failed => StepVerdict::Error,
    }
}

/// The outcome of running the detector from previous size `prev` over
/// `probes`, with `consumed` observations already behind it.
pub open spec fn spec_watch(prev: u64, probes: Seq<Probe>, consumed: usize) -> WatchOutcome
    decreases probes.len(),
{
    if probes.len() == 0 {
        WatchOutcome::Unsettled
    } else {
        let c = ((consumed + 1) as usize);
        match probes[0] {
            Probe::Missing => WatchOutcome::Gone { checks: c },
            Probe::Failed => WatchOutcome::Failed { checks: c },
            Probe::Size(s) => if s == prev {
                WatchOutcome::Settled { checks: c }
            } else {
                spec_watch(s, probes.drop_first(), c)
            },
        }
    }
}

/// Runs the detector over a whole run of observations, starting from the
/// initial previous size of zero.
pub fn watch_until_stable(probes: &Vec<Probe>) -> (r: WatchOutcome)
    ensures
        r == spec_watch(0, probes@, 0),
{
    let n = probes.len();
    let mut prev: u64 = 0;
    let mut i: usize = 0;
    assert(probes@.skip(0) =~= probes@);
    while i < n
        invariant
            i <= n,
            n == probes@.len(),
            spec_watch(0, probes@, 0) == spec_watch(prev, probes@.skip(i as int), i),
        decreases n - i,
    {
        let suffix = Ghost(probes@.skip(i as int));
        assert(suffix@[0] == probes@[i as int]);
        assert(suffix@.drop_first() =~= probes@.skip(i as int + 1));
        match stability_step(prev, probes[i]) {
            StepVerdict::Settled => {
                return WatchOutcome::Settled { checks: i + 1 };
            },
            StepVerdict::Unsettled { prev: s } => {
                prev = s;
            },
            StepVerdict::Gone => {
                return WatchOutcome::Gone { checks: i + 1 };
            },
            StepVerdict::Error => {
                return WatchOutcome::Failed { checks: i + 1 };
            },
        }
        i = i + 1;
    }
    assert(probes@.skip(i as int).len() == 0);
    WatchOutcome::Unsettled
}

/// LAW (stability): the detector settles only on a repeated size. When
/// watching from scratch ends in `Settled` at check `c`, the deciding
/// observation is a size: for `c >= 2` it equals the size observed one
/// settle interval earlier, and for `c == 1` it is zero, the trivially
/// stable size of an empty file. Every earlier observation saw the file
/// present with a still-changing size.
pub proof fn lemma_settled_means_repeat(probes: Seq<Probe>)
    requires
        probes.len() < usize::MAX,
    ensures
        (spec_watch(0, probes, 0) matches WatchOutcome::Settled { checks } ==> {
            &&& 1 <= checks <= probes.len()
            &&& (checks == 1 ==> probes[0] == Probe::Size(0u64))
            &&& (checks >= 2 ==> probes[checks - 1] == probes[checks - 2] && probes[checks
                - 1] is Size)
        }),
{
    lemma_settled_means_repeat_gen(0, probes, 0);
}

proof fn lemma_settled_means_repeat_gen(prev: u64, probes: Seq<Probe>, consumed: usize)
    requires
        consumed + probes.len() < usize::MAX,
    ensures
        (spec_watch(prev, probes, consumed) matches WatchOutcome::Settled { checks } ==> {
            let k = checks - consumed;
            &&& 1 <= k <= probes.len()
            &&& (k == 1 ==> probes[0] == Probe::Size(prev))
            &&& (k >= 2 ==> probes[k - 1] == probes[k - 2] && probes[k - 1] is Size)
        }),
    decreases probes.len(),
{
    if probes.len() > 0 {
        match probes[0] {
            Probe::Size(s) => {
                if s != prev {
                    lemma_settled_means_repeat_gen(s, probes.drop_first(), (consumed + 1) as usize);
                    match spec_watch(prev, probes, consumed) {
                        WatchOutcome::Settled { checks } => {
                            let k = checks - consumed;
                            assert(probes.drop_first()[k - 2] == probes[k - 1]);
                            if k >= 3 {
                                assert(probes.drop_first()[k - 3] == probes[k - 2]);
                            }
                        },
                        _ => {},
                    }
                }
            },
            _ => {},
        }
    }
}

} // verus!
