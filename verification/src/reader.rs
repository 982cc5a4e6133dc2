//! One poll cycle: the sampled text is searched for the tracked counters and each counter's
//! state is brought up to date.

use crate::pattern::LinePattern;
use crate::samples::{mapping, SampleMap};
use crate::tracker::{
    lemma_tracks_keeps_high_water, memory_count_update, tracks, EntryError, MemRange,
    MemRangeView,
};
use vstd::prelude::*;

verus! {

/// The key of the counter of memory that waits to be written back.
pub const MEMINFO_KEY_DIRTY: &'static str = "Dirty";

/// The key of the counter of memory that is being written back.
pub const MEMINFO_KEY_WRITEBACK: &'static str = "Writeback";

/// The cache entries that are tracked.
#[derive(Debug, Clone, PartialEq, Eq)]
pub struct MemCounts {
    /// Memory which is waiting to get written back to the disk.
    pub dirty: MemRange,
    /// Memory which is actively being written back to the disk.
    pub writeback: MemRange,
}

impl MemCounts {
    /// Each counter's high-water mark is at or above its current value.
    pub open spec fn wf(self) -> bool {
        self.dirty@.wf() && self.writeback@.wf()
    }

    /// No counter's high-water mark is below where it stood in `before`.
    pub open spec fn no_lower_than(self, before: MemCounts) -> bool {
        self.dirty.highest >= before.dirty.highest && self.writeback.highest
            >= before.writeback.highest
    }

    /// Both counters as they stand before the first sample.
    pub fn new() -> (counts: MemCounts)
        ensures
            counts.dirty@ == MemRangeView::unsampled(),
            counts.writeback@ == MemRangeView::unsampled(),
            counts.wf(),
    {
        MemCounts { dirty: MemRange::new(), writeback: MemRange::new() }
    }
}

/// What one poll cycle did.
#[derive(Debug, PartialEq, Eq)]
pub enum PollOutcome {
    /// The source could not be read: no counter was touched.
    SourceUnavailable,
    /// The source was sampled: for each counter, whether it was updated or why not.
    Sampled { dirty: Result<(), EntryError>, writeback: Result<(), EntryError> },
}

/// The entry of `key` in a sampled mapping, if it has one.
pub open spec fn looked_up(
    samples: Map<Seq<char>, (Seq<char>, Seq<char>)>,
    key: Seq<char>,
) -> Option<(Seq<char>, Seq<char>)> {
    if samples.contains_key(key) {
        Some(samples[key])
    } else {
        None
    }
}

/// `after` and `outcome` are what a poll cycle over `samples` leaves of `before`: each
/// counter updated from the entry of its own key, or left as it was with the reason.
pub open spec fn cycle(
    before: MemCounts,
    after: MemCounts,
    samples: Map<Seq<char>, (Seq<char>, Seq<char>)>,
    outcome: PollOutcome,
) -> bool {
    &&& outcome matches PollOutcome::Sampled { dirty, writeback }
    &&& tracks(before.dirty, after.dirty, looked_up(samples, MEMINFO_KEY_DIRTY@), dirty)
    &&& tracks(
        before.writeback,
        after.writeback,
        looked_up(samples, MEMINFO_KEY_WRITEBACK@),
        writeback,
    )
}

/// A poll cycle never lowers a high-water mark, and it keeps each mark at or above its
/// counter's current value.
pub proof fn lemma_cycle_keeps_high_water(
    before: MemCounts,
    after: MemCounts,
    samples: Map<Seq<char>, (Seq<char>, Seq<char>)>,
    outcome: PollOutcome,
)
    requires
        cycle(before, after, samples, outcome),
    ensures
        after.no_lower_than(before),
        before.wf() ==> after.wf(),
{
    let dirty = outcome->dirty;
    let writeback = outcome->writeback;
    lemma_tracks_keeps_high_water(
        before.dirty,
        after.dirty,
        looked_up(samples, MEMINFO_KEY_DIRTY@),
        dirty,
    );
    lemma_tracks_keeps_high_water(
        before.writeback,
        after.writeback,
        looked_up(samples, MEMINFO_KEY_WRITEBACK@),
        writeback,
    );
}

/// Updates one counter from the entry of `key` in `samples`.
fn update_from(
    samples: &SampleMap,
    key: &str,
    range: &mut MemRange,
) -> (outcome: Result<(), EntryError>)
    ensures
        tracks(*old(range), *final(range), looked_up(samples@, key@), outcome),
{
    match samples.get(key) {
        Some(pair) => memory_count_update(Some(&pair), range),
        None => memory_count_update(None, range),
    }
}

/// Brings both counters up to date from the entries of one sampled text.
pub fn update_counts(samples: &SampleMap, counts: &mut MemCounts) -> (outcome: PollOutcome)
    ensures
        cycle(*old(counts), *final(counts), samples@, outcome),
        final(counts).no_lower_than(*old(counts)),
        old(counts).wf() ==> final(counts).wf(),
{
    let dirty = update_from(samples, MEMINFO_KEY_DIRTY, &mut counts.dirty);
    let writeback = update_from(samples, MEMINFO_KEY_WRITEBACK, &mut counts.writeback);
    let outcome = PollOutcome::Sampled { dirty, writeback };
    proof {
        lemma_cycle_keeps_high_water(*old(counts), *counts, samples@, outcome);
    }
    outcome
}

/// Runs one poll cycle on what was read from the source: `source` is the text in full, or
/// None where the source could not be read.
///
/// The text is searched with `pattern`, and each tracked counter is updated from the last
/// entry that names its key. A counter whose key is missing or whose value is no integer
/// keeps its state, and so do both where the source could not be read.
pub fn meminfo_reader(
    source: Option<&str>,
    pattern: &LinePattern,
    counts: &mut MemCounts,
) -> (outcome: PollOutcome)
    ensures
        match source {
            Some(text) => cycle(
                *old(counts),
                *final(counts),
                mapping(pattern.matches(text@)),
                outcome,
            ),
            None => outcome == PollOutcome::SourceUnavailable && *final(counts) == *old(counts),
        },
        final(counts).no_lower_than(*old(counts)),
        old(counts).wf() ==> final(counts).wf(),
{
    match source {
        Some(text) => {
            let samples = pattern.sample(text);
            update_counts(&samples, counts)
        },
        None => PollOutcome::SourceUnavailable,
    }
}

} // verus!
