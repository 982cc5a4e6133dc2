//! The running state of one counter, and the rule that updates it from a sample.

use crate::decimal::{parse_i64, parsed, NumberError};
use vstd::prelude::*;

verus! {

/// The unit label of a counter that has not been sampled yet.
pub const UNKNOWN_UNITS: &'static str = "Unknown";

/// The latest progress of a cache entry.
#[derive(Debug, Clone, PartialEq, Eq)]
pub struct MemRange {
    /// The current value of the cache entry.
    pub current: i64,
    /// The highest value seen for the cache entry so far.
    pub highest: i64,
    /// The units in which the values are expressed, expected to be `kB`.
    pub units: String,
}

/// A [`MemRange`] as contracts see it.
pub struct MemRangeView {
    pub current: int,
    pub highest: int,
    pub units: Seq<char>,
}

impl View for MemRange {
    type V = MemRangeView;

    open spec fn view(&self) -> MemRangeView {
        MemRangeView {
            current: self.current as int,
            highest: self.highest as int,
            units: self.units@,
        }
    }
}

impl MemRangeView {
    /// The state of a counter that has not been sampled yet: zero, with the unit unknown.
    pub open spec fn unsampled() -> MemRangeView {
        MemRangeView { current: 0, highest: 0, units: UNKNOWN_UNITS@ }
    }

    /// The high-water mark is at or above the current value.
    pub open spec fn wf(self) -> bool {
        self.current <= self.highest
    }

    /// The state after a sample of `value`, reported in `units`, has been taken in: the sample
    /// becomes the current value and its unit the label, and the high-water mark rises to the
    /// sample where the sample is above it.
    pub open spec fn updated(self, value: int, units: Seq<char>) -> MemRangeView {
        MemRangeView {
            current: value,
            highest: if value > self.highest {
                value
            } else {
                self.highest
            },
            units,
        }
    }
}

/// Why an entry of the sampled text gave no value for a counter.
#[derive(Debug, PartialEq, Eq)]
pub enum EntryError {
    /// The counter's key is not in the sampled text.
    NotFound,
    /// The counter's numeric field is no integer: `text` is the field as it was found.
    Unparseable { text: String, reason: NumberError },
}

/// An entry as contracts see it: the value text and the unit text, where the key was found.
pub open spec fn entry_view(entry: Option<&(&str, &str)>) -> Option<(Seq<char>, Seq<char>)> {
    match entry {
        Some(pair) => Some((pair.0@, pair.1@)),
        None => None,
    }
}

/// The sample that an entry yields: its value as a number, with its unit. None where the key
/// was not found or the value text is no integer.
pub open spec fn reading(entry: Option<(Seq<char>, Seq<char>)>) -> Option<(i64, Seq<char>)> {
    match entry {
        Some(pair) => match parsed(pair.0) {
            Ok(number) => Some((number, pair.1)),
            Err(_) => None,
        },
        None => None,
    }
}

/// `error` is the failure that `entry` calls for: not found for an absent entry, else
/// unparseable with the value text as found and the reason it is no integer.
pub open spec fn explains(error: EntryError, entry: Option<(Seq<char>, Seq<char>)>) -> bool {
    match entry {
        Some(pair) => {
            &&& parsed(pair.0) is Err
            &&& error matches EntryError::Unparseable { text, reason }
            &&& text@ == pair.0
            &&& Err::<i64, NumberError>(reason) == parsed(pair.0)
        },
        None => error == EntryError::NotFound,
    }
}

/// `after` and `outcome` are what one update of `before` from `entry` leaves: the updated
/// state where the entry yields a sample, else the state untouched and the failure.
pub open spec fn tracks(
    before: MemRange,
    after: MemRange,
    entry: Option<(Seq<char>, Seq<char>)>,
    outcome: Result<(), EntryError>,
) -> bool {
    match reading(entry) {
        Some(sample) => outcome is Ok && after@ == before@.updated(sample.0 as int, sample.1),
        None => {
            &&& after == before
            &&& outcome matches Err(error)
            &&& explains(error, entry)
        },
    }
}

impl MemRange {
    /// A counter that has not been sampled yet.
    pub fn new() -> (range: MemRange)
        ensures
            range@ == MemRangeView::unsampled(),
            range@.wf(),
    {
        MemRange { current: 0, highest: 0, units: UNKNOWN_UNITS.to_owned() }
    }
}

/// Turns the entry found for a counter into a sample: the value as a number, with the unit
/// unchanged.
pub fn process_parsed_meminfo_entry(
    entry: Option<&(&str, &str)>,
) -> (r: Result<(i64, String), EntryError>)
    ensures
        match reading(entry_view(entry)) {
            Some(sample) => r matches Ok(got) && got.0 == sample.0 && got.1@ == sample.1,
            None => r matches Err(error) && explains(error, entry_view(entry)),
        },
{
    match entry {
        Some(pair) => {
            let value: &str = pair.0;
            let unit: &str = pair.1;
            match parse_i64(value) {
                Ok(number) => Ok((number, unit.to_owned())),
                Err(reason) => Err(EntryError::Unparseable { text: value.to_owned(), reason }),
            }
        },
        None => Err(EntryError::NotFound),
    }
}

/// Updates `range` from the entry found for its counter.
///
/// A sample becomes the current value, its unit the label, and the high-water mark rises to
/// it where it is above the mark. Where the entry is absent or its value is no integer the
/// state is left as it was and the failure is returned.
pub fn memory_count_update(
    entry: Option<&(&str, &str)>,
    range: &mut MemRange,
) -> (outcome: Result<(), EntryError>)
    ensures
        tracks(*old(range), *final(range), entry_view(entry), outcome),
        reading(entry_view(entry)) matches Some(sample) ==> {
            &&& final(range).current == sample.0
            &&& final(range).units@ == sample.1
            &&& final(range).highest == if sample.0 > old(range).highest {
                sample.0
            } else {
                old(range).highest
            }
            &&& final(range)@.wf()
        },
        reading(entry_view(entry)) is None ==> *final(range) == *old(range),
        final(range).highest >= old(range).highest,
{
    match process_parsed_meminfo_entry(entry) {
        Ok((numeric, unit)) => {
            range.units = unit;
            if numeric > range.highest {
                range.current = numeric;
                range.highest = numeric;
            } else {
                range.current = numeric;
            }
            Ok(())
        },
        Err(error) => Err(error),
    }
}

/// Taking the same sample in a second time changes nothing: the current value is the sample
/// and the high-water mark is where the first application left it.
pub proof fn lemma_update_idempotent(before: MemRangeView, value: int, units: Seq<char>)
    ensures
        before.updated(value, units).updated(value, units) == before.updated(value, units),
        before.updated(value, units).updated(value, units).current == value,
        before.updated(value, units).updated(value, units).highest == before.updated(
            value,
            units,
        ).highest,
{
}

/// Updating twice from the same entry leaves what the first update left: after a sample the
/// current value is the sample and the high-water mark stays where the first update put it,
/// and an entry that yields no sample changes nothing either time.
pub proof fn lemma_same_entry_twice(
    start: MemRange,
    once: MemRange,
    twice: MemRange,
    entry: Option<(Seq<char>, Seq<char>)>,
    first: Result<(), EntryError>,
    second: Result<(), EntryError>,
)
    requires
        tracks(start, once, entry, first),
        tracks(once, twice, entry, second),
    ensures
        twice@ == once@,
        reading(entry) matches Some(sample) ==> twice.current == sample.0 && twice.highest
            == once.highest,
{
}

/// One update never lowers the high-water mark, and it leaves the mark at or above the
/// current value where the entry yields a sample or the mark was there before.
pub proof fn lemma_tracks_keeps_high_water(
    before: MemRange,
    after: MemRange,
    entry: Option<(Seq<char>, Seq<char>)>,
    outcome: Result<(), EntryError>,
)
    requires
        tracks(before, after, entry, outcome),
    ensures
        after.highest >= before.highest,
        reading(entry) is Some || before@.wf() ==> after@.wf(),
{
}

/// An update never lowers the high-water mark and leaves it at or above the current value,
/// whatever the state was before.
pub proof fn lemma_update_keeps_high_water(before: MemRangeView, value: int, units: Seq<char>)
    ensures
        before.updated(value, units).wf(),
        before.updated(value, units).highest >= before.highest,
        before.updated(value, units).highest == value || before.updated(value, units).highest
            == before.highest,
{
}

} // verus!
