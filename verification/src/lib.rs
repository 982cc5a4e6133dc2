//! Tracking of the kernel's `Dirty` and `Writeback` page-cache counters.
//!
//! A poll cycle takes the text of the kernel's memory report, finds the lines of interest
//! with a [`LinePattern`], and brings a [`MemCounts`] up to date: each counter keeps its
//! latest value, the highest value seen so far and the unit the kernel reported.

pub mod decimal;
pub mod lines;
pub mod meminfo_layout_manager;
pub mod pattern;
pub mod reader;
pub mod samples;
pub mod tracker;

pub use decimal::{parse_i64, NumberError};
pub use lines::split_lines;
pub use meminfo_layout_manager::MeminfoLayoutManager;
pub use pattern::{LinePattern, PatternError, LINE_GROUPS, MEMINFO_LINE_PATTERN};
pub use reader::{
    meminfo_reader, update_counts, MemCounts, PollOutcome, MEMINFO_KEY_DIRTY,
    MEMINFO_KEY_WRITEBACK,
};
pub use samples::SampleMap;
pub use tracker::{
    memory_count_update, process_parsed_meminfo_entry, EntryError, MemRange, UNKNOWN_UNITS,
};
