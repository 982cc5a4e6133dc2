//! The layout manager of the window that shows the counters.

use vstd::prelude::*;

verus! {

/// The layout manager of the window that shows the counters. It carries no state.
#[derive(Debug)]
pub struct MeminfoLayoutManager {}

} // verus!
