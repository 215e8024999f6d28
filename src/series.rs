use vstd::prelude::*;

verus! {

/// The bit pattern of the sample `0.0`, which fills the warm-up region.
pub const SENTINEL: u64 = 0;

/// Parallel open/high/low/close/volume series of one instrument, oldest first.
///
/// The close series fixes the length `N` of every aligned result.
#[derive(Debug)]
pub struct Ohlcv {
    pub open: Vec<u64>,
    pub high: Vec<u64>,
    pub low: Vec<u64>,
    pub close: Vec<u64>,
    pub volume: Vec<u64>,
}

impl Ohlcv {
    /// The length `N` that every aligned series of a bundle has.
    pub open spec fn len_spec(&self) -> nat {
        self.close@.len()
    }

    pub fn len(&self) -> (r: usize)
        ensures
            r == self.len_spec(),
    {
        self.close.len()
    }
}

} // verus!
