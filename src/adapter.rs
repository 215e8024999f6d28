use vstd::prelude::*;
use crate::align::{RawIndicatorResult, aligned};
use crate::error::IndicatorError;

verus! {

/// The status code with which the numerical library reports success
/// (TA-Lib's `TA_SUCCESS`, the first value of its `TA_RetCode`).
pub const STATUS_SUCCESS: i32 = 0;

/// What one call of the numerical library reported: its status, the input
/// index of its first value, how many values it produced, and the whole
/// caller-owned output buffer, of which only the first `count` entries are
/// the result.
#[derive(Debug)]
pub struct CallOutcome {
    pub status: i32,
    pub begin: i32,
    pub count: i32,
    pub buffer: Vec<u64>,
}

/// The values and begin offset that a call produced, or why it failed.
/// Only the first `count` entries of the buffer are ever taken, and a
/// success that produced no value is inconsistent.
pub open spec fn adopt_spec(out: CallOutcome) -> Result<(Seq<u64>, nat), IndicatorError> {
    if out.status != STATUS_SUCCESS {
        Err(IndicatorError::ComputationFailure { code: out.status })
    } else if out.begin < 0 || out.count <= 0 || out.count > out.buffer@.len() {
        Err(IndicatorError::AlignmentInconsistency)
    } else {
        Ok((out.buffer@.take(out.count as int), out.begin as nat))
    }
}

/// The aligned series of length `n` that a call yields, or why it fails.
pub open spec fn outcome_series(out: CallOutcome, n: nat) -> Result<Seq<u64>, IndicatorError> {
    match adopt_spec(out) {
        Err(e) => Err(e),
        Ok((values, begin)) => if begin < n && begin + values.len() == n {
            Ok(aligned(values, begin))
        } else {
            Err(IndicatorError::AlignmentInconsistency)
        },
    }
}

/// Turns a call's report into an owned result that holds exactly the
/// produced values, or into the failure it signals.
pub fn adopt_output(out: CallOutcome) -> (r: Result<RawIndicatorResult, IndicatorError>)
    ensures
        match adopt_spec(out) {
            Ok((values, begin)) => r matches Ok(raw) && raw.values@ == values && raw.begin == begin,
            Err(e) => r matches Err(f) && f == e,
        },
{
    if out.status != STATUS_SUCCESS {
        return Err(IndicatorError::ComputationFailure { code: out.status });
    }
    if out.begin < 0 || out.count <= 0 || out.count as usize > out.buffer.len() {
        return Err(IndicatorError::AlignmentInconsistency);
    }
    let CallOutcome { begin, count, mut buffer, .. } = out;
    buffer.truncate(count as usize);
    Ok(RawIndicatorResult { values: buffer, begin: begin as usize })
}

} // verus!
