use vstd::prelude::*;
use crate::error::IndicatorError;
use crate::series::SENTINEL;

verus! {

/// What one indicator computation produced: `values[0]` belongs to input
/// index `begin`, and the values run on contiguously from there.
#[derive(Debug)]
pub struct RawIndicatorResult {
    pub values: Vec<u64>,
    pub begin: usize,
}

/// `n` sentinel samples.
pub open spec fn sentinels(n: nat) -> Seq<u64> {
    Seq::new(n, |i: int| SENTINEL)
}

/// The sentinel prefix of length `begin` followed by `values` verbatim.
pub open spec fn aligned(values: Seq<u64>, begin: nat) -> Seq<u64> {
    sentinels(begin) + values
}

/// Whether a raw result covers exactly the indices `[0, n)` once aligned,
/// with its first value inside the input.
pub open spec fn fits(raw: RawIndicatorResult, n: nat) -> bool {
    raw.begin < n && raw.begin + raw.values@.len() == n
}

/// What the alignment engine gives for `raw` against an input of length `n`.
pub open spec fn align_spec(raw: RawIndicatorResult, n: nat) -> Result<Seq<u64>, IndicatorError> {
    if fits(raw, n) {
        Ok(aligned(raw.values@, raw.begin as nat))
    } else {
        Err(IndicatorError::AlignmentInconsistency)
    }
}

/// The view of a computed series, or its error.
pub open spec fn series_view(r: Result<Vec<u64>, IndicatorError>) -> Result<Seq<u64>, IndicatorError> {
    match r {
        Ok(v) => Ok(v@),
        Err(e) => Err(e),
    }
}

/// A series of `size` sentinel samples.
pub fn zeros(size: usize) -> (r: Vec<u64>)
    ensures
        r@ == sentinels(size as nat),
{
    let mut v: Vec<u64> = Vec::with_capacity(size);
    let mut i: usize = 0;
    while i < size
        invariant
            i <= size,
            v@ == sentinels(i as nat),
        decreases size - i,
    {
        v.push(SENTINEL);
        i = i + 1;
    }
    assert(v@ =~= sentinels(size as nat));
    v
}

/// Aligns `raw` to an input of length `n`: the indices before `raw.begin`
/// hold the sentinel, the rest hold `raw.values` unmodified.
pub fn pad_indicator(raw: RawIndicatorResult, n: usize) -> (r: Result<Vec<u64>, IndicatorError>)
    ensures
        series_view(r) == align_spec(raw, n as nat),
        r matches Ok(v) ==> v@.len() == n,
{
    if raw.begin >= n || raw.values.len() != n - raw.begin {
        return Err(IndicatorError::AlignmentInconsistency);
    }
    let RawIndicatorResult { mut values, begin } = raw;
    let mut out = zeros(begin);
    out.append(&mut values);
    Ok(out)
}

/// A successful alignment has the input's length, holds the sentinel before
/// `raw.begin` and `raw.values`, in order and unmodified, from there on.
pub proof fn lemma_aligned_layout(raw: RawIndicatorResult, n: nat)
    requires
        align_spec(raw, n) is Ok,
    ensures
        align_spec(raw, n).unwrap().len() == n,
        forall|i: int| 0 <= i < raw.begin ==> align_spec(raw, n).unwrap()[i] == SENTINEL,
        forall|i: int| raw.begin <= i < n ==> align_spec(raw, n).unwrap()[i] == raw.values@[i - raw.begin],
{
}

} // verus!
