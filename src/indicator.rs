use vstd::prelude::*;
use crate::error::IndicatorError;
use crate::series::Ohlcv;

verus! {

/// One indicator of the bundle with its integer parameters.
///
/// The parabolic stop-and-reverse takes fixed acceleration constants, which
/// the caller of the numerical library supplies.
#[derive(PartialEq, Eq, Structural, Clone, Copy, Debug)]
pub enum Indicator {
    /// Relative strength index over `period` samples of close.
    Rsi { period: u32 },
    /// Simple moving average over `period` samples of close.
    Sma { period: u32 },
    /// Rate of change, as a fraction, against close `period` samples earlier.
    Rocp { period: u32 },
    /// Parabolic stop-and-reverse over high and low.
    Sar,
    /// Money-flow index over `period` samples of high, low, close and volume.
    Mfi { period: u32 },
    /// Average true range over `period` samples of high, low and close.
    Atr { period: u32 },
}

/// The label of an indicator in a bundle.
pub open spec fn name_of(ind: Indicator) -> Seq<char> {
    match ind {
        Indicator::Rsi { .. } => "RSI"@,
        Indicator::Sma { .. } => "SMA"@,
        Indicator::Rocp { .. } => "ROCP"@,
        Indicator::Sar => "SAR"@,
        Indicator::Mfi { .. } => "MFI"@,
        Indicator::Atr { .. } => "ATR"@,
    }
}

/// Which kind of indicator this is, as a small number: two indicators carry
/// the same label exactly when their kinds agree.
pub open spec fn kind_of(ind: Indicator) -> int {
    match ind {
        Indicator::Rsi { .. } => 0,
        Indicator::Sma { .. } => 1,
        Indicator::Rocp { .. } => 2,
        Indicator::Sar => 3,
        Indicator::Mfi { .. } => 4,
        Indicator::Atr { .. } => 5,
    }
}

/// The fewest samples for which the indicator yields at least one value:
/// its lookback plus one, and never less than one.
pub open spec fn min_len(ind: Indicator) -> nat {
    match ind {
        Indicator::Rsi { period } => (period + 1) as nat,
        Indicator::Sma { period } => if period == 0 { 1 } else { period as nat },
        Indicator::Rocp { period } => (period + 1) as nat,
        Indicator::Sar => 2,
        Indicator::Mfi { period } => (period + 1) as nat,
        Indicator::Atr { period } => (period + 1) as nat,
    }
}

/// Whether the indicator reads the high and low series.
pub open spec fn uses_high_low(ind: Indicator) -> bool {
    ind is Sar || ind is Mfi || ind is Atr
}


pub open spec fn uses_volume(ind: Indicator) -> bool {
    ind is Mfi
}

/// Every series the indicator reads has the length `N` of the input.
pub open spec fn lengths_match(o: Ohlcv, ind: Indicator) -> bool {
    &&& uses_high_low(ind) ==> o.high@.len() == o.len_spec() && o.low@.len() == o.len_spec()
    &&& uses_volume(ind) ==> o.volume@.len() == o.len_spec()
}

/// Why the indicator may not be computed on `o`, if it may not.
pub open spec fn input_error(o: Ohlcv, ind: Indicator) -> Option<IndicatorError> {
    if !lengths_match(o, ind) {
        Some(IndicatorError::MismatchedLength)
    } else if o.len_spec() < min_len(ind) {
        Some(IndicatorError::InsufficientData)
    } else {
        None
    }
}

/// No two indicators of the configuration carry the same label.
pub open spec fn distinct_names(config: Seq<Indicator>) -> bool {
    forall|i: int, j: int| 0 <= i < j < config.len() ==> name_of(config[i]) != name_of(config[j])
}

/// Two indicators carry the same label exactly when they are of one kind.
pub proof fn lemma_name_by_kind(a: Indicator, b: Indicator)
    ensures
        name_of(a) == name_of(b) <==> kind_of(a) == kind_of(b),
{
    reveal_strlit("RSI");
    reveal_strlit("SMA");
    reveal_strlit("ROCP");
    reveal_strlit("SAR");
    reveal_strlit("MFI");
    reveal_strlit("ATR");
    if kind_of(a) != kind_of(b) {
        assert(name_of(a).len() != name_of(b).len() || name_of(a)[0] != name_of(b)[0] || name_of(a)[1] != name_of(b)[1]);
    }
}

/// Whether the configuration would give a bundle without repeated labels.
pub fn has_distinct_names(config: &Vec<Indicator>) -> (r: bool)
    ensures
        r == distinct_names(config@),
{
    let mut j: usize = 0;
    while j < config.len()
        invariant
            j <= config@.len(),
            forall|a: int, b: int| 0 <= a < b < j ==> name_of(config@[a]) != name_of(config@[b]),
        decreases config.len() - j,
    {
        let mut i: usize = 0;
        while i < j
            invariant
                i <= j < config@.len(),
                forall|a: int| 0 <= a < i ==> name_of(config@[a]) != name_of(config@[j as int]),
            decreases j - i,
        {
            proof {
                lemma_name_by_kind(config@[i as int], config@[j as int]);
            }
            if config[i].kind() == config[j].kind() {
                return false;
            }
            i = i + 1;
        }
        j = j + 1;
    }
    true
}

impl Indicator {
    pub fn kind(&self) -> (r: u8)
        ensures
            r == kind_of(*self),
    {
        match self {
            Indicator::Rsi { .. } => 0,
            Indicator::Sma { .. } => 1,
            Indicator::Rocp { .. } => 2,
            Indicator::Sar => 3,
            Indicator::Mfi { .. } => 4,
            Indicator::Atr { .. } => 5,
        }
    }

    pub fn name(&self) -> (r: &'static str)
        ensures
            r@ == name_of(*self),
    {
        match self {
            Indicator::Rsi { .. } => "RSI",
            Indicator::Sma { .. } => "SMA",
            Indicator::Rocp { .. } => "ROCP",
            Indicator::Sar => "SAR",
            Indicator::Mfi { .. } => "MFI",
            Indicator::Atr { .. } => "ATR",
        }
    }

    /// The smallest input length on which a call is made.
    pub fn min_len(&self) -> (r: u64)
        ensures
            r == min_len(*self),
    {
        match *self {
            Indicator::Rsi { period } => period as u64 + 1,
            Indicator::Sma { period } => if period == 0 { 1 } else { period as u64 },
            Indicator::Rocp { period } => period as u64 + 1,
            Indicator::Sar => 2,
            Indicator::Mfi { period } => period as u64 + 1,
            Indicator::Atr { period } => period as u64 + 1,
        }
    }

    /// Checks the input before any call: first that the series the
    /// indicator reads share the length `N`, then that `N` is long enough.
    pub fn check_inputs(&self, o: &Ohlcv) -> (r: Result<(), IndicatorError>)
        ensures
            r == (match input_error(*o, *self) {
                Some(e) => Err(e),
                None => Ok(()),
            }),
    {
        let n = o.len();
        let high_ok = !(matches!(self, Indicator::Sar | Indicator::Mfi { .. } | Indicator::Atr { .. })) || (o.high.len() == n && o.low.len() == n);
        let volume_ok = !(matches!(self, Indicator::Mfi { .. })) || o.volume.len() == n;
        if !(high_ok && volume_ok) {
            Err(IndicatorError::MismatchedLength)
        } else if (n as u64) < self.min_len() {
            Err(IndicatorError::InsufficientData)
        } else {
            Ok(())
        }
    }
}

/// The built-in configuration: RSI(12), SMA(2), ROCP(1), SAR, MFI(10),
/// ATR(10), in that order.
pub fn default_config() -> (r: Vec<Indicator>)
    ensures
        r@ == seq![
            Indicator::Rsi { period: 12 },
            Indicator::Sma { period: 2 },
            Indicator::Rocp { period: 1 },
            Indicator::Sar,
            Indicator::Mfi { period: 10 },
            Indicator::Atr { period: 10 },
        ],
{
    let r = vec![
        Indicator::Rsi { period: 12 },
        Indicator::Sma { period: 2 },
        Indicator::Rocp { period: 1 },
        Indicator::Sar,
        Indicator::Mfi { period: 10 },
        Indicator::Atr { period: 10 },
    ];
    assert(r@ =~= seq![
        Indicator::Rsi { period: 12 },
        Indicator::Sma { period: 2 },
        Indicator::Rocp { period: 1 },
        Indicator::Sar,
        Indicator::Mfi { period: 10 },
        Indicator::Atr { period: 10 },
    ]);
    r
}

} // verus!
