use rusty_technical::adapter::{adopt_output, CallOutcome};
use rusty_technical::align::{pad_indicator, zeros, RawIndicatorResult};
use rusty_technical::bundle::{Action, Assembly, IndicatorFailure, TechnicalAdded};
use rusty_technical::error::IndicatorError;
use rusty_technical::indicator::{default_config, has_distinct_names, Indicator};
use rusty_technical::series::Ohlcv;

fn bits(xs: &[f64]) -> Vec<u64> {
    xs.iter().map(|x| x.to_bits()).collect()
}

const CLOSE: [f64; 8] = [1.0, 5.3, 0.5, 5.3, 1.0, 5.3, 1.0, 9.0];

fn ohlcv(n: usize) -> Ohlcv {
    let close: Vec<f64> = (0..n).map(|i| CLOSE[i % 8] + (i / 8) as f64).collect();
    Ohlcv {
        open: bits(&close),
        high: bits(&close.iter().map(|c| c + 1.0).collect::<Vec<f64>>()),
        low: bits(&close.iter().map(|c| c - 0.5).collect::<Vec<f64>>()),
        close: bits(&close),
        volume: bits(&vec![100.0; n]),
    }
}

/// What a successful call would report: `values` starting at `begin`, in a
/// buffer of capacity `n` whose tail holds leftover garbage.
fn success(begin: i32, values: &[f64], n: usize) -> CallOutcome {
    let mut buffer = bits(values);
    while buffer.len() < n {
        buffer.push(0x7ff8_dead_beef_0000);
    }
    CallOutcome { status: 0, begin, count: values.len() as i32, buffer }
}

/// A stand-in for the numerical library that reports a suffix of length
/// `n - lookback` whose values encode the indicator's position.
fn fake_call(ind: Indicator, n: usize) -> CallOutcome {
    let lookback = match ind {
        Indicator::Rsi { period } => period as usize,
        Indicator::Sma { period } => period as usize - 1,
        Indicator::Rocp { period } => period as usize,
        Indicator::Sar => 1,
        Indicator::Mfi { period } => period as usize,
        Indicator::Atr { period } => period as usize,
    };
    let values: Vec<f64> = (lookback..n).map(|i| i as f64 + 0.25).collect();
    success(lookback as i32, &values, n)
}

fn drive(input: Ohlcv, config: Vec<Indicator>, fail_at: Option<usize>) -> Result<TechnicalAdded, IndicatorFailure> {
    let n = input.close.len();
    let mut assembly = Assembly::new(input, config);
    let mut i = 0;
    loop {
        match assembly.next_action()? {
            Action::Done => return Ok(assembly.into_bundle()),
            Action::Compute(ind) => {
                let out = if fail_at == Some(i) {
                    CallOutcome { status: 2, begin: 0, count: 0, buffer: vec![0; n] }
                } else {
                    fake_call(ind, n)
                };
                assembly.record(out)?;
                i += 1;
            }
        }
    }
}

#[test]
fn sma_of_example_close_is_aligned() {
    let input = ohlcv(8);
    let mut assembly = Assembly::new(input, vec![Indicator::Sma { period: 2 }]);
    assert_eq!(assembly.next_action(), Ok(Action::Compute(Indicator::Sma { period: 2 })));
    let means: Vec<f64> = (1..8).map(|i| (CLOSE[i - 1] + CLOSE[i]) / 2.0).collect();
    assert_eq!(assembly.record(success(1, &means, 8)), Ok(()));
    assert_eq!(assembly.next_action(), Ok(Action::Done));
    let bundle = assembly.into_bundle();
    assert_eq!(bundle.names, vec!["SMA"]);
    let expected: Vec<f64> = vec![0.0, 3.15, 2.9, 2.9, 3.15, 3.15, 3.15, 5.0];
    assert_eq!(bundle.data[0].len(), 8);
    assert_eq!(bundle.data[0][0], 0.0f64.to_bits());
    for i in 1..8 {
        assert!((f64::from_bits(bundle.data[0][i]) - expected[i]).abs() < 1e-12);
    }
}

#[test]
fn sma_period_longer_than_series_is_insufficient_data() {
    let assembly = Assembly::new(ohlcv(8), vec![Indicator::Sma { period: 20 }]);
    assert_eq!(
        assembly.next_action(),
        Err(IndicatorFailure { index: 0, indicator: Indicator::Sma { period: 20 }, error: IndicatorError::InsufficientData })
    );
    assert!(drive(ohlcv(8), vec![Indicator::Sma { period: 20 }], None).is_err());
}

#[test]
fn minimum_lengths_per_indicator() {
    let sar = Indicator::Sar;
    assert_eq!(sar.check_inputs(&ohlcv(1)), Err(IndicatorError::InsufficientData));
    assert_eq!(sar.check_inputs(&ohlcv(2)), Ok(()));
    let rsi = Indicator::Rsi { period: 12 };
    assert_eq!(rsi.check_inputs(&ohlcv(12)), Err(IndicatorError::InsufficientData));
    assert_eq!(rsi.check_inputs(&ohlcv(13)), Ok(()));
    assert_eq!(Indicator::Sma { period: 2 }.check_inputs(&ohlcv(2)), Ok(()));
    assert_eq!(Indicator::Sma { period: 0 }.min_len(), 1);
    assert_eq!(Indicator::Sma { period: 0 }.check_inputs(&ohlcv(0)), Err(IndicatorError::InsufficientData));
    assert_eq!(Indicator::Atr { period: 10 }.min_len(), 11);
}

#[test]
fn mismatched_volume_is_rejected_for_money_flow() {
    let mut input = ohlcv(20);
    input.volume.pop();
    let mfi = Indicator::Mfi { period: 10 };
    assert_eq!(mfi.check_inputs(&input), Err(IndicatorError::MismatchedLength));
    // The close-only indicators do not read volume.
    assert_eq!(Indicator::Rsi { period: 12 }.check_inputs(&input), Ok(()));
    let mut short_low = ohlcv(20);
    short_low.low.truncate(5);
    assert_eq!(Indicator::Sar.check_inputs(&short_low), Err(IndicatorError::MismatchedLength));
    assert_eq!(Indicator::Atr { period: 30 }.check_inputs(&short_low), Err(IndicatorError::MismatchedLength));
}

#[test]
fn failed_status_is_a_computation_failure() {
    let mut assembly = Assembly::new(ohlcv(8), vec![Indicator::Rocp { period: 1 }]);
    let out = CallOutcome { status: 2, begin: 1, count: 7, buffer: vec![0; 8] };
    assert_eq!(
        assembly.record(out),
        Err(IndicatorFailure {
            index: 0,
            indicator: Indicator::Rocp { period: 1 },
            error: IndicatorError::ComputationFailure { code: 2 },
        })
    );
    // The failure is final: no second call is asked for, none is taken.
    let failure = assembly.next_action().unwrap_err();
    assert_eq!(failure.error, IndicatorError::ComputationFailure { code: 2 });
    assert_eq!(assembly.failure(), Some(failure));
    assert_eq!(assembly.record(success(1, &[1.0; 7], 8)), Err(failure));
}

#[test]
fn success_without_values_is_an_alignment_inconsistency() {
    let n = 15;
    for ind in default_config() {
        let mut assembly = Assembly::new(ohlcv(n), vec![ind]);
        assert_eq!(assembly.next_action(), Ok(Action::Compute(ind)));
        let empty = CallOutcome { status: 0, begin: n as i32, count: 0, buffer: vec![0; n] };
        assert_eq!(
            assembly.record(empty),
            Err(IndicatorFailure { index: 0, indicator: ind, error: IndicatorError::AlignmentInconsistency })
        );
    }
    let empty = CallOutcome { status: 0, begin: 0, count: 0, buffer: vec![0; 4] };
    assert_eq!(adopt_output(empty).unwrap_err(), IndicatorError::AlignmentInconsistency);
    let raw = RawIndicatorResult { values: vec![], begin: 5 };
    assert_eq!(pad_indicator(raw, 5), Err(IndicatorError::AlignmentInconsistency));
}

#[test]
fn mismatch_is_reported_at_the_first_indicator_reading_the_short_series() {
    let mut input = ohlcv(30);
    input.low.pop();
    let r = drive(input, default_config(), None).unwrap_err();
    assert_eq!(r, IndicatorFailure { index: 3, indicator: Indicator::Sar, error: IndicatorError::MismatchedLength });
    let mut input = ohlcv(30);
    input.volume.pop();
    let r = drive(input, default_config(), None).unwrap_err();
    assert_eq!(r, IndicatorFailure { index: 4, indicator: Indicator::Mfi { period: 10 }, error: IndicatorError::MismatchedLength });
}

#[test]
fn offset_that_misses_the_end_is_an_alignment_inconsistency() {
    let mut assembly = Assembly::new(ohlcv(8), vec![Indicator::Rocp { period: 1 }]);
    let out = success(0, &[1.0; 7], 8);
    assert_eq!(assembly.record(out).unwrap_err().error, IndicatorError::AlignmentInconsistency);
    let over = CallOutcome { status: 0, begin: 0, count: 9, buffer: vec![0; 8] };
    assert_eq!(adopt_output(over).unwrap_err(), IndicatorError::AlignmentInconsistency);
    let negative = CallOutcome { status: 0, begin: -1, count: 2, buffer: vec![0; 8] };
    assert_eq!(adopt_output(negative).unwrap_err(), IndicatorError::AlignmentInconsistency);
}

#[test]
fn adopted_output_holds_only_the_produced_values() {
    let raw = adopt_output(success(5, &[1.5, 2.5, 3.5], 8)).unwrap();
    assert_eq!(raw.begin, 5);
    assert_eq!(raw.values, bits(&[1.5, 2.5, 3.5]));
}

#[test]
fn padding_puts_sentinels_before_begin() {
    let raw = RawIndicatorResult { values: vec![7, 8, 9], begin: 2 };
    assert_eq!(pad_indicator(raw, 5), Ok(vec![0, 0, 7, 8, 9]));
    let raw = RawIndicatorResult { values: vec![7, 8, 9], begin: 0 };
    assert_eq!(pad_indicator(raw, 3), Ok(vec![7, 8, 9]));
    let raw = RawIndicatorResult { values: vec![7, 8, 9], begin: 3 };
    assert_eq!(pad_indicator(raw, 5), Err(IndicatorError::AlignmentInconsistency));
    let raw = RawIndicatorResult { values: vec![], begin: 9 };
    assert_eq!(pad_indicator(raw, 5), Err(IndicatorError::AlignmentInconsistency));
    assert_eq!(zeros(3), vec![0, 0, 0]);
    assert_eq!(zeros(0), Vec::<u64>::new());
}

#[test]
fn default_bundle_has_input_length_and_configured_order() {
    let n = 30;
    let bundle = drive(ohlcv(n), default_config(), None).unwrap();
    assert_eq!(bundle.names, vec!["RSI", "SMA", "ROCP", "SAR", "MFI", "ATR"]);
    assert_eq!(bundle.data.len(), 6);
    let begins = [12usize, 1, 1, 1, 10, 10];
    for (series, begin) in bundle.data.iter().zip(begins.iter()) {
        assert_eq!(series.len(), n);
        for i in 0..n {
            if i < *begin {
                assert_eq!(series[i], 0);
            } else {
                assert_eq!(series[i], (i as f64 + 0.25).to_bits());
            }
        }
    }
}

#[test]
fn custom_order_is_kept() {
    let config = vec![Indicator::Atr { period: 3 }, Indicator::Sma { period: 4 }, Indicator::Sar];
    let bundle = drive(ohlcv(10), config, None).unwrap();
    assert_eq!(bundle.names, vec!["ATR", "SMA", "SAR"]);
}

#[test]
fn assembling_twice_is_bit_identical() {
    let a = drive(ohlcv(25), default_config(), None).unwrap();
    let b = drive(ohlcv(25), default_config(), None).unwrap();
    assert_eq!(a.data, b.data);
    assert_eq!(a.names, b.names);
}

#[test]
fn one_failure_yields_no_bundle() {
    let r = drive(ohlcv(30), default_config(), Some(2));
    assert_eq!(
        r.unwrap_err(),
        IndicatorFailure {
            index: 2,
            indicator: Indicator::Rocp { period: 1 },
            error: IndicatorError::ComputationFailure { code: 2 },
        }
    );
    // Too short for RSI(12): the first indicator fails before any call.
    let r = drive(ohlcv(8), default_config(), None);
    assert_eq!(r.unwrap_err().index, 0);
}

#[test]
fn default_configuration_has_distinct_names() {
    assert!(has_distinct_names(&default_config()));
    assert!(has_distinct_names(&vec![]));
    assert!(!has_distinct_names(&vec![Indicator::Sma { period: 2 }, Indicator::Sar, Indicator::Sma { period: 5 }]));
    assert_eq!(Indicator::Mfi { period: 3 }.name(), "MFI");
}
