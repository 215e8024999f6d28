use vstd::prelude::*;
use crate::adapter::{CallOutcome, outcome_series, adopt_output};
use crate::align::{pad_indicator, series_view};
use crate::error::IndicatorError;
use crate::indicator::{Indicator, distinct_names, input_error, name_of};
use crate::series::Ohlcv;

verus! {

/// Which configured indicator failed, and why. No bundle comes with it.
#[derive(PartialEq, Eq, Structural, Clone, Copy, Debug)]
pub struct IndicatorFailure {
    /// Its position in the configuration.
    pub index: usize,
    pub indicator: Indicator,
    pub error: IndicatorError,
}

/// Aligned series with their labels: `names[i]` labels `data[i]`, and every
/// series has the length of the input.
#[derive(Debug)]
pub struct TechnicalAdded {
    pub data: Vec<Vec<u64>>,
    pub names: Vec<&'static str>,
}

/// What the driver of an [`Assembly`] does next.
#[derive(PartialEq, Eq, Structural, Clone, Copy, Debug)]
pub enum Action {
    /// Call the numerical library for this indicator and hand the outcome to
    /// [`Assembly::record`].
    Compute(Indicator),
    /// Every indicator is in: take the bundle with [`Assembly::into_bundle`].
    Done,
}

pub open spec fn data_view(d: Seq<Vec<u64>>) -> Seq<Seq<u64>> {
    d.map_values(|v: Vec<u64>| v@)
}

pub open spec fn names_view(n: Seq<&'static str>) -> Seq<Seq<char>> {
    n.map_values(|s: &'static str| s@)
}

/// The aligned series of one indicator on `o`, given what its call reported.
/// When the input is rejected no call is made and `out` plays no part.
pub open spec fn step_result(o: Ohlcv, ind: Indicator, out: CallOutcome) -> Result<Seq<u64>, IndicatorError> {
    match input_error(o, ind) {
        Some(e) => Err(e),
        None => outcome_series(out, o.len_spec()),
    }
}

/// The first `k` indicators of `config`, in order, each aligned, or the
/// first of them that fails.
pub open spec fn run(o: Ohlcv, config: Seq<Indicator>, outs: Seq<CallOutcome>, k: nat) -> Result<Seq<Seq<u64>>, IndicatorFailure>
    decreases k,
{
    if k == 0 {
        Ok(Seq::empty())
    } else {
        match run(o, config, outs, (k - 1) as nat) {
            Err(f) => Err(f),
            Ok(d) => match step_result(o, config[k - 1], outs[k - 1]) {
                Ok(s) => Ok(d.push(s)),
                Err(e) => Err(IndicatorFailure { index: (k - 1) as usize, indicator: config[k - 1], error: e }),
            },
        }
    }
}

/// The whole bundle's series for `config` on `o`, or the first failure.
pub open spec fn pipeline(o: Ohlcv, config: Seq<Indicator>, outs: Seq<CallOutcome>) -> Result<Seq<Seq<u64>>, IndicatorFailure> {
    run(o, config, outs, config.len())
}

/// A bundle being assembled, one indicator at a time, in configuration order.
/// After the first failure it stays failed: nothing more is computed.
pub struct Assembly {
    input: Ohlcv,
    config: Vec<Indicator>,
    data: Vec<Vec<u64>>,
    names: Vec<&'static str>,
    failure: Option<IndicatorFailure>,
    outcomes: Ghost<Seq<CallOutcome>>,
}

impl Assembly {
    pub closed spec fn input_spec(&self) -> Ohlcv {
        self.input
    }

    pub closed spec fn config_spec(&self) -> Seq<Indicator> {
        self.config@
    }

    /// The aligned series assembled so far.
    pub closed spec fn data_spec(&self) -> Seq<Seq<u64>> {
        data_view(self.data@)
    }

    /// The failure that ended the assembly, if one did.
    pub closed spec fn failure_spec(&self) -> Option<IndicatorFailure> {
        self.failure
    }

    /// The outcomes recorded so far, one per indicator that was computed or
    /// that failed.
    pub closed spec fn outcomes(&self) -> Seq<CallOutcome> {
        self.outcomes@
    }

    /// What has been assembled is what `run` gives over the recorded outcomes.
    pub open spec fn consistent(&self) -> bool {
        run(self.input_spec(), self.config_spec(), self.outcomes(), self.outcomes().len()) == match self.failure_spec() {
            None => Ok::<Seq<Seq<u64>>, IndicatorFailure>(self.data_spec()),
            Some(f) => Err(f),
        }
    }

    pub closed spec fn wf(&self) -> bool {
        &&& self.data@.len() <= self.config@.len()
        &&& self.names@.len() == self.data@.len()
        &&& forall|i: int| 0 <= i < self.names@.len() ==> (#[trigger] self.names@[i])@ == name_of(self.config@[i])
        &&& match self.failure {
            None => self.outcomes@.len() == self.data@.len(),
            Some(f) => self.outcomes@.len() == self.data@.len() + 1 && self.data@.len() < self.config@.len(),
        }
        &&& self.consistent()
    }

    pub fn new(input: Ohlcv, config: Vec<Indicator>) -> (r: Assembly)
        ensures
            r.wf(),
            r.consistent(),
            r.input_spec() == input,
            r.config_spec() == config@,
            r.data_spec() == Seq::<Seq<u64>>::empty(),
            r.outcomes() == Seq::<CallOutcome>::empty(),
            r.failure_spec() is None,
    {
        let r = Assembly {
            input,
            config,
            data: Vec::new(),
            names: Vec::new(),
            failure: None,
            outcomes: Ghost(Seq::empty()),
        };
        assert(data_view(r.data@) =~= Seq::empty());
        r
    }

    /// The series the indicators are computed on.
    pub fn input(&self) -> (r: &Ohlcv)
        ensures
            *r == self.input_spec(),
    {
        &self.input
    }

    /// The failure that ended the assembly, if one did.
    pub fn failure(&self) -> (r: Option<IndicatorFailure>)
        ensures
            r == self.failure_spec(),
    {
        self.failure
    }

    /// The next indicator to compute, `Done` when all are in, or a failure:
    /// the one that ended the assembly, or that of the next indicator's
    /// input check, in which case no call is owed.
    pub fn next_action(&self) -> (r: Result<Action, IndicatorFailure>)
        requires
            self.wf(),
        ensures
            self.failure_spec() matches Some(f) ==> r == Err::<Action, IndicatorFailure>(f),
            self.failure_spec() is None && self.data_spec().len() == self.config_spec().len() ==> r == Ok::<Action, IndicatorFailure>(Action::Done),
            self.failure_spec() is None && self.data_spec().len() < self.config_spec().len() ==> {
                let k = self.data_spec().len();
                let ind = self.config_spec()[k as int];
                match input_error(self.input_spec(), ind) {
                    Some(e) => r == Err::<Action, IndicatorFailure>(IndicatorFailure { index: k as usize, indicator: ind, error: e }),
                    None => r == Ok::<Action, IndicatorFailure>(Action::Compute(ind)),
                }
            },
    {
        if let Some(f) = self.failure {
            return Err(f);
        }
        let k = self.data.len();
        if k == self.config.len() {
            return Ok(Action::Done);
        }
        let ind = self.config[k];
        match ind.check_inputs(&self.input) {
            Err(e) => Err(IndicatorFailure { index: k, indicator: ind, error: e }),
            Ok(()) => Ok(Action::Compute(ind)),
        }
    }

    /// Running over a longer log agrees with the assembled prefix.
    proof fn lemma_extend(&self, out: CallOutcome)
        requires
            self.wf(),
            self.failure is None,
            self.data@.len() < self.config@.len(),
        ensures
            run(self.input, self.config@, self.outcomes@.push(out), self.data@.len()) == Ok::<Seq<Seq<u64>>, IndicatorFailure>(data_view(self.data@)),
            self.outcomes@.push(out)[self.data@.len() as int] == out,
    {
        let k = self.data@.len() as int;
        assert(self.outcomes@.push(out).take(k) =~= self.outcomes@.take(k));
        lemma_run_prefix(self.input, self.config@, self.outcomes@, self.outcomes@.push(out), self.data@.len());
    }

    /// Takes what the call for the next indicator reported, checks the input
    /// and the report, and aligns it. The first failure names the indicator
    /// and ends the assembly; once ended, every outcome is refused with it.
    pub fn record(&mut self, out: CallOutcome) -> (r: Result<(), IndicatorFailure>)
        requires
            old(self).wf(),
            old(self).failure_spec() is None ==> old(self).data_spec().len() < old(self).config_spec().len(),
        ensures
            final(self).wf(),
            final(self).consistent(),
            final(self).input_spec() == old(self).input_spec(),
            final(self).config_spec() == old(self).config_spec(),
            old(self).failure_spec() matches Some(f) ==> r == Err::<(), IndicatorFailure>(f) && *final(self) == *old(self),
            old(self).failure_spec() is None ==> ({
                let k = old(self).data_spec().len();
                let ind = old(self).config_spec()[k as int];
                let s = step_result(old(self).input_spec(), ind, out);
                &&& final(self).outcomes() == old(self).outcomes().push(out)
                &&& (r is Ok <==> s is Ok)
                &&& s is Ok ==> final(self).data_spec() == old(self).data_spec().push(s->Ok_0) && final(self).failure_spec() is None
                &&& s is Err ==> {
                    let f = IndicatorFailure { index: k as usize, indicator: ind, error: s->Err_0 };
                    &&& r == Err::<(), IndicatorFailure>(f)
                    &&& final(self).failure_spec() == Some(f)
                    &&& final(self).data_spec() == old(self).data_spec()
                }
            }),
    {
        if let Some(f) = self.failure {
            return Err(f);
        }
        let k = self.data.len();
        let ind = self.config[k];
        proof {
            self.lemma_extend(out);
        }
        let n = self.input.len();
        let res = match ind.check_inputs(&self.input) {
            Err(e) => Err(e),
            Ok(()) => match adopt_output(out) {
                Err(e) => Err(e),
                Ok(raw) => pad_indicator(raw, n),
            },
        };
        assert(series_view(res) == step_result(self.input, ind, out));
        self.outcomes = Ghost(self.outcomes@.push(out));
        match res {
            Err(e) => {
                let f = IndicatorFailure { index: k, indicator: ind, error: e };
                self.failure = Some(f);
                Err(f)
            },
            Ok(series) => {
                let ghost old_data = self.data@;
                self.data.push(series);
                self.names.push(ind.name());
                assert(data_view(self.data@) =~= data_view(old_data).push(self.data@[k as int]@));
                Ok(())
            },
        }
    }

    /// The finished bundle.
    pub fn into_bundle(self) -> (r: TechnicalAdded)
        requires
            self.wf(),
            self.failure_spec() is None,
            self.data_spec().len() == self.config_spec().len(),
        ensures
            pipeline(self.input_spec(), self.config_spec(), self.outcomes()) == Ok::<Seq<Seq<u64>>, IndicatorFailure>(data_view(r.data@)),
            names_view(r.names@) == self.config_spec().map_values(|ind: Indicator| name_of(ind)),
            distinct_names(self.config_spec()) ==> forall|i: int, j: int|
                0 <= i < j < r.names@.len() ==> r.names@[i]@ != r.names@[j]@,
    {
        let r = TechnicalAdded { data: self.data, names: self.names };
        assert(names_view(r.names@) =~= self.config@.map_values(|ind: Indicator| name_of(ind)));
        r
    }
}

/// Every indicator that is computed successfully yields a series of the
/// input's length, one per configured indicator.
pub proof fn lemma_run_lengths(o: Ohlcv, config: Seq<Indicator>, outs: Seq<CallOutcome>, k: nat)
    requires
        run(o, config, outs, k) is Ok,
    ensures
        run(o, config, outs, k).unwrap().len() == k,
        forall|i: int| 0 <= i < k ==> (#[trigger] run(o, config, outs, k).unwrap()[i]).len() == o.len_spec(),
    decreases k,
{
    if k > 0 {
        lemma_run_lengths(o, config, outs, (k - 1) as nat);
        let d = run(o, config, outs, (k - 1) as nat).unwrap();
        let s = step_result(o, config[k - 1], outs[k - 1]).unwrap();
        assert(s.len() == o.len_spec());
        assert forall|i: int| 0 <= i < k implies (#[trigger] run(o, config, outs, k).unwrap()[i]).len() == o.len_spec() by {
            if i < k - 1 {
                assert(run(o, config, outs, k).unwrap()[i] == d[i]);
            }
        }
    }
}

/// A successful bundle has exactly one series per configured indicator, each
/// of the input's length.
pub proof fn lemma_bundle_shape(o: Ohlcv, config: Seq<Indicator>, outs: Seq<CallOutcome>)
    requires
        pipeline(o, config, outs) is Ok,
    ensures
        pipeline(o, config, outs).unwrap().len() == config.len(),
        forall|i: int| 0 <= i < config.len() ==> (#[trigger] pipeline(o, config, outs).unwrap()[i]).len() == o.len_spec(),
{
    lemma_run_lengths(o, config, outs, config.len());
}

/// Two assemblies of the same input and configuration that were handed the
/// same call outcomes hold bit-identical series and the same failure.
pub proof fn lemma_assembly_deterministic(a: Assembly, b: Assembly)
    requires
        a.consistent(),
        b.consistent(),
        a.input_spec() == b.input_spec(),
        a.config_spec() == b.config_spec(),
        a.outcomes() == b.outcomes(),
    ensures
        a.failure_spec() == b.failure_spec(),
        a.failure_spec() is None ==> a.data_spec() == b.data_spec(),
{
}

/// Once a prefix fails, every longer prefix fails with the same failure.
proof fn lemma_failure_persists(o: Ohlcv, config: Seq<Indicator>, outs: Seq<CallOutcome>, i: nat, k: nat)
    requires
        i <= k,
        run(o, config, outs, i) is Err,
    ensures
        run(o, config, outs, k) == run(o, config, outs, i),
    decreases k - i,
{
    if i < k {
        lemma_failure_persists(o, config, outs, i, (k - 1) as nat);
    }
}

/// When every indicator before position `i` succeeds and the one at `i`
/// fails, the whole assembly fails with that indicator and its error and
/// yields no bundle.
pub proof fn lemma_fail_fast(o: Ohlcv, config: Seq<Indicator>, outs: Seq<CallOutcome>, i: nat)
    requires
        i < config.len() <= usize::MAX,
        run(o, config, outs, i) is Ok,
        step_result(o, config[i as int], outs[i as int]) is Err,
    ensures
        pipeline(o, config, outs) == Err::<Seq<Seq<u64>>, IndicatorFailure>(IndicatorFailure {
            index: i as usize,
            indicator: config[i as int],
            error: step_result(o, config[i as int], outs[i as int])->Err_0,
        }),
{
    lemma_failure_persists(o, config, outs, i + 1, config.len());
}

/// A failed assembly names the first indicator that fails: every one before
/// it succeeds, and it fails with the reported error.
pub proof fn lemma_failure_identifies(o: Ohlcv, config: Seq<Indicator>, outs: Seq<CallOutcome>, k: nat)
    requires
        k <= config.len() <= usize::MAX,
        run(o, config, outs, k) is Err,
    ensures
        ({
            let f = run(o, config, outs, k)->Err_0;
            &&& f.index < k
            &&& f.indicator == config[f.index as int]
            &&& run(o, config, outs, f.index as nat) is Ok
            &&& step_result(o, config[f.index as int], outs[f.index as int]) == Err::<Seq<u64>, IndicatorError>(f.error)
        }),
    decreases k,
{
    if run(o, config, outs, (k - 1) as nat) is Err {
        lemma_failure_identifies(o, config, outs, (k - 1) as nat);
    }
}

/// `run` over the first `k` indicators reads only the first `k` outcomes.
pub proof fn lemma_run_prefix(o: Ohlcv, config: Seq<Indicator>, a: Seq<CallOutcome>, b: Seq<CallOutcome>, k: nat)
    requires
        k <= a.len(),
        k <= b.len(),
        a.take(k as int) == b.take(k as int),
    ensures
        run(o, config, a, k) == run(o, config, b, k),
    decreases k,
{
    if k > 0 {
        assert(a[k - 1] == a.take(k as int)[k - 1]);
        assert(b[k - 1] == b.take(k as int)[k - 1]);
        assert(a.take(k - 1) =~= a.take(k as int).take(k - 1));
        assert(b.take(k - 1) =~= b.take(k as int).take(k - 1));
        lemma_run_prefix(o, config, a, b, (k - 1) as nat);
    }
}

} // verus!
