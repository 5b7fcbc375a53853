//! BSI calculator: turns a batch of belief signals into one Belief State
//! Index sample and retains a bounded trailing series for velocity
//! estimation.

use vstd::prelude::*;

use crate::belief::{BeliefSignal, BeliefStateIndex, IndexModel, SignalModel, SignalType,
    VALUE_LIMIT, WEIGHT_LIMIT};
use crate::clock::now_ts;
use crate::config::{BsiConfig, SignalWeights};
use crate::math::{div_tz, div_trunc_i128, div_trunc_i64, lemma_div_tz_scaled_bound, SCALE};
use crate::stats::{all_wf, mean_of, mean_value, std_of, std_of_values, values_of};

verus! {

/// Largest batch the calculator accepts in one call; keeps the weighted sums
/// inside 128-bit arithmetic.
pub const MAX_BATCH_LEN: usize = 1_000_000;

/// Largest effective weight a signal can carry:
/// `WEIGHT_LIMIT * WEIGHT_LIMIT / SCALE`.
pub const EFF_WEIGHT_LIMIT: i64 = 1_000_000_000_000;

/// Number of trailing index samples the calculator retains.
pub const HISTORY_CAP: usize = 1000;

/// Magnitude of an integer.
pub open spec fn abs_val(x: int) -> int {
    if x < 0 {
        -x
    } else {
        x
    }
}

/// The per-type weight multiplier from the configuration.
pub open spec fn spec_type_weight(t: SignalType, w: SignalWeights) -> int {
    match t {
        SignalType::Sentiment => w.sentiment as int,
        SignalType::Probability => w.probability as int,
        SignalType::Narrative => w.narrative as int,
        SignalType::ModelForecast => w.model_forecast as int,
        SignalType::ConsensusMetric => w.consensus_metric as int,
    }
}

/// Effective weight of a signal: its own weight scaled by the per-type
/// multiplier.
pub open spec fn eff_weight(m: SignalModel, w: SignalWeights) -> int {
    m.weight * spec_type_weight(m.signal_type, w) / (SCALE as int)
}

/// Sum of the effective weights of a batch.
pub open spec fn sum_eff_weights(s: Seq<SignalModel>, w: SignalWeights) -> int
    decreases s.len(),
{
    if s.len() == 0 {
        0
    } else {
        sum_eff_weights(s.drop_last(), w) + eff_weight(s.last(), w)
    }
}

/// Sum of value times effective weight over a batch.
pub open spec fn sum_weighted_values(s: Seq<SignalModel>, w: SignalWeights) -> int
    decreases s.len(),
{
    if s.len() == 0 {
        0
    } else {
        sum_weighted_values(s.drop_last(), w) + s.last().value * eff_weight(s.last(), w)
    }
}

/// Weighted average of a batch's values under effective weights, rounded
/// toward zero; zero for an empty batch or a vanishing total weight.
pub open spec fn weighted_average(s: Seq<SignalModel>, w: SignalWeights) -> int {
    if s.len() == 0 || sum_eff_weights(s, w) == 0 {
        0
    } else {
        div_tz(sum_weighted_values(s, w), sum_eff_weights(s, w))
    }
}

/// Whether a value survives the z-score filter: its deviation from the mean
/// is at most `threshold` standard deviations. A zero standard deviation
/// keeps everything (the z-score of a zero-variance batch is taken as zero).
pub open spec fn keeps(v: int, mean: int, sd: int, threshold: int) -> bool {
    sd == 0 || abs_val(v - mean) * SCALE <= threshold * sd
}

/// The filter predicate for one batch: mean and deviation are those of the
/// whole batch.
pub open spec fn keep_pred(s: Seq<SignalModel>, threshold: int) -> spec_fn(SignalModel) -> bool {
    |m: SignalModel| keeps(m.value, mean_of(values_of(s)), std_of(values_of(s)), threshold)
}

/// The survivors of outlier filtering: batches of fewer than 3 signals are
/// kept whole; otherwise only signals within `threshold` standard deviations
/// of the batch mean survive.
pub open spec fn spec_filter(s: Seq<SignalModel>, threshold: int) -> Seq<SignalModel> {
    if s.len() < 3 {
        s
    } else {
        s.filter(keep_pred(s, threshold))
    }
}

/// Velocity estimate: difference between the current value and the value at
/// the lookback index, divided by the sample distance. The lookback window is
/// `max(1, smoothing_window / 60)` samples, clamped to the history length;
/// sample count is used as the time proxy, assuming a roughly uniform
/// sampling cadence.
pub open spec fn spec_velocity(hist: Seq<IndexModel>, smoothing_window: u64, cur: int) -> int {
    if hist.len() == 0 {
        0
    } else {
        let w0 = smoothing_window as int / 60;
        let w = if w0 < 1 {
            1
        } else {
            w0
        };
        let lb = if hist.len() > w {
            hist.len() - w
        } else {
            0
        };
        div_tz(cur - hist[lb].value, hist.len() - lb)
    }
}

/// Volatility: population standard deviation of the filtered batch's values;
/// zero when fewer than two signals remain.
pub open spec fn spec_volatility(f: Seq<SignalModel>) -> int {
    if f.len() < 2 {
        0
    } else {
        std_of(values_of(f))
    }
}

/// Confidence: a 60/40 blend of signal-count sufficiency and low dispersion,
/// hard-clamped to `[0.0, 1.0]`.
pub open spec fn spec_confidence(count: int, min_count: int, vol: int) -> int {
    let cf_raw = count * SCALE / min_count;
    let cf = if cf_raw > SCALE {
        SCALE as int
    } else {
        cf_raw
    };
    let vf = if SCALE - vol > 0 {
        SCALE - vol
    } else {
        0
    };
    let c = (cf * 6 + vf * 4) / 10;
    if c > SCALE {
        SCALE as int
    } else {
        c
    }
}

/// The fused sample one `calculate` call produces from a batch, the trailing
/// history, and the current time.
pub open spec fn spec_calculate(
    cfg: BsiConfig,
    hist: Seq<IndexModel>,
    sigs: Seq<SignalModel>,
    domain: Seq<char>,
    now: int,
) -> IndexModel {
    let f = spec_filter(sigs, cfg.outlier_threshold as int);
    let value = weighted_average(f, cfg.signal_weights);
    let vol = spec_volatility(f);
    IndexModel {
        value,
        velocity: spec_velocity(hist, cfg.smoothing_window, value),
        volatility: vol,
        last_updated: now,
        confidence: spec_confidence(f.len() as int, cfg.min_signal_count as int, vol),
        signal_count: f.len() as int,
        domain,
    }
}

/// A history after appending one sample under the FIFO cap: the oldest sample
/// is evicted when the cap would be exceeded.
pub open spec fn push_bounded(hist: Seq<IndexModel>, m: IndexModel) -> Seq<IndexModel> {
    let h = hist.push(m);
    if h.len() > HISTORY_CAP {
        h.drop_first()
    } else {
        h
    }
}

/// Every sample in a history is within the machine bounds.
pub open spec fn hist_wf(hist: Seq<IndexModel>) -> bool {
    forall|i: int| 0 <= i < hist.len() ==> (#[trigger] hist[i]).wf()
}

/// Calculator for the Belief State Index.
pub struct BsiCalculator {
    config: BsiConfig,
    history: Vec<BeliefStateIndex>,
}

impl BsiCalculator {
    /// The trailing index-sample history, as a mathematical sequence.
    pub closed spec fn hist(self) -> Seq<IndexModel> {
        self.history.deep_view()
    }

    /// The configuration the calculator was created with.
    pub closed spec fn spec_config(self) -> BsiConfig {
        self.config
    }

    /// Internal invariant: the history is bounded and every sample in it is
    /// within the machine bounds.
    pub open spec fn wf(self) -> bool {
        &&& self.hist().len() <= HISTORY_CAP
        &&& hist_wf(self.hist())
    }

    /// Create a new BSI calculator.
    pub fn new(config: BsiConfig) -> (r: Self)
        ensures
            r.spec_config() == config,
            r.hist() == Seq::<IndexModel>::empty(),
            r.wf(),
    {
        let r = BsiCalculator { config, history: Vec::new() };
        proof {
            assert(r.hist() =~= Seq::<IndexModel>::empty());
        }
        r
    }

    /// The weight multiplier for a signal type.
    fn get_signal_type_weight(&self, signal_type: SignalType) -> (r: i64)
        ensures
            r == spec_type_weight(signal_type, self.config.signal_weights),
    {
        match signal_type {
            SignalType::Sentiment => self.config.signal_weights.sentiment,
            SignalType::Probability => self.config.signal_weights.probability,
            SignalType::Narrative => self.config.signal_weights.narrative,
            SignalType::ModelForecast => self.config.signal_weights.model_forecast,
            SignalType::ConsensusMetric => self.config.signal_weights.consensus_metric,
        }
    }

    /// Filter outlier signals by z-score against the batch mean and standard
    /// deviation.
    pub fn filter_outliers(&self, signals: &Vec<BeliefSignal>) -> (r: Vec<BeliefSignal>)
        requires
            all_wf(signals.deep_view()),
        ensures
            r.deep_view() == spec_filter(
                signals.deep_view(),
                self.spec_config().outlier_threshold as int,
            ),
            all_wf(r.deep_view()),
            r@.len() <= signals@.len(),
    {
        let ghost dv = signals.deep_view();
        let ghost threshold = self.config.outlier_threshold as int;
        if signals.len() < 3 {
            let mut r: Vec<BeliefSignal> = Vec::new();
            let mut i: usize = 0;
            while i < signals.len()
                invariant
                    i <= signals@.len(),
                    dv == signals.deep_view(),
                    r@.len() == i,
                    forall|k: int| 0 <= k < i ==> r.deep_view()[k] == dv[k],
                decreases signals@.len() - i,
            {
                r.push(signals[i].clone());
                i = i + 1;
            }
            proof {
                assert(r.deep_view() =~= dv);
            }
            return r;
        }
        let mean = mean_value(signals);
        let sd = std_of_values(signals);
        let ghost pred = keep_pred(dv, threshold);
        let mut r: Vec<BeliefSignal> = Vec::new();
        let mut i: usize = 0;
        proof {
            assert(dv.subrange(0, 0).filter(pred) =~= Seq::<SignalModel>::empty()) by {
                reveal(Seq::filter);
            }
            assert(r.deep_view() =~= Seq::<SignalModel>::empty());
        }
        while i < signals.len()
            invariant
                i <= signals@.len(),
                signals@.len() >= 3,
                dv == signals.deep_view(),
                mean == mean_of(values_of(dv)),
                -VALUE_LIMIT <= mean <= VALUE_LIMIT,
                sd == std_of(values_of(dv)),
                0 <= sd <= 2 * VALUE_LIMIT,
                threshold == self.config.outlier_threshold as int,
                pred == keep_pred(dv, threshold),
                all_wf(dv),
                r@.len() <= i,
                r.deep_view() == dv.subrange(0, i as int).filter(pred),
                all_wf(r.deep_view()),
            decreases signals@.len() - i,
        {
            let ghost prefix = dv.subrange(0, i as int);
            let ghost next = dv.subrange(0, i as int + 1);
            proof {
                assert(next.drop_last() =~= prefix);
                assert(next.last() == dv[i as int]);
                assert(dv[i as int] == signals@[i as int]@);
            }
            let d: i64 = signals[i].value - mean;
            let mag: i64 = if d < 0 { -d } else { d };
            proof {
                assert(0 <= (mag as int) * (SCALE as int) <= 2 * VALUE_LIMIT as int * SCALE as int)
                    by (nonlinear_arith)
                    requires 0 <= mag <= 2 * VALUE_LIMIT
                {}
                let t = self.config.outlier_threshold as int;
                assert(-(0x8000_0000_0000_0000int * (2 * VALUE_LIMIT as int)) <= t * (sd as int)
                    <= 0x7fff_ffff_ffff_ffffint * (2 * VALUE_LIMIT as int)) by (nonlinear_arith)
                    requires -0x8000_0000_0000_0000int <= t <= 0x7fff_ffff_ffff_ffffint,
                        0 <= sd <= 2 * VALUE_LIMIT
                {}
            }
            let keep = sd == 0 || (mag as i128) * (SCALE as i128) <= (
            self.config.outlier_threshold as i128) * (sd as i128);
            proof {
                assert(mag as int == abs_val(dv[i as int].value - mean as int));
                assert(keep == keeps(dv[i as int].value, mean as int, sd as int, threshold));
                assert(pred(dv[i as int]) == keep);
                assert(next =~= prefix.push(dv[i as int]));
                prefix.lemma_filter_push(dv[i as int], pred);
            }
            if keep {
                let ghost old_r = r.deep_view();
                r.push(signals[i].clone());
                proof {
                    assert(r.deep_view() =~= old_r.push(dv[i as int]));
                    assert(next.filter(pred) == prefix.filter(pred).push(dv[i as int]));
                    assert(all_wf(r.deep_view())) by {
                        assert forall|k: int| 0 <= k < r.deep_view().len() implies (
                        #[trigger] r.deep_view()[k]).wf() by {
                            if k < old_r.len() {
                                assert(r.deep_view()[k] == old_r[k]);
                            } else {
                                assert(r.deep_view()[k] == dv[i as int]);
                            }
                        }
                    }
                }
            } else {
                proof {
                    assert(next.filter(pred) == prefix.filter(pred));
                }
            }
            i = i + 1;
        }
        proof {
            assert(dv.subrange(0, signals@.len() as int) =~= dv);
            dv.lemma_filter_len(pred);
        }
        r
    }

    /// Pair each signal's value with its effective weight.
    fn apply_weights(&self, signals: &Vec<BeliefSignal>) -> (r: Vec<(i64, i64)>)
        requires
            all_wf(signals.deep_view()),
            self.spec_config().wf(),
        ensures
            r@.len() == signals@.len(),
            forall|k: int|
                0 <= k < r@.len() ==> (#[trigger] r@[k]).0 as int == signals.deep_view()[k].value
                    && r@[k].1 as int == eff_weight(
                    signals.deep_view()[k],
                    self.spec_config().signal_weights,
                ) && 0 <= r@[k].1 <= EFF_WEIGHT_LIMIT && -VALUE_LIMIT <= r@[k].0 <= VALUE_LIMIT,
    {
        let ghost dv = signals.deep_view();
        let ghost w = self.config.signal_weights;
        let mut r: Vec<(i64, i64)> = Vec::new();
        let mut i: usize = 0;
        while i < signals.len()
            invariant
                i <= signals@.len(),
                dv == signals.deep_view(),
                w == self.config.signal_weights,
                all_wf(dv),
                self.config.wf(),
                r@.len() == i,
                forall|k: int|
                    0 <= k < i ==> (#[trigger] r@[k]).0 as int == dv[k].value && r@[k].1 as int
                        == eff_weight(dv[k], w) && 0 <= r@[k].1 <= EFF_WEIGHT_LIMIT && -VALUE_LIMIT
                        <= r@[k].0 <= VALUE_LIMIT,
            decreases signals@.len() - i,
        {
            proof {
                assert(dv[i as int] == signals@[i as int]@);
            }
            let type_weight = self.get_signal_type_weight(signals[i].signal_type);
            proof {
                let p = dv[i as int].weight * spec_type_weight(dv[i as int].signal_type, w);
                assert(0 <= p <= WEIGHT_LIMIT as int * WEIGHT_LIMIT as int) by (nonlinear_arith)
                    requires 0 <= dv[i as int].weight <= WEIGHT_LIMIT as int,
                        0 <= spec_type_weight(dv[i as int].signal_type, w) <= WEIGHT_LIMIT as int,
                        p == dv[i as int].weight * spec_type_weight(dv[i as int].signal_type, w)
                {}
                assert(p / (SCALE as int) <= EFF_WEIGHT_LIMIT as int) by {
                    vstd::arithmetic::div_mod::lemma_div_is_ordered(
                        p,
                        WEIGHT_LIMIT as int * WEIGHT_LIMIT as int,
                        SCALE as int,
                    );
                    assert(WEIGHT_LIMIT as int * WEIGHT_LIMIT as int / (SCALE as int)
                        == EFF_WEIGHT_LIMIT as int) by (nonlinear_arith);
                }
                assert(p / (SCALE as int) >= 0) by {
                    vstd::arithmetic::div_mod::lemma_div_pos_is_pos(p, SCALE as int);
                }
            }
            let product: u64 = (signals[i].weight as u64) * (type_weight as u64);
            let ew: i64 = (product / (SCALE as u64)) as i64;
            r.push((signals[i].value, ew));
            i = i + 1;
        }
        r
    }

    /// Calculate the weighted average of the surviving signals: zero when no
    /// signal survives or the total effective weight vanishes.
    pub fn calculate_weighted_average(&self, weighted_signals: &Vec<(i64, i64)>) -> (r: i64)
        requires
            weighted_signals@.len() <= MAX_BATCH_LEN,
            forall|k: int|
                0 <= k < weighted_signals@.len() ==> 0 <= (#[trigger] weighted_signals@[k]).1
                    <= EFF_WEIGHT_LIMIT && -VALUE_LIMIT <= weighted_signals@[k].0 <= VALUE_LIMIT,
        ensures
            r == (if weighted_signals@.len() == 0 || sum_pair_weights(weighted_signals@) == 0 {
                0int
            } else {
                div_tz(sum_pair_products(weighted_signals@), sum_pair_weights(weighted_signals@))
            }),
            -VALUE_LIMIT <= r <= VALUE_LIMIT,
    {
        let ghost p = weighted_signals@;
        if weighted_signals.len() == 0 {
            return 0;
        }
        let mut tw: i128 = 0;
        let mut wv: i128 = 0;
        let mut i: usize = 0;
        proof {
            assert(p.subrange(0, 0) =~= Seq::<(i64, i64)>::empty());
        }
        while i < weighted_signals.len()
            invariant
                i <= p.len(),
                p.len() <= MAX_BATCH_LEN,
                p == weighted_signals@,
                forall|k: int|
                    0 <= k < p.len() ==> 0 <= (#[trigger] p[k]).1 <= EFF_WEIGHT_LIMIT
                        && -VALUE_LIMIT <= p[k].0 <= VALUE_LIMIT,
                tw == sum_pair_weights(p.subrange(0, i as int)),
                wv == sum_pair_products(p.subrange(0, i as int)),
                0 <= tw <= i as int * EFF_WEIGHT_LIMIT,
                -(VALUE_LIMIT as int * tw) <= wv <= VALUE_LIMIT as int * tw,
            decreases p.len() - i,
        {
            let ghost prefix = p.subrange(0, i as int);
            let ghost next = p.subrange(0, i as int + 1);
            let (v, weight) = weighted_signals[i];
            proof {
                assert(next.drop_last() =~= prefix);
                assert(next.last() == p[i as int]);
                assert(i as int * EFF_WEIGHT_LIMIT + EFF_WEIGHT_LIMIT == (i + 1) as int
                    * EFF_WEIGHT_LIMIT) by (nonlinear_arith);
                let prod = p[i as int].0 as int * p[i as int].1 as int;
                assert(-(VALUE_LIMIT as int * (p[i as int].1 as int)) <= prod <= VALUE_LIMIT as int
                    * (p[i as int].1 as int)) by (nonlinear_arith)
                    requires -VALUE_LIMIT <= p[i as int].0 <= VALUE_LIMIT, 0 <= p[i as int].1,
                        prod == p[i as int].0 as int * p[i as int].1 as int
                {}
                assert(VALUE_LIMIT as int * (tw + p[i as int].1 as int) == VALUE_LIMIT as int * tw
                    + VALUE_LIMIT as int * (p[i as int].1 as int)) by (nonlinear_arith);
                assert((i + 1) as int * EFF_WEIGHT_LIMIT <= 1_000_000int * EFF_WEIGHT_LIMIT)
                    by (nonlinear_arith)
                    requires (i as int) + 1 <= 1_000_000int
                {}
                assert(VALUE_LIMIT as int * (tw + p[i as int].1 as int) <= VALUE_LIMIT as int * (
                1_000_000int * EFF_WEIGHT_LIMIT as int)) by (nonlinear_arith)
                    requires 0 <= tw + p[i as int].1 as int <= 1_000_000int
                        * EFF_WEIGHT_LIMIT as int
                {}
            }
            wv = wv + (v as i128) * (weight as i128);
            tw = tw + weight as i128;
            i = i + 1;
        }
        proof {
            assert(p.subrange(0, p.len() as int) =~= p);
        }
        if tw == 0 {
            return 0;
        }
        proof {
            lemma_div_tz_scaled_bound(wv as int, tw as int, VALUE_LIMIT as int);
        }
        let r = div_trunc_i128(wv, tw);
        r as i64
    }

    /// Velocity: change from the lookback sample per sample of distance; zero
    /// with no history.
    fn calculate_velocity(&self, current_value: i64) -> (r: i64)
        requires
            self.wf(),
            -VALUE_LIMIT <= current_value <= VALUE_LIMIT,
        ensures
            r == spec_velocity(self.hist(), self.spec_config().smoothing_window,
                current_value as int),
            -2 * VALUE_LIMIT <= r <= 2 * VALUE_LIMIT,
    {
        let len = self.history.len();
        if len == 0 {
            return 0;
        }
        let w_raw: u64 = self.config.smoothing_window / 60;
        let w: u64 = if w_raw < 1 { 1 } else { w_raw };
        let lookback: usize = if (len as u64) > w { len - (w as usize) } else { 0 };
        let past = self.history[lookback].value;
        proof {
            assert(self.hist()[lookback as int] == self.history@[lookback as int]@);
            assert(self.hist()[lookback as int].wf());
        }
        let time_diff: i64 = (len - lookback) as i64;
        proof {
            lemma_div_tz_scaled_bound(
                current_value as int - past as int,
                time_diff as int,
                2 * VALUE_LIMIT as int,
            );
            assert(2 * VALUE_LIMIT as int * time_diff as int >= 2 * VALUE_LIMIT as int)
                by (nonlinear_arith)
                requires time_diff as int >= 1
            {}
        }
        div_trunc_i64(current_value - past, time_diff)
    }

    /// Volatility of the filtered batch: population standard deviation of its
    /// values, zero when fewer than two signals remain.
    fn calculate_volatility(&self, signals: &Vec<BeliefSignal>) -> (r: i64)
        requires
            all_wf(signals.deep_view()),
        ensures
            r == spec_volatility(signals.deep_view()),
            0 <= r <= 2 * VALUE_LIMIT,
    {
        if signals.len() < 2 {
            return 0;
        }
        std_of_values(signals)
    }

    /// Confidence of the filtered batch: 60% signal-count sufficiency, 40% low
    /// dispersion, clamped to `[0.0, 1.0]`.
    fn calculate_confidence(&self, signals: &Vec<BeliefSignal>) -> (r: i64)
        requires
            all_wf(signals.deep_view()),
            signals@.len() <= MAX_BATCH_LEN,
            self.spec_config().wf(),
        ensures
            r == spec_confidence(
                signals@.len() as int,
                self.spec_config().min_signal_count as int,
                spec_volatility(signals.deep_view()),
            ),
            0 <= r <= SCALE,
    {
        let count = signals.len();
        let cf_raw: u64 = (count as u64) * (SCALE as u64) / (self.config.min_signal_count as u64);
        proof {
            assert(count as int * SCALE as int / (self.config.min_signal_count as int)
                == cf_raw as int);
        }
        let cf: i64 = if cf_raw > SCALE as u64 { SCALE } else { cf_raw as i64 };
        let volatility = self.calculate_volatility(signals);
        let vf: i64 = if SCALE - volatility > 0 { SCALE - volatility } else { 0 };
        let c: i64 = (cf * 6 + vf * 4) / 10;
        proof {
            assert((cf as int * 6 + vf as int * 4) / 10 == c as int);
        }
        if c > SCALE { SCALE } else { c }
    }

    /// Calculate a BSI sample from a batch of signals at an explicit
    /// timestamp, appending the sample to the trailing history.
    pub fn calculate_at(&mut self, signals: &Vec<BeliefSignal>, domain: String, now: i64) -> (r:
        BeliefStateIndex)
        requires
            old(self).wf(),
            old(self).spec_config().wf(),
            all_wf(signals.deep_view()),
            signals@.len() <= MAX_BATCH_LEN,
        ensures
            final(self).wf(),
            final(self).spec_config() == old(self).spec_config(),
            r@ == spec_calculate(
                old(self).spec_config(),
                old(self).hist(),
                signals.deep_view(),
                domain@,
                now as int,
            ),
            r@.wf(),
            final(self).hist() == push_bounded(old(self).hist(), r@),
    {
        let ghost cfg = self.config;
        let ghost dv = signals.deep_view();
        let ghost f = spec_filter(dv, cfg.outlier_threshold as int);

        let filtered_signals = self.filter_outliers(signals);
        let weighted_signals = self.apply_weights(&filtered_signals);
        proof {
            lemma_pair_sums(weighted_signals@, filtered_signals.deep_view(),
                cfg.signal_weights);
        }
        let value = self.calculate_weighted_average(&weighted_signals);
        proof {
            assert(value as int == weighted_average(f, cfg.signal_weights));
        }
        let velocity = self.calculate_velocity(value);
        let volatility = self.calculate_volatility(&filtered_signals);
        let confidence = self.calculate_confidence(&filtered_signals);

        let bsi = BeliefStateIndex {
            value,
            velocity,
            volatility,
            last_updated: now,
            confidence,
            signal_count: filtered_signals.len() as u32,
            domain,
        };

        let ghost old_hist = self.hist();
        self.history.push(bsi.clone());
        proof {
            assert(self.hist() =~= old_hist.push(bsi@));
        }
        if self.history.len() > HISTORY_CAP {
            let ghost pushed = self.hist();
            self.history.remove(0);
            proof {
                assert(self.hist() =~= pushed.drop_first());
            }
        }
        proof {
            assert(self.hist() == push_bounded(old_hist, bsi@));
            assert(hist_wf(self.hist())) by {
                assert forall|i: int| 0 <= i < self.hist().len() implies (#[trigger] self.hist()[
                    i]).wf() by {
                    if self.hist()[i] != bsi@ {
                        assert(old_hist.contains(self.hist()[i]) || self.hist()[i] == bsi@);
                    }
                }
            }
        }
        bsi
    }

    /// Calculate a BSI sample from a batch of signals, timestamped with the
    /// current wall-clock time. The returned sample is a pure function of the
    /// configuration, the prior history, the batch, and the timestamp it
    /// carries.
    pub fn calculate(&mut self, signals: &Vec<BeliefSignal>, domain: String) -> (r:
        BeliefStateIndex)
        requires
            old(self).wf(),
            old(self).spec_config().wf(),
            all_wf(signals.deep_view()),
            signals@.len() <= MAX_BATCH_LEN,
        ensures
            final(self).wf(),
            final(self).spec_config() == old(self).spec_config(),
            r@ == spec_calculate(
                old(self).spec_config(),
                old(self).hist(),
                signals.deep_view(),
                domain@,
                r@.last_updated,
            ),
            r@.wf(),
            final(self).hist() == push_bounded(old(self).hist(), r@),
    {
        let now = now_ts();
        self.calculate_at(signals, domain, now)
    }

    /// Apply temporal decay: every retained sample's value and velocity is
    /// scaled by the decay factor in place.
    pub fn apply_decay(&mut self)
        requires
            old(self).wf(),
            old(self).spec_config().wf(),
        ensures
            final(self).wf(),
            final(self).spec_config() == old(self).spec_config(),
            final(self).hist().len() == old(self).hist().len(),
            forall|i: int|
                0 <= i < final(self).hist().len() ==> (#[trigger] final(self).hist()[i]) == (IndexModel {
                    value: div_tz(
                        old(self).hist()[i].value * old(self).spec_config().decay_factor,
                        SCALE as int,
                    ),
                    velocity: div_tz(
                        old(self).hist()[i].velocity * old(self).spec_config().decay_factor,
                        SCALE as int,
                    ),
                    ..old(self).hist()[i]
                }),
    {
        let ghost orig = self.hist();
        let ghost d = self.config.decay_factor as int;
        let mut i: usize = 0;
        while i < self.history.len()
            invariant
                i <= self.history@.len(),
                self.history@.len() == orig.len(),
                d == self.config.decay_factor as int,
                0 <= d <= SCALE,
                self.config == old(self).config,
                hist_wf(orig),
                orig == old(self).hist(),
                forall|k: int|
                    0 <= k < i ==> (#[trigger] self.hist()[k]) == (IndexModel {
                        value: div_tz(orig[k].value * d, SCALE as int),
                        velocity: div_tz(orig[k].velocity * d, SCALE as int),
                        ..orig[k]
                    }),
                forall|k: int| i <= k < orig.len() ==> #[trigger] self.hist()[k] == orig[k],
                hist_wf(self.hist()),
            decreases self.history@.len() - i,
        {
            proof {
                assert(self.hist()[i as int] == self.history@[i as int]@);
                assert(orig[i as int].wf());
                let v = orig[i as int].value;
                assert(-(VALUE_LIMIT as int * SCALE as int) <= v * d <= VALUE_LIMIT as int
                    * SCALE as int) by (nonlinear_arith)
                    requires -VALUE_LIMIT <= v <= VALUE_LIMIT, 0 <= d <= SCALE
                {}
                lemma_div_tz_scaled_bound(v * d, SCALE as int, VALUE_LIMIT as int);
                let w = orig[i as int].velocity;
                assert(-((2 * VALUE_LIMIT as int) * SCALE as int) <= w * d <= (2
                    * VALUE_LIMIT as int) * SCALE as int) by (nonlinear_arith)
                    requires -2 * VALUE_LIMIT <= w <= 2 * VALUE_LIMIT, 0 <= d <= SCALE
                {}
                lemma_div_tz_scaled_bound(w * d, SCALE as int, 2 * VALUE_LIMIT as int);
            }
            let sample = &self.history[i];
            let new_value = div_trunc_i64(sample.value * self.config.decay_factor, SCALE);
            let new_velocity = div_trunc_i64(sample.velocity * self.config.decay_factor, SCALE);
            let ghost before = self.hist();
            let domain = self.history[i].domain.clone();
            let updated = BeliefStateIndex {
                value: new_value,
                velocity: new_velocity,
                volatility: self.history[i].volatility,
                last_updated: self.history[i].last_updated,
                confidence: self.history[i].confidence,
                signal_count: self.history[i].signal_count,
                domain,
            };
            self.history.set(i, updated);
            proof {
                assert(self.hist() =~= before.update(i as int, updated@));
            }
            i = i + 1;
        }
    }

    /// Read the trailing index-sample history.
    pub fn get_history(&self) -> (r: &Vec<BeliefStateIndex>)
        ensures
            r.deep_view() == self.hist(),
    {
        &self.history
    }

    /// Clear the trailing history.
    pub fn clear_history(&mut self)
        ensures
            final(self).hist() == Seq::<IndexModel>::empty(),
            final(self).spec_config() == old(self).spec_config(),
            final(self).wf(),
    {
        self.history.clear();
        proof {
            assert(self.hist() =~= Seq::<IndexModel>::empty());
        }
    }
}

/// Sum of the weights of a weighted-pair sequence.
pub open spec fn sum_pair_weights(p: Seq<(i64, i64)>) -> int
    decreases p.len(),
{
    if p.len() == 0 {
        0
    } else {
        sum_pair_weights(p.drop_last()) + p.last().1 as int
    }
}

/// Sum of value times weight over a weighted-pair sequence.
pub open spec fn sum_pair_products(p: Seq<(i64, i64)>) -> int
    decreases p.len(),
{
    if p.len() == 0 {
        0
    } else {
        sum_pair_products(p.drop_last()) + p.last().0 as int * p.last().1 as int
    }
}

/// Confidence always lands in the unit interval: for any configuration that
/// passes validation and any non-empty signal batch, the calculated sample's
/// confidence is within `[0.0, 1.0]`.
pub proof fn lemma_confidence_in_unit_range(
    cfg: BsiConfig,
    hist: Seq<IndexModel>,
    sigs: Seq<SignalModel>,
    domain: Seq<char>,
    now: int,
)
    requires
        cfg.spec_valid(),
        sigs.len() > 0,
    ensures
        0 <= spec_calculate(cfg, hist, sigs, domain, now).confidence <= SCALE,
{
    let f = spec_filter(sigs, cfg.outlier_threshold as int);
    let vol = spec_volatility(f);
    let count = f.len() as int;
    let minc = cfg.min_signal_count as int;
    assert(vol >= 0);
    assert(count * SCALE >= 0) by (nonlinear_arith)
        requires count >= 0
    {}
    let cf_raw = count * SCALE / minc;
    assert(cf_raw >= 0) by {
        vstd::arithmetic::div_mod::lemma_div_pos_is_pos(count * SCALE, minc);
    }
    let cf = if cf_raw > SCALE {
        SCALE as int
    } else {
        cf_raw
    };
    let vf = if SCALE - vol > 0 {
        SCALE - vol
    } else {
        0
    };
    assert(0 <= cf <= SCALE && 0 <= vf <= SCALE);
    assert(cf * 6 + vf * 4 >= 0) by (nonlinear_arith)
        requires cf >= 0, vf >= 0
    {}
    assert((cf * 6 + vf * 4) / 10 >= 0) by {
        vstd::arithmetic::div_mod::lemma_div_pos_is_pos(cf * 6 + vf * 4, 10);
    }
}

/// Determinism: identical signal batches against the same configuration and
/// the same trailing history yield the identical fused sample, whatever the
/// inputs are.
pub proof fn lemma_calculate_deterministic(
    cfg: BsiConfig,
    hist: Seq<IndexModel>,
    first: Seq<SignalModel>,
    second: Seq<SignalModel>,
    domain: Seq<char>,
    now: int,
)
    requires
        first == second,
    ensures
        spec_calculate(cfg, hist, first, domain, now) == spec_calculate(
            cfg,
            hist,
            second,
            domain,
            now,
        ),
{
}

/// A weighted-pair sequence that mirrors a batch pointwise has the same sums.
proof fn lemma_pair_sums(p: Seq<(i64, i64)>, s: Seq<SignalModel>, w: SignalWeights)
    requires
        p.len() == s.len(),
        forall|k: int|
            0 <= k < p.len() ==> (#[trigger] p[k]).0 as int == s[k].value && p[k].1 as int
                == eff_weight(s[k], w),
    ensures
        sum_pair_weights(p) == sum_eff_weights(s, w),
        sum_pair_products(p) == sum_weighted_values(s, w),
    decreases p.len(),
{
    if p.len() > 0 {
        assert(forall|k: int|
            0 <= k < p.len() - 1 ==> (#[trigger] p.drop_last()[k]) == p[k] && s.drop_last()[k]
                == s[k]);
        lemma_pair_sums(p.drop_last(), s.drop_last(), w);
        assert(p.last().0 as int == s.last().value);
        assert(p.last().1 as int == eff_weight(s.last(), w));
    }
}

} // verus!
