//! Belief monitor: consumes a sequence of Belief State Index samples,
//! detects inflection points with a battery of detectors, and validates an
//! inflection's persistence against subsequent samples.
//!
//! The monitor itself is synchronous; subscriber dispatch is the embedding
//! system's concern, with the contract that every subscriber runs, in
//! registration order, before an update is considered delivered.

use vstd::prelude::*;

use crate::belief::{BeliefInflection, BeliefStateIndex, IndexModel, InflectionType, VALUE_LIMIT};
use crate::calculator::{abs_val, hist_wf, push_bounded, HISTORY_CAP};
use crate::math::div_trunc_i64;
use crate::stats::{bounded_by, lemma_mean_bound, lemma_sum_ints_step, mean_of, sum_ints};

verus! {

/// A velocity spike only counts when the recent average velocity is itself
/// appreciable: twice its magnitude must exceed `0.1`.
pub const SPIKE_FLOOR: i64 = 100_000;

/// The values carried by a sequence of index samples.
pub open spec fn index_values(h: Seq<IndexModel>) -> Seq<int> {
    h.map_values(|m: IndexModel| m.value)
}

/// The velocities carried by a sequence of index samples.
pub open spec fn index_velocities(h: Seq<IndexModel>) -> Seq<int> {
    h.map_values(|m: IndexModel| m.velocity)
}

/// Start of the trailing window: the last ten samples, or all of them.
pub open spec fn tail_start(n: int) -> int {
    if n > 10 {
        n - 10
    } else {
        0
    }
}

/// Mean value over the trailing window, current sample included.
pub open spec fn window_avg_value(h: Seq<IndexModel>) -> int {
    mean_of(index_values(h).subrange(tail_start(h.len() as int), h.len() as int))
}

/// Mean velocity over the trailing window, current sample included.
pub open spec fn window_avg_velocity(h: Seq<IndexModel>) -> int {
    mean_of(index_velocities(h).subrange(tail_start(h.len() as int), h.len() as int))
}

/// Sentiment reversal: the trailing average and the current value sit on
/// opposite sides, with the current value beyond the threshold.
pub open spec fn sr_fires(h: Seq<IndexModel>, t: int) -> bool {
    let avg = window_avg_value(h);
    let cur = h.last();
    (avg > 0 && cur.value < -t) || (avg < 0 && cur.value > t)
}

/// Threshold crossing: the previous sample and the current one sit on
/// opposite sides of the positive or negative threshold.
pub open spec fn tc_fires(h: Seq<IndexModel>, t: int) -> bool {
    let prev = h[h.len() - 2];
    let cur = h.last();
    (prev.value < t && cur.value >= t) || (prev.value > -t && cur.value <= -t)
}

/// Velocity spike: the current velocity magnitude exceeds twice the trailing
/// average's magnitude, and that bar itself is appreciable.
pub open spec fn vs_fires(h: Seq<IndexModel>) -> bool {
    let avg = window_avg_velocity(h);
    let bar = 2 * abs_val(avg);
    abs_val(h.last().velocity) > bar && bar > SPIKE_FLOOR
}

/// The detector battery: with at least three samples of history, the first
/// detector to fire, in priority order, names the inflection; at most one
/// event per update.
pub open spec fn detection(h: Seq<IndexModel>, t: int) -> Option<InflectionType> {
    if h.len() < 3 {
        None
    } else if sr_fires(h, t) {
        Some(InflectionType::SentimentReversal)
    } else if tc_fires(h, t) {
        Some(InflectionType::ThresholdCrossing)
    } else if vs_fires(h) {
        Some(InflectionType::VelocitySpike)
    } else {
        None
    }
}

/// The sharpness of a detected inflection: the magnitude of the triggering
/// deviation.
pub open spec fn sharpness_of(h: Seq<IndexModel>, it: InflectionType) -> int {
    match it {
        InflectionType::SentimentReversal => abs_val(h.last().value - window_avg_value(h)),
        InflectionType::ThresholdCrossing => abs_val(h.last().value - h[h.len() - 2].value),
        _ => abs_val(h.last().velocity - window_avg_velocity(h)),
    }
}

/// Whether one post-inflection sample keeps the inflection's condition alive.
pub open spec fn persist_cond(m: IndexModel, it: InflectionType, bsi_value: int, t: int) -> bool {
    match it {
        InflectionType::SentimentReversal => (bsi_value > 0 && m.value > 0) || (bsi_value < 0
            && m.value < 0),
        InflectionType::ThresholdCrossing => (bsi_value >= t && m.value >= t) || (bsi_value <= -t
            && m.value <= -t),
        _ => true,
    }
}

/// The samples at or after the inflection's timestamp, in history order.
pub open spec fn post_pred(ts: int) -> spec_fn(IndexModel) -> bool {
    |m: IndexModel| m.last_updated >= ts
}

/// Whether `validate_persistence` reports an inflection as persisted: some
/// samples follow it, every one of them keeps its condition alive, and they
/// span at least the minimum persistence duration.
pub open spec fn spec_persistence(
    h: Seq<IndexModel>,
    f: BeliefInflection,
    t: int,
    min_persistence: u64,
) -> bool {
    let post = h.filter(post_pred(f.timestamp as int));
    &&& post.len() > 0
    &&& forall|i: int|
        0 <= i < post.len() ==> persist_cond(
            #[trigger] post[i],
            f.inflection_type,
            f.bsi_value as int,
            t,
        )
    &&& post.last().last_updated - f.timestamp >= min_persistence
}

/// The history bound law: a history at or under the cap stays at or under it
/// when a sample is appended; an append to a full history evicts exactly the
/// oldest sample, so after the cap is reached the oldest retained sample is
/// always the one inserted just after the evicted ones.
pub proof fn lemma_history_bound(h: Seq<IndexModel>, m: IndexModel)
    requires
        0 <= h.len() <= HISTORY_CAP,
    ensures
        push_bounded(h, m).len() <= HISTORY_CAP,
        h.len() < HISTORY_CAP ==> push_bounded(h, m) == h.push(m),
        h.len() == HISTORY_CAP ==> push_bounded(h, m) == h.drop_first().push(m),
{
    if h.len() == HISTORY_CAP {
        assert(h.push(m).drop_first() =~= h.drop_first().push(m));
    }
}

/// The persistence rejection law: a threshold-crossing inflection is not
/// persisted whenever any later sample in history falls back across the
/// threshold to the opposite side of the one that triggered it.
pub proof fn lemma_persistence_rejects_backslide(
    h: Seq<IndexModel>,
    f: BeliefInflection,
    t: int,
    min_persistence: u64,
    i: int,
)
    requires
        f.inflection_type == InflectionType::ThresholdCrossing,
        0 <= i < h.len(),
        h[i].last_updated >= f.timestamp,
        !persist_cond(h[i], f.inflection_type, f.bsi_value as int, t),
    ensures
        !spec_persistence(h, f, t, min_persistence),
{
    let pred = post_pred(f.timestamp as int);
    let post = h.filter(pred);
    assert(pred(h[i]));
    h.lemma_filter_contains(pred, i);
    assert(post.contains(h[i]));
    let k = choose|k: int| 0 <= k < post.len() && post[k] == h[i];
    assert(!persist_cond(post[k], f.inflection_type, f.bsi_value as int, t));
}

/// Monitors Belief State Index samples for inflection points.
pub struct BeliefMonitor {
    /// Historical BSI samples, oldest first.
    history: Vec<BeliefStateIndex>,
    /// Inflection detection threshold, micro-units.
    threshold: i64,
    /// Minimum persistence duration, seconds.
    min_persistence: u64,
}

impl BeliefMonitor {
    /// The retained index-sample history, as a mathematical sequence.
    pub closed spec fn hist(self) -> Seq<IndexModel> {
        self.history.deep_view()
    }

    /// The detection threshold.
    pub closed spec fn spec_threshold(self) -> i64 {
        self.threshold
    }

    /// The minimum persistence duration.
    pub closed spec fn spec_min_persistence(self) -> u64 {
        self.min_persistence
    }

    /// Internal invariant: the history is bounded, every sample in it is
    /// within the machine bounds, and the threshold is a value-scale
    /// quantity.
    pub open spec fn wf(self) -> bool {
        &&& self.hist().len() <= HISTORY_CAP
        &&& hist_wf(self.hist())
        &&& 0 <= self.spec_threshold() <= VALUE_LIMIT
    }

    /// Create a new belief monitor.
    pub fn new(threshold: i64, min_persistence: u64) -> (r: Self)
        requires
            0 <= threshold <= VALUE_LIMIT,
        ensures
            r.hist() == Seq::<IndexModel>::empty(),
            r.spec_threshold() == threshold,
            r.spec_min_persistence() == min_persistence,
            r.wf(),
    {
        let r = BeliefMonitor { history: Vec::new(), threshold, min_persistence };
        proof {
            assert(r.hist() =~= Seq::<IndexModel>::empty());
        }
        r
    }

    /// Mean value over the last ten (or fewer) samples.
    fn window_avg_value_exec(&self) -> (r: i64)
        requires
            self.wf(),
            self.hist().len() >= 1,
        ensures
            r == window_avg_value(self.hist()),
            -VALUE_LIMIT <= r <= VALUE_LIMIT,
    {
        let ghost h = self.hist();
        let ghost w = index_values(h).subrange(tail_start(h.len() as int), h.len() as int);
        let len = self.history.len();
        let lb: usize = if len > 10 { len - 10 } else { 0 };
        let count: usize = len - lb;
        let mut sum: i64 = 0;
        let mut j: usize = 0;
        proof {
            assert(w.subrange(0, 0) =~= Seq::<int>::empty());
            assert(bounded_by(w, VALUE_LIMIT as int)) by {
                assert forall|p: int| 0 <= p < w.len() implies -VALUE_LIMIT <= #[trigger] w[p]
                    <= VALUE_LIMIT by {
                    assert(w[p] == h[lb + p].value);
                    assert(h[lb + p].wf());
                }
            }
        }
        while j < count
            invariant
                j <= count,
                h == self.hist(),
                self.wf(),
                len == self.history@.len(),
                lb == tail_start(h.len() as int),
                count == len - lb,
                w == index_values(h).subrange(lb as int, h.len() as int),
                bounded_by(w, VALUE_LIMIT as int),
                sum == sum_ints(w.subrange(0, j as int)),
                -(j as int * VALUE_LIMIT) <= sum <= j as int * VALUE_LIMIT,
                count <= 10,
            decreases count - j,
        {
            proof {
                assert(w[j as int] == h[lb + j as int].value);
                assert(self.hist()[lb + j as int] == self.history@[(lb + j) as int]@);
                lemma_sum_ints_step(w, j as int);
                assert(h[lb + j as int].wf());
                assert(j as int * VALUE_LIMIT as int + VALUE_LIMIT as int == (j + 1) as int
                    * VALUE_LIMIT as int) by (nonlinear_arith);
                assert(j as int * VALUE_LIMIT as int <= 9 * VALUE_LIMIT as int)
                    by (nonlinear_arith)
                    requires 0 <= (j as int), (j as int) <= 9
                {}
            }
            sum = sum + self.history[lb + j].value;
            j = j + 1;
        }
        proof {
            assert(w.subrange(0, count as int) =~= w);
            lemma_mean_bound(w, VALUE_LIMIT as int);
        }
        div_trunc_i64(sum, count as i64)
    }

    /// Mean velocity over the last ten (or fewer) samples.
    fn window_avg_velocity_exec(&self) -> (r: i64)
        requires
            self.wf(),
            self.hist().len() >= 1,
        ensures
            r == window_avg_velocity(self.hist()),
            -2 * VALUE_LIMIT <= r <= 2 * VALUE_LIMIT,
    {
        let ghost h = self.hist();
        let ghost w = index_velocities(h).subrange(tail_start(h.len() as int), h.len() as int);
        let len = self.history.len();
        let lb: usize = if len > 10 { len - 10 } else { 0 };
        let count: usize = len - lb;
        let mut sum: i64 = 0;
        let mut j: usize = 0;
        proof {
            assert(w.subrange(0, 0) =~= Seq::<int>::empty());
            assert(bounded_by(w, 2 * VALUE_LIMIT as int)) by {
                assert forall|p: int| 0 <= p < w.len() implies -2 * VALUE_LIMIT <= #[trigger] w[p]
                    <= 2 * VALUE_LIMIT by {
                    assert(w[p] == h[lb + p].velocity);
                    assert(h[lb + p].wf());
                }
            }
        }
        while j < count
            invariant
                j <= count,
                h == self.hist(),
                self.wf(),
                len == self.history@.len(),
                lb == tail_start(h.len() as int),
                count == len - lb,
                w == index_velocities(h).subrange(lb as int, h.len() as int),
                bounded_by(w, 2 * VALUE_LIMIT as int),
                sum == sum_ints(w.subrange(0, j as int)),
                -(j as int * (2 * VALUE_LIMIT)) <= sum <= j as int * (2 * VALUE_LIMIT),
                count <= 10,
            decreases count - j,
        {
            proof {
                assert(w[j as int] == h[lb + j as int].velocity);
                assert(self.hist()[lb + j as int] == self.history@[(lb + j) as int]@);
                lemma_sum_ints_step(w, j as int);
                assert(h[lb + j as int].wf());
                assert(j as int * (2 * VALUE_LIMIT as int) + 2 * VALUE_LIMIT as int == (j
                    + 1) as int * (2 * VALUE_LIMIT as int)) by (nonlinear_arith);
                assert(j as int * (2 * VALUE_LIMIT as int) <= 9 * (2 * VALUE_LIMIT as int))
                    by (nonlinear_arith)
                    requires 0 <= (j as int), (j as int) <= 9
                {}
            }
            sum = sum + self.history[lb + j].velocity;
            j = j + 1;
        }
        proof {
            assert(w.subrange(0, count as int) =~= w);
            lemma_mean_bound(w, 2 * VALUE_LIMIT as int);
        }
        div_trunc_i64(sum, count as i64)
    }

    /// Run the detector battery against the freshly appended sample.
    fn detect_inflection(&self, current: &BeliefStateIndex) -> (r: Option<BeliefInflection>)
        requires
            self.wf(),
            self.hist().len() >= 1,
            self.hist().last() == current@,
        ensures
            r is Some <==> detection(self.hist(), self.spec_threshold() as int) is Some,
            r matches Some(f) ==> {
                &&& Some(f.inflection_type) == detection(self.hist(), self.spec_threshold() as int)
                &&& f.timestamp == current.last_updated
                &&& f.bsi_value == current.value
                &&& f.velocity == current.velocity
                &&& f.sharpness as int == sharpness_of(self.hist(), f.inflection_type)
                &&& f.persistence_duration == 0
                &&& !f.validated
            },
    {
        let ghost h = self.hist();
        let ghost t = self.threshold as int;
        if self.history.len() < 3 {
            return None;
        }
        proof {
            assert(h.last().wf());
        }
        // Sentiment reversal.
        let avg = self.window_avg_value_exec();
        if (avg > 0 && current.value < -self.threshold) || (avg < 0 && current.value
            > self.threshold) {
            let deviation: i64 = current.value - avg;
            let sharpness: i64 = if deviation < 0 { -deviation } else { deviation };
            return Some(BeliefInflection {
                inflection_type: InflectionType::SentimentReversal,
                timestamp: current.last_updated,
                bsi_value: current.value,
                velocity: current.velocity,
                sharpness,
                persistence_duration: 0,
                validated: false,
            });
        }
        // Threshold crossing.
        let prev = self.history[self.history.len() - 2].value;
        proof {
            assert(h[h.len() - 2] == self.history@[self.history@.len() - 2]@);
            assert(h[h.len() - 2].wf());
        }
        if (prev < self.threshold && current.value >= self.threshold) || (prev > -self.threshold
            && current.value <= -self.threshold) {
            let deviation: i64 = current.value - prev;
            let sharpness: i64 = if deviation < 0 { -deviation } else { deviation };
            return Some(BeliefInflection {
                inflection_type: InflectionType::ThresholdCrossing,
                timestamp: current.last_updated,
                bsi_value: current.value,
                velocity: current.velocity,
                sharpness,
                persistence_duration: 0,
                validated: false,
            });
        }
        // Velocity spike.
        let avg_velocity = self.window_avg_velocity_exec();
        let bar: i64 = 2 * (if avg_velocity < 0 { -avg_velocity } else { avg_velocity });
        let cur_mag: i64 = if current.velocity < 0 { -current.velocity } else { current.velocity };
        if cur_mag > bar && bar > SPIKE_FLOOR {
            let deviation: i64 = current.velocity - avg_velocity;
            let sharpness: i64 = if deviation < 0 { -deviation } else { deviation };
            return Some(BeliefInflection {
                inflection_type: InflectionType::VelocitySpike,
                timestamp: current.last_updated,
                bsi_value: current.value,
                velocity: current.velocity,
                sharpness,
                persistence_duration: 0,
                validated: false,
            });
        }
        None
    }

    /// Append a sample to the bounded history and run the detectors against
    /// it; at most one inflection fires per update, raw and unvalidated.
    pub fn update(&mut self, bsi: BeliefStateIndex) -> (r: Option<BeliefInflection>)
        requires
            old(self).wf(),
            bsi@.wf(),
        ensures
            final(self).wf(),
            final(self).spec_threshold() == old(self).spec_threshold(),
            final(self).spec_min_persistence() == old(self).spec_min_persistence(),
            final(self).hist() == push_bounded(old(self).hist(), bsi@),
            r is Some <==> detection(final(self).hist(), old(self).spec_threshold() as int)
                is Some,
            r matches Some(f) ==> {
                &&& Some(f.inflection_type) == detection(
                    final(self).hist(),
                    old(self).spec_threshold() as int,
                )
                &&& f.timestamp as int == bsi@.last_updated
                &&& f.bsi_value as int == bsi@.value
                &&& f.velocity as int == bsi@.velocity
                &&& f.sharpness as int == sharpness_of(final(self).hist(), f.inflection_type)
                &&& f.persistence_duration == 0
                &&& !f.validated
            },
    {
        let ghost old_hist = self.hist();
        let current = bsi.clone();
        self.history.push(bsi);
        proof {
            assert(self.hist() =~= old_hist.push(current@));
        }
        if self.history.len() > HISTORY_CAP {
            let ghost pushed = self.hist();
            self.history.remove(0);
            proof {
                assert(self.hist() =~= pushed.drop_first());
            }
        }
        proof {
            assert(self.hist() == push_bounded(old_hist, current@));
            assert(hist_wf(self.hist())) by {
                assert forall|i: int| 0 <= i < self.hist().len() implies (#[trigger] self.hist()[
                    i]).wf() by {
                    if self.hist()[i] != current@ {
                        assert(old_hist.contains(self.hist()[i]) || self.hist()[i] == current@);
                    }
                }
            }
            assert(self.hist().last() == current@);
        }
        self.detect_inflection(&current)
    }

    /// Inspect the history entries at or after the inflection's timestamp and
    /// report whether its condition persisted for at least the minimum
    /// duration. A total function: no input fails.
    pub fn validate_persistence(&self, inflection: &BeliefInflection) -> (r: bool)
        requires
            self.wf(),
        ensures
            r == spec_persistence(
                self.hist(),
                *inflection,
                self.spec_threshold() as int,
                self.spec_min_persistence(),
            ),
    {
        let ghost h = self.hist();
        let ghost pred = post_pred(inflection.timestamp as int);
        let mut found = false;
        let mut last_ts: i64 = 0;
        let mut persisted = true;
        let mut i: usize = 0;
        proof {
            assert(h.subrange(0, 0).filter(pred) =~= Seq::<IndexModel>::empty()) by {
                reveal(Seq::filter);
            }
        }
        while i < self.history.len()
            invariant
                i <= self.history@.len(),
                h == self.hist(),
                self.wf(),
                pred == post_pred(inflection.timestamp as int),
                found == (h.subrange(0, i as int).filter(pred).len() > 0),
                found ==> last_ts as int == h.subrange(0, i as int).filter(
                    pred,
                ).last().last_updated,
                persisted == (forall|k: int|
                    0 <= k < h.subrange(0, i as int).filter(pred).len() ==> persist_cond(
                        #[trigger] h.subrange(0, i as int).filter(pred)[k],
                        inflection.inflection_type,
                        inflection.bsi_value as int,
                        self.spec_threshold() as int,
                    )),
            decreases self.history@.len() - i,
        {
            let ghost prefix = h.subrange(0, i as int);
            let ghost next = h.subrange(0, i as int + 1);
            proof {
                assert(next =~= prefix.push(h[i as int]));
                prefix.lemma_filter_push(h[i as int], pred);
                assert(h[i as int] == self.history@[i as int]@);
            }
            let sample_ts = self.history[i].last_updated;
            if sample_ts >= inflection.timestamp {
                found = true;
                last_ts = sample_ts;
                let v = self.history[i].value;
                let keeps_alive = match inflection.inflection_type {
                    InflectionType::SentimentReversal => (inflection.bsi_value > 0 && v > 0) || (
                    inflection.bsi_value < 0 && v < 0),
                    InflectionType::ThresholdCrossing => (inflection.bsi_value >= self.threshold
                        && v >= self.threshold) || (inflection.bsi_value <= -self.threshold && v
                        <= -self.threshold),
                    _ => true,
                };
                proof {
                    assert(keeps_alive == persist_cond(
                        h[i as int],
                        inflection.inflection_type,
                        inflection.bsi_value as int,
                        self.spec_threshold() as int,
                    ));
                    assert(next.filter(pred) == prefix.filter(pred).push(h[i as int]));
                }
                if !keeps_alive {
                    persisted = false;
                }
                proof {
                    let nf = next.filter(pred);
                    assert forall|k: int|
                        0 <= k < nf.len() && persisted implies persist_cond(
                            #[trigger] nf[k],
                            inflection.inflection_type,
                            inflection.bsi_value as int,
                            self.spec_threshold() as int,
                        ) by {
                        if k < nf.len() - 1 {
                            assert(nf[k] == prefix.filter(pred)[k]);
                        } else {
                            assert(nf[k] == h[i as int]);
                        }
                    }
                    if !persisted {
                        assert(!(forall|k: int|
                            0 <= k < nf.len() ==> persist_cond(
                                #[trigger] nf[k],
                                inflection.inflection_type,
                                inflection.bsi_value as int,
                                self.spec_threshold() as int,
                            ))) by {
                            if !keeps_alive {
                                assert(nf[nf.len() - 1] == h[i as int]);
                            } else {
                                let bad = choose|k: int|
                                    0 <= k < prefix.filter(pred).len() && !persist_cond(
                                        #[trigger] prefix.filter(pred)[k],
                                        inflection.inflection_type,
                                        inflection.bsi_value as int,
                                        self.spec_threshold() as int,
                                    );
                                assert(nf[bad] == prefix.filter(pred)[bad]);
                            }
                        }
                    }
                }
            } else {
                proof {
                    assert(next.filter(pred) == prefix.filter(pred));
                }
            }
            i = i + 1;
        }
        proof {
            assert(h.subrange(0, self.history@.len() as int) =~= h);
        }
        if !found {
            return false;
        }
        let long_enough = (last_ts as i128) - (inflection.timestamp as i128) >= (
        self.min_persistence as i128);
        persisted && long_enough
    }

    /// A copy of the retained history.
    pub fn get_history(&self) -> (r: Vec<BeliefStateIndex>)
        ensures
            r.deep_view() == self.hist(),
    {
        let mut r: Vec<BeliefStateIndex> = Vec::new();
        let mut i: usize = 0;
        proof {
            assert(r.deep_view() =~= self.hist().subrange(0, 0));
        }
        while i < self.history.len()
            invariant
                i <= self.history@.len(),
                r.deep_view() == self.hist().subrange(0, i as int),
            decreases self.history@.len() - i,
        {
            proof {
                assert(self.hist()[i as int] == self.history@[i as int]@);
            }
            let ghost old_r = r.deep_view();
            r.push(self.history[i].clone());
            proof {
                assert(r.deep_view() =~= old_r.push(self.hist()[i as int]));
                assert(r.deep_view() =~= self.hist().subrange(0, i as int + 1));
            }
            i = i + 1;
        }
        proof {
            assert(self.hist().subrange(0, self.history@.len() as int) =~= self.hist());
        }
        r
    }

    /// Clear the retained history.
    pub fn clear_history(&mut self)
        requires
            old(self).wf(),
        ensures
            final(self).hist() == Seq::<IndexModel>::empty(),
            final(self).spec_threshold() == old(self).spec_threshold(),
            final(self).spec_min_persistence() == old(self).spec_min_persistence(),
            final(self).wf(),
    {
        self.history.clear();
        proof {
            assert(self.hist() =~= Seq::<IndexModel>::empty());
        }
    }
}

} // verus!
