//! Signal aggregator: bounded, source-partitioned buffering and read-side
//! statistics over belief signals.

use vstd::prelude::*;

use crate::belief::{BeliefSignal, SignalModel, SignalType, VALUE_LIMIT};
use crate::clock::now_ts;
use crate::math::div_trunc_i64;
use crate::stats::{all_wf, bounded_by, lemma_sort_preserves_bounds, max_of, mean_of, mean_value,
    median_of, min_of, sorted_copy, std_of, std_of_values, to_ints, values_of};

verus! {

/// One source's buffer: the signals it contributed, in insertion order.
pub struct SourceBuffer {
    /// The source identifier all signals in this buffer share.
    pub source: String,
    /// The buffered signals, oldest first.
    pub signals: Vec<BeliefSignal>,
}

/// Mathematical model of one source's buffer.
pub ghost struct BufferModel {
    pub source: Seq<char>,
    pub signals: Seq<SignalModel>,
}

impl View for SourceBuffer {
    type V = BufferModel;

    open spec fn view(&self) -> BufferModel {
        BufferModel { source: self.source@, signals: self.signals.deep_view() }
    }
}

impl DeepView for SourceBuffer {
    type V = BufferModel;

    open spec fn deep_view(&self) -> BufferModel {
        self.view()
    }
}

/// Whether some buffer carries the given source.
pub open spec fn has_source(bufs: Seq<BufferModel>, src: Seq<char>) -> bool {
    exists|i: int| 0 <= i < bufs.len() && bufs[i].source == src
}

/// The index of the buffer carrying the given source; meaningful only when
/// `has_source` holds (and then unique, since sources are distinct).
pub open spec fn index_of_source(bufs: Seq<BufferModel>, src: Seq<char>) -> int {
    choose|i: int| 0 <= i < bufs.len() && bufs[i].source == src
}

/// No two buffers carry the same source.
pub open spec fn distinct_sources(bufs: Seq<BufferModel>) -> bool {
    forall|i: int, j: int|
        0 <= i < j < bufs.len() ==> (#[trigger] bufs[i].source) != (#[trigger] bufs[j].source)
}

/// A buffer after appending one signal under the FIFO cap: the oldest signal
/// is evicted when the cap would be exceeded.
pub open spec fn push_evict(s: Seq<SignalModel>, m: SignalModel, max: int) -> Seq<SignalModel> {
    let t = s.push(m);
    if t.len() > max {
        t.drop_first()
    } else {
        t
    }
}

/// The buffers after one signal is added: appended to its source's buffer
/// under the cap, or opening a new buffer for an unseen source.
pub open spec fn add_one(bufs: Seq<BufferModel>, m: SignalModel, max: int) -> Seq<BufferModel> {
    if has_source(bufs, m.source) {
        let j = index_of_source(bufs, m.source);
        bufs.update(
            j,
            BufferModel { source: bufs[j].source, signals: push_evict(bufs[j].signals, m, max) },
        )
    } else {
        bufs.push(
            BufferModel { source: m.source, signals: push_evict(Seq::empty(), m, max) },
        )
    }
}

/// The buffers after a batch of signals is added in order.
pub open spec fn add_all(bufs: Seq<BufferModel>, sigs: Seq<SignalModel>, max: int) -> Seq<
    BufferModel>
    decreases sigs.len(),
{
    if sigs.len() == 0 {
        bufs
    } else {
        add_one(add_all(bufs, sigs.drop_last(), max), sigs.last(), max)
    }
}

/// All buffered signals: the buffers' contents concatenated in buffer order.
pub open spec fn all_signals(bufs: Seq<BufferModel>) -> Seq<SignalModel>
    decreases bufs.len(),
{
    if bufs.len() == 0 {
        Seq::empty()
    } else {
        all_signals(bufs.drop_last()) + bufs.last().signals
    }
}

/// Total number of buffered signals.
pub open spec fn total_count(bufs: Seq<BufferModel>) -> int
    decreases bufs.len(),
{
    if bufs.len() == 0 {
        0
    } else {
        total_count(bufs.drop_last()) + bufs.last().signals.len()
    }
}

/// Aggregates belief signals from multiple sources.
pub struct SignalAggregator {
    /// Buffered signals, one buffer per source.
    buffers: Vec<SourceBuffer>,
    /// Maximum buffer size per source.
    max_buffer_size: usize,
}

impl SignalAggregator {
    /// The per-source buffers, as a mathematical sequence.
    pub closed spec fn bufs(self) -> Seq<BufferModel> {
        self.buffers.deep_view()
    }

    /// The per-source buffer cap.
    pub closed spec fn spec_max(self) -> usize {
        self.max_buffer_size
    }

    /// Internal invariant: sources are distinct, every buffer respects the
    /// cap, and every buffered signal is within the machine bounds.
    pub open spec fn wf(self) -> bool {
        &&& distinct_sources(self.bufs())
        &&& forall|i: int|
            0 <= i < self.bufs().len() ==> (#[trigger] self.bufs()[i]).signals.len()
                <= self.spec_max()
        &&& forall|i: int| 0 <= i < self.bufs().len() ==> all_wf((#[trigger] self.bufs()[i]).signals)
    }

    /// Create a new signal aggregator with the given per-source buffer cap.
    pub fn new(max_buffer_size: usize) -> (r: Self)
        ensures
            r.bufs() == Seq::<BufferModel>::empty(),
            r.spec_max() == max_buffer_size,
            r.wf(),
    {
        let r = SignalAggregator { buffers: Vec::new(), max_buffer_size };
        proof {
            assert(r.bufs() =~= Seq::<BufferModel>::empty());
        }
        r
    }

    /// Add a signal to its source's buffer, evicting the oldest entry when
    /// the buffer is full. Never fails and performs no content validation.
    pub fn add_signal(&mut self, signal: BeliefSignal)
        requires
            old(self).wf(),
            signal@.wf(),
        ensures
            final(self).wf(),
            final(self).spec_max() == old(self).spec_max(),
            final(self).bufs() == add_one(old(self).bufs(), signal@, old(self).spec_max() as int),
    {
        let ghost orig = self.bufs();
        let ghost m = signal@;
        let ghost max = self.max_buffer_size as int;
        let mut i: usize = 0;
        while i < self.buffers.len()
            invariant
                i <= self.buffers@.len(),
                orig == self.bufs(),
                orig == old(self).bufs(),
                max == self.spec_max() as int,
                self.spec_max() == old(self).spec_max(),
                self.wf(),
                forall|k: int| 0 <= k < i ==> (#[trigger] orig[k]).source != m.source,
                m == signal@,
                m.wf(),
            decreases self.buffers@.len() - i,
        {
            proof {
                assert(self.bufs()[i as int] == self.buffers@[i as int]@);
            }
            if self.buffers[i].source == signal.source {
                // Existing buffer for this source: append under the cap.
                let ghost oldbuf = orig[i as int];
                proof {
                    assert(orig[i as int].source == m.source);
                    assert(has_source(orig, m.source));
                    assert(index_of_source(orig, m.source) == i as int) by {
                        let j = index_of_source(orig, m.source);
                        assert(0 <= j < orig.len() && orig[j].source == m.source);
                        if j < i as int {
                            assert(orig[j].source != m.source);
                        }
                        if (i as int) < j {
                            assert(orig[i as int].source != orig[j].source);
                        }
                    }
                }
                let mut entry = self.buffers.remove(i);
                entry.signals.push(signal);
                if entry.signals.len() > self.max_buffer_size {
                    let ghost pushed = entry.signals.deep_view();
                    entry.signals.remove(0);
                    proof {
                        assert(entry.signals.deep_view() =~= pushed.drop_first());
                    }
                }
                proof {
                    assert(entry.signals.deep_view() =~= push_evict(oldbuf.signals, m, max));
                    assert(entry@.source == oldbuf.source);
                }
                self.buffers.insert(i, entry);
                proof {
                    assert(self.bufs() =~= orig.update(i as int, entry@));
                    assert(self.bufs() == add_one(orig, m, max));
                    assert(all_wf(entry@.signals)) by {
                        assert forall|p: int| 0 <= p < entry@.signals.len() implies (
                        #[trigger] entry@.signals[p]).wf() by {
                            let t = oldbuf.signals.push(m);
                            assert(entry@.signals[p] == t[p] || entry@.signals[p] == t[p + 1]);
                        }
                    }
                    assert(entry@.signals.len() <= self.spec_max()) by {
                        assert(oldbuf.signals.len() <= self.spec_max());
                    }
                    assert(self.wf()) by {
                        assert forall|k: int| 0 <= k < self.bufs().len() implies all_wf(
                            (#[trigger] self.bufs()[k]).signals,
                        ) && self.bufs()[k].signals.len() <= self.spec_max() by {
                            if k != i as int {
                                assert(self.bufs()[k] == orig[k]);
                            } else {
                                assert(self.bufs()[k] == entry@);
                            }
                        }
                        assert forall|p: int, q: int| 0 <= p < q < self.bufs().len() implies (
                        #[trigger] self.bufs()[p].source) != (#[trigger] self.bufs()[
                        q].source) by {
                            assert(self.bufs()[p].source == orig[p].source);
                            assert(self.bufs()[q].source == orig[q].source);
                        }
                    }
                }
                return ;
            }
            i = i + 1;
        }
        // Unseen source: open a new buffer holding just this signal.
        proof {
            assert(!has_source(orig, m.source));
        }
        let mut signals: Vec<BeliefSignal> = Vec::new();
        let source = signal.source.clone();
        signals.push(signal);
        if signals.len() > self.max_buffer_size {
            let ghost pushed = signals.deep_view();
            signals.remove(0);
            proof {
                assert(signals.deep_view() =~= pushed.drop_first());
            }
        }
        let entry = SourceBuffer { source, signals };
        proof {
            assert(entry@.signals =~= push_evict(Seq::empty(), m, max)) by {
                assert(Seq::<SignalModel>::empty().push(m) =~= seq![m]);
            }
            assert(entry@ == (BufferModel {
                source: m.source,
                signals: push_evict(Seq::empty(), m, max),
            }));
        }
        self.buffers.push(entry);
        proof {
            assert(self.bufs() =~= orig.push(entry@));
            assert(self.wf()) by {
                assert forall|k: int| 0 <= k < self.bufs().len() implies all_wf(
                    (#[trigger] self.bufs()[k]).signals,
                ) && self.bufs()[k].signals.len() <= self.spec_max() by {
                    if k < orig.len() {
                        assert(self.bufs()[k] == orig[k]);
                    } else {
                        assert(self.bufs()[k] == entry@);
                        assert(all_wf(self.bufs()[k].signals)) by {
                            assert forall|p: int| 0 <= p < self.bufs()[k].signals.len() implies (
                            #[trigger] self.bufs()[k].signals[p]).wf() by {
                                assert(self.bufs()[k].signals[p] == m);
                            }
                        }
                    }
                }
                assert forall|p: int, q: int| 0 <= p < q < self.bufs().len() implies (
                #[trigger] self.bufs()[p].source) != (#[trigger] self.bufs()[q].source) by {
                    if q == orig.len() {
                        assert(self.bufs()[p] == orig[p]);
                    }
                }
            }
        }
    }

    /// Add a batch of signals in order.
    pub fn add_signals(&mut self, signals: Vec<BeliefSignal>)
        requires
            old(self).wf(),
            all_wf(signals.deep_view()),
        ensures
            final(self).wf(),
            final(self).spec_max() == old(self).spec_max(),
            final(self).bufs() == add_all(
                old(self).bufs(),
                signals.deep_view(),
                old(self).spec_max() as int,
            ),
    {
        let ghost orig = self.bufs();
        let ghost dv = signals.deep_view();
        let ghost max = self.max_buffer_size as int;
        proof {
            assert(add_all(orig, dv.subrange(0, 0), max) == orig) by {
                assert(dv.subrange(0, 0) =~= Seq::<SignalModel>::empty());
            }
        }
        let mut it: usize = 0;
        while it < signals.len()
            invariant
                it <= signals@.len(),
                dv == signals.deep_view(),
                max == self.spec_max() as int,
                self.spec_max() == old(self).spec_max(),
                all_wf(dv),
                self.wf(),
                self.bufs() == add_all(orig, dv.subrange(0, it as int), max),
            decreases signals@.len() - it,
        {
            proof {
                let prefix = dv.subrange(0, it as int);
                let next = dv.subrange(0, it as int + 1);
                assert(next.drop_last() =~= prefix);
                assert(next.last() == dv[it as int]);
                assert(dv[it as int] == signals@[it as int]@);
            }
            self.add_signal(signals[it].clone());
            it = it + 1;
        }
        proof {
            assert(dv.subrange(0, signals@.len() as int) =~= dv);
        }
    }

    /// Copies of all buffered signals: buffers concatenated in buffer order,
    /// insertion order preserved within each source.
    pub fn get_all_signals(&self) -> (r: Vec<BeliefSignal>)
        requires
            self.wf(),
        ensures
            r.deep_view() == all_signals(self.bufs()),
            all_wf(r.deep_view()),
    {
        proof {
            lemma_all_signals_wf(self.bufs());
        }
        let ghost bufs = self.bufs();
        let mut r: Vec<BeliefSignal> = Vec::new();
        let mut i: usize = 0;
        proof {
            assert(r.deep_view() =~= Seq::<SignalModel>::empty());
            assert(all_signals(bufs.subrange(0, 0)) == Seq::<SignalModel>::empty()) by {
                assert(bufs.subrange(0, 0) =~= Seq::<BufferModel>::empty());
            }
        }
        while i < self.buffers.len()
            invariant
                i <= self.buffers@.len(),
                bufs == self.bufs(),
                r.deep_view() == all_signals(bufs.subrange(0, i as int)),
            decreases self.buffers@.len() - i,
        {
            proof {
                assert(bufs.subrange(0, i as int + 1).drop_last() =~= bufs.subrange(0, i as int));
                assert(bufs.subrange(0, i as int + 1).last() == bufs[i as int]);
                assert(self.bufs()[i as int] == self.buffers@[i as int]@);
            }
            let buffer = &self.buffers[i];
            let ghost before = r.deep_view();
            let mut k: usize = 0;
            proof {
                assert(r.deep_view() =~= before + buffer.signals.deep_view().subrange(0, 0));
            }
            while k < buffer.signals.len()
                invariant
                    k <= buffer.signals@.len(),
                    r.deep_view() == before + buffer.signals.deep_view().subrange(0, k as int),
                decreases buffer.signals@.len() - k,
            {
                proof {
                    assert(buffer.signals.deep_view()[k as int] == buffer.signals@[k as int]@);
                }
                let ghost old_r = r.deep_view();
                r.push(buffer.signals[k].clone());
                proof {
                    assert(r.deep_view() =~= old_r.push(buffer.signals.deep_view()[k as int]));
                    assert(r.deep_view() =~= before + buffer.signals.deep_view().subrange(
                        0,
                        k as int + 1,
                    ));
                }
                k = k + 1;
            }
            proof {
                assert(buffer.signals.deep_view().subrange(
                    0,
                    buffer.signals@.len() as int,
                ) =~= buffer.signals.deep_view());
                assert(self.bufs()[i as int] == self.buffers@[i as int]@);
                assert(r.deep_view() =~= all_signals(bufs.subrange(0, i as int + 1)));
            }
            i = i + 1;
        }
        proof {
            assert(bufs.subrange(0, self.buffers@.len() as int) =~= bufs);
        }
        r
    }

    /// Copies of the buffered signals of one type, in buffer order.
    pub fn get_signals_by_type(&self, signal_type: SignalType) -> (r: Vec<BeliefSignal>)
        requires
            self.wf(),
        ensures
            r.deep_view() == all_signals(self.bufs()).filter(type_pred(signal_type)),
            all_wf(r.deep_view()),
    {
        let all = self.get_all_signals();
        let ghost dv = all.deep_view();
        let ghost pred = type_pred(signal_type);
        let mut r: Vec<BeliefSignal> = Vec::new();
        let mut i: usize = 0;
        proof {
            assert(dv.subrange(0, 0).filter(pred) =~= Seq::<SignalModel>::empty()) by {
                reveal(Seq::filter);
            }
            assert(r.deep_view() =~= Seq::<SignalModel>::empty());
        }
        while i < all.len()
            invariant
                i <= all@.len(),
                dv == all.deep_view(),
                all_wf(dv),
                pred == type_pred(signal_type),
                r.deep_view() == dv.subrange(0, i as int).filter(pred),
                all_wf(r.deep_view()),
            decreases all@.len() - i,
        {
            let ghost prefix = dv.subrange(0, i as int);
            let ghost next = dv.subrange(0, i as int + 1);
            proof {
                assert(next =~= prefix.push(dv[i as int]));
                prefix.lemma_filter_push(dv[i as int], pred);
                assert(dv[i as int] == all@[i as int]@);
            }
            if all[i].signal_type == signal_type {
                let ghost old_r = r.deep_view();
                r.push(all[i].clone());
                proof {
                    assert(r.deep_view() =~= old_r.push(dv[i as int]));
                    assert(all_wf(r.deep_view())) by {
                        assert forall|k: int| 0 <= k < r.deep_view().len() implies (
                        #[trigger] r.deep_view()[k]).wf() by {
                            if k < old_r.len() {
                                assert(r.deep_view()[k] == old_r[k]);
                            } else {
                                assert(r.deep_view()[k] == dv[i as int]);
                            }
                        }
                    }
                }
            }
            i = i + 1;
        }
        proof {
            assert(dv.subrange(0, all@.len() as int) =~= dv);
        }
        r
    }

    /// Copies of the signals buffered for one source, in insertion order;
    /// empty when the source has no buffer.
    pub fn get_signals_by_source(&self, source: &str) -> (r: Vec<BeliefSignal>)
        requires
            self.wf(),
        ensures
            r.deep_view() == (if has_source(self.bufs(), source@) {
                self.bufs()[index_of_source(self.bufs(), source@)].signals
            } else {
                Seq::<SignalModel>::empty()
            }),
    {
        let ghost bufs = self.bufs();
        let mut i: usize = 0;
        while i < self.buffers.len()
            invariant
                i <= self.buffers@.len(),
                bufs == self.bufs(),
                self.wf(),
                forall|k: int| 0 <= k < i ==> (#[trigger] bufs[k]).source != source@,
            decreases self.buffers@.len() - i,
        {
            proof {
                assert(self.bufs()[i as int] == self.buffers@[i as int]@);
            }
            if str_eq(self.buffers[i].source.as_str(), source) {
                proof {
                    assert(bufs[i as int].source == source@);
                    assert(has_source(bufs, source@));
                    assert(index_of_source(bufs, source@) == i as int) by {
                        let j = index_of_source(bufs, source@);
                        assert(0 <= j < bufs.len() && bufs[j].source == source@);
                        if j < i as int {
                            assert(bufs[j].source != source@);
                        }
                        if (i as int) < j {
                            assert(bufs[i as int].source != bufs[j].source);
                        }
                    }
                }
                let buffer = &self.buffers[i];
                let mut r: Vec<BeliefSignal> = Vec::new();
                let mut k: usize = 0;
                proof {
                    assert(r.deep_view() =~= buffer.signals.deep_view().subrange(0, 0));
                }
                while k < buffer.signals.len()
                    invariant
                        k <= buffer.signals@.len(),
                        r.deep_view() == buffer.signals.deep_view().subrange(0, k as int),
                    decreases buffer.signals@.len() - k,
                {
                    proof {
                        assert(buffer.signals.deep_view()[k as int] == buffer.signals@[k as int]@);
                    }
                    let ghost old_r = r.deep_view();
                    r.push(buffer.signals[k].clone());
                    proof {
                        assert(r.deep_view() =~= old_r.push(buffer.signals.deep_view()[k as int]));
                        assert(r.deep_view() =~= buffer.signals.deep_view().subrange(
                            0,
                            k as int + 1,
                        ));
                    }
                    k = k + 1;
                }
                proof {
                    assert(r.deep_view() =~= buffer.signals.deep_view());
                    assert(self.bufs()[i as int] == self.buffers@[i as int]@);
                }
                return r;
            }
            i = i + 1;
        }
        proof {
            assert(!has_source(bufs, source@));
        }
        Vec::new()
    }

    /// Number of distinct sources currently buffered.
    pub fn get_source_diversity(&self) -> (r: usize)
        ensures
            r == self.bufs().len(),
    {
        self.buffers.len()
    }

    /// Total number of buffered signals across all sources.
    pub fn get_total_signal_count(&self) -> (r: usize)
        requires
            total_count(self.bufs()) <= usize::MAX,
        ensures
            r == total_count(self.bufs()),
    {
        let ghost bufs = self.bufs();
        let mut total: usize = 0;
        let mut i: usize = 0;
        proof {
            assert(total_count(bufs.subrange(0, 0)) == 0) by {
                assert(bufs.subrange(0, 0) =~= Seq::<BufferModel>::empty());
            }
        }
        while i < self.buffers.len()
            invariant
                i <= self.buffers@.len(),
                bufs == self.bufs(),
                total_count(bufs) <= usize::MAX,
                total == total_count(bufs.subrange(0, i as int)),
            decreases self.buffers@.len() - i,
        {
            proof {
                assert(bufs.subrange(0, i as int + 1).drop_last() =~= bufs.subrange(0, i as int));
                assert(bufs.subrange(0, i as int + 1).last() == bufs[i as int]);
                assert(self.bufs()[i as int] == self.buffers@[i as int]@);
                lemma_total_count_prefix(bufs, i as int + 1);
            }
            total = total + self.buffers[i].signals.len();
            i = i + 1;
        }
        proof {
            assert(bufs.subrange(0, self.buffers@.len() as int) =~= bufs);
        }
        total
    }

    /// Copies of the buffered signals whose timestamp is at or after
    /// `now - window_seconds`, in buffer order.
    pub fn get_recent_signals_at(&self, now: i64, window_seconds: i64) -> (r: Vec<BeliefSignal>)
        requires
            self.wf(),
        ensures
            r.deep_view() == all_signals(self.bufs()).filter(
                recent_pred(now as int - window_seconds as int),
            ),
            all_wf(r.deep_view()),
    {
        let ghost cutoff = now as int - window_seconds as int;
        let all = self.get_all_signals();
        let ghost dv = all.deep_view();
        let ghost pred = recent_pred(cutoff);
        let mut r: Vec<BeliefSignal> = Vec::new();
        let mut i: usize = 0;
        proof {
            assert(dv.subrange(0, 0).filter(pred) =~= Seq::<SignalModel>::empty()) by {
                reveal(Seq::filter);
            }
            assert(r.deep_view() =~= Seq::<SignalModel>::empty());
        }
        while i < all.len()
            invariant
                i <= all@.len(),
                dv == all.deep_view(),
                all_wf(dv),
                cutoff == now as int - window_seconds as int,
                pred == recent_pred(cutoff),
                r.deep_view() == dv.subrange(0, i as int).filter(pred),
                all_wf(r.deep_view()),
            decreases all@.len() - i,
        {
            let ghost prefix = dv.subrange(0, i as int);
            let ghost next = dv.subrange(0, i as int + 1);
            proof {
                assert(next =~= prefix.push(dv[i as int]));
                prefix.lemma_filter_push(dv[i as int], pred);
                assert(dv[i as int] == all@[i as int]@);
            }
            if (all[i].timestamp as i128) >= (now as i128) - (window_seconds as i128) {
                let ghost old_r = r.deep_view();
                r.push(all[i].clone());
                proof {
                    assert(r.deep_view() =~= old_r.push(dv[i as int]));
                    assert(all_wf(r.deep_view())) by {
                        assert forall|k: int| 0 <= k < r.deep_view().len() implies (
                        #[trigger] r.deep_view()[k]).wf() by {
                            if k < old_r.len() {
                                assert(r.deep_view()[k] == old_r[k]);
                            } else {
                                assert(r.deep_view()[k] == dv[i as int]);
                            }
                        }
                    }
                }
            }
            i = i + 1;
        }
        proof {
            assert(dv.subrange(0, all@.len() as int) =~= dv);
        }
        r
    }

    /// Copies of the buffered signals from the last `window_seconds` seconds,
    /// measured against the wall clock.
    pub fn get_recent_signals(&self, window_seconds: i64) -> (r: Vec<BeliefSignal>)
        requires
            self.wf(),
        ensures
            exists|c: int|
                r.deep_view() == all_signals(self.bufs()).filter(#[trigger] recent_pred(c)),
            all_wf(r.deep_view()),
    {
        let now = now_ts();
        let r = self.get_recent_signals_at(now, window_seconds);
        proof {
            let c = now as int - window_seconds as int;
            assert(r.deep_view() == all_signals(self.bufs()).filter(recent_pred(c)));
        }
        r
    }

    /// Mean value of the buffered signals of one type; `None` when no signal
    /// of that type is buffered.
    pub fn get_average_by_type(&self, signal_type: SignalType) -> (r: Option<i64>)
        requires
            self.wf(),
        ensures
            r is Some <==> all_signals(self.bufs()).filter(type_pred(signal_type)).len() > 0,
            r matches Some(m) ==> m as int == mean_of(
                values_of(all_signals(self.bufs()).filter(type_pred(signal_type))),
            ),
    {
        let signals = self.get_signals_by_type(signal_type);
        if signals.len() == 0 {
            return None;
        }
        Some(mean_value(&signals))
    }

    /// Drop buffered signals older than `now - max_age_seconds`; sources left
    /// with empty buffers are removed entirely.
    pub fn clear_old_signals_at(&mut self, now: i64, max_age_seconds: i64)
        requires
            old(self).wf(),
        ensures
            final(self).wf(),
            final(self).spec_max() == old(self).spec_max(),
            final(self).bufs() == trim_old(
                old(self).bufs(),
                now as int - max_age_seconds as int,
            ),
    {
        let ghost cutoff = now as int - max_age_seconds as int;
        let ghost orig = self.bufs();
        let ghost pred = recent_pred(cutoff);
        let mut out: Vec<SourceBuffer> = Vec::new();
        let mut i: usize = 0;
        proof {
            assert(trim_old(orig.subrange(0, 0), cutoff) =~= Seq::<BufferModel>::empty()) by {
                assert(orig.subrange(0, 0) =~= Seq::<BufferModel>::empty());
            }
            assert(out.deep_view() =~= Seq::<BufferModel>::empty());
        }
        while i < self.buffers.len()
            invariant
                i <= self.buffers@.len(),
                orig == self.bufs(),
                orig == old(self).bufs(),
                self.spec_max() == old(self).spec_max(),
                self.wf(),
                cutoff == now as int - max_age_seconds as int,
                pred == recent_pred(cutoff),
                out.deep_view() == trim_old(orig.subrange(0, i as int), cutoff),
                forall|k: int|
                    0 <= k < out.deep_view().len() ==> all_wf(
                        (#[trigger] out.deep_view()[k]).signals,
                    ) && out.deep_view()[k].signals.len() <= self.spec_max(),
            decreases self.buffers@.len() - i,
        {
            let ghost prefix = orig.subrange(0, i as int);
            let ghost next = orig.subrange(0, i as int + 1);
            proof {
                assert(next.drop_last() =~= prefix);
                assert(next.last() == orig[i as int]);
                assert(self.bufs()[i as int] == self.buffers@[i as int]@);
            }
            let buffer = &self.buffers[i];
            let mut kept: Vec<BeliefSignal> = Vec::new();
            let mut k: usize = 0;
            proof {
                assert(buffer.signals.deep_view().subrange(0, 0).filter(pred) =~= Seq::<
                    SignalModel>::empty()) by {
                    reveal(Seq::filter);
                }
                assert(kept.deep_view() =~= Seq::<SignalModel>::empty());
            }
            while k < buffer.signals.len()
                invariant
                    k <= buffer.signals@.len(),
                    pred == recent_pred(cutoff),
                    cutoff == now as int - max_age_seconds as int,
                    all_wf(buffer.signals.deep_view()),
                    kept.deep_view() == buffer.signals.deep_view().subrange(0, k as int).filter(
                        pred,
                    ),
                    kept@.len() <= k,
                    all_wf(kept.deep_view()),
                decreases buffer.signals@.len() - k,
            {
                let ghost sdv = buffer.signals.deep_view();
                let ghost sprefix = sdv.subrange(0, k as int);
                let ghost snext = sdv.subrange(0, k as int + 1);
                proof {
                    assert(snext =~= sprefix.push(sdv[k as int]));
                    sprefix.lemma_filter_push(sdv[k as int], pred);
                    assert(sdv[k as int] == buffer.signals@[k as int]@);
                }
                if (buffer.signals[k].timestamp as i128) >= (now as i128) - (max_age_seconds
                    as i128) {
                    let ghost old_kept = kept.deep_view();
                    kept.push(buffer.signals[k].clone());
                    proof {
                        assert(kept.deep_view() =~= old_kept.push(sdv[k as int]));
                        assert(all_wf(kept.deep_view())) by {
                            assert forall|p: int| 0 <= p < kept.deep_view().len() implies (
                            #[trigger] kept.deep_view()[p]).wf() by {
                                if p < old_kept.len() {
                                    assert(kept.deep_view()[p] == old_kept[p]);
                                } else {
                                    assert(kept.deep_view()[p] == sdv[k as int]);
                                }
                            }
                        }
                    }
                }
                k = k + 1;
            }
            proof {
                assert(buffer.signals.deep_view().subrange(
                    0,
                    buffer.signals@.len() as int,
                ) =~= buffer.signals.deep_view());
                assert(kept.deep_view() == orig[i as int].signals.filter(pred));
            }
            if kept.len() > 0 {
                let ghost before = out.deep_view();
                let entry = SourceBuffer { source: buffer.source.clone(), signals: kept };
                proof {
                    assert(entry@ == trim_buffer(orig[i as int], cutoff));
                }
                out.push(entry);
                proof {
                    assert(out.deep_view() =~= before.push(trim_buffer(orig[i as int], cutoff)));
                    assert(out.deep_view() == trim_old(next, cutoff));
                    assert forall|p: int| 0 <= p < out.deep_view().len() implies all_wf(
                        (#[trigger] out.deep_view()[p]).signals,
                    ) && out.deep_view()[p].signals.len() <= self.spec_max() by {
                        if p < before.len() {
                            assert(out.deep_view()[p] == before[p]);
                        } else {
                            assert(out.deep_view()[p] == trim_buffer(orig[i as int], cutoff));
                            orig[i as int].signals.lemma_filter_len(pred);
                        }
                    }
                }
            } else {
                proof {
                    assert(kept.deep_view() =~= Seq::<SignalModel>::empty());
                    assert(trim_buffer(orig[i as int], cutoff).signals.len() == 0);
                    assert(out.deep_view() == trim_old(next, cutoff));
                }
            }
            i = i + 1;
        }
        proof {
            assert(orig.subrange(0, self.buffers@.len() as int) =~= orig);
        }
        self.buffers = out;
        proof {
            lemma_trim_old_props(orig, cutoff);
        }
    }

    /// Drop buffered signals older than `max_age_seconds`, measured against
    /// the wall clock; sources left with empty buffers are removed entirely.
    pub fn clear_old_signals(&mut self, max_age_seconds: i64)
        requires
            old(self).wf(),
        ensures
            final(self).wf(),
            final(self).spec_max() == old(self).spec_max(),
            exists|c: int| final(self).bufs() == trim_old(old(self).bufs(), c),
    {
        let now = now_ts();
        self.clear_old_signals_at(now, max_age_seconds);
        proof {
            let c = now as int - max_age_seconds as int;
            assert(self.bufs() == trim_old(old(self).bufs(), c));
        }
    }

    /// Summary statistics over the entire buffer: count, mean, median,
    /// population standard deviation, minimum, maximum and source count; all
    /// zero when nothing is buffered.
    pub fn get_statistics(&self) -> (r: SignalStatistics)
        requires
            self.wf(),
        ensures
            (r == (if all_signals(self.bufs()).len() == 0 {
                SignalStatistics {
                    count: 0,
                    mean: 0,
                    median: 0,
                    std_dev: 0,
                    min: 0,
                    max: 0,
                    source_count: 0,
                }
            } else {
                SignalStatistics {
                    count: all_signals(self.bufs()).len() as usize,
                    mean: mean_of(values_of(all_signals(self.bufs()))) as i64,
                    median: median_of(values_of(all_signals(self.bufs()))) as i64,
                    std_dev: std_of(values_of(all_signals(self.bufs()))) as i64,
                    min: min_of(values_of(all_signals(self.bufs()))) as i64,
                    max: max_of(values_of(all_signals(self.bufs()))) as i64,
                    source_count: self.bufs().len() as usize,
                }
            })),
    {
        let all = self.get_all_signals();
        let ghost dv = all.deep_view();
        let ghost vals = values_of(dv);
        if all.len() == 0 {
            return SignalStatistics {
                count: 0,
                mean: 0,
                median: 0,
                std_dev: 0,
                min: 0,
                max: 0,
                source_count: 0,
            };
        }
        let mean = mean_value(&all);
        let std_dev = std_of_values(&all);
        let mut values: Vec<i64> = Vec::new();
        let mut k: usize = 0;
        proof {
            assert(to_ints(values@) =~= vals.subrange(0, 0));
        }
        while k < all.len()
            invariant
                k <= all@.len(),
                dv == all.deep_view(),
                vals == values_of(dv),
                all_wf(dv),
                values@.len() == k,
                to_ints(values@) == vals.subrange(0, k as int),
            decreases all@.len() - k,
        {
            proof {
                assert(dv[k as int] == all@[k as int]@);
            }
            let ghost before = values@;
            values.push(all[k].value);
            proof {
                assert(to_ints(values@) =~= vals.subrange(0, k as int + 1));
            }
            k = k + 1;
        }
        proof {
            assert(vals.subrange(0, all@.len() as int) =~= vals);
            assert(bounded_by(vals, VALUE_LIMIT as int)) by {
                assert forall|p: int| 0 <= p < vals.len() implies -VALUE_LIMIT <= #[trigger] vals[
                    p] <= VALUE_LIMIT by {
                    assert(vals[p] == dv[p].value);
                    assert(dv[p].wf());
                }
            }
            lemma_sort_preserves_bounds(vals, VALUE_LIMIT as int);
        }
        let sorted = sorted_copy(&values);
        proof {
            assert(to_ints(sorted@) == vals.sort());
            assert forall|p: int| 0 <= p < sorted@.len() implies -VALUE_LIMIT <= #[trigger] sorted@[
                p] <= VALUE_LIMIT by {
                assert(to_ints(sorted@)[p] == sorted@[p] as int);
                assert(-VALUE_LIMIT <= vals.sort()[p] <= VALUE_LIMIT);
            }
        }
        let n = sorted.len();
        let median: i64 = if n % 2 == 0 {
            let a = sorted[n / 2 - 1];
            let b = sorted[n / 2];
            div_trunc_i64(a + b, 2)
        } else {
            sorted[n / 2]
        };
        proof {
            assert(median as int == median_of(vals));
        }
        SignalStatistics {
            count: all.len(),
            mean,
            median,
            std_dev,
            min: sorted[0],
            max: sorted[n - 1],
            source_count: self.buffers.len(),
        }
    }

    /// Drop all buffered signals.
    pub fn clear(&mut self)
        ensures
            final(self).bufs() == Seq::<BufferModel>::empty(),
            final(self).spec_max() == old(self).spec_max(),
            final(self).wf(),
    {
        self.buffers.clear();
        proof {
            assert(self.bufs() =~= Seq::<BufferModel>::empty());
        }
    }
}

/// The filter predicate selecting one signal type.
pub open spec fn type_pred(t: SignalType) -> spec_fn(SignalModel) -> bool {
    |m: SignalModel| m.signal_type == t
}

/// The filter predicate keeping signals timestamped at or after the cutoff.
pub open spec fn recent_pred(cutoff: int) -> spec_fn(SignalModel) -> bool {
    |m: SignalModel| m.timestamp >= cutoff
}

/// One buffer with its stale signals dropped.
pub open spec fn trim_buffer(b: BufferModel, cutoff: int) -> BufferModel {
    BufferModel { source: b.source, signals: b.signals.filter(recent_pred(cutoff)) }
}

/// The buffers after age-based eviction: stale signals dropped everywhere,
/// and buffers left empty removed entirely.
pub open spec fn trim_old(bufs: Seq<BufferModel>, cutoff: int) -> Seq<BufferModel>
    decreases bufs.len(),
{
    if bufs.len() == 0 {
        Seq::empty()
    } else {
        let t = trim_old(bufs.drop_last(), cutoff);
        let b = trim_buffer(bufs.last(), cutoff);
        if b.signals.len() == 0 {
            t
        } else {
            t.push(b)
        }
    }
}

/// Age-based eviction keeps one buffer per surviving source: every trimmed
/// buffer stems from one of the given buffers, and distinct sources stay distinct.
proof fn lemma_trim_old_props(bufs: Seq<BufferModel>, cutoff: int)
    ensures
        forall|k: int|
            0 <= k < trim_old(bufs, cutoff).len() ==> exists|j: int|
                0 <= j < bufs.len() && #[trigger] trim_old(bufs, cutoff)[k] == trim_buffer(
                    bufs[j],
                    cutoff,
                ),
        distinct_sources(bufs) ==> distinct_sources(trim_old(bufs, cutoff)),
    decreases bufs.len(),
{
    if bufs.len() > 0 {
        lemma_trim_old_props(bufs.drop_last(), cutoff);
        let t = trim_old(bufs.drop_last(), cutoff);
        let b = trim_buffer(bufs.last(), cutoff);
        let whole = trim_old(bufs, cutoff);
        assert forall|k: int| 0 <= k < whole.len() implies exists|j: int|
            0 <= j < bufs.len() && #[trigger] whole[k] == trim_buffer(bufs[j], cutoff) by {
            if k < t.len() {
                assert(whole[k] == t[k]);
                let j0 = choose|j0: int|
                    0 <= j0 < bufs.drop_last().len() && t[k] == trim_buffer(
                        bufs.drop_last()[j0],
                        cutoff,
                    );
                assert(bufs.drop_last()[j0] == bufs[j0]);
                assert(whole[k] == trim_buffer(bufs[j0], cutoff));
            } else {
                assert(whole[k] == b);
                assert(bufs.last() == bufs[bufs.len() - 1]);
                assert(whole[k] == trim_buffer(bufs[bufs.len() - 1], cutoff));
            }
        }
        if distinct_sources(bufs) {
            assert(distinct_sources(bufs.drop_last())) by {
                assert forall|p: int, q: int| 0 <= p < q < bufs.drop_last().len() implies (
                #[trigger] bufs.drop_last()[p].source) != (#[trigger] bufs.drop_last()[
                q].source) by {
                    assert(bufs.drop_last()[p] == bufs[p]);
                    assert(bufs.drop_last()[q] == bufs[q]);
                }
            }
            assert forall|p: int, q: int| 0 <= p < q < whole.len() implies (
            #[trigger] whole[p].source) != (#[trigger] whole[q].source) by {
                if q < t.len() {
                    assert(whole[p] == t[p] && whole[q] == t[q]);
                } else {
                    assert(whole[q] == b);
                    assert(whole[p] == t[p]);
                    let j0 = choose|j0: int|
                        0 <= j0 < bufs.drop_last().len() && t[p] == trim_buffer(
                            bufs.drop_last()[j0],
                            cutoff,
                        );
                    assert(t[p].source == bufs[j0].source);
                    assert(b.source == bufs[bufs.len() - 1].source);
                    assert(bufs[j0].source != bufs[bufs.len() - 1].source);
                }
            }
        }
    }
}

/// Every signal in the concatenation of well-formed buffers is well-formed.
proof fn lemma_all_signals_wf(bufs: Seq<BufferModel>)
    requires
        forall|i: int| 0 <= i < bufs.len() ==> all_wf((#[trigger] bufs[i]).signals),
    ensures
        all_wf(all_signals(bufs)),
    decreases bufs.len(),
{
    if bufs.len() > 0 {
        assert(forall|i: int|
            0 <= i < bufs.drop_last().len() ==> all_wf(
                (#[trigger] bufs.drop_last()[i]).signals,
            )) by {
            assert(forall|i: int|
                0 <= i < bufs.drop_last().len() ==> bufs.drop_last()[i] == #[trigger] bufs[i]);
        }
        lemma_all_signals_wf(bufs.drop_last());
        let left = all_signals(bufs.drop_last());
        let lastsigs = bufs.last().signals;
        assert(all_wf(lastsigs)) by {
            assert(bufs.last() == bufs[bufs.len() - 1]);
        }
        assert forall|p: int| 0 <= p < all_signals(bufs).len() implies (
        #[trigger] all_signals(bufs)[p]).wf() by {
            if p < left.len() {
                assert(all_signals(bufs)[p] == left[p]);
            } else {
                assert(all_signals(bufs)[p] == lastsigs[p - left.len()]);
            }
        }
    }
}

/// Summary statistics over the aggregator's entire buffer, micro-units.
#[derive(Debug, Clone, Copy, PartialEq, Eq, Structural)]
pub struct SignalStatistics {
    /// Number of buffered signals.
    pub count: usize,
    /// Mean value.
    pub mean: i64,
    /// Median value: the average of the two middle values for even counts.
    pub median: i64,
    /// Population standard deviation.
    pub std_dev: i64,
    /// Smallest value.
    pub min: i64,
    /// Largest value.
    pub max: i64,
    /// Number of distinct sources.
    pub source_count: usize,
}

impl Default for SignalStatistics {
    /// Zeroed statistics, as reported for an empty buffer.
    fn default() -> (r: Self)
        ensures
            r == (SignalStatistics {
                count: 0,
                mean: 0,
                median: 0,
                std_dev: 0,
                min: 0,
                max: 0,
                source_count: 0,
            }),
    {
        SignalStatistics { count: 0, mean: 0, median: 0, std_dev: 0, min: 0, max: 0, source_count: 0 }
    }
}

/// A prefix's total count never exceeds the whole's.
proof fn lemma_total_count_prefix(bufs: Seq<BufferModel>, n: int)
    requires
        0 <= n <= bufs.len(),
    ensures
        total_count(bufs.subrange(0, n)) <= total_count(bufs),
        total_count(bufs) >= 0,
    decreases bufs.len(),
{
    if bufs.len() > 0 {
        lemma_total_count_prefix(bufs.drop_last(), if n < bufs.len() { n } else { n - 1 });
        if n < bufs.len() {
            assert(bufs.drop_last().subrange(0, n) =~= bufs.subrange(0, n));
        } else {
            assert(bufs.subrange(0, n) =~= bufs);
            assert(bufs.drop_last().subrange(0, n - 1) =~= bufs.drop_last());
        }
    } else {
        assert(bufs.subrange(0, n) =~= bufs);
    }
}

/// The buffer cap law: a buffer at or under the cap stays at or under it when
/// a signal is appended; an insertion into a full buffer evicts exactly the
/// oldest entry, preserving the order of the remainder.
pub proof fn lemma_buffer_eviction(s: Seq<SignalModel>, m: SignalModel, max: int)
    requires
        0 <= s.len() <= max,
    ensures
        push_evict(s, m, max).len() <= max,
        s.len() < max ==> push_evict(s, m, max) == s.push(m),
        s.len() == max && max > 0 ==> push_evict(s, m, max) == s.drop_first().push(m),
{
    if s.len() == max && max > 0 {
        assert(s.push(m).drop_first() =~= s.drop_first().push(m));
    }
}

/// Relies on str's `PartialEq`: two string slices are equal exactly when
/// their character sequences are.
#[verifier::external_body]
fn str_eq(a: &str, b: &str) -> (r: bool)
    ensures
        r == (a@ == b@),
{
    a == b
}

} // verus!
