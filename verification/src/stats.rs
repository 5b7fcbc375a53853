//! Shared statistics over signal values: sums, mean, population variance and
//! standard deviation, and sorting for order statistics. All quantities are
//! micro-unit fixed-point integers.

use vstd::prelude::*;
use vstd::seq_lib::*;

use crate::belief::{BeliefSignal, SignalModel, VALUE_LIMIT};
use crate::math::{div_tz, div_trunc_i128, isqrt_spec, isqrt_u64, lemma_div_tz_scaled_bound};

verus! {

/// The values carried by a sequence of signals.
pub open spec fn values_of(s: Seq<SignalModel>) -> Seq<int> {
    s.map_values(|m: SignalModel| m.value)
}

/// Every signal in the sequence is within the machine bounds.
pub open spec fn all_wf(s: Seq<SignalModel>) -> bool {
    forall|i: int| 0 <= i < s.len() ==> (#[trigger] s[i]).wf()
}

/// Every value in the sequence has magnitude at most `b`.
pub open spec fn bounded_by(s: Seq<int>, b: int) -> bool {
    forall|i: int| 0 <= i < s.len() ==> -b <= #[trigger] s[i] <= b
}

/// Sum of a sequence of integers.
pub open spec fn sum_ints(s: Seq<int>) -> int
    decreases s.len(),
{
    if s.len() == 0 {
        0
    } else {
        sum_ints(s.drop_last()) + s.last()
    }
}

/// Sum of squared deviations from `m`.
pub open spec fn sum_sq_devs(s: Seq<int>, m: int) -> int
    decreases s.len(),
{
    if s.len() == 0 {
        0
    } else {
        sum_sq_devs(s.drop_last(), m) + (s.last() - m) * (s.last() - m)
    }
}

/// Arithmetic mean, rounded toward zero. Meaningful only for non-empty `s`.
pub open spec fn mean_of(s: Seq<int>) -> int {
    div_tz(sum_ints(s), s.len() as int)
}

/// Population variance (floor division). Meaningful only for non-empty `s`.
pub open spec fn variance_of(s: Seq<int>) -> int {
    sum_sq_devs(s, mean_of(s)) / (s.len() as int)
}

/// Population standard deviation: integer square root of the variance.
pub open spec fn std_of(s: Seq<int>) -> int {
    isqrt_spec(variance_of(s) as nat) as int
}

pub proof fn lemma_sum_ints_step(s: Seq<int>, i: int)
    requires
        0 <= i < s.len(),
    ensures
        sum_ints(s.subrange(0, i + 1)) == sum_ints(s.subrange(0, i)) + s[i],
{
    assert(s.subrange(0, i + 1).drop_last() =~= s.subrange(0, i));
    assert(s.subrange(0, i + 1).last() == s[i]);
}

pub proof fn lemma_sum_sq_devs_step(s: Seq<int>, m: int, i: int)
    requires
        0 <= i < s.len(),
    ensures
        sum_sq_devs(s.subrange(0, i + 1), m) == sum_sq_devs(s.subrange(0, i), m) + (s[i] - m) * (
        s[i] - m),
{
    assert(s.subrange(0, i + 1).drop_last() =~= s.subrange(0, i));
    assert(s.subrange(0, i + 1).last() == s[i]);
}

pub proof fn lemma_sum_ints_bound(s: Seq<int>, b: int)
    requires
        bounded_by(s, b),
        0 <= b,
    ensures
        -(s.len() * b) <= sum_ints(s) <= s.len() * b,
    decreases s.len(),
{
    if s.len() > 0 {
        assert(bounded_by(s.drop_last(), b));
        lemma_sum_ints_bound(s.drop_last(), b);
        assert((s.len() - 1) * b + b == s.len() * b) by (nonlinear_arith);
        assert(-b <= s.last() <= b);
    }
}

pub proof fn lemma_sum_sq_devs_bound(s: Seq<int>, m: int, b: int)
    requires
        bounded_by(s, b),
        -b <= m <= b,
        0 <= b,
    ensures
        0 <= sum_sq_devs(s, m) <= s.len() * (4 * b * b),
    decreases s.len(),
{
    if s.len() > 0 {
        assert(bounded_by(s.drop_last(), b));
        lemma_sum_sq_devs_bound(s.drop_last(), m, b);
        let d = s.last() - m;
        assert(0 <= d * d <= 4 * b * b) by (nonlinear_arith)
            requires -2 * b <= d <= 2 * b, 0 <= b
        {}
        assert((s.len() - 1) * (4 * b * b) + (4 * b * b) == s.len() * (4 * b * b))
            by (nonlinear_arith);
    }
}

/// The mean of a non-empty bounded sequence is itself bounded.
pub proof fn lemma_mean_bound(s: Seq<int>, b: int)
    requires
        bounded_by(s, b),
        0 <= b,
        s.len() > 0,
    ensures
        -b <= mean_of(s) <= b,
{
    lemma_sum_ints_bound(s, b);
    assert(s.len() * b == b * s.len()) by (nonlinear_arith);
    lemma_div_tz_scaled_bound(sum_ints(s), s.len() as int, b);
}

/// The variance of a non-empty bounded sequence is within `[0, 4 b^2]`, so its
/// standard deviation is within `[0, 2 b]`.
pub proof fn lemma_variance_bound(s: Seq<int>, b: int)
    requires
        bounded_by(s, b),
        0 <= b,
        s.len() > 0,
    ensures
        0 <= variance_of(s) <= 4 * b * b,
        0 <= std_of(s) <= 2 * b,
{
    lemma_mean_bound(s, b);
    lemma_sum_sq_devs_bound(s, mean_of(s), b);
    let ssd = sum_sq_devs(s, mean_of(s));
    let n = s.len() as int;
    assert(variance_of(s) >= 0) by {
        vstd::arithmetic::div_mod::lemma_div_pos_is_pos(ssd, n);
    }
    assert(n * (4 * b * b) == (4 * b * b) * n) by (nonlinear_arith);
    lemma_div_tz_scaled_bound(ssd, n, 4 * b * b);
    assert(div_tz(ssd, n) == ssd / n);
    let v = variance_of(s) as nat;
    crate::math::lemma_isqrt_spec_bounds(v);
    let r = isqrt_spec(v);
    assert(r <= 2 * b) by (nonlinear_arith)
        requires r * r <= v, v <= 4 * b * b, 0 <= b, 0 <= r
    {}
}

/// The mathematical view of a sequence of machine integers.
pub open spec fn to_ints(s: Seq<i64>) -> Seq<int> {
    s.map_values(|x: i64| x as int)
}

/// Non-decreasing order.
pub open spec fn sorted_ints(s: Seq<int>) -> bool {
    forall|i: int, j: int| 0 <= i < j < s.len() ==> s[i] <= s[j]
}

/// The median of a non-empty value sequence: the middle element of the sorted
/// sequence, or the average (rounded toward zero) of the two middle elements
/// when the length is even.
pub open spec fn median_of(vals: Seq<int>) -> int {
    let t = vals.sort();
    if vals.len() % 2 == 0 {
        div_tz(t[vals.len() as int / 2 - 1] + t[vals.len() as int / 2], 2)
    } else {
        t[vals.len() as int / 2]
    }
}

/// The smallest element of a non-empty value sequence.
pub open spec fn min_of(vals: Seq<int>) -> int {
    vals.sort().first()
}

/// The largest element of a non-empty value sequence.
pub open spec fn max_of(vals: Seq<int>) -> int {
    vals.sort().last()
}

/// Two sorted integer sequences carrying the same multiset of elements are the
/// same sequence.
pub proof fn lemma_sorted_multiset_unique(a: Seq<int>, b: Seq<int>)
    requires
        sorted_ints(a),
        sorted_ints(b),
        a.to_multiset() == b.to_multiset(),
    ensures
        a == b,
    decreases a.len(),
{
    a.to_multiset_ensures();
    b.to_multiset_ensures();
    assert(a.len() == b.len());
    if a.len() == 0 {
        assert(a =~= b);
    } else {
        assert(a.contains(a[0]));
        assert(b.to_multiset().count(a[0]) > 0);
        assert(b.contains(a[0]));
        let j = choose|j: int| 0 <= j < b.len() && b[j] == a[0];
        assert(b[0] <= a[0]);
        assert(b.contains(b[0]));
        assert(a.to_multiset().count(b[0]) > 0);
        assert(a.contains(b[0]));
        let j2 = choose|j2: int| 0 <= j2 < a.len() && a[j2] == b[0];
        assert(a[0] <= b[0]);
        assert(a[0] == b[0]);
        let at = a.remove(0);
        let bt = b.remove(0);
        assert(at.to_multiset() =~= bt.to_multiset());
        assert(sorted_ints(at)) by {
            assert forall|i: int, k: int| 0 <= i < k < at.len() implies at[i] <= at[k] by {
                assert(at[i] == a[i + 1]);
                assert(at[k] == a[k + 1]);
            }
        }
        assert(sorted_ints(bt)) by {
            assert forall|i: int, k: int| 0 <= i < k < bt.len() implies bt[i] <= bt[k] by {
                assert(bt[i] == b[i + 1]);
                assert(bt[k] == b[k + 1]);
            }
        }
        lemma_sorted_multiset_unique(at, bt);
        assert(a =~= b) by {
            assert forall|k: int| 0 <= k < a.len() implies a[k] == b[k] by {
                if k > 0 {
                    assert(a[k] == at[k - 1]);
                    assert(b[k] == bt[k - 1]);
                }
            }
        }
    }
}

/// Sorting preserves value bounds: every element of the sorted sequence is an
/// element of the input.
pub proof fn lemma_sort_preserves_bounds(s: Seq<int>, b: int)
    requires
        bounded_by(s, b),
        0 <= b,
    ensures
        bounded_by(s.sort(), b),
        s.sort().len() == s.len(),
{
    s.lemma_sort_ensures();
    s.to_multiset_ensures();
    s.sort().to_multiset_ensures();
    assert forall|k: int| 0 <= k < s.sort().len() implies -b <= #[trigger] s.sort()[k] <= b by {
        let x = s.sort()[k];
        assert(s.sort().contains(x));
        assert(s.sort().to_multiset().count(x) > 0);
        assert(s.to_multiset().count(x) > 0);
        assert(s.contains(x));
        let j = choose|j: int| 0 <= j < s.len() && s[j] == x;
        assert(-b <= s[j] <= b);
    }
}

/// Sorts a copy of the given values into non-decreasing order; the result is
/// exactly the sorted permutation of the input.
pub fn sorted_copy(v: &Vec<i64>) -> (r: Vec<i64>)
    ensures
        to_ints(r@) == to_ints(v@).sort(),
{
    let ghost goal = to_ints(v@);
    let mut r: Vec<i64> = Vec::new();
    let mut i: usize = 0;
    proof {
        assert(to_ints(r@) =~= Seq::<int>::empty());
        assert(to_ints(v@.subrange(0, 0)) =~= Seq::<int>::empty());
        Seq::<int>::empty().to_multiset_ensures();
    }
    while i < v.len()
        invariant
            i <= v@.len(),
            sorted_ints(to_ints(r@)),
            to_ints(r@).to_multiset() == to_ints(v@.subrange(0, i as int)).to_multiset(),
            r@.len() == i,
        decreases v@.len() - i,
    {
        let x = v[i];
        let mut k: usize = 0;
        while k < r.len() && r[k] < x
            invariant
                0 <= k <= r@.len(),
                forall|a: int| 0 <= a < k ==> to_ints(r@)[a] < x as int,
                sorted_ints(to_ints(r@)),
            decreases r@.len() - k,
        {
            k = k + 1;
        }
        let ghost old_r = r@;
        r.insert(k, x);
        proof {
            let ri = to_ints(r@);
            let ro = to_ints(old_r);
            assert(ri =~= ro.insert(k as int, x as int));
            vstd::seq_lib::to_multiset_insert(ro, k as int, x as int);
            assert(sorted_ints(ri)) by {
                assert forall|p: int, q: int| 0 <= p < q < ri.len() implies ri[p] <= ri[q] by {
                    assert(forall|a: int| 0 <= a < k ==> ri[a] == ro[a]);
                    assert(ri[k as int] == x as int);
                    assert(forall|a: int| k < a < ri.len() ==> ri[a] == ro[a - 1]);
                    if k < r@.len() - 1 {
                        // everything at or after the insertion point is at least x
                        assert(!(ro[k as int] < x as int));
                    }
                }
            }
            let prev = v@.subrange(0, i as int);
            let next = v@.subrange(0, i as int + 1);
            assert(to_ints(next) =~= to_ints(prev).push(x as int));
            to_ints(prev).to_multiset_ensures();
            assert(to_ints(next).to_multiset() =~= to_ints(prev).to_multiset().insert(x as int));
        }
        i = i + 1;
    }
    proof {
        assert(v@.subrange(0, v@.len() as int) =~= v@);
        goal.lemma_sort_ensures();
        assert(sorted_ints(goal.sort())) by {
            assert forall|p: int, q: int| 0 <= p < q < goal.sort().len() implies goal.sort()[p]
                <= goal.sort()[q] by {
                let leq = |x: int, y: int| x <= y;
                assert(vstd::relations::sorted_by(goal.sort(), leq));
                assert(leq(goal.sort()[p], goal.sort()[q]));
            }
        }
        lemma_sorted_multiset_unique(to_ints(r@), goal.sort());
    }
    r
}

/// Sums the values of a batch of signals.
fn sum_of_values(signals: &Vec<BeliefSignal>) -> (s: i128)
    requires
        all_wf(signals.deep_view()),
    ensures
        s == sum_ints(values_of(signals.deep_view())),
        -(signals@.len() as int * VALUE_LIMIT) <= s <= signals@.len() as int * VALUE_LIMIT,
{
    let ghost vals = values_of(signals.deep_view());
    let mut s: i128 = 0;
    let mut i: usize = 0;
    proof {
        assert(vals.subrange(0, 0) =~= Seq::<int>::empty());
    }
    while i < signals.len()
        invariant
            i <= signals@.len(),
            vals.len() == signals@.len(),
            all_wf(signals.deep_view()),
            vals == values_of(signals.deep_view()),
            s == sum_ints(vals.subrange(0, i as int)),
            -(i as int * VALUE_LIMIT) <= s <= i as int * VALUE_LIMIT,
        decreases signals@.len() - i,
    {
        proof {
            assert(signals.deep_view()[i as int] == signals@[i as int]@);
            assert(vals[i as int] == signals@[i as int]@.value);
            lemma_sum_ints_step(vals, i as int);
            assert(i as int * VALUE_LIMIT + VALUE_LIMIT == (i + 1) as int * VALUE_LIMIT)
                by (nonlinear_arith);
        }
        s = s + signals[i].value as i128;
        i = i + 1;
    }
    proof {
        assert(vals.subrange(0, signals@.len() as int) =~= vals);
    }
    s
}

/// Mean signal value of a non-empty batch, rounded toward zero.
pub fn mean_value(signals: &Vec<BeliefSignal>) -> (m: i64)
    requires
        all_wf(signals.deep_view()),
        signals@.len() > 0,
    ensures
        m == mean_of(values_of(signals.deep_view())),
        -VALUE_LIMIT <= m <= VALUE_LIMIT,
{
    let ghost vals = values_of(signals.deep_view());
    let s = sum_of_values(signals);
    proof {
        lemma_mean_bound(vals, VALUE_LIMIT as int);
    }
    let m = div_trunc_i128(s, signals.len() as i128);
    m as i64
}

/// Sum of squared deviations of a batch's values from `m`.
fn sum_sq_devs_exec(signals: &Vec<BeliefSignal>, m: i64) -> (s: i128)
    requires
        all_wf(signals.deep_view()),
        -VALUE_LIMIT <= m <= VALUE_LIMIT,
    ensures
        s == sum_sq_devs(values_of(signals.deep_view()), m as int),
        0 <= s <= signals@.len() as int * (4 * VALUE_LIMIT as int * VALUE_LIMIT as int),
{
    let ghost vals = values_of(signals.deep_view());
    let ghost term_max: int = 4 * VALUE_LIMIT as int * VALUE_LIMIT as int;
    let mut s: i128 = 0;
    let mut i: usize = 0;
    proof {
        assert(vals.subrange(0, 0) =~= Seq::<int>::empty());
    }
    while i < signals.len()
        invariant
            i <= signals@.len(),
            vals.len() == signals@.len(),
            all_wf(signals.deep_view()),
            vals == values_of(signals.deep_view()),
            -VALUE_LIMIT <= m <= VALUE_LIMIT,
            term_max == 4 * VALUE_LIMIT as int * VALUE_LIMIT as int,
            s == sum_sq_devs(vals.subrange(0, i as int), m as int),
            0 <= s <= i as int * term_max,
        decreases signals@.len() - i,
    {
        proof {
            assert(signals.deep_view()[i as int] == signals@[i as int]@);
            assert(vals[i as int] == signals@[i as int]@.value);
            lemma_sum_sq_devs_step(vals, m as int, i as int);
            let d = vals[i as int] - m as int;
            assert(0 <= d * d <= term_max) by (nonlinear_arith)
                requires -2 * VALUE_LIMIT <= d <= 2 * VALUE_LIMIT,
                    term_max == 4 * VALUE_LIMIT as int * VALUE_LIMIT as int
            {}
            assert(i as int * term_max + term_max == (i + 1) as int * term_max)
                by (nonlinear_arith);
            assert((i + 1) as int * term_max < i128::MAX) by (nonlinear_arith)
                requires 0 <= (i as int), (i as int) < 18_446_744_073_709_551_616int,
                    term_max == 4 * VALUE_LIMIT as int * VALUE_LIMIT as int
            {}
        }
        let d: i64 = signals[i].value - m;
        s = s + (d as i128) * (d as i128);
        i = i + 1;
    }
    proof {
        assert(vals.subrange(0, signals@.len() as int) =~= vals);
    }
    s
}

/// Population standard deviation of a non-empty batch's values.
pub fn std_of_values(signals: &Vec<BeliefSignal>) -> (sd: i64)
    requires
        all_wf(signals.deep_view()),
        signals@.len() > 0,
    ensures
        sd == std_of(values_of(signals.deep_view())),
        0 <= sd <= 2 * VALUE_LIMIT,
{
    let ghost vals = values_of(signals.deep_view());
    let m = mean_value(signals);
    let ssd = sum_sq_devs_exec(signals, m);
    proof {
        lemma_variance_bound(vals, VALUE_LIMIT as int);
        assert(vals.len() as int * (4 * VALUE_LIMIT as int * VALUE_LIMIT as int) == (4
            * VALUE_LIMIT as int * VALUE_LIMIT as int) * vals.len() as int) by (nonlinear_arith);
        lemma_div_tz_scaled_bound(
            ssd as int,
            vals.len() as int,
            4 * VALUE_LIMIT as int * VALUE_LIMIT as int,
        );
    }
    let variance: u128 = (ssd as u128) / (signals.len() as u128);
    let sd = isqrt_u64(variance as u64);
    sd as i64
}

} // verus!
