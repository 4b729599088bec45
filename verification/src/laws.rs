//! Properties of the history mechanism that span several calls, stated and
//! proved once over the push model.

use vstd::prelude::*;
use crate::classify::rule_passes;
use crate::history::push_spec;
use crate::rules::DetectionRule;

verus! {

/// The trace after pushing every score of `scores`, in order (index 0
/// first), onto `trace` in a tracker of capacity `cap`.
pub open spec fn push_all<T>(trace: Seq<T>, scores: Seq<T>, cap: nat) -> Seq<T>
    decreases scores.len(),
{
    if scores.len() == 0 {
        trace
    } else {
        push_spec(push_all(trace, scores.drop_last(), cap), scores.last(), cap)
    }
}

/// However many scores are pushed, the trace never exceeds the capacity;
/// its length is exactly `min(cap, initial length + pushes)`; and each
/// retained entry is known: position `j` holds the `j`-th most recent
/// score, and the entries behind the pushed scores are the initial trace,
/// shifted back.
pub proof fn lemma_push_all_characterized<T>(trace: Seq<T>, scores: Seq<T>, cap: nat)
    requires
        trace.len() <= cap,
    ensures
        push_all(trace, scores, cap).len() <= cap,
        push_all(trace, scores, cap).len() == vstd::math::min(
            cap as int,
            trace.len() as int + scores.len() as int,
        ),
        forall|j: int| 0 <= j < push_all(trace, scores, cap).len() ==> push_all(
            trace,
            scores,
            cap,
        )[j] == (if j < scores.len() {
            scores[scores.len() - 1 - j]
        } else {
            trace[j - scores.len()]
        }),
    decreases scores.len(),
{
    if scores.len() == 0 {
    } else {
        let dl = scores.drop_last();
        lemma_push_all_characterized(trace, dl, cap);
        let prev = push_all(trace, dl, cap);
        let out = push_all(trace, scores, cap);
        assert(out == push_spec(prev, scores.last(), cap));
        assert forall|j: int| 0 <= j < out.len() implies out[j] == (if j < scores.len() {
            scores[scores.len() - 1 - j]
        } else {
            trace[j - scores.len()]
        }) by {
            if j == 0 {
                assert(out[0] == scores.last());
            } else {
                assert(out[j] == prev[j - 1]);
                if j - 1 < dl.len() {
                    assert(prev[j - 1] == dl[dl.len() - 1 - (j - 1)]);
                    assert(dl[dl.len() - 1 - (j - 1)] == scores[scores.len() - 1 - j]);
                } else {
                    assert(prev[j - 1] == trace[j - 1 - dl.len()]);
                }
            }
        }
    }
}

/// The capacity bound of the history tracker, over any push count: after at
/// least `cap` pushes into an initially empty tracker, the trace holds
/// exactly `cap` scores, and its front entry is the most recently pushed
/// one.
pub proof fn lemma_history_capacity<T>(scores: Seq<T>, cap: nat)
    requires
        scores.len() >= cap,
    ensures
        push_all(Seq::<T>::empty(), scores, cap).len() == cap,
        cap > 0 ==> push_all(Seq::<T>::empty(), scores, cap)[0] == scores.last(),
{
    lemma_push_all_characterized(Seq::<T>::empty(), scores, cap);
}

/// The noise floor guards the denominator: a rule whose reference trace
/// value is the silent (zero) sample cannot fire, whatever the other trace
/// values are, as long as the noise-floor predicate never accepts that
/// value — so no ratio against a silent denominator is ever evaluated into
/// a detection.
pub proof fn lemma_silent_denominator_never_fires<
    T,
    G: Fn(T, T) -> bool,
    F: Fn(T, T, T, T) -> bool,
>(floor: G, check: F, traces: Seq<Seq<T>>, rule: DetectionRule<T>, silent: T)
    requires
        traces[rule.ref_kernel as int][rule.ref_pos as int] == silent,
        forall|m: T| !(#[trigger] call_ensures(floor, (silent, m), true)),
    ensures
        !rule_passes(floor, check, traces, rule),
{
    assert(!call_ensures(floor, (silent, rule.min_mag), true));
}

} // verus!
