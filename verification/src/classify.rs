//! The event classifier: turns the per-kernel history traces into a single
//! categorical detection by evaluating a rule table in priority order.
//!
//! The scalar comparisons are the caller's: `floor(d, m)` stands for the
//! noise-floor test `d > m`, and `check(x, d, r, t)` for the ratio test
//! `|x / d - r| < t`. The contract ties the outcome to what those closures
//! returned on the trace values that the rules designate.

use vstd::prelude::*;
use crate::history::HistoryTracker;
use crate::rules::DetectionRule;

verus! {

/// The trace of each tracker, as plain sequences.
pub open spec fn trace_views<T>(traces: Seq<HistoryTracker<T>>) -> Seq<Seq<T>> {
    traces.map_values(|t: HistoryTracker<T>| t@)
}

/// Every tracker is full: its trace length equals its capacity.
pub open spec fn all_ready<T: Copy>(traces: Seq<HistoryTracker<T>>) -> bool {
    forall|k: int| 0 <= k < traces.len() ==> (#[trigger] traces[k])@.len()
        == traces[k].capacity_spec()
}

/// The rule refers only to trackers that exist and to positions inside
/// their capacity, so every value it reads is present once the trackers
/// are ready.
pub open spec fn rule_fits<T: Copy>(rule: DetectionRule<T>, traces: Seq<HistoryTracker<T>>) -> bool {
    &&& rule.ref_kernel < traces.len()
    &&& rule.ref_pos < traces[rule.ref_kernel as int].capacity_spec()
    &&& forall|c: int| 0 <= c < rule.checks@.len() ==> (#[trigger] rule.checks@[c]).kernel
        < traces.len() && rule.checks@[c].pos
        < traces[rule.checks@[c].kernel as int].capacity_spec()
}

/// The rule fired: on the designated trace values, the noise-floor
/// predicate returned `true` and every ratio check returned `true`.
pub open spec fn rule_passes<T, G: Fn(T, T) -> bool, F: Fn(T, T, T, T) -> bool>(
    floor: G,
    check: F,
    traces: Seq<Seq<T>>,
    rule: DetectionRule<T>,
) -> bool {
    let denom = traces[rule.ref_kernel as int][rule.ref_pos as int];
    &&& call_ensures(floor, (denom, rule.min_mag), true)
    &&& forall|c: int| 0 <= c < rule.checks@.len() ==> call_ensures(
        check,
        (
            traces[(#[trigger] rule.checks@[c]).kernel as int][rule.checks@[c].pos as int],
            denom,
            rule.checks@[c].ratio,
            rule.checks@[c].tol,
        ),
        true,
    )
}

/// The rule was rejected: the noise-floor predicate returned `false`, or
/// some ratio check returned `false`.
pub open spec fn rule_rejected<T, G: Fn(T, T) -> bool, F: Fn(T, T, T, T) -> bool>(
    floor: G,
    check: F,
    traces: Seq<Seq<T>>,
    rule: DetectionRule<T>,
) -> bool {
    let denom = traces[rule.ref_kernel as int][rule.ref_pos as int];
    ||| call_ensures(floor, (denom, rule.min_mag), false)
    ||| exists|c: int| 0 <= c < rule.checks@.len() && call_ensures(
        check,
        (
            traces[(#[trigger] rule.checks@[c]).kernel as int][rule.checks@[c].pos as int],
            denom,
            rule.checks@[c].ratio,
            rule.checks@[c].tol,
        ),
        false,
    )
}

/// Evaluates the rule table against the traces, in declaration order, and
/// reports the variant of the first rule that fires.
///
/// Unless every trace is ready (full), the answer is "no event" — absence
/// of a signal is a normal outcome, not a fault — and no rule is evaluated.
/// Rules need not be mutually exclusive: ties go to the earliest rule.
pub fn classify<T: Copy, G: Fn(T, T) -> bool, F: Fn(T, T, T, T) -> bool>(
    traces: &Vec<HistoryTracker<T>>,
    rules: &Vec<DetectionRule<T>>,
    floor: G,
    check: F,
) -> (r: Option<usize>)
    requires
        forall|d: T, m: T| #[trigger] call_requires(floor, (d, m)),
        forall|x: T, d: T, e: T, t: T| #[trigger] call_requires(check, (x, d, e, t)),
        forall|i: int| 0 <= i < rules@.len() ==> rule_fits(#[trigger] rules@[i], traces@),
    ensures
        !all_ready(traces@) ==> r == None::<usize>,
        r matches Some(v) ==> all_ready(traces@) && exists|i: int|
            0 <= i < rules@.len() && (#[trigger] rules@[i]).variant == v && rule_passes(
                floor,
                check,
                trace_views(traces@),
                rules@[i],
            ) && forall|j: int|
                0 <= j < i ==> rule_rejected(floor, check, trace_views(traces@), #[trigger] rules@[j]),
        r == None::<usize> && all_ready(traces@) ==> forall|i: int|
            0 <= i < rules@.len() ==> rule_rejected(
                floor,
                check,
                trace_views(traces@),
                #[trigger] rules@[i],
            ),
{
    let mut k: usize = 0;
    while k < traces.len()
        invariant
            k <= traces@.len(),
            forall|j: int| 0 <= j < k ==> (#[trigger] traces@[j])@.len()
                == traces@[j].capacity_spec(),
        decreases traces@.len() - k,
    {
        if !traces[k].is_ready() {
            return None;
        }
        k = k + 1;
    }
    let mut i: usize = 0;
    while i < rules.len()
        invariant
            i <= rules@.len(),
            all_ready(traces@),
            forall|d: T, m: T| #[trigger] call_requires(floor, (d, m)),
            forall|x: T, d: T, e: T, t: T| #[trigger] call_requires(check, (x, d, e, t)),
            forall|j: int| 0 <= j < rules@.len() ==> rule_fits(#[trigger] rules@[j], traces@),
            forall|j: int| 0 <= j < i ==> rule_rejected(
                floor,
                check,
                trace_views(traces@),
                #[trigger] rules@[j],
            ),
        decreases rules@.len() - i,
    {
        let rule = &rules[i];
        let denom = traces[rule.ref_kernel].get(rule.ref_pos);
        proof {
            assert(denom == trace_views(traces@)[rule.ref_kernel as int][rule.ref_pos as int]);
        }
        if floor(denom, rule.min_mag) {
            let mut all_pass = true;
            let mut c: usize = 0;
            while c < rule.checks.len()
                invariant
                    c <= rule.checks@.len(),
                    all_ready(traces@),
                    forall|x: T, d: T, e: T, t: T| #[trigger] call_requires(check, (x, d, e, t)),
                    rule_fits(*rule, traces@),
                    denom == trace_views(traces@)[rule.ref_kernel as int][rule.ref_pos as int],
                    all_pass ==> forall|j: int| 0 <= j < c ==> call_ensures(
                        check,
                        (
                            trace_views(traces@)[(#[trigger] rule.checks@[j]).kernel as int][rule.checks@[j].pos as int],
                            denom,
                            rule.checks@[j].ratio,
                            rule.checks@[j].tol,
                        ),
                        true,
                    ),
                    !all_pass ==> rule_rejected(floor, check, trace_views(traces@), *rule),
                decreases rule.checks@.len() - c,
            {
                let ck = &rule.checks[c];
                let num = traces[ck.kernel].get(ck.pos);
                proof {
                    assert(num == trace_views(
                        traces@,
                    )[rule.checks@[c as int].kernel as int][rule.checks@[c as int].pos as int]);
                }
                if !check(num, denom, ck.ratio, ck.tol) {
                    all_pass = false;
                }
                c = c + 1;
            }
            if all_pass {
                return Some(rule.variant);
            }
        }
        i = i + 1;
    }
    None
}

} // verus!
