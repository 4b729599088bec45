use matched_filter::classify::classify;
use matched_filter::history::HistoryTracker;
use matched_filter::rules::{DetectionRule, RatioCheck};

const H: usize = 54;

fn floor(d: f32, m: f32) -> bool {
    d > m
}

fn ratio_check(x: f32, d: f32, r: f32, t: f32) -> bool {
    (x / d - r).abs() < t
}

fn rule(variant: usize, ref_kernel: usize, ref_pos: usize, min_mag: f32, checks: &[(usize, usize, f32)]) -> DetectionRule<f32> {
    DetectionRule {
        variant,
        ref_kernel,
        ref_pos,
        min_mag,
        checks: checks
            .iter()
            .map(|&(kernel, pos, ratio)| RatioCheck { kernel, pos, ratio, tol: 0.15 })
            .collect(),
    }
}

/// The stock rule table: three event variants over three kernels, tried in
/// priority order (variant 3 first).
fn reference_rules() -> Vec<DetectionRule<f32>> {
    vec![
        rule(3, 2, 39, 200.0, &[(0, 39, 0.03), (1, 50, 0.13), (0, 20, -0.18), (1, 11, -0.23), (2, 0, -0.4)]),
        rule(1, 0, 10, 100.0, &[(1, 0, 0.53), (2, 30, -0.25), (0, 48, -0.21), (1, 38, -0.22), (2, 29, -0.26)]),
        rule(2, 1, 10, 100.0, &[(0, 22, 0.56), (2, 0, 0.21), (0, 53, -0.16), (1, 42, -0.23), (2, 40, -0.33)]),
    ]
}

/// A tracker of capacity `cap` whose snapshot equals `values` (front
/// first): the values are pushed oldest-first.
fn tracker_with(cap: usize, values: &[f32]) -> HistoryTracker<f32> {
    let mut t = HistoryTracker::new(cap);
    for v in values.iter().rev() {
        t.push(*v);
    }
    t
}

/// Traces that exactly satisfy variant 2 of the reference table and no
/// other: the variant-3 and variant-1 noise floors stay at zero.
fn variant2_traces() -> Vec<HistoryTracker<f32>> {
    let mut v1 = [0.0f32; H];
    let mut v2 = [0.0f32; H];
    let mut v3 = [0.0f32; H];
    v2[10] = 1000.0;
    v1[22] = 560.0;
    v3[0] = 210.0;
    v1[53] = -160.0;
    v2[42] = -230.0;
    v3[40] = -330.0;
    vec![tracker_with(H, &v1), tracker_with(H, &v2), tracker_with(H, &v3)]
}

#[test]
fn classify_returns_no_event_on_partial_traces() {
    let mut traces = variant2_traces();
    // Rebuild the middle trace one score short of capacity: values would
    // otherwise satisfy variant 2.
    let mut short = [0.0f32; H - 1];
    short[10] = 1000.0;
    short[42] = -230.0;
    traces[1] = tracker_with(H, &short);
    assert!(!traces[1].is_ready());
    let r = classify(&traces, &reference_rules(), floor, ratio_check);
    assert_eq!(r, None);
}

#[test]
fn classify_zero_denominator_never_fires() {
    // The denominator of every rule is zero; all other positions carry the
    // variant-2 numerators, so only the noise floor stands in the way.
    let mut traces = variant2_traces();
    let mut v2 = [0.0f32; H];
    v2[42] = -230.0;
    traces[1] = tracker_with(H, &v2);
    assert_eq!(classify(&traces, &reference_rules(), floor, ratio_check), None);

    // Even a zero noise floor does not let a zero denominator through.
    let zeros = [0.0f32; H];
    let all_zero = vec![tracker_with(H, &zeros), tracker_with(H, &zeros), tracker_with(H, &zeros)];
    let lax = vec![rule(5, 0, 0, 0.0, &[(0, 1, 0.0)])];
    assert_eq!(classify(&all_zero, &lax, floor, ratio_check), None);
}

#[test]
fn classify_picks_variant2_by_priority() {
    let traces = variant2_traces();
    let r = classify(&traces, &reference_rules(), floor, ratio_check);
    assert_eq!(r, Some(2));
}

#[test]
fn classify_detects_variant3() {
    let mut v1 = [0.0f32; H];
    let mut v2 = [0.0f32; H];
    let mut v3 = [0.0f32; H];
    v3[39] = 1000.0;
    v1[39] = 30.0;
    v2[50] = 130.0;
    v1[20] = -180.0;
    v2[11] = -230.0;
    v3[0] = -400.0;
    let traces = vec![tracker_with(H, &v1), tracker_with(H, &v2), tracker_with(H, &v3)];
    assert_eq!(classify(&traces, &reference_rules(), floor, ratio_check), Some(3));
}

#[test]
fn classify_detects_variant1() {
    let mut v1 = [0.0f32; H];
    let mut v2 = [0.0f32; H];
    let mut v3 = [0.0f32; H];
    v1[10] = 1000.0;
    v2[0] = 530.0;
    v3[30] = -250.0;
    v1[48] = -210.0;
    v2[38] = -220.0;
    v3[29] = -260.0;
    let traces = vec![tracker_with(H, &v1), tracker_with(H, &v2), tracker_with(H, &v3)];
    assert_eq!(classify(&traces, &reference_rules(), floor, ratio_check), Some(1));
}

#[test]
fn classify_first_matching_rule_wins() {
    let values = [10.0f32; 4];
    let traces = vec![tracker_with(4, &values)];
    // Both rules fire on a flat trace; the earlier declaration wins.
    let rules = vec![rule(9, 0, 0, 1.0, &[(0, 1, 1.0)]), rule(4, 0, 0, 1.0, &[(0, 2, 1.0)])];
    assert_eq!(classify(&traces, &rules, floor, ratio_check), Some(9));
}
