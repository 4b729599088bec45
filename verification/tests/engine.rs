use matched_filter::{ConfigError, StepOutcome};
use matched_filter::detector::Detector;
use matched_filter::rules::{DetectionRule, RatioCheck};

fn mac(acc: f32, a: f32, b: f32) -> f32 {
    acc + a * b
}

fn floor(d: f32, m: f32) -> bool {
    d > m
}

fn ratio_check(x: f32, d: f32, r: f32, t: f32) -> bool {
    (x / d - r).abs() < t
}

fn unit_kernels(n: usize) -> Vec<Vec<f32>> {
    (0..n).map(|_| vec![1.0f32]).collect()
}

fn simple_rule(variant: usize, ref_kernel: usize, ref_pos: usize, min_mag: f32, checks: &[(usize, usize, f32, f32)]) -> DetectionRule<f32> {
    DetectionRule {
        variant,
        ref_kernel,
        ref_pos,
        min_mag,
        checks: checks
            .iter()
            .map(|&(kernel, pos, ratio, tol)| RatioCheck { kernel, pos, ratio, tol })
            .collect(),
    }
}

#[test]
fn new_rejects_empty_bank() {
    let r = Detector::<f32>::new(Vec::new(), Vec::new(), 54, 24);
    assert_eq!(r.err(), Some(ConfigError::NoKernels));
}

#[test]
fn new_rejects_empty_kernel() {
    let kernels = vec![vec![1.0f32], Vec::new()];
    let r = Detector::new(kernels, Vec::new(), 54, 24);
    assert_eq!(r.err(), Some(ConfigError::EmptyKernel));
}

#[test]
fn new_rejects_zero_history() {
    let r = Detector::new(unit_kernels(3), Vec::new(), 0, 24);
    assert_eq!(r.err(), Some(ConfigError::ZeroHistory));
}

#[test]
fn new_rejects_zero_hop() {
    let r = Detector::new(unit_kernels(3), Vec::new(), 54, 0);
    assert_eq!(r.err(), Some(ConfigError::ZeroHop));
}

#[test]
fn new_rejects_rule_out_of_range() {
    let bad_kernel = vec![simple_rule(1, 3, 0, 1.0, &[])];
    let r = Detector::new(unit_kernels(3), bad_kernel, 54, 24);
    assert_eq!(r.err(), Some(ConfigError::RuleOutOfRange));
    let bad_pos = vec![simple_rule(1, 0, 54, 1.0, &[])];
    let r2 = Detector::new(unit_kernels(3), bad_pos, 54, 24);
    assert_eq!(r2.err(), Some(ConfigError::RuleOutOfRange));
    let bad_check = vec![simple_rule(1, 0, 0, 1.0, &[(2, 60, 1.0, 0.1)])];
    let r3 = Detector::new(unit_kernels(3), bad_check, 54, 24);
    assert_eq!(r3.err(), Some(ConfigError::RuleOutOfRange));
}

#[test]
fn window_length_is_shortest_kernel() {
    let kernels = vec![vec![1.0f32; 5], vec![1.0f32; 3], vec![1.0f32; 4]];
    let d = Detector::new(kernels, Vec::new(), 54, 24).unwrap();
    assert_eq!(d.window_len(), 3);
}

#[test]
fn scan_fills_then_scans_every_iteration() {
    // Three single-sample kernels: the window length is 1.
    let mut d = Detector::new(unit_kernels(3), Vec::new(), 54, 24).unwrap();
    assert_eq!(d.window_len(), 1);

    // Nothing buffered: the controller stays in the filling state.
    assert!(!d.ready_to_scan());
    assert_eq!(d.step(0.0, mac, floor, ratio_check), StepOutcome::Filling);
    assert_eq!(d.step(0.0, mac, floor, ratio_check), StepOutcome::Filling);

    // One hop of samples reaches the window length: scanning starts, and
    // every iteration with enough data evaluates (and classifies) once.
    d.append(&[0.5f32; 24]);
    assert!(d.ready_to_scan());
    assert_eq!(d.step(0.0, mac, floor, ratio_check), StepOutcome::NoMatch);
    // The hop consumed the whole 24-sample chunk: filling again.
    assert_eq!(d.buffered(), 0);
    assert_eq!(d.step(0.0, mac, floor, ratio_check), StepOutcome::Filling);

    // Feeding hop-sized chunks keeps alternating scan and refill.
    d.append(&[0.5f32; 24]);
    assert_eq!(d.step(0.0, mac, floor, ratio_check), StepOutcome::NoMatch);
    assert_eq!(d.consumed(), 48);
}

#[test]
fn no_match_advances_by_hop() {
    let kernels = vec![vec![1.0f32, 1.0]];
    let never = vec![simple_rule(1, 0, 0, 1.0e9, &[])];
    let mut d = Detector::new(kernels, never, 1, 3).unwrap();
    d.append(&[0.0f32; 10]);
    assert_eq!(d.step(0.0, mac, floor, ratio_check), StepOutcome::NoMatch);
    assert_eq!(d.buffered(), 7);
    assert_eq!(d.consumed(), 3);
}

#[test]
fn detection_skips_window_and_clears_history() {
    // One two-sample kernel; a constant stream of ones gives a score of 2
    // on every window, and the single rule fires as soon as the one-deep
    // history is full.
    let kernels = vec![vec![1.0f32, 1.0]];
    let rules = vec![simple_rule(7, 0, 0, 1.0, &[(0, 0, 1.0, 0.5)])];
    let mut d = Detector::new(kernels, rules, 1, 5).unwrap();
    d.append(&[1.0f32; 4]);

    let r = d.step(0.0, mac, floor, ratio_check);
    // The pseudo-timestamp counts consumed samples just past the window.
    assert_eq!(r, StepOutcome::Detected { variant: 7, at: 2 });

    // The buffer advanced by exactly the window length (2), not the hop
    // (5, which would have emptied it), and the history was cleared.
    assert_eq!(d.buffered(), 2);
    assert_eq!(d.consumed(), 2);
    assert!(!d.tracker_ready(0));
    assert_eq!(d.trace(0).len(), 0);

    // The next step starts from fresh history: one more score is pushed
    // and the same rule fires again.
    let r2 = d.step(0.0, mac, floor, ratio_check);
    assert_eq!(r2, StepOutcome::Detected { variant: 7, at: 4 });
    assert_eq!(d.buffered(), 0);
}
