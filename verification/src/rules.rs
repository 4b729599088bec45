//! Detection rules: the declarative description of one event variant as
//! data — a reference (denominator) trace position with its noise floor,
//! and a list of ratio checks that must all hold for the rule to fire.

use vstd::prelude::*;

verus! {

/// One ratio check of a rule: the score of kernel `kernel` at trace
/// position `pos`, divided by the rule's reference value, must be within
/// `tol` of `ratio`.
pub struct RatioCheck<T> {
    /// Which kernel's trace the numerator is read from.
    pub kernel: usize,
    /// Position within that trace, 0-based from the front (most recent).
    pub pos: usize,
    /// The expected ratio of the numerator to the reference value.
    pub ratio: T,
    /// The allowed absolute deviation from the expected ratio.
    pub tol: T,
}

/// One event variant: a reference trace position serving as the
/// normalizing denominator, a noise floor for it, and the ratio checks.
pub struct DetectionRule<T> {
    /// The identifier reported when this rule fires.
    pub variant: usize,
    /// Which kernel's trace holds the reference (denominator) value.
    pub ref_kernel: usize,
    /// Position of the reference value within that trace.
    pub ref_pos: usize,
    /// The noise floor: the reference value must exceed it before any
    /// ratio against it is considered meaningful.
    pub min_mag: T,
    /// The checks that must all pass for the rule to fire.
    pub checks: Vec<RatioCheck<T>>,
}

/// The rule only refers to kernels that exist (`< n_kernels`) and to trace
/// positions inside the history capacity (`< h`).
pub open spec fn rule_wf<T>(rule: DetectionRule<T>, n_kernels: int, h: int) -> bool {
    &&& rule.ref_kernel < n_kernels
    &&& rule.ref_pos < h
    &&& forall|c: int| 0 <= c < rule.checks@.len() ==> (#[trigger] rule.checks@[c]).kernel
        < n_kernels && rule.checks@[c].pos < h
}

impl<T: Copy> DetectionRule<T> {
    /// Decides `rule_wf`: every index of the rule is in range for a bank of
    /// `n_kernels` kernels and a history capacity of `h`.
    pub fn in_range(&self, n_kernels: usize, h: usize) -> (r: bool)
        ensures
            r == rule_wf(*self, n_kernels as int, h as int),
    {
        if self.ref_kernel >= n_kernels || self.ref_pos >= h {
            return false;
        }
        let mut c: usize = 0;
        while c < self.checks.len()
            invariant
                c <= self.checks@.len(),
                forall|j: int| 0 <= j < c ==> (#[trigger] self.checks@[j]).kernel < n_kernels
                    && self.checks@[j].pos < h,
            decreases self.checks@.len() - c,
        {
            if self.checks[c].kernel >= n_kernels || self.checks[c].pos >= h {
                return false;
            }
            c = c + 1;
        }
        true
    }
}

} // verus!
