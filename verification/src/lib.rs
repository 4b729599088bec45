//! Streaming matched-filter event detection.
//!
//! A rolling window of incoming samples is correlated against a bank of
//! reference kernels; the recent correlation scores for each kernel form a
//! history trace, and a data-driven rule table turns the traces into a
//! categorical detection. The engine is generic over the sample scalar: the
//! caller supplies the arithmetic (multiply-accumulate, noise-floor and
//! ratio-tolerance predicates) as closures, and every contract is stated
//! relative to what those closures may return.

use vstd::prelude::*;

pub mod bank;
pub mod buffer;
pub mod classify;
pub mod correlate;
pub mod detector;
pub mod history;
pub mod laws;
pub mod rules;

verus! {

/// Construction-time misconfiguration. Fatal at startup, never produced on
/// the runtime path.
#[derive(Clone, Copy, Debug, PartialEq, Eq, Structural)]
pub enum ConfigError {
    /// The template bank holds no kernels at all.
    NoKernels,
    /// Some kernel is an empty sample sequence; correlating against it is
    /// undefined.
    EmptyKernel,
    /// The history capacity is zero, so no trace could ever become ready.
    ZeroHistory,
    /// The scan hop is zero, so scanning would never advance.
    ZeroHop,
    /// A detection rule refers to a kernel index or a trace position that
    /// the bank or the history capacity does not provide.
    RuleOutOfRange,
}

/// Requesting a window larger than what is currently buffered. A normal,
/// locally handled condition, not a failure.
#[derive(Clone, Copy, Debug, PartialEq, Eq, Structural)]
pub struct InsufficientDataError;

/// What one scan step did.
#[derive(Clone, Copy, Debug, PartialEq, Eq, Structural)]
pub enum StepOutcome {
    /// The buffer is shorter than the detection window; the controller
    /// yields to the caller to receive more input.
    Filling,
    /// One window was evaluated, no rule fired, and the buffer advanced by
    /// the hop (clamped to what was buffered).
    NoMatch,
    /// A rule fired. `variant` identifies the detected event; `at` is the
    /// pseudo-timestamp: the total number of samples consumed from the
    /// start of the stream, counted just past the matched window.
    Detected { variant: usize, at: u64 },
}

} // verus!
