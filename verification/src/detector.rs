//! The scan loop controller: owns the stream buffer, the template bank and
//! the per-kernel history trackers, and drives one evaluation per call.
//!
//! While the buffer is shorter than the detection window, a step yields
//! (`Filling`). Otherwise it correlates the current window against every
//! kernel, pushes the scores onto the history traces, classifies, and
//! advances the buffer: by the whole window length after a detection (the
//! matched segment is skipped and every trace is cleared, so overlapping
//! windows cannot re-trigger), by the hop otherwise.

use vstd::prelude::*;
use crate::ConfigError;
use crate::StepOutcome;
use crate::bank::TemplateBank;
use crate::bank::kernel_views;
use crate::bank::is_min_kernel_len;
use crate::buffer::StreamBuffer;
use crate::classify::all_ready;
use crate::classify::classify;
use crate::classify::rule_fits;
use crate::classify::rule_passes;
use crate::classify::rule_rejected;
use crate::classify::trace_views;
use crate::correlate::correlate;
use crate::correlate::mac_chain;
use crate::history::HistoryTracker;
use crate::history::push_spec;
use crate::rules::DetectionRule;
use crate::rules::rule_wf;

verus! {

/// `a + b`, stopping at the largest representable value.
pub open spec fn sat_add_u64(a: u64, b: u64) -> u64 {
    if a + b > u64::MAX {
        u64::MAX
    } else {
        (a + b) as u64
    }
}

/// Every score is one that the multiply-accumulate chain can produce for
/// its kernel over the first `wlen` buffered samples.
pub open spec fn scores_ok<T, M: Fn(T, T, T) -> T>(
    mac: M,
    stream: Seq<T>,
    kernels: Seq<Seq<T>>,
    zero: T,
    wlen: int,
    scores: Seq<T>,
) -> bool {
    &&& scores.len() == kernels.len()
    &&& forall|k: int| 0 <= k < kernels.len() ==> mac_chain(
        mac,
        stream.take(wlen),
        kernels[k],
        zero,
        wlen,
        #[trigger] scores[k],
    )
}

/// Each trace after its kernel's score was pushed, under capacity `h`.
pub open spec fn pushed_traces<T>(old_traces: Seq<Seq<T>>, scores: Seq<T>, h: nat) -> Seq<Seq<T>> {
    old_traces.map(|k: int, t: Seq<T>| push_spec(t, scores[k], h))
}

/// Every trace has exactly `h` entries.
pub open spec fn traces_full<T>(ts: Seq<Seq<T>>, h: nat) -> bool {
    forall|k: int| 0 <= k < ts.len() ==> (#[trigger] ts[k]).len() == h
}

/// What one scanning step (buffer at least one window long) did, given the
/// scores `scores` that the correlation produced: the traces took the new
/// scores; a detection reports the first firing rule, clears every trace
/// and skips the whole window; otherwise the buffer advances by the hop,
/// clamped to what was buffered.
pub open spec fn scan_step_post<
    T: Copy,
    M: Fn(T, T, T) -> T,
    G: Fn(T, T) -> bool,
    F: Fn(T, T, T, T) -> bool,
>(
    prev: Detector<T>,
    next: Detector<T>,
    r: StepOutcome,
    zero: T,
    mac: M,
    floor: G,
    check: F,
    scores: Seq<T>,
) -> bool {
    let wlen = prev.window_len_spec() as int;
    let h = prev.history_spec() as nat;
    let nt = pushed_traces(prev.traces(), scores, h);
    let hopped = vstd::math::min(prev.hop_spec() as int, prev.stream().len() as int);
    &&& scores_ok(mac, prev.stream(), prev.kernels(), zero, wlen, scores)
    &&& match r {
        StepOutcome::Filling => false,
        StepOutcome::NoMatch => {
            &&& !traces_full(nt, h) || forall|i: int|
                0 <= i < prev.rule_seq().len() ==> rule_rejected(
                    floor,
                    check,
                    nt,
                    #[trigger] prev.rule_seq()[i],
                )
            &&& next.traces() == nt
            &&& next.stream() == prev.stream().skip(hopped)
            &&& next.consumed_spec() == sat_add_u64(prev.consumed_spec(), hopped as u64)
        },
        StepOutcome::Detected { variant, at } => {
            &&& traces_full(nt, h)
            &&& exists|i: int|
                0 <= i < prev.rule_seq().len() && (#[trigger] prev.rule_seq()[i]).variant
                    == variant && rule_passes(floor, check, nt, prev.rule_seq()[i]) && forall|
                    j: int,
                |
                    0 <= j < i ==> rule_rejected(floor, check, nt, #[trigger] prev.rule_seq()[j])
            &&& next.traces().len() == prev.traces().len()
            &&& forall|k: int| 0 <= k < next.traces().len() ==> (#[trigger] next.traces()[k])
                == Seq::<T>::empty()
            &&& next.stream() == prev.stream().skip(wlen)
            &&& next.consumed_spec() == sat_add_u64(prev.consumed_spec(), wlen as u64)
            &&& at == next.consumed_spec()
        },
    }
}

/// The streaming detection engine: template bank, stream buffer, one
/// history tracker per kernel, and the rule table, evaluated one window
/// per step.
pub struct Detector<T> {
    bank: TemplateBank<T>,
    rules: Vec<DetectionRule<T>>,
    buffer: StreamBuffer<T>,
    trackers: Vec<HistoryTracker<T>>,
    window_len: usize,
    hop: usize,
    history_len: usize,
    consumed: u64,
}

impl<T: Copy> Detector<T> {
    /// The kernels of the template bank.
    pub closed spec fn kernels(&self) -> Seq<Seq<T>> {
        self.bank@
    }

    /// The rule table, in priority order.
    pub closed spec fn rule_seq(&self) -> Seq<DetectionRule<T>> {
        self.rules@
    }

    /// The buffered, not yet consumed samples, in arrival order.
    pub closed spec fn stream(&self) -> Seq<T> {
        self.buffer@
    }

    /// The history trace of each kernel, newest score first.
    pub closed spec fn traces(&self) -> Seq<Seq<T>> {
        trace_views(self.trackers@)
    }

    /// The detection window length: the length of the shortest kernel.
    pub closed spec fn window_len_spec(&self) -> usize {
        self.window_len
    }

    /// The scan hop: how far the window advances after a non-detecting
    /// evaluation.
    pub closed spec fn hop_spec(&self) -> usize {
        self.hop
    }

    /// The history capacity H common to all trackers.
    pub closed spec fn history_spec(&self) -> usize {
        self.history_len
    }

    /// The total number of samples consumed from the start of the stream
    /// (saturating), the basis of the detection pseudo-timestamp.
    pub closed spec fn consumed_spec(&self) -> u64 {
        self.consumed
    }

    /// The engine's invariant, established by `new` and preserved by every
    /// method.
    pub closed spec fn wf(&self) -> bool {
        &&& self.bank.wf()
        &&& self.trackers@.len() == self.bank@.len()
        &&& forall|k: int| 0 <= k < self.trackers@.len() ==> (#[trigger] self.trackers@[k]).capacity_spec()
            == self.history_len && self.trackers@[k].wf()
        &&& self.history_len >= 1
        &&& self.hop >= 1
        &&& is_min_kernel_len(self.bank@, self.window_len as int)
        &&& self.window_len >= 1
        &&& forall|i: int| 0 <= i < self.rules@.len() ==> rule_wf(
            #[trigger] self.rules@[i],
            self.bank@.len() as int,
            self.history_len as int,
        )
    }

    /// Builds the engine. The configuration is validated up front, in this
    /// order: the bank must hold at least one kernel, none of them empty;
    /// the history capacity and the hop must be nonzero; and every rule
    /// must stay inside the bank and the history capacity.
    #[verifier::loop_isolation(false)]
    pub fn new(
        kernels: Vec<Vec<T>>,
        rules: Vec<DetectionRule<T>>,
        history_len: usize,
        hop: usize,
    ) -> (r: Result<Detector<T>, ConfigError>)
        ensures
            (r matches Err(e) && e == ConfigError::NoKernels) <==> kernels@.len() == 0,
            (r matches Err(e) && e == ConfigError::EmptyKernel) <==> (kernels@.len() >= 1
                && exists|k: int| 0 <= k < kernels@.len() && (#[trigger] kernels@[k])@.len() == 0),
            (r matches Err(e) && e == ConfigError::ZeroHistory) <==> (bank_loadable(kernels@)
                && history_len == 0),
            (r matches Err(e) && e == ConfigError::ZeroHop) <==> (bank_loadable(kernels@)
                && history_len >= 1 && hop == 0),
            (r matches Err(e) && e == ConfigError::RuleOutOfRange) <==> (bank_loadable(kernels@)
                && history_len >= 1 && hop >= 1 && exists|i: int|
                0 <= i < rules@.len() && !rule_wf(
                    #[trigger] rules@[i],
                    kernels@.len() as int,
                    history_len as int,
                )),
            (r matches Ok(d)) <==> (bank_loadable(kernels@) && history_len >= 1 && hop >= 1
                && forall|i: int|
                0 <= i < rules@.len() ==> rule_wf(
                    #[trigger] rules@[i],
                    kernels@.len() as int,
                    history_len as int,
                )),
            r matches Ok(d) ==> {
                &&& d.wf()
                &&& d.kernels() == kernel_views(kernels@)
                &&& d.rule_seq() == rules@
                &&& d.stream() == Seq::<T>::empty()
                &&& d.traces().len() == kernels@.len()
                &&& forall|k: int| 0 <= k < d.traces().len() ==> (#[trigger] d.traces()[k])
                    == Seq::<T>::empty()
                &&& d.window_len_spec() >= 1
                &&& is_min_kernel_len(d.kernels(), d.window_len_spec() as int)
                &&& d.hop_spec() == hop
                &&& d.history_spec() == history_len
                &&& d.consumed_spec() == 0
            },
    {
        let ghost gks = kernels@;
        let bank = match TemplateBank::load(kernels) {
            Ok(b) => b,
            Err(e) => {
                return Err(e);
            },
        };
        proof {
            assert(bank_loadable(gks));
            assert(bank@ == kernel_views(gks));
        }
        if history_len == 0 {
            return Err(ConfigError::ZeroHistory);
        }
        if hop == 0 {
            return Err(ConfigError::ZeroHop);
        }
        let n = bank.count();
        let mut i: usize = 0;
        while i < rules.len()
            invariant
                i <= rules@.len(),
                n == bank@.len(),
                forall|j: int| 0 <= j < i ==> rule_wf(
                    #[trigger] rules@[j],
                    n as int,
                    history_len as int,
                ),
            decreases rules@.len() - i,
        {
            if !rules[i].in_range(n, history_len) {
                return Err(ConfigError::RuleOutOfRange);
            }
            i = i + 1;
        }
        let mut trackers: Vec<HistoryTracker<T>> = Vec::new();
        let mut k: usize = 0;
        while k < n
            invariant
                k <= n,
                trackers@.len() == k,
                forall|j: int| 0 <= j < k ==> (#[trigger] trackers@[j]).capacity_spec()
                    == history_len && trackers@[j].wf() && trackers@[j]@ == Seq::<T>::empty(),
            decreases n - k,
        {
            trackers.push(HistoryTracker::new(history_len));
            k = k + 1;
        }
        let window_len = bank.min_kernel_len();
        let d = Detector {
            bank,
            rules,
            buffer: StreamBuffer::new(),
            trackers,
            window_len,
            hop,
            history_len,
            consumed: 0,
        };
        proof {
            assert forall|j: int| 0 <= j < d.traces().len() implies (#[trigger] d.traces()[j])
                == Seq::<T>::empty() by {
                assert(d.traces()[j] == d.trackers@[j]@);
            }
        }
        Ok(d)
    }

    /// Adds newly captured samples at the tail of the stream buffer.
    pub fn append(&mut self, samples: &[T])
        requires
            old(self).wf(),
            old(self).stream().len() + samples@.len() <= usize::MAX,
        ensures
            final(self).wf(),
            final(self).stream() == old(self).stream() + samples@,
            final(self).kernels() == old(self).kernels(),
            final(self).rule_seq() == old(self).rule_seq(),
            final(self).traces() == old(self).traces(),
            final(self).window_len_spec() == old(self).window_len_spec(),
            final(self).hop_spec() == old(self).hop_spec(),
            final(self).history_spec() == old(self).history_spec(),
            final(self).consumed_spec() == old(self).consumed_spec(),
    {
        self.buffer.append(samples);
    }

    /// The number of buffered samples.
    pub fn buffered(&self) -> (r: usize)
        ensures
            r == self.stream().len(),
    {
        self.buffer.len()
    }

    /// The detection window length.
    pub fn window_len(&self) -> (r: usize)
        ensures
            r == self.window_len_spec(),
    {
        self.window_len
    }

    /// The scan hop.
    pub fn hop(&self) -> (r: usize)
        ensures
            r == self.hop_spec(),
    {
        self.hop
    }

    /// The history capacity H.
    pub fn history_len(&self) -> (r: usize)
        ensures
            r == self.history_spec(),
    {
        self.history_len
    }

    /// The total number of samples consumed so far (saturating).
    pub fn consumed(&self) -> (r: u64)
        ensures
            r == self.consumed_spec(),
    {
        self.consumed
    }

    /// The number of kernels (and of history traces).
    pub fn kernel_count(&self) -> (r: usize)
        requires
            self.wf(),
        ensures
            r == self.kernels().len(),
    {
        self.bank.count()
    }

    /// True when the buffer holds at least one full window, so the next
    /// step will scan rather than yield.
    pub fn ready_to_scan(&self) -> (r: bool)
        ensures
            r == (self.stream().len() >= self.window_len_spec()),
    {
        self.buffer.len() >= self.window_len
    }

    /// Whether kernel `k`'s history trace is full.
    pub fn tracker_ready(&self, k: usize) -> (r: bool)
        requires
            self.wf(),
            k < self.kernels().len(),
        ensures
            r == (self.traces()[k as int].len() == self.history_spec()),
    {
        proof {
            assert(self.traces()[k as int] == self.trackers@[k as int]@);
        }
        self.trackers[k].is_ready()
    }

    /// Kernel `k`'s history trace, newest score first.
    pub fn trace(&self, k: usize) -> (r: &[T])
        requires
            self.wf(),
            k < self.kernels().len(),
        ensures
            r@ == self.traces()[k as int],
    {
        proof {
            assert(self.traces()[k as int] == self.trackers@[k as int]@);
        }
        self.trackers[k].snapshot()
    }

    /// One scan iteration. `zero`, `mac`, `floor` and `check` supply the
    /// scalar arithmetic: `mac(acc, a, b)` stands for `acc + a * b`,
    /// `floor(d, m)` for the noise-floor test, and `check(x, d, r, t)` for
    /// the ratio-tolerance test.
    pub fn step<M: Fn(T, T, T) -> T + Copy, G: Fn(T, T) -> bool, F: Fn(T, T, T, T) -> bool>(
        &mut self,
        zero: T,
        mac: M,
        floor: G,
        check: F,
    ) -> (r: StepOutcome)
        requires
            old(self).wf(),
            forall|a0: T, a: T, b: T| #[trigger] call_requires(mac, (a0, a, b)),
            forall|d: T, m: T| #[trigger] call_requires(floor, (d, m)),
            forall|x: T, d: T, e: T, t: T| #[trigger] call_requires(check, (x, d, e, t)),
        ensures
            final(self).wf(),
            final(self).kernels() == old(self).kernels(),
            final(self).rule_seq() == old(self).rule_seq(),
            final(self).window_len_spec() == old(self).window_len_spec(),
            final(self).hop_spec() == old(self).hop_spec(),
            final(self).history_spec() == old(self).history_spec(),
            old(self).stream().len() < old(self).window_len_spec() ==> (r == StepOutcome::Filling
                && final(self).stream() == old(self).stream() && final(self).traces() == old(
                self,
            ).traces() && final(self).consumed_spec() == old(self).consumed_spec()),
            old(self).stream().len() >= old(self).window_len_spec() ==> exists|scores: Seq<T>|
                #[trigger] scan_step_post(
                    *old(self),
                    *final(self),
                    r,
                    zero,
                    mac,
                    floor,
                    check,
                    scores,
                ),
            r == StepOutcome::Filling <==> old(self).stream().len() < old(self).window_len_spec(),
    {
        let wlen = self.window_len;
        if self.buffer.len() < wlen {
            return StepOutcome::Filling;
        }
        let n = self.bank.count();
        let ghost prev = *self;

        // Correlate the current window against every kernel.
        let mut scores: Vec<T> = Vec::new();
        let mut k: usize = 0;
        while k < n
            invariant
                *self == prev,
                prev.wf(),
                n == prev.kernels().len(),
                wlen == prev.window_len_spec(),
                prev.stream().len() >= wlen,
                forall|a0: T, a: T, b: T| #[trigger] call_requires(mac, (a0, a, b)),
                k <= n,
                scores@.len() == k,
                forall|j: int| 0 <= j < k ==> mac_chain(
                    mac,
                    prev.stream().take(wlen as int),
                    prev.kernels()[j],
                    zero,
                    wlen as int,
                    #[trigger] scores@[j],
                ),
            decreases n - k,
        {
            let s = match self.buffer.window(wlen) {
                Ok(w) => {
                    proof {
                        assert(w@ =~= prev.stream().take(wlen as int));
                    }
                    correlate(w, self.bank.kernel(k), zero, mac)
                },
                Err(_) => {
                    proof {
                        assert(false);
                    }
                    zero
                },
            };
            proof {
                assert(vstd::math::min(wlen as int, prev.kernels()[k as int].len() as int)
                    == wlen as int);
            }
            scores.push(s);
            k = k + 1;
        }

        // Record the scores on the history traces.
        let mut k2: usize = 0;
        while k2 < n
            invariant
                self.bank == prev.bank,
                self.rules == prev.rules,
                self.buffer == prev.buffer,
                self.window_len == prev.window_len_spec(),
                self.hop == prev.hop_spec(),
                self.history_len == prev.history_spec(),
                self.consumed == prev.consumed_spec(),
                prev.wf(),
                n == prev.kernels().len(),
                scores@.len() == n,
                k2 <= n,
                self.trackers@.len() == n,
                forall|j: int| 0 <= j < n ==> (#[trigger] self.trackers@[j]).capacity_spec()
                    == prev.history_spec() && self.trackers@[j].wf(),
                forall|j: int| k2 <= j < n ==> (#[trigger] self.trackers@[j])@
                    == prev.traces()[j],
                forall|j: int| 0 <= j < k2 ==> (#[trigger] self.trackers@[j])@ == push_spec(
                    prev.traces()[j],
                    scores@[j],
                    prev.history_spec() as nat,
                ),
            decreases n - k2,
        {
            self.trackers[k2].push(scores[k2]);
            k2 = k2 + 1;
        }
        proof {
            assert(trace_views(self.trackers@) =~= pushed_traces(
                prev.traces(),
                scores@,
                prev.history_spec() as nat,
            ));
            assert(self.wf());
            assert forall|i: int| 0 <= i < self.rules@.len() implies rule_fits(
                #[trigger] self.rules@[i],
                self.trackers@,
            ) by {
                assert(rule_wf(self.rules@[i], self.bank@.len() as int, self.history_len as int));
            }
        }

        // Classify and advance.
        let verdict = classify(&self.trackers, &self.rules, floor, check);
        let ghost nt = pushed_traces(prev.traces(), scores@, prev.history_spec() as nat);
        proof {
            assert(nt == trace_views(self.trackers@));
            if all_ready(self.trackers@) {
                assert forall|j: int| 0 <= j < nt.len() implies (#[trigger] nt[j]).len()
                    == prev.history_spec() as nat by {
                    assert(nt[j] == self.trackers@[j]@);
                    assert(self.trackers@[j]@.len() == self.trackers@[j].capacity_spec());
                }
                assert(traces_full(nt, prev.history_spec() as nat));
            } else {
                let bad = choose|j: int|
                    0 <= j < self.trackers@.len() && !((#[trigger] self.trackers@[j])@.len()
                        == self.trackers@[j].capacity_spec());
                assert(nt[bad] == self.trackers@[bad]@);
                assert(nt[bad].len() != prev.history_spec() as nat);
                assert(!traces_full(nt, prev.history_spec() as nat));
            }
            assert(all_ready(self.trackers@) == traces_full(nt, prev.history_spec() as nat));
        }
        match verdict {
            Some(v) => {
                proof {
                    assert(all_ready(self.trackers@));
                    assert(traces_full(nt, prev.history_spec() as nat));
                    assert(prev.rule_seq() == self.rules@);
                    let i0 = choose|i: int|
                        0 <= i < self.rules@.len() && (#[trigger] self.rules@[i]).variant == v
                            && rule_passes(
                            floor,
                            check,
                            trace_views(self.trackers@),
                            self.rules@[i],
                        ) && forall|j: int|
                            0 <= j < i ==> rule_rejected(
                                floor,
                                check,
                                trace_views(self.trackers@),
                                #[trigger] self.rules@[j],
                            );
                    assert(0 <= i0 < prev.rule_seq().len() && (prev.rule_seq()[i0]).variant == v
                        && rule_passes(floor, check, nt, prev.rule_seq()[i0]) && forall|j: int|
                        0 <= j < i0 ==> rule_rejected(
                            floor,
                            check,
                            nt,
                            #[trigger] prev.rule_seq()[j],
                        ));
                }
                let mut k3: usize = 0;
                while k3 < n
                    invariant
                        self.bank == prev.bank,
                        self.rules == prev.rules,
                        self.buffer == prev.buffer,
                        self.window_len == prev.window_len_spec(),
                        self.hop == prev.hop_spec(),
                        self.history_len == prev.history_spec(),
                        self.consumed == prev.consumed_spec(),
                        prev.wf(),
                        n == prev.kernels().len(),
                        k3 <= n,
                        self.trackers@.len() == n,
                        forall|j: int| 0 <= j < n ==> (#[trigger] self.trackers@[j]).capacity_spec()
                            == prev.history_spec() && self.trackers@[j].wf(),
                        forall|j: int| 0 <= j < k3 ==> (#[trigger] self.trackers@[j])@
                            == Seq::<T>::empty(),
                    decreases n - k3,
                {
                    self.trackers[k3].clear();
                    k3 = k3 + 1;
                }
                self.buffer.consume(wlen);
                let add = wlen as u64;
                self.consumed = if self.consumed <= u64::MAX - add {
                    self.consumed + add
                } else {
                    u64::MAX
                };
                let r = StepOutcome::Detected { variant: v, at: self.consumed };
                proof {
                    assert forall|j: int| 0 <= j < self.traces().len() implies (
                    #[trigger] self.traces()[j]) == Seq::<T>::empty() by {
                        assert(self.traces()[j] == self.trackers@[j]@);
                    }
                    assert(vstd::math::min(wlen as int, prev.stream().len() as int)
                        == wlen as int);
                    assert(scan_step_post(prev, *self, r, zero, mac, floor, check, scores@));
                }
                r
            },
            None => {
                proof {
                    assert(prev.rule_seq() == self.rules@);
                    if traces_full(nt, prev.history_spec() as nat) {
                        assert(all_ready(self.trackers@));
                        assert forall|i: int| 0 <= i < prev.rule_seq().len() implies rule_rejected(
                            floor,
                            check,
                            nt,
                            #[trigger] prev.rule_seq()[i],
                        ) by {
                            assert(prev.rule_seq()[i] == self.rules@[i]);
                            assert(rule_rejected(
                                floor,
                                check,
                                trace_views(self.trackers@),
                                self.rules@[i],
                            ));
                        }
                    }
                }
                let m: usize = if self.hop <= self.buffer.len() {
                    self.hop
                } else {
                    self.buffer.len()
                };
                self.buffer.consume(m);
                let add = m as u64;
                self.consumed = if self.consumed <= u64::MAX - add {
                    self.consumed + add
                } else {
                    u64::MAX
                };
                proof {
                    assert(scan_step_post(
                        prev,
                        *self,
                        StepOutcome::NoMatch,
                        zero,
                        mac,
                        floor,
                        check,
                        scores@,
                    ));
                }
                StepOutcome::NoMatch
            },
        }
    }
}

/// The bank construction succeeds: at least one kernel, none empty.
pub open spec fn bank_loadable<T>(kernels: Seq<Vec<T>>) -> bool {
    &&& kernels.len() >= 1
    &&& forall|k: int| 0 <= k < kernels.len() ==> (#[trigger] kernels[k])@.len() >= 1
}

} // verus!
