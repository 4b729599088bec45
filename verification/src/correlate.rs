//! The correlation engine: a matched-filter dot product of the current
//! window against one kernel.
//!
//! The scalar arithmetic is the caller's: a multiply-accumulate closure
//! `mac`, where `mac(acc, a, b)` stands for `acc + a * b`. The contract ties
//! the result to the closure through `mac_chain`: the result is whatever
//! value the closure chain can produce, one application per sample pair, in
//! order, starting from `zero`.

use vstd::prelude::*;

verus! {

/// Holds when `r` can be reached from `z` by applying `mac` once per index
/// `i` in `0..n`, in order, to the accumulator and the pair `(w[i], k[i])`.
pub open spec fn mac_chain<T, M: Fn(T, T, T) -> T>(
    mac: M,
    w: Seq<T>,
    k: Seq<T>,
    z: T,
    n: int,
    r: T,
) -> bool
    decreases n,
{
    if n <= 0 {
        r == z
    } else {
        exists|acc: T|
            mac_chain(mac, w, k, z, n - 1, acc) && #[trigger] call_ensures(
                mac,
                (acc, w[n - 1], k[n - 1]),
                r,
            )
    }
}

/// Correlates `window` against `kernel`: the sum over `i` in
/// `0..min(|window|, |kernel|)` of `window[i] * kernel[i]`, with the
/// arithmetic supplied by `mac` and the empty sum being `zero`. A
/// zero-length operand yields `zero` outright.
pub fn correlate<T: Copy, M: Fn(T, T, T) -> T>(window: &[T], kernel: &[T], zero: T, mac: M) -> (r:
    T)
    requires
        forall|acc: T, a: T, b: T| #[trigger] call_requires(mac, (acc, a, b)),
    ensures
        mac_chain(
            mac,
            window@,
            kernel@,
            zero,
            vstd::math::min(window@.len() as int, kernel@.len() as int),
            r,
        ),
        window@.len() == 0 || kernel@.len() == 0 ==> r == zero,
{
    let n: usize = if window.len() <= kernel.len() {
        window.len()
    } else {
        kernel.len()
    };
    let mut acc = zero;
    let mut i: usize = 0;
    while i < n
        invariant
            i <= n,
            n == vstd::math::min(window@.len() as int, kernel@.len() as int),
            forall|a0: T, a: T, b: T| #[trigger] call_requires(mac, (a0, a, b)),
            mac_chain(mac, window@, kernel@, zero, i as int, acc),
        decreases n - i,
    {
        let next = mac(acc, window[i], kernel[i]);
        proof {
            let n1: int = i as int + 1;
            assert(mac_chain(mac, window@, kernel@, zero, n1 - 1, acc));
            assert(call_ensures(mac, (acc, window@[n1 - 1], kernel@[n1 - 1]), next));
            assert(mac_chain(mac, window@, kernel@, zero, n1, next));
        }
        acc = next;
        i = i + 1;
    }
    acc
}

} // verus!
