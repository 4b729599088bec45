//! The template bank: the fixed reference kernels, one per detectable
//! event, loaded once and never mutated afterwards.

use vstd::prelude::*;
use crate::ConfigError;

verus! {

/// The mathematical contents of a list of kernels: each kernel as a
/// sequence of samples.
pub open spec fn kernel_views<T>(ks: Seq<Vec<T>>) -> Seq<Seq<T>> {
    ks.map_values(|k: Vec<T>| k@)
}

/// `n` is the length of the shortest kernel in `ks`.
pub open spec fn is_min_kernel_len<T>(ks: Seq<Seq<T>>, n: int) -> bool {
    &&& exists|k: int| 0 <= k < ks.len() && n == (#[trigger] ks[k]).len()
    &&& forall|k: int| 0 <= k < ks.len() ==> n <= (#[trigger] ks[k]).len()
}

/// The fixed reference kernels. Loading fails on an empty bank or an empty
/// kernel, so correlation against a zero-length kernel never reaches the
/// hot path.
pub struct TemplateBank<T> {
    kernels: Vec<Vec<T>>,
}

impl<T> View for TemplateBank<T> {
    type V = Seq<Seq<T>>;

    closed spec fn view(&self) -> Seq<Seq<T>> {
        kernel_views(self.kernels@)
    }
}

impl<T: Copy> TemplateBank<T> {
    /// A loaded bank holds at least one kernel and no empty kernel.
    pub open spec fn wf(&self) -> bool {
        &&& self@.len() >= 1
        &&& forall|k: int| 0 <= k < self@.len() ==> (#[trigger] self@[k]).len() >= 1
    }

    /// Builds the bank, rejecting a configuration with no kernels or with
    /// an empty kernel.
    pub fn load(kernels: Vec<Vec<T>>) -> (r: Result<TemplateBank<T>, ConfigError>)
        ensures
            (r matches Ok(b)) <==> (kernels@.len() >= 1 && forall|k: int|
                0 <= k < kernels@.len() ==> (#[trigger] kernels@[k])@.len() >= 1),
            r matches Ok(b) ==> b@ == kernel_views(kernels@) && b.wf(),
            (r matches Err(e) && e == ConfigError::NoKernels) <==> kernels@.len() == 0,
            (r matches Err(e) && e == ConfigError::EmptyKernel) <==> (kernels@.len() >= 1
                && exists|k: int| 0 <= k < kernels@.len() && (#[trigger] kernels@[k])@.len() == 0),
    {
        if kernels.len() == 0 {
            return Err(ConfigError::NoKernels);
        }
        let mut k: usize = 0;
        while k < kernels.len()
            invariant
                k <= kernels@.len(),
                forall|j: int| 0 <= j < k ==> (#[trigger] kernels@[j])@.len() >= 1,
            decreases kernels@.len() - k,
        {
            if kernels[k].len() == 0 {
                return Err(ConfigError::EmptyKernel);
            }
            k = k + 1;
        }
        let bank = TemplateBank { kernels };
        proof {
            assert forall|j: int| 0 <= j < bank@.len() implies (#[trigger] bank@[j]).len()
                >= 1 by {
                assert(bank@[j] == bank.kernels@[j]@);
            }
        }
        Ok(bank)
    }

    /// The number of kernels.
    pub fn count(&self) -> (r: usize)
        ensures
            r == self@.len(),
    {
        self.kernels.len()
    }

    /// The length of kernel `k`.
    pub fn kernel_len(&self, k: usize) -> (r: usize)
        requires
            k < self@.len(),
        ensures
            r == self@[k as int].len(),
    {
        self.kernels[k].len()
    }

    /// The sample of kernel `k` at position `j`.
    pub fn sample(&self, k: usize, j: usize) -> (r: T)
        requires
            k < self@.len(),
            j < self@[k as int].len(),
        ensures
            r == self@[k as int][j as int],
    {
        self.kernels[k][j]
    }

    /// Kernel `k` as a read-only sample slice.
    pub fn kernel(&self, k: usize) -> (r: &[T])
        requires
            k < self@.len(),
        ensures
            r@ == self@[k as int],
    {
        self.kernels[k].as_slice()
    }

    /// The length of the shortest kernel: the detection window length used
    /// by the scan loop.
    pub fn min_kernel_len(&self) -> (r: usize)
        requires
            self@.len() >= 1,
        ensures
            is_min_kernel_len(self@, r as int),
    {
        let mut best: usize = self.kernels[0].len();
        proof {
            assert(best == self@[0].len());
        }
        let mut k: usize = 1;
        while k < self.kernels.len()
            invariant
                1 <= k <= self@.len(),
                self@.len() == self.kernels@.len(),
                exists|j: int| 0 <= j < k && best == (#[trigger] self@[j]).len(),
                forall|j: int| 0 <= j < k ==> best <= (#[trigger] self@[j]).len(),
            decreases self@.len() - k,
        {
            let len_k = self.kernels[k].len();
            proof {
                assert(len_k == self@[k as int].len());
            }
            if len_k < best {
                best = len_k;
            }
            k = k + 1;
        }
        best
    }
}

} // verus!
