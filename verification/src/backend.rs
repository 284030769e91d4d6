//! The compute accelerator profile an executor is launched with.

use vstd::prelude::*;

use crate::text::{contains_str, contains_sub};

verus! {

/// The compute accelerator profile (CPU, CUDA, or ROCm) that decides
/// which launch flags and container image an executor gets.
#[derive(Debug, Clone, Copy, PartialEq, Eq, Structural)]
pub enum Backend {
    Cpu,
    Cuda,
    Rocm,
}

/// What [`Backend::detect`] returns for a given adapter description:
/// an NVIDIA marker selects CUDA, otherwise an AMD marker selects ROCm,
/// otherwise the CPU profile.
pub open spec fn detected_backend(adapter: Seq<char>) -> Backend {
    if contains_sub(adapter, "NVIDIA"@) {
        Backend::Cuda
    } else if contains_sub(adapter, "AMD"@) {
        Backend::Rocm
    } else {
        Backend::Cpu
    }
}

impl Backend {
    /// Map a graphics adapter description to a backend by vendor marker.
    pub fn detect(graphics_adapter: &str) -> (backend: Self)
        ensures
            backend == detected_backend(graphics_adapter@),
    {
        if contains_str(graphics_adapter, "NVIDIA") {
            Self::Cuda
        } else if contains_str(graphics_adapter, "AMD") {
            Self::Rocm
        } else {
            Self::Cpu
        }
    }

    /// Whether launching with this backend requests an accelerator.
    pub fn uses_gpu(self) -> (gpu: bool)
        ensures
            gpu == (self is Cuda || self is Rocm),
    {
        match self {
            Backend::Cuda | Backend::Rocm => true,
            Backend::Cpu => false,
        }
    }
}

} // verus!
