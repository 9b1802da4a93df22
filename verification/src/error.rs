use vstd::prelude::*;

verus! {

/// Everything that can go wrong between the engine and the accelerator.
///
/// Each kind that originates in the accelerator layer carries the
/// human-readable diagnostic string reported by that layer. None of these
/// are retried by the library; retry policy belongs to the caller.
#[derive(Debug)]
pub enum Error {
    /// No compatible accelerator device was found.
    DeviceUnavailable(String),
    /// The precompiled kernel module was malformed or incompatible.
    ModuleLoad(String),
    /// The named kernel entry point is missing from the loaded module.
    KernelResolution(String),
    /// The accelerator rejected the compiled function.
    PipelineConstruction(String),
    /// The output buffer cannot hold the result the run would produce:
    /// `frames` result frames of `digest_size` bytes each do not fit in
    /// (or do not align to whole frames of) a buffer of `capacity` bytes.
    CapacityViolation { frames: usize, digest_size: usize, capacity: usize },
    /// The accelerator reported an error mid-execution; output contents
    /// must not be trusted.
    Dispatch(String),
}

} // verus!
