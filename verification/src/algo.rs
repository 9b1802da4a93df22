use vstd::prelude::*;

verus! {

/// A digest algorithm the engine can dispatch: a compile-time tag that
/// fixes the size of one output frame and the kernel entry-point name the
/// compiled module must export.
pub trait Digest {
    /// Size in bytes of one digest.
    spec fn spec_digest_size() -> usize;

    /// Name of the kernel entry point, as a character sequence.
    spec fn spec_kernel_fn() -> Seq<char>;

    /// Size in bytes of one digest; fixes the frame length of every
    /// output buffer allocated for this algorithm.
    fn digest_size() -> (r: usize)
        ensures
            r == Self::spec_digest_size(),
            r >= 1,
    ;

    /// The symbol the driver must look up in the compiled kernel module.
    fn kernel_fn() -> (r: &'static str)
        ensures
            r@ == Self::spec_kernel_fn(),
    ;
}

/// The SHA-1 algorithm: 20-byte digests, computed by the kernel entry
/// point `kernel_sha1_hash`.
pub struct SHA1;

impl Digest for SHA1 {
    open spec fn spec_digest_size() -> usize {
        20
    }

    open spec fn spec_kernel_fn() -> Seq<char> {
        "kernel_sha1_hash"@
    }

    fn digest_size() -> (r: usize) {
        20
    }

    fn kernel_fn() -> (r: &'static str) {
        "kernel_sha1_hash"
    }
}

} // verus!
