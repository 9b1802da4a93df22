use vstd::prelude::*;

verus! {

/// The per-run scalar configuration read by the kernel during a dispatch.
///
/// The kernel binding contract fixes this as an unsigned 64-bit input
/// length at argument slot 2.
pub struct DigestRunArgs {
    /// Length in bytes of every input frame of the run.
    pub inlen: u64,
}

/// A parameter block: one [`DigestRunArgs`] record destined for the small
/// shared-memory buffer the kernel reads. The engine writes it before each
/// dispatch; the driver copies it to the accelerator verbatim.
pub struct DigestRunArgsBuffer {
    args: DigestRunArgs,
}

impl DigestRunArgsBuffer {
    /// The input length currently recorded in the block.
    pub closed spec fn spec_inlen(self) -> u64 {
        self.args.inlen
    }

    /// A fresh parameter block, zero-filled like the shared allocation
    /// that backs it.
    pub fn new() -> (r: Self)
        ensures
            r.spec_inlen() == 0,
    {
        Self { args: DigestRunArgs { inlen: 0 } }
    }

    /// Read access to the record, e.g. for the driver to copy it out.
    pub fn as_ref(&self) -> (r: &DigestRunArgs)
        ensures
            r.inlen == self.spec_inlen(),
    {
        &self.args
    }

    /// Mutable access to the record: whatever the caller writes through
    /// it is what the block then holds.
    pub fn as_ref_mut(&mut self) -> (r: &mut DigestRunArgs)
        ensures
            r.inlen == old(self).spec_inlen(),
            final(self).spec_inlen() == final(r).inlen,
    {
        &mut self.args
    }

    /// Record the input length of the coming run.
    pub fn set_inlen(&mut self, inlen: u64)
        ensures
            final(self).spec_inlen() == inlen,
    {
        self.args.inlen = inlen;
    }
}

} // verus!
