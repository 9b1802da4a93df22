use vstd::prelude::*;
use vstd::arithmetic::div_mod::lemma_basic_div;
use vstd::arithmetic::div_mod::lemma_div_nonincreasing;
use vstd::arithmetic::div_mod::lemma_div_pos_is_pos;
use vstd::arithmetic::div_mod::lemma_fundamental_div_mod;
use vstd::arithmetic::div_mod::lemma_fundamental_div_mod_converse;
use crate::algo::Digest;
use crate::buffer::lemma_aligned_offset_is_own_frame_start;
use crate::buffer::lemma_append_frame;
use crate::buffer::BatchBuffer;
use crate::buffer::BatchBufferReader;
use crate::error::Error;
use crate::params::DigestRunArgsBuffer;

verus! {

/// Grid geometry for one dispatch: how many thread groups to launch and
/// how many parallel lanes each group uses. Heights and depths of the
/// grid are always one; the batch is one-dimensional.
pub struct DispatchPlan {
    /// Number of thread groups: the input frame count divided by the
    /// execution width, rounded up — one thread per frame.
    pub thread_groups: usize,
    /// Threads per group: the hardware-reported execution width.
    pub threads_per_group: usize,
}

/// One command run: owns an input buffer, an output buffer and a
/// parameter block, all sized at construction for a fixed digest
/// algorithm, input length and batch count, and orchestrates the
/// host-side half of one synchronous dispatch.
///
/// The accelerator half — binding the three buffers at slots 0, 1 and 2,
/// launching the grid a [`run`](Self::run) plan describes, waiting, and
/// handing the produced bytes back through
/// [`complete_run`](Self::complete_run) — is the driver's job.
pub struct DigestCommandRun<D> {
    input_buffer: BatchBuffer,
    output_buffer: BatchBuffer,
    args_buffer: DigestRunArgsBuffer,
    at: usize,
    digest: D,
}

impl<D: Digest> DigestCommandRun<D> {
    /// The input buffer as currently filled.
    pub closed spec fn input(self) -> BatchBuffer {
        self.input_buffer
    }

    /// The output buffer as the last run left it.
    pub closed spec fn output(self) -> BatchBuffer {
        self.output_buffer
    }

    /// The input length currently recorded in the parameter block.
    pub closed spec fn spec_args_inlen(self) -> u64 {
        self.args_buffer.spec_inlen()
    }

    /// Write offset of the input fill, always at the end of the valid
    /// region.
    pub closed spec fn spec_at(self) -> int {
        self.at as int
    }

    /// Both buffers well-formed, and the input write cursor in step with
    /// the input buffer's validity.
    pub open spec fn wf(self) -> bool {
        &&& self.input().wf()
        &&& self.output().wf()
        &&& self.spec_at() == self.input().spec_actual_size()
    }

    /// Buffers sized consistently for this algorithm: the output holds one
    /// digest-sized frame for every input frame the input can hold.
    pub open spec fn consistent(self) -> bool {
        &&& self.output().spec_frame_length() == D::spec_digest_size()
        &&& self.output().spec_capacity() == D::spec_digest_size() * (
        self.input().spec_capacity() / self.input().spec_frame_length())
    }

    /// A run for `count` inputs of `input_length` bytes each: allocates
    /// the input buffer (`input_length * count` bytes), the output buffer
    /// (one digest per input) and a parameter block, all empty.
    pub fn new(digest: D, input_length: usize, count: usize) -> (r: Self)
        requires
            input_length >= 1,
            input_length * count <= usize::MAX,
            D::spec_digest_size() * count <= usize::MAX,
        ensures
            r.wf(),
            r.consistent(),
            r.spec_at() == 0,
            r.input().spec_frame_length() == input_length,
            r.input().spec_capacity() == input_length * count,
            r.input().spec_actual_size() == 0,
            r.output().spec_frame_length() == D::spec_digest_size(),
            r.output().spec_capacity() == D::spec_digest_size() * count,
            r.output().spec_actual_size() == 0,
            r.spec_args_inlen() == 0,
    {
        let input_buffer = BatchBuffer::new(input_length, count);
        let dsz = D::digest_size();
        let output_buffer = BatchBuffer::new(dsz, count);
        let args_buffer = DigestRunArgsBuffer::new();
        let r = Self { input_buffer, output_buffer, args_buffer, at: 0, digest };
        proof {
            lemma_cancel_mul_div(input_length as int, count as int);
        }
        r
    }

    /// A run over caller-supplied buffers. Nothing checks here that the
    /// two are sized for the same batch count: a mismatch is caught by
    /// [`run`](Self::run) as a capacity violation, never written past a
    /// buffer's bounds.
    pub fn from_buffers(
        digest: D,
        input_buffer: BatchBuffer,
        output_buffer: BatchBuffer,
        args_buffer: DigestRunArgsBuffer,
    ) -> (r: Self)
        requires
            input_buffer.wf(),
            output_buffer.wf(),
        ensures
            r.wf(),
            r.input() == input_buffer,
            r.output() == output_buffer,
            r.spec_args_inlen() == args_buffer.spec_inlen(),
    {
        let at = input_buffer.actual_size();
        Self { input_buffer, output_buffer, args_buffer, at, digest }
    }

    /// Begins a fresh input fill: discards any previously valid input
    /// frames and puts the write cursor back at the first frame.
    pub fn input_buffer(&mut self)
        requires
            old(self).wf(),
        ensures
            final(self).wf(),
            final(self).spec_at() == 0,
            final(self).input().spec_actual_size() == 0,
            final(self).input().spec_frame_length() == old(self).input().spec_frame_length(),
            final(self).input().spec_capacity() == old(self).input().spec_capacity(),
            final(self).input().contents() == old(self).input().contents(),
            final(self).input().valid_frames() == Seq::<Seq<u8>>::empty(),
            final(self).output() == old(self).output(),
            final(self).spec_args_inlen() == old(self).spec_args_inlen(),
    {
        self.input_buffer.reset();
        self.at = 0;
        proof {
            crate::buffer::lemma_no_valid_frames(self.input());
        }
    }

    /// Writes the next input frame if one still fits, exactly as a write
    /// cursor would; reports exhaustion once `count` frames are filled.
    pub fn next_input_frame(&mut self, frame: &[u8]) -> (r: bool)
        requires
            old(self).wf(),
            frame@.len() == old(self).input().spec_frame_length(),
        ensures
            final(self).wf(),
            final(self).output() == old(self).output(),
            final(self).spec_args_inlen() == old(self).spec_args_inlen(),
            final(self).input().spec_frame_length() == old(self).input().spec_frame_length(),
            final(self).input().spec_capacity() == old(self).input().spec_capacity(),
            ({
                let at = old(self).spec_at();
                let fl = old(self).input().spec_frame_length();
                let cap = old(self).input().spec_capacity();
                if at + fl <= cap {
                    &&& r
                    &&& final(self).spec_at() == at + fl
                    &&& final(self).input().spec_actual_size() == at + fl
                    &&& final(self).input().contents() == old(self).input().contents().subrange(
                        0,
                        at,
                    ) + frame@ + old(self).input().contents().subrange(at + fl, cap)
                    &&& final(self).input().valid_frames() == old(
                        self,
                    ).input().valid_frames().push(frame@)
                } else {
                    &&& !r
                    &&& *final(self) == *old(self)
                }
            }),
    {
        proof {
            lemma_aligned_offset_is_own_frame_start(
                old(self).spec_at(),
                old(self).input().spec_frame_length(),
            );
        }
        let at = self.at;
        let cap = self.input_buffer.length();
        let ok = self.input_buffer.fill_frame(at, frame);
        if ok {
            proof {
                assert(at + frame@.len() <= cap);
            }
            self.at = at + frame.len();
            proof {
                lemma_append_frame(old(self).input(), self.input(), frame@);
            }
        }
        ok
    }

    /// The host-side dispatch protocol, in order: records the input length
    /// in the parameter block; computes the output size this run will
    /// produce — one digest per valid input frame; refuses it as a
    /// [`Error::CapacityViolation`] if the output buffer cannot hold it in
    /// whole frames; otherwise marks exactly that much of the output
    /// buffer valid (before any dispatch, so a read cursor is correct as
    /// soon as the driver's blocking wait returns) and sizes the grid:
    /// input frames divided by the hardware execution `width`, rounded up,
    /// one thread per frame. An empty input is a zero-group no-op run.
    ///
    /// The driver then binds input, output and parameter block at slots
    /// 0, 1 and 2 and launches the returned plan.
    pub fn run(&mut self, width: usize) -> (r: Result<DispatchPlan, Error>)
        requires
            old(self).wf(),
            width >= 1,
        ensures
            final(self).wf(),
            final(self).input() == old(self).input(),
            final(self).spec_at() == old(self).spec_at(),
            final(self).spec_args_inlen() == old(self).input().spec_frame_length(),
            final(self).output().spec_frame_length() == old(self).output().spec_frame_length(),
            final(self).output().spec_capacity() == old(self).output().spec_capacity(),
            final(self).output().contents() == old(self).output().contents(),
            ({
                let nf = old(self).input().spec_num_frames();
                let required = nf * D::spec_digest_size();
                let out = old(self).output();
                if required <= out.spec_capacity() && required % out.spec_frame_length() == 0 {
                    &&& r matches Ok(plan)
                    &&& plan.threads_per_group == width
                    &&& plan.thread_groups == (nf + width - 1) / (width as int)
                    &&& final(self).output().spec_actual_size() == required
                } else {
                    &&& r matches Err(Error::CapacityViolation { frames, digest_size, capacity })
                    &&& frames == nf
                    &&& digest_size == D::spec_digest_size()
                    &&& capacity == out.spec_capacity()
                    &&& final(self).output().spec_actual_size() == out.spec_actual_size()
                }
            }),
    {
        let inlen = self.input_buffer.frame_length();
        self.args_buffer.set_inlen(inlen as u64);

        let nf = self.input_buffer.num_frames();
        let dsz = D::digest_size();
        let capacity = self.output_buffer.length();
        match nf.checked_mul(dsz) {
            Some(required) => {
                if required <= capacity && required % self.output_buffer.frame_length() == 0 {
                    self.output_buffer.set_valid_prefix(required);
                    let thread_groups = if nf == 0 {
                        0
                    } else {
                        proof {
                            lemma_div_nonincreasing(nf - 1, width as int);
                            lemma_div_pos_is_pos(nf - 1, width as int);
                        }
                        (nf - 1) / width + 1
                    };
                    proof {
                        lemma_ceil_div_form(nf as int, width as int);
                    }
                    Ok(DispatchPlan { thread_groups, threads_per_group: width })
                } else {
                    Err(
                        Error::CapacityViolation {
                            frames: nf,
                            digest_size: dsz,
                            capacity,
                        },
                    )
                }
            },
            None => {
                Err(Error::CapacityViolation { frames: nf, digest_size: dsz, capacity })
            },
        }
    }

    /// Deposits the bytes the accelerator produced into the output
    /// buffer's valid region — exactly as many bytes as
    /// [`run`](Self::run) marked valid. Everything else is untouched.
    pub fn complete_run(&mut self, output: &[u8])
        requires
            old(self).wf(),
            output@.len() == old(self).output().spec_actual_size(),
        ensures
            final(self).wf(),
            final(self).input() == old(self).input(),
            final(self).spec_at() == old(self).spec_at(),
            final(self).spec_args_inlen() == old(self).spec_args_inlen(),
            final(self).output().spec_actual_size() == old(self).output().spec_actual_size(),
            final(self).output().spec_frame_length() == old(self).output().spec_frame_length(),
            final(self).output().spec_capacity() == old(self).output().spec_capacity(),
            final(self).output().contents() == output@ + old(self).output().contents().subrange(
                old(self).output().spec_actual_size(),
                old(self).output().spec_capacity(),
            ),
    {
        self.output_buffer.write_valid_bytes(output);
    }

    /// A read cursor over the output buffer; meaningful once a run has
    /// completed.
    pub fn output_buffer(&self) -> (r: BatchBufferReader<'_>)
        requires
            self.wf(),
        ensures
            r.wf(),
            r.buffer() == self.output(),
            r.spec_at() == 0,
    {
        BatchBufferReader::new(&self.output_buffer)
    }

    /// Every byte of the input region, for the driver to copy to the
    /// accelerator before the launch.
    pub fn input_bytes(&self) -> (r: &[u8])
        ensures
            r@ == self.input().contents(),
    {
        self.input_buffer.as_bytes()
    }

    /// Bytes per input frame.
    pub fn input_frame_length(&self) -> (r: usize)
        ensures
            r == self.input().spec_frame_length(),
    {
        self.input_buffer.frame_length()
    }

    /// Total bytes of the output region, for the driver to size the
    /// accelerator-side output allocation.
    pub fn output_capacity(&self) -> (r: usize)
        ensures
            r == self.output().spec_capacity(),
    {
        self.output_buffer.length()
    }

    /// Valid bytes of the output region: how many bytes the driver must
    /// copy back after the dispatch.
    pub fn output_actual_size(&self) -> (r: usize)
        ensures
            r == self.output().spec_actual_size(),
    {
        self.output_buffer.actual_size()
    }

    /// The parameter block, for the driver to copy to the accelerator.
    pub fn params(&self) -> (r: &DigestRunArgsBuffer)
        ensures
            r.spec_inlen() == self.spec_args_inlen(),
    {
        &self.args_buffer
    }
}

/// A consistently sized job can never violate capacity: whatever number
/// of frames its input holds, one digest per input frame fits the output
/// buffer in whole frames, so [`DigestCommandRun::run`] succeeds. The
/// violation is reachable only through mismatched caller-supplied
/// buffers.
pub proof fn lemma_consistent_run_never_violates<D: Digest>(job: DigestCommandRun<D>)
    requires
        job.wf(),
        job.consistent(),
    ensures
        job.input().spec_num_frames() * D::spec_digest_size() <= job.output().spec_capacity(),
        job.input().spec_num_frames() * D::spec_digest_size() % job.output().spec_frame_length()
            == 0,
{
    let fl = job.input().spec_frame_length();
    let a = job.input().spec_actual_size();
    let cap = job.input().spec_capacity();
    let dsz = D::spec_digest_size() as int;
    let nf = job.input().spec_num_frames();
    let count = cap / fl;
    assert(nf == a / fl && a / fl >= 0) by {
        lemma_fundamental_div_mod(a, fl);
        lemma_div_pos_is_pos(a, fl);
        vstd::arithmetic::mul::lemma_mul_is_commutative(fl, a / fl);
        lemma_fundamental_div_mod_converse(a + fl - 1, fl, a / fl, fl - 1);
    }
    vstd::arithmetic::div_mod::lemma_div_is_ordered(a, cap, fl);
    vstd::arithmetic::mul::lemma_mul_inequality(nf, count, dsz);
    vstd::arithmetic::mul::lemma_mul_is_commutative(count, dsz);
    vstd::arithmetic::div_mod::lemma_mod_multiples_basic(nf, dsz);
}

/// Dividing `a * b` by `a` gives back `b`.
proof fn lemma_cancel_mul_div(a: int, b: int)
    requires
        a >= 1,
        b >= 0,
    ensures
        (a * b) / a == b,
{
    vstd::arithmetic::div_mod::lemma_div_multiples_vanish(b, a);
    vstd::arithmetic::mul::lemma_mul_is_commutative(a, b);
}

/// For `n >= 0` and `w >= 1`: dividing `n` by `w` and rounding up equals
/// `(n + w - 1) / w`, and is `(n - 1) / w + 1` for positive `n`, `0` for
/// `n == 0`.
proof fn lemma_ceil_div_form(n: int, w: int)
    requires
        n >= 0,
        w >= 1,
    ensures
        n == 0 ==> (n + w - 1) / w == 0,
        n >= 1 ==> (n + w - 1) / w == (n - 1) / w + 1,
{
    if n == 0 {
        lemma_basic_div(w - 1, w);
    } else {
        lemma_fundamental_div_mod(n - 1, w);
        let q = (n - 1) / w;
        let rem = (n - 1) % w;
        lemma_div_pos_is_pos(n - 1, w);
        vstd::arithmetic::mul::lemma_mul_is_commutative(w, q);
        assert(n + w - 1 == (q + 1) * w + rem) by (nonlinear_arith)
            requires
                n - 1 == w * q + rem,
                w * q == q * w,
        ;
        lemma_fundamental_div_mod_converse(n + w - 1, w, q + 1, rem);
    }
}

} // verus!
