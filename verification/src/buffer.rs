use vstd::prelude::*;
use vstd::arithmetic::div_mod::lemma_basic_div;
use vstd::arithmetic::div_mod::lemma_div_plus_one;
use vstd::arithmetic::div_mod::lemma_div_pos_is_pos;
use vstd::arithmetic::div_mod::lemma_fundamental_div_mod;
use vstd::arithmetic::div_mod::lemma_fundamental_div_mod_converse;
use vstd::pervasive::VecAdditionalExecFns;
use vstd::slice::slice_subrange;

verus! {

/// A fixed-capacity memory region logically divided into equal-size frames.
///
/// `actual_size` tracks how many bytes are currently valid; it is always a
/// whole number of frames, so a frame is either fully valid or fully
/// garbage, never partially valid. Frames are the only sanctioned access
/// path: a [`BatchBufferSetter`] grows validity frame by frame, a
/// [`BatchBufferReader`] walks only the valid frames.
pub struct BatchBuffer {
    frame_length: usize,
    actual_size: usize,
    data: Vec<u8>,
}

impl BatchBuffer {
    /// Bytes per frame, fixed at construction.
    pub closed spec fn spec_frame_length(self) -> int {
        self.frame_length as int
    }

    /// Total bytes of the region, a multiple of the frame length.
    pub closed spec fn spec_capacity(self) -> int {
        self.data@.len() as int
    }

    /// Bytes currently valid, a multiple of the frame length.
    pub closed spec fn spec_actual_size(self) -> int {
        self.actual_size as int
    }

    /// Every byte of the region, valid or not.
    pub closed spec fn contents(self) -> Seq<u8> {
        self.data@
    }

    /// The structural invariant: frames are non-empty, validity never
    /// exceeds capacity, and both validity and capacity hold whole frames.
    pub open spec fn wf(self) -> bool {
        &&& self.spec_frame_length() >= 1
        &&& 0 <= self.spec_actual_size() <= self.spec_capacity()
        &&& self.spec_actual_size() % self.spec_frame_length() == 0
        &&& self.spec_capacity() % self.spec_frame_length() == 0
    }

    /// Number of valid frames: the least count of whole frames covering
    /// `actual_size` bytes.
    pub open spec fn spec_num_frames(self) -> int {
        (self.spec_actual_size() + self.spec_frame_length() - 1) / self.spec_frame_length()
    }

    /// Start of the frame holding byte offset `at`: `at` aligned down to a
    /// frame boundary.
    pub open spec fn frame_start(self, at: int) -> int {
        at - at % self.spec_frame_length()
    }

    /// The bytes of frame `i`.
    pub open spec fn frame_seq(self, i: int) -> Seq<u8> {
        self.contents().subrange(
            i * self.spec_frame_length(),
            (i + 1) * self.spec_frame_length(),
        )
    }

    /// The valid frames, in order.
    pub open spec fn valid_frames(self) -> Seq<Seq<u8>> {
        Seq::new(self.spec_num_frames() as nat, |i: int| self.frame_seq(i))
    }

    /// Allocates a zero-filled region of `count` frames of `frame_length`
    /// bytes each, with nothing valid yet.
    #[verifier::loop_isolation(false)]
    pub fn new(frame_length: usize, count: usize) -> (r: Self)
        requires
            frame_length >= 1,
            frame_length * count <= usize::MAX,
        ensures
            r.wf(),
            r.spec_frame_length() == frame_length,
            r.spec_capacity() == frame_length * count,
            r.spec_actual_size() == 0,
            r.spec_num_frames() == 0,
            forall|i: int| 0 <= i < r.spec_capacity() ==> r.contents()[i] == 0u8,
    {
        let total: usize = frame_length * count;
        let mut data: Vec<u8> = Vec::new();
        let mut j: usize = 0;
        while j < total
            invariant
                j <= total,
                data@.len() == j,
                forall|k: int| 0 <= k < j ==> data@[k] == 0u8,
            decreases total - j,
        {
            data.push(0u8);
            j = j + 1;
        }
        let r = Self { frame_length, actual_size: 0, data };
        proof {
            lemma_zero_mod(frame_length as int);
            lemma_mul_is_mod_zero(count as int, frame_length as int);
            lemma_ceil_of_multiple(0, frame_length as int);
            lemma_basic_div(0, frame_length as int);
        }
        r
    }

    /// Total bytes of the region.
    pub fn length(&self) -> (r: usize)
        ensures
            r == self.spec_capacity(),
    {
        self.data.len()
    }

    /// Bytes per frame.
    pub fn frame_length(&self) -> (r: usize)
        ensures
            r == self.spec_frame_length(),
    {
        self.frame_length
    }

    /// Bytes currently valid.
    pub fn actual_size(&self) -> (r: usize)
        ensures
            r == self.spec_actual_size(),
    {
        self.actual_size
    }

    /// Number of valid frames.
    pub fn num_frames(&self) -> (r: usize)
        requires
            self.wf(),
        ensures
            r == self.spec_num_frames(),
    {
        proof {
            lemma_ceil_of_multiple(self.spec_actual_size(), self.spec_frame_length());
        }
        self.actual_size / self.frame_length
    }

    /// Forgets all valid content: `actual_size` returns to zero. The bytes
    /// themselves are kept, but no reader will see them again until a
    /// fresh fill marks them valid.
    pub fn reset(&mut self)
        ensures
            final(self).spec_actual_size() == 0,
            final(self).spec_frame_length() == old(self).spec_frame_length(),
            final(self).spec_capacity() == old(self).spec_capacity(),
            final(self).contents() == old(self).contents(),
            old(self).spec_frame_length() >= 1 ==> final(self).spec_num_frames() == 0,
            old(self).wf() ==> final(self).wf(),
    {
        proof {
            if old(self).spec_frame_length() >= 1 {
                lemma_zero_mod(old(self).spec_frame_length());
                lemma_ceil_of_multiple(0, old(self).spec_frame_length());
                lemma_basic_div(0, old(self).spec_frame_length());
            }
        }
        self.actual_size = 0;
    }

    /// Read-only view of every byte of the region, for the driver that
    /// copies the region to or from the accelerator. Mutation still goes
    /// only through frames.
    pub fn as_bytes(&self) -> (r: &[u8])
        ensures
            r@ == self.contents(),
    {
        self.data.as_slice()
    }

    /// Byte bounds of the frame holding offset `at`, if that frame lies
    /// inside the region; `None` once no whole frame fits.
    fn raw_frame_bounds(&self, at: usize) -> (r: Option<(usize, usize)>)
        requires
            self.wf(),
        ensures
            ({
                let start = self.frame_start(at as int);
                if start + self.spec_frame_length() <= self.spec_capacity() {
                    r matches Some(p) && p.0 as int == start && p.1 as int == start
                        + self.spec_frame_length()
                } else {
                    r is None
                }
            }),
    {
        proof {
            lemma_frame_start_aligned(at as int, self.spec_frame_length());
        }
        let frame_start = at - at % self.frame_length;
        if frame_start <= self.data.len() && self.frame_length <= self.data.len() - frame_start {
            Some((frame_start, frame_start + self.frame_length))
        } else {
            None
        }
    }

    /// Writes one whole frame at the frame boundary holding `at` and marks
    /// it valid, growing `actual_size` if the frame lies beyond the
    /// previously valid region. Returns `false`, changing nothing, when no
    /// whole frame at that position fits in the region.
    #[verifier::loop_isolation(false)]
    pub(crate) fn fill_frame(&mut self, at: usize, frame: &[u8]) -> (r: bool)
        requires
            old(self).wf(),
            frame@.len() == old(self).spec_frame_length(),
        ensures
            final(self).wf(),
            final(self).spec_frame_length() == old(self).spec_frame_length(),
            final(self).spec_capacity() == old(self).spec_capacity(),
            ({
                let start = old(self).frame_start(at as int);
                let fl = old(self).spec_frame_length();
                if start + fl <= old(self).spec_capacity() {
                    &&& r
                    &&& final(self).contents() == old(self).contents().subrange(0, start)
                        + frame@ + old(self).contents().subrange(
                        start + fl,
                        old(self).spec_capacity(),
                    )
                    &&& final(self).spec_actual_size() == (if start + fl
                        >= old(self).spec_actual_size() {
                        start + fl
                    } else {
                        old(self).spec_actual_size()
                    })
                } else {
                    &&& !r
                    &&& *final(self) == *old(self)
                }
            }),
    {
        proof {
            lemma_frame_start_aligned(at as int, old(self).spec_frame_length());
        }
        match self.raw_frame_bounds(at) {
            Some((start, end)) => {
                let ghost pre = self.data@;
                let mut j: usize = 0;
                while j < frame.len()
                    invariant
                        j <= frame@.len(),
                        self.frame_length == old(self).frame_length,
                        self.actual_size == old(self).actual_size,
                        frame@.len() == self.frame_length,
                        start + frame@.len() == end <= self.data@.len(),
                        self.data@.len() == pre.len(),
                        forall|k: int|
                            0 <= k < pre.len() && !(start <= k < start + j)
                                ==> self.data@[k] == pre[k],
                        forall|k: int| 0 <= k < j ==> self.data@[start + k] == frame@[k],
                    decreases frame@.len() - j,
                {
                    self.data.set(start + j, *slice_index_get_copy(frame, j));
                    j = j + 1;
                }
                proof {
                    let fl = old(self).spec_frame_length();
                    lemma_max_of_multiples(
                        start as int,
                        end as int,
                        old(self).spec_actual_size(),
                        fl,
                    );
                    assert(self.contents() =~= old(self).contents().subrange(0, start as int)
                        + frame@ + old(self).contents().subrange(
                        end as int,
                        old(self).spec_capacity(),
                    ));
                }
                if end > self.actual_size {
                    self.actual_size = end;
                }
                true
            },
            None => false,
        }
    }

    /// Marks exactly `n` bytes — a whole number of frames — as valid,
    /// without touching the bytes themselves. This is how a run announces,
    /// before dispatch, how much of an output buffer the accelerator will
    /// produce.
    pub(crate) fn set_valid_prefix(&mut self, n: usize)
        requires
            old(self).wf(),
            n <= old(self).spec_capacity(),
            n as int % old(self).spec_frame_length() == 0,
        ensures
            final(self).wf(),
            final(self).spec_actual_size() == n,
            final(self).spec_frame_length() == old(self).spec_frame_length(),
            final(self).spec_capacity() == old(self).spec_capacity(),
            final(self).contents() == old(self).contents(),
    {
        self.actual_size = n;
    }

    /// Replaces the valid region with `bytes`, leaving validity and the
    /// garbage beyond it untouched: the accelerator's write-back, crossing
    /// the boundary as one plain byte string.
    #[verifier::loop_isolation(false)]
    pub(crate) fn write_valid_bytes(&mut self, bytes: &[u8])
        requires
            old(self).wf(),
            bytes@.len() == old(self).spec_actual_size(),
        ensures
            final(self).wf(),
            final(self).spec_actual_size() == old(self).spec_actual_size(),
            final(self).spec_frame_length() == old(self).spec_frame_length(),
            final(self).spec_capacity() == old(self).spec_capacity(),
            final(self).contents() == bytes@ + old(self).contents().subrange(
                old(self).spec_actual_size(),
                old(self).spec_capacity(),
            ),
    {
        let ghost pre = self.data@;
        let n = bytes.len();
        let mut j: usize = 0;
        while j < n
            invariant
                j <= n,
                self.frame_length == old(self).frame_length,
                self.actual_size == old(self).actual_size,
                self.data@.len() == pre.len(),
                forall|k: int| j <= k < pre.len() ==> self.data@[k] == pre[k],
                forall|k: int| 0 <= k < j ==> self.data@[k] == bytes@[k],
            decreases n - j,
        {
            self.data.set(j, *slice_index_get_copy(bytes, j));
            j = j + 1;
        }
        proof {
            assert(self.contents() =~= bytes@ + old(self).contents().subrange(
                old(self).spec_actual_size(),
                old(self).spec_capacity(),
            ));
        }
    }

    /// The frame holding offset `at`, if it is fully inside the valid
    /// region; `None` otherwise. Bytes past `actual_size` are garbage and
    /// are never handed out.
    fn frame(&self, at: usize) -> (r: Option<&[u8]>)
        requires
            self.wf(),
        ensures
            ({
                let start = self.frame_start(at as int);
                if start + self.spec_frame_length() <= self.spec_actual_size() {
                    r matches Some(f) && f@ == self.contents().subrange(
                        start,
                        start + self.spec_frame_length(),
                    )
                } else {
                    r is None
                }
            }),
    {
        match self.raw_frame_bounds(at) {
            Some((start, end)) => {
                if end <= self.actual_size {
                    Some(slice_subrange(self.data.as_slice(), start, end))
                } else {
                    None
                }
            },
            None => None,
        }
    }
}

/// Write cursor: takes exclusive ownership of a buffer, resets it, and
/// fills it one frame per call. Construction discards any prior validity,
/// so a fresh fill never accumulates onto an earlier one.
pub struct BatchBufferSetter {
    at: usize,
    inner: BatchBuffer,
}

impl BatchBufferSetter {
    /// The buffer as the cursor currently leaves it.
    pub closed spec fn buffer(self) -> BatchBuffer {
        self.inner
    }

    /// Current write offset, always frame-aligned.
    pub closed spec fn spec_at(self) -> int {
        self.at as int
    }

    /// The cursor writes exactly at the end of the valid region.
    pub open spec fn wf(self) -> bool {
        &&& self.buffer().wf()
        &&& self.spec_at() == self.buffer().spec_actual_size()
    }

    /// Takes the buffer over and resets it: validity starts at zero, the
    /// bytes themselves are untouched.
    pub fn new(batch_buffer: BatchBuffer) -> (r: Self)
        requires
            batch_buffer.wf(),
        ensures
            r.wf(),
            r.spec_at() == 0,
            r.buffer().spec_actual_size() == 0,
            r.buffer().spec_frame_length() == batch_buffer.spec_frame_length(),
            r.buffer().spec_capacity() == batch_buffer.spec_capacity(),
            r.buffer().contents() == batch_buffer.contents(),
            r.buffer().valid_frames() == Seq::<Seq<u8>>::empty(),
    {
        let mut inner = batch_buffer;
        inner.reset();
        let r = Self { at: 0, inner };
        proof {
            lemma_no_valid_frames(r.buffer());
        }
        r
    }

    /// Writes the next frame if one still fits, growing the valid region
    /// by exactly that frame; reports exhaustion (changing nothing) once
    /// the buffer's capacity is reached.
    pub fn next_frame(&mut self, frame: &[u8]) -> (r: bool)
        requires
            old(self).wf(),
            frame@.len() == old(self).buffer().spec_frame_length(),
        ensures
            final(self).wf(),
            final(self).buffer().spec_frame_length() == old(self).buffer().spec_frame_length(),
            final(self).buffer().spec_capacity() == old(self).buffer().spec_capacity(),
            ({
                let at = old(self).spec_at();
                let fl = old(self).buffer().spec_frame_length();
                let cap = old(self).buffer().spec_capacity();
                if at + fl <= cap {
                    &&& r
                    &&& final(self).spec_at() == at + fl
                    &&& final(self).buffer().spec_actual_size() == at + fl
                    &&& final(self).buffer().contents() == old(self).buffer().contents().subrange(
                        0,
                        at,
                    ) + frame@ + old(self).buffer().contents().subrange(at + fl, cap)
                    &&& final(self).buffer().valid_frames() == old(
                        self,
                    ).buffer().valid_frames().push(frame@)
                } else {
                    &&& !r
                    &&& *final(self) == *old(self)
                }
            }),
    {
        proof {
            lemma_aligned_offset_is_own_frame_start(
                old(self).spec_at(),
                old(self).buffer().spec_frame_length(),
            );
        }
        let at = self.at;
        let ok = self.inner.fill_frame(at, frame);
        if ok {
            self.at = at + frame.len();
            proof {
                lemma_append_frame(old(self).buffer(), self.buffer(), frame@);
            }
        }
        ok
    }

    /// Ends the fill and hands the buffer back, valid frames intact.
    pub fn finish(self) -> (r: BatchBuffer)
        ensures
            r == self.buffer(),
    {
        self.inner
    }
}

/// Read cursor: walks the valid frames of a shared buffer, one per call,
/// in order, and nothing past `actual_size`. Any number may read the same
/// buffer at once.
pub struct BatchBufferReader<'r> {
    at: usize,
    inner: &'r BatchBuffer,
}

impl<'r> BatchBufferReader<'r> {
    /// The buffer being read.
    pub closed spec fn buffer(self) -> BatchBuffer {
        *self.inner
    }

    /// Current read offset, always frame-aligned.
    pub closed spec fn spec_at(self) -> int {
        self.at as int
    }

    /// The cursor sits on a frame boundary inside the valid region.
    pub open spec fn wf(self) -> bool {
        &&& self.buffer().wf()
        &&& self.spec_at() % self.buffer().spec_frame_length() == 0
        &&& 0 <= self.spec_at() <= self.buffer().spec_actual_size()
    }

    /// A cursor at the first frame.
    pub fn new(batch_buffer: &'r BatchBuffer) -> (r: Self)
        requires
            batch_buffer.wf(),
        ensures
            r.wf(),
            r.buffer() == *batch_buffer,
            r.spec_at() == 0,
    {
        proof {
            lemma_zero_mod(batch_buffer.spec_frame_length());
        }
        Self { at: 0, inner: batch_buffer }
    }

    /// Number of valid frames the buffer under the cursor holds in all.
    pub fn num_frames(&self) -> (r: usize)
        requires
            self.wf(),
        ensures
            r == self.buffer().spec_num_frames(),
    {
        self.inner.num_frames()
    }

    /// The next valid frame, or `None` once every valid frame has been
    /// read. Never returns bytes a write cursor did not mark valid.
    pub fn next_frame(&mut self) -> (r: Option<&'r [u8]>)
        requires
            old(self).wf(),
        ensures
            final(self).wf(),
            final(self).buffer() == old(self).buffer(),
            ({
                let at = old(self).spec_at();
                let b = old(self).buffer();
                let fl = b.spec_frame_length();
                if at + fl <= b.spec_actual_size() {
                    &&& r matches Some(f) && f@ == b.valid_frames()[at / fl]
                    &&& 0 <= at / fl < b.spec_num_frames()
                    &&& final(self).spec_at() == at + fl
                } else {
                    &&& r is None
                    &&& *final(self) == *old(self)
                }
            }),
    {
        proof {
            let at = old(self).spec_at();
            let b = old(self).buffer();
            let fl = b.spec_frame_length();
            lemma_aligned_offset_is_own_frame_start(at, fl);
            if at + fl <= b.spec_actual_size() {
                lemma_frame_index_of_aligned_offset(b, at);
                lemma_zero_mod(fl);
                vstd::arithmetic::div_mod::lemma_mod_self_0(fl);
                vstd::arithmetic::div_mod::lemma_add_mod_noop(at, fl, fl);
            }
        }
        let inner = self.inner;
        match inner.frame(self.at) {
            Some(f) => {
                self.at = self.at + inner.frame_length();
                Some(f)
            },
            None => None,
        }
    }
}

/// A buffer whose valid region is empty holds no valid frames: a read
/// cursor constructed right after `reset` yields zero frames, whatever the
/// bytes still hold.
pub proof fn lemma_no_valid_frames(b: BatchBuffer)
    requires
        b.wf(),
        b.spec_actual_size() == 0,
    ensures
        b.spec_num_frames() == 0,
        b.valid_frames() == Seq::<Seq<u8>>::empty(),
{
    let fl = b.spec_frame_length();
    lemma_zero_mod(fl);
    lemma_ceil_of_multiple(0, fl);
    lemma_basic_div(0, fl);
    assert(b.valid_frames() =~= Seq::<Seq<u8>>::empty());
}

/// Round trip: a buffer whose valid frames are exactly `frames` — as `k`
/// successive write-cursor calls leave it — holds `k * frame_length`
/// valid bytes, and a read cursor yields exactly `frames`, in order.
pub proof fn lemma_round_trip(b: BatchBuffer, frames: Seq<Seq<u8>>)
    requires
        b.wf(),
        b.valid_frames() == frames,
    ensures
        b.spec_actual_size() == frames.len() * b.spec_frame_length(),
        forall|i: int| 0 <= i < frames.len() ==> frames[i] == b.frame_seq(i),
{
    let fl = b.spec_frame_length();
    let a = b.spec_actual_size();
    lemma_ceil_of_multiple(a, fl);
    assert(frames.len() == a / fl);
    vstd::arithmetic::mul::lemma_mul_is_commutative(a / fl, fl);
    assert(frames.len() * fl == a);
    assert(forall|i: int| 0 <= i < frames.len() ==> frames[i] == b.frame_seq(i)) by {
        assert(forall|i: int|
            0 <= i < frames.len() ==> b.valid_frames()[i] == #[trigger] b.frame_seq(i));
    }
}

/// An offset that is itself a multiple of the frame length is its own
/// frame start.
pub(crate) proof fn lemma_aligned_offset_is_own_frame_start(at: int, f: int)
    requires
        f >= 1,
        at >= 0,
        at % f == 0,
    ensures
        at - at % f == at,
{
}

/// For a frame-aligned offset `at` strictly inside the valid region, the
/// frame at `at` is valid frame number `at / frame_length`.
proof fn lemma_frame_index_of_aligned_offset(b: BatchBuffer, at: int)
    requires
        b.wf(),
        at >= 0,
        at % b.spec_frame_length() == 0,
        at + b.spec_frame_length() <= b.spec_actual_size(),
    ensures
        ({
            let fl = b.spec_frame_length();
            let i = at / fl;
            &&& 0 <= i < b.spec_num_frames()
            &&& b.frame_seq(i) == b.contents().subrange(at, at + fl)
            &&& b.valid_frames()[i] == b.frame_seq(i)
        }),
{
    let fl = b.spec_frame_length();
    let a = b.spec_actual_size();
    let i = at / fl;
    lemma_ceil_of_multiple(at, fl);
    lemma_ceil_of_multiple(a, fl);
    lemma_div_pos_is_pos(at, fl);
    vstd::arithmetic::div_mod::lemma_div_is_ordered(at, a - fl, fl);
    assert((a - fl) % fl == 0 && a - fl >= 0) by {
        vstd::arithmetic::div_mod::lemma_mod_self_0(fl);
        vstd::arithmetic::div_mod::lemma_sub_mod_noop(a, fl, fl);
        lemma_zero_mod(fl);
    }
    assert(1 + (a - fl) / fl == a / fl) by {
        lemma_div_plus_one(a - fl, fl);
    }
    assert(i < b.spec_num_frames());
    assert(i * fl == at && (i + 1) * fl == at + fl) by (nonlinear_arith)
        requires
            fl * i == at,
    ;
    assert(b.frame_seq(i) == b.contents().subrange(at, at + fl));
}

/// Appending one frame at the end of the valid region extends the valid
/// frame sequence by exactly that frame, leaving earlier frames untouched.
pub(crate) proof fn lemma_append_frame(pre: BatchBuffer, post: BatchBuffer, frame: Seq<u8>)
    requires
        pre.wf(),
        post.wf(),
        post.spec_frame_length() == pre.spec_frame_length(),
        post.spec_capacity() == pre.spec_capacity(),
        frame.len() == pre.spec_frame_length(),
        pre.spec_actual_size() + pre.spec_frame_length() <= pre.spec_capacity(),
        post.spec_actual_size() == pre.spec_actual_size() + pre.spec_frame_length(),
        post.contents() == pre.contents().subrange(0, pre.spec_actual_size()) + frame
            + pre.contents().subrange(
            pre.spec_actual_size() + pre.spec_frame_length(),
            pre.spec_capacity(),
        ),
    ensures
        post.valid_frames() == pre.valid_frames().push(frame),
{
    let fl = pre.spec_frame_length();
    let a = pre.spec_actual_size();
    let q = a / fl;
    lemma_ceil_of_multiple(a, fl);
    lemma_ceil_of_multiple(a + fl, fl);
    lemma_div_plus_one(a, fl);
    assert(pre.spec_num_frames() == q);
    assert(post.spec_num_frames() == q + 1);
    assert(q * fl == a && (q + 1) * fl == a + fl) by (nonlinear_arith)
        requires
            fl * q == a,
    ;
    assert forall|i: int| 0 <= i < q implies post.frame_seq(i) == pre.frame_seq(i) by {
        assert(0 <= i * fl && i * fl + fl <= a && (i + 1) * fl == i * fl + fl)
            by (nonlinear_arith)
            requires
                0 <= i < q,
                fl >= 1,
                q * fl == a,
        ;
        assert(post.frame_seq(i) =~= pre.frame_seq(i));
    }
    assert(post.frame_seq(q) =~= frame);
    assert(post.valid_frames() =~= pre.valid_frames().push(frame));
}

/// Shared reference to one slice element; keeps the borrow of the whole
/// slice out of the caller's mutable state.
fn slice_index_get_copy(slice: &[u8], i: usize) -> (out: &u8)
    requires
        0 <= i < slice@.len(),
    ensures
        *out == slice@[i as int],
{
    vstd::slice::slice_index_get(slice, i)
}

/// For `f >= 1` and `a` a non-negative multiple of `f`, the least count of
/// whole `f`-frames covering `a` bytes is exactly `a / f`.
proof fn lemma_ceil_of_multiple(a: int, f: int)
    requires
        f >= 1,
        a >= 0,
        a % f == 0,
    ensures
        (a + f - 1) / f == a / f,
        f * (a / f) == a,
        a / f >= 0,
{
    lemma_fundamental_div_mod(a, f);
    lemma_div_pos_is_pos(a, f);
    assert(a == f * (a / f));
    vstd::arithmetic::mul::lemma_mul_is_commutative(f, a / f);
    assert(a + f - 1 == (a / f) * f + (f - 1));
    lemma_fundamental_div_mod_converse(a + f - 1, f, a / f, f - 1);
}

/// Zero is a multiple of any positive frame length.
proof fn lemma_zero_mod(f: int)
    requires
        f >= 1,
    ensures
        0int % f == 0,
{
    vstd::arithmetic::div_mod::lemma_small_mod(0nat, f as nat);
}

/// `count * f` is a multiple of `f`.
proof fn lemma_mul_is_mod_zero(count: int, f: int)
    requires
        f >= 1,
        count >= 0,
    ensures
        (count * f) % f == 0,
        (f * count) % f == 0,
{
    vstd::arithmetic::div_mod::lemma_mod_multiples_basic(count, f);
    vstd::arithmetic::mul::lemma_mul_is_commutative(count, f);
}

/// Aligning `at` down to a frame boundary yields a multiple of the frame
/// length.
proof fn lemma_frame_start_aligned(at: int, f: int)
    requires
        f >= 1,
        at >= 0,
    ensures
        (at - at % f) % f == 0,
        at - at % f >= 0,
        (at - at % f) == f * (at / f),
{
    lemma_fundamental_div_mod(at, f);
    lemma_div_pos_is_pos(at, f);
    vstd::arithmetic::mul::lemma_mul_is_commutative(f, at / f);
    vstd::arithmetic::div_mod::lemma_mod_multiples_basic(at / f, f);
    assert(at - at % f == (at / f) * f);
    vstd::arithmetic::mul::lemma_mul_nonnegative(at / f, f);
}

/// The maximum of two multiples of `f` is a multiple of `f`.
proof fn lemma_max_of_multiples(start: int, end: int, prev: int, f: int)
    requires
        f >= 1,
        start >= 0,
        end == start + f,
        start % f == 0,
        prev >= 0,
        prev % f == 0,
    ensures
        end % f == 0,
        (if end >= prev { end } else { prev }) % f == 0,
{
    lemma_zero_mod(f);
    vstd::arithmetic::div_mod::lemma_add_mod_noop(start, f, f);
    vstd::arithmetic::div_mod::lemma_mod_self_0(f);
}

} // verus!
