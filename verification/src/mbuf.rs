//! Packet buffers and the allocation capability they are drawn from.
//!
//! An [`MBuf`] owns exactly one buffer slot: a fixed data room of
//! `capacity` bytes, of which the first `length` bytes are valid, together
//! with the packet-oriented metadata the hardware offload path reads (an
//! offload-flag word and two bounded header-length fields).  The handle is a
//! move-only value: ownership transfers, it is never duplicated, and the only
//! way to obtain two handles with related contents is the explicit deep copy.
//!
//! Buffers are provisioned through the [`Allocator`] capability, which has
//! two realizations: the slot-recycling [`MemoryPool`](crate::mempool::MemoryPool)
//! and the process-heap [`GlobalAllocator`], so that all buffer logic behaves
//! identically against either provider.
//!
//! Chained (multi-segment) buffers are not supported: a handle always
//! describes a single segment, and anything beyond the first segment of a
//! native chain is out of scope by design.

use vstd::prelude::*;

use crate::error::{Error, EINVAL, ENOSPC};

verus! {

/// Data-room size, in bytes, that the default provider hands out; the default
/// buffer size of the native library (a 2048-byte data room plus 128 bytes of
/// headroom).
pub const MBUF_DEFAULT_BUF_SIZE: usize = 2176;

/// Exclusive upper bound of the layer-2 header length field (a 7-bit field).
pub const MBUF_L2_LEN_MAX: u64 = 128;

/// Exclusive upper bound of the layer-3 header length field (a 9-bit field).
pub const MBUF_L3_LEN_MAX: u64 = 512;

/// The abstract state of a packet buffer: its valid bytes, its total data
/// room, and its offload metadata.
pub struct MBufView {
    /// The valid byte range, from the start of the data room to the
    /// watermark.
    pub bytes: Seq<u8>,
    /// Total addressable room, in bytes.
    pub capacity: nat,
    /// The hardware-offload flag word.
    pub ol_flags: u64,
    /// Layer-2 header length metadata, below [`MBUF_L2_LEN_MAX`].
    pub l2_len: u64,
    /// Layer-3 header length metadata, below [`MBUF_L3_LEN_MAX`].
    pub l3_len: u64,
}

/// The state of a freshly allocated buffer: no valid bytes and cleared
/// metadata.
pub open spec fn empty_view(capacity: nat) -> MBufView {
    MBufView { bytes: Seq::empty(), capacity, ol_flags: 0, l2_len: 0, l3_len: 0 }
}

/// The state of a buffer after its valid range grew by `bs`.
pub open spec fn appended_view(v: MBufView, bs: Seq<u8>) -> MBufView {
    MBufView { bytes: v.bytes + bs, ..v }
}

/// A packet buffer: sole owner of one buffer slot, exposed as a growable
/// byte buffer with packet metadata.
#[derive(Debug)]
pub struct MBuf {
    /// The data room; its length is the capacity and never changes.
    data: Vec<u8>,
    /// The valid-length watermark.
    len: usize,
    ol_flags: u64,
    l2_len: u64,
    l3_len: u64,
}

impl View for MBuf {
    type V = MBufView;

    closed spec fn view(&self) -> MBufView {
        MBufView {
            bytes: self.data@.take(self.len as int),
            capacity: self.data@.len(),
            ol_flags: self.ol_flags,
            l2_len: self.l2_len,
            l3_len: self.l3_len,
        }
    }
}

impl MBuf {
    /// Validity of a buffer handle: the watermark stays within the data room
    /// and the bounded metadata fields are in range.
    #[verifier::type_invariant]
    closed spec fn wf(self) -> bool {
        &&& self.len <= self.data@.len()
        &&& self.l2_len < MBUF_L2_LEN_MAX
        &&& self.l3_len < MBUF_L3_LEN_MAX
    }

    /// Wraps a bare slot of memory as an empty buffer whose capacity is the
    /// slot's size.  The slot's stale contents sit beyond the watermark and
    /// are never observable.
    pub(crate) fn from_slot(data: Vec<u8>) -> (m: MBuf)
        ensures
            m@ == empty_view(data@.len()),
    {
        let m = MBuf { data, len: 0, ol_flags: 0, l2_len: 0, l3_len: 0 };
        proof {
            assert(m@.bytes =~= empty_view(m.data@.len()).bytes);
            assert(m@ =~= empty_view(m.data@.len()));
        }
        m
    }

    /// Consumes the handle and surrenders its slot, so a pool can recycle
    /// the memory.
    pub(crate) fn into_slot(self) -> (data: Vec<u8>)
        ensures
            data@.len() == self@.capacity,
    {
        self.data
    }

    /// Number of valid bytes (the watermark).
    pub fn len(&self) -> (n: usize)
        ensures
            n == self@.bytes.len(),
    {
        proof { use_type_invariant(self); }
        self.len
    }

    /// Total addressable room in bytes; constant over the buffer's life.
    pub fn capacity(&self) -> (n: usize)
        ensures
            n == self@.capacity,
    {
        self.data.len()
    }

    /// Room left beyond the watermark.
    pub fn spare_capacity(&self) -> (n: usize)
        ensures
            n == self@.capacity - self@.bytes.len(),
    {
        proof { use_type_invariant(self); }
        self.data.len() - self.len
    }

    /// Copies `other` into the spare room at the watermark and advances the
    /// watermark, rejecting the write if the spare room cannot hold it.
    ///
    /// Succeeds exactly when `other` fits; on failure the buffer is
    /// untouched.
    pub fn extend_from_slice(&mut self, other: &[u8]) -> (r: Result<(), Error>)
        ensures
            r is Ok <==> other@.len() <= old(self)@.capacity - old(self)@.bytes.len(),
            r is Ok ==> final(self)@ == appended_view(old(self)@, other@),
            r is Err ==> *final(self) == *old(self) && r == Err::<(), Error>(Error(ENOSPC)),
    {
        proof { use_type_invariant(&*self); }
        let olen = other.len();
        if olen > self.data.len() - self.len {
            return Err(Error(ENOSPC));
        }
        let base = self.len;
        let mut j: usize = 0;
        while j < olen
            invariant
                olen == other@.len(),
                base + olen <= self.data@.len(),
                self.data@.len() <= usize::MAX,
                j <= olen,
                self.len == base,
                self.data@.len() == old(self).data@.len(),
                self.data@.take(base as int) == old(self).data@.take(base as int),
                self.data@.subrange(base as int, base + j) == other@.take(j as int),
                self.ol_flags == old(self).ol_flags,
                self.l2_len == old(self).l2_len,
                self.l3_len == old(self).l3_len,
                old(self).wf(),
            decreases olen - j,
        {
            proof { use_type_invariant(&*self); }
            self.data[base + j] = other[j];
            proof {
                assert(self.data@.take(base as int) =~= old(self).data@.take(base as int));
                assert(self.data@.subrange(base as int, base + j + 1) =~= other@.take(
                    j + 1,
                ));
            }
            j = j + 1;
        }
        self.len = base + olen;
        proof {
            assert(other@.take(olen as int) =~= other@);
            assert(self@.bytes =~= appended_view(old(self)@, other@).bytes);
            assert(self@ =~= appended_view(old(self)@, other@));
        }
        Ok(())
    }

    /// The valid byte range, as a slice.
    pub fn as_slice(&self) -> (s: &[u8])
        ensures
            s@ == self@.bytes,
    {
        proof { use_type_invariant(self); }
        let s = &self.data.as_slice()[0..self.len];
        proof {
            assert(s@ =~= self@.bytes);
        }
        s
    }

    /// Overwrites one byte inside the valid range.
    pub fn write_byte(&mut self, i: usize, b: u8)
        requires
            i < old(self)@.bytes.len(),
        ensures
            final(self)@ == (MBufView { bytes: old(self)@.bytes.update(i as int, b), ..old(self)@ }),
    {
        proof { use_type_invariant(&*self); }
        self.data[i] = b;
        proof {
            assert(self@.bytes =~= old(self)@.bytes.update(i as int, b));
            assert(self@ =~= (MBufView {
                bytes: old(self)@.bytes.update(i as int, b),
                ..old(self)@
            }));
        }
    }

    /// Sets the layer-2 header length metadata field, rejecting a value that
    /// does not fit the field's width.
    pub fn set_l2_len(&mut self, len: u64) -> (r: Result<(), Error>)
        ensures
            r is Ok <==> len < MBUF_L2_LEN_MAX,
            r is Ok ==> final(self)@ == (MBufView { l2_len: len, ..old(self)@ }),
            r is Err ==> *final(self) == *old(self) && r == Err::<(), Error>(Error(EINVAL)),
    {
        proof { use_type_invariant(&*self); }
        if len < MBUF_L2_LEN_MAX {
            self.l2_len = len;
            proof {
                assert(self@ =~= (MBufView { l2_len: len, ..old(self)@ }));
            }
            Ok(())
        } else {
            Err(Error(EINVAL))
        }
    }

    /// Sets the layer-3 header length metadata field, rejecting a value that
    /// does not fit the field's width.
    pub fn set_l3_len(&mut self, len: u64) -> (r: Result<(), Error>)
        ensures
            r is Ok <==> len < MBUF_L3_LEN_MAX,
            r is Ok ==> final(self)@ == (MBufView { l3_len: len, ..old(self)@ }),
            r is Err ==> *final(self) == *old(self) && r == Err::<(), Error>(Error(EINVAL)),
    {
        proof { use_type_invariant(&*self); }
        if len < MBUF_L3_LEN_MAX {
            self.l3_len = len;
            proof {
                assert(self@ =~= (MBufView { l3_len: len, ..old(self)@ }));
            }
            Ok(())
        } else {
            Err(Error(EINVAL))
        }
    }

    /// Enables (bitwise-or) the given flags on the offload-flag word.
    pub fn enable_ol_flags(&mut self, flags: u64)
        ensures
            final(self)@ == (MBufView { ol_flags: old(self)@.ol_flags | flags, ..old(self)@ }),
    {
        proof { use_type_invariant(&*self); }
        self.ol_flags = self.ol_flags | flags;
        proof {
            assert(self@ =~= (MBufView { ol_flags: old(self)@.ol_flags | flags, ..old(self)@ }));
        }
    }

    /// The current offload-flag word.
    pub fn ol_flags(&self) -> (f: u64)
        ensures
            f == self@.ol_flags,
    {
        self.ol_flags
    }

    /// The layer-2 header length metadata field.
    pub fn l2_len(&self) -> (n: u64)
        ensures
            n == self@.l2_len,
    {
        self.l2_len
    }

    /// The layer-3 header length metadata field.
    pub fn l3_len(&self) -> (n: u64)
        ensures
            n == self@.l3_len,
    {
        self.l3_len
    }
}

/// Bounds every live handle obeys: the valid length never exceeds the
/// capacity and the bounded metadata fields stay inside their widths.  These
/// hold before and after every operation, since every handle carries its
/// type invariant; this observer makes the fact available to callers.
pub fn capacity_bounds(m: &MBuf)
    ensures
        0 <= m@.bytes.len() <= m@.capacity,
        m@.l2_len < MBUF_L2_LEN_MAX,
        m@.l3_len < MBUF_L3_LEN_MAX,
{
    proof {
        use_type_invariant(m);
    }
}

/// Clone independence law: a deep copy shares no storage with its source,
/// so writing into the copy is an update of the copy's view alone — it
/// changes exactly the written position of the copy and says nothing about
/// the source, whose view is untouched by the write (the handles are
/// separate owned values).  Releasing either buffer likewise involves only
/// that buffer's own slot.
pub proof fn lemma_clone_independence(orig: MBufView, copy: MBufView, i: int, b: u8)
    requires
        copy.bytes == orig.bytes,
        0 <= i < copy.bytes.len(),
        b != orig.bytes[i],
    ensures
        ({
            let written = MBufView { bytes: copy.bytes.update(i, b), ..copy };
            &&& written.bytes[i] != orig.bytes[i]
            &&& forall|k: int|
                0 <= k < orig.bytes.len() && k != i ==> written.bytes[k] == orig.bytes[k]
        }),
{
}

/// Allocator substitutability law: the [`Allocator`] contracts speak only
/// of buffer views, so an algorithm written against the capability
/// observes identical buffer content and length whichever realization
/// backs it.  In particular the fundamental sequence — allocate a buffer
/// with data room `c`, then append `bs` — ends in the one view determined
/// by `c` and `bs` alone, with no trace of the provider in it.
pub proof fn lemma_allocator_substitutable(c: nat, bs: Seq<u8>)
    ensures
        appended_view(empty_view(c), bs) == (MBufView {
            bytes: bs,
            capacity: c,
            ol_flags: 0,
            l2_len: 0,
            l3_len: 0,
        }),
{
    assert(Seq::<u8>::empty() + bs =~= bs);
}

/// Provider agreement at allocation: the pool-backed provider (with a free
/// slot) and the heap-backed provider are each required by their contracts
/// to hand out a buffer whose view is `empty_view` of their configured
/// data room, so with equal data rooms the two fresh buffers have the very
/// same view — everything observable about them is fixed by that shared
/// size, with no trace of which provider it was.
pub proof fn lemma_allocation_agrees(pool_buf: MBufView, heap_buf: MBufView, c: nat)
    requires
        pool_buf == empty_view(c),
        heap_buf == empty_view(c),
    ensures
        pool_buf == heap_buf,
{
}

/// The buffer-provisioning capability: allocate a fresh buffer, deep-copy an
/// existing one, release one.  Any algorithm written against this trait
/// behaves identically whichever realization backs it, because every
/// contract speaks only of buffer views.
pub trait Allocator: Sized {
    /// Data-room size of every buffer this provider hands out.
    spec fn buf_capacity(&self) -> nat;

    /// Which buffer states this provider takes back; a provider may only
    /// take back buffers drawn from itself.  After a successful allocation,
    /// the provider accepts every buffer whose capacity matches its data
    /// room, whatever was since written into it.
    spec fn accepts(&self, v: MBufView) -> bool;

    /// Whether this provider can never run out of buffers: allocation from
    /// it always succeeds, and a deep copy fails only for bytes that do not
    /// fit its data room.  Stable across the provider's operations.
    spec fn never_exhausted(&self) -> bool;

    /// Allocates a fresh, empty buffer.  Fails (typed, recoverable) when the
    /// provider is exhausted — never, for a provider that cannot be.
    fn allocate(&mut self) -> (r: Result<MBuf, Error>)
        ensures
            final(self).buf_capacity() == old(self).buf_capacity(),
            final(self).never_exhausted() == old(self).never_exhausted(),
            old(self).never_exhausted() ==> r is Ok,
            r is Ok ==> r->Ok_0@ == empty_view(old(self).buf_capacity()),
            r is Ok ==> forall|v: MBufView|
                v.capacity == old(self).buf_capacity() ==> #[trigger] final(self).accepts(v),
    ;

    /// Allocates a new independent buffer holding a copy of `mbuf`'s valid
    /// bytes (a deep copy; metadata is reset as on a fresh allocation).
    /// Fails when the provider is exhausted or the bytes do not fit its
    /// data room; bytes that do not fit always fail.
    fn clone(&mut self, mbuf: &MBuf) -> (r: Result<MBuf, Error>)
        ensures
            final(self).buf_capacity() == old(self).buf_capacity(),
            final(self).never_exhausted() == old(self).never_exhausted(),
            mbuf@.bytes.len() > old(self).buf_capacity() ==> r is Err,
            old(self).never_exhausted() && mbuf@.bytes.len() <= old(self).buf_capacity()
                ==> r is Ok,
            r is Ok ==> r->Ok_0@ == (MBufView {
                bytes: mbuf@.bytes,
                ..empty_view(old(self).buf_capacity())
            }),
            r is Ok ==> forall|v: MBufView|
                v.capacity == old(self).buf_capacity() ==> #[trigger] final(self).accepts(v),
    ;

    /// Takes a buffer back.  Must be called exactly once per allocated
    /// handle; the move consumes the handle, so a second release of the same
    /// handle cannot be written.
    fn free(&mut self, mbuf: MBuf)
        requires
            old(self).accepts(mbuf@),
        ensures
            final(self).buf_capacity() == old(self).buf_capacity(),
            final(self).never_exhausted() == old(self).never_exhausted(),
    ;
}

/// A provider backed by the process heap: every allocation draws a fresh
/// slot from ordinary memory, so buffer logic can run and be tested without
/// the native runtime.
pub struct GlobalAllocator {
    buf_size: usize,
}

impl GlobalAllocator {
    /// A heap provider whose buffers have the given data-room size.
    pub fn new(buf_size: usize) -> (a: GlobalAllocator)
        ensures
            a.buf_capacity() == buf_size,
    {
        GlobalAllocator { buf_size }
    }
}

impl Default for GlobalAllocator {
    /// A heap provider with the native library's default buffer size.
    fn default() -> (a: GlobalAllocator)
        ensures
            a.buf_capacity() == MBUF_DEFAULT_BUF_SIZE,
    {
        GlobalAllocator { buf_size: MBUF_DEFAULT_BUF_SIZE }
    }
}

impl Allocator for GlobalAllocator {
    closed spec fn buf_capacity(&self) -> nat {
        self.buf_size as nat
    }

    /// The heap accepts any handle back; its slots are ordinary memory.
    open spec fn accepts(&self, v: MBufView) -> bool {
        true
    }

    /// The heap never runs out of fresh slots.
    open spec fn never_exhausted(&self) -> bool {
        true
    }

    fn allocate(&mut self) -> (r: Result<MBuf, Error>)
        ensures
            r is Ok,
            *final(self) == *old(self),
    {
        let data: Vec<u8> = vec![0u8; self.buf_size];
        Ok(MBuf::from_slot(data))
    }

    fn clone(&mut self, mbuf: &MBuf) -> (r: Result<MBuf, Error>)
        ensures
            r is Ok <==> mbuf@.bytes.len() <= old(self).buf_capacity(),
            *final(self) == *old(self),
    {
        if mbuf.len() > self.buf_size {
            return Err(Error(ENOSPC));
        }
        let data: Vec<u8> = vec![0u8; self.buf_size];
        let mut copy = MBuf::from_slot(data);
        match copy.extend_from_slice(mbuf.as_slice()) {
            Ok(()) => Ok(copy),
            Err(e) => Err(e),
        }
    }

    fn free(&mut self, mbuf: MBuf) {
        let _ = mbuf.into_slot();
    }
}

impl MBuf {
    /// Allocates an empty buffer from the given provider; always succeeds
    /// on a provider that cannot be exhausted.
    pub fn new_with_provider<A: Allocator>(provider: &mut A) -> (r: Result<MBuf, Error>)
        ensures
            final(provider).buf_capacity() == old(provider).buf_capacity(),
            final(provider).never_exhausted() == old(provider).never_exhausted(),
            old(provider).never_exhausted() ==> r is Ok,
            r is Ok ==> r->Ok_0@ == empty_view(old(provider).buf_capacity()),
    {
        provider.allocate()
    }

    /// Allocates a buffer from the given provider and fills it with `data`.
    /// Data longer than the provider's data room always fails; on a
    /// provider that cannot be exhausted, fitting data always succeeds.
    pub fn new_with_provider_and_data<A: Allocator>(provider: &mut A, data: &[u8]) -> (r: Result<
        MBuf,
        Error,
    >)
        ensures
            final(provider).buf_capacity() == old(provider).buf_capacity(),
            final(provider).never_exhausted() == old(provider).never_exhausted(),
            data@.len() > old(provider).buf_capacity() ==> r is Err,
            old(provider).never_exhausted() && data@.len() <= old(provider).buf_capacity()
                ==> r is Ok,
            r is Ok ==> r->Ok_0@ == (MBufView {
                bytes: data@,
                ..empty_view(old(provider).buf_capacity())
            }),
    {
        let mut mbuf = provider.allocate()?;
        match mbuf.extend_from_slice(data) {
            Ok(()) => {
                proof {
                    assert(mbuf@.bytes =~= data@);
                }
                Ok(mbuf)
            },
            Err(e) => {
                provider.free(mbuf);
                Err(e)
            },
        }
    }

    /// Allocates an empty buffer from a fresh default provider.
    pub fn new<A: Allocator + Default>() -> (r: Result<MBuf, Error>)
        ensures
            r is Ok ==> {
                &&& r->Ok_0@.bytes == Seq::<u8>::empty()
                &&& r->Ok_0@.ol_flags == 0
                &&& r->Ok_0@.l2_len == 0
                &&& r->Ok_0@.l3_len == 0
            },
    {
        let mut provider = A::default();
        Self::new_with_provider(&mut provider)
    }

    /// Allocates a buffer holding `data` from a fresh default provider.
    pub fn new_with_data<A: Allocator + Default>(data: &[u8]) -> (r: Result<MBuf, Error>)
        ensures
            r is Ok ==> {
                &&& r->Ok_0@.bytes == data@
                &&& r->Ok_0@.ol_flags == 0
                &&& r->Ok_0@.l2_len == 0
                &&& r->Ok_0@.l3_len == 0
            },
    {
        let mut provider = A::default();
        Self::new_with_provider_and_data(&mut provider, data)
    }
}

/// Allocates one buffer per byte string in `bufs`, each filled with that
/// byte string, all drawn from the given provider.  A byte string longer
/// than the provider's data room always fails the whole call; on a
/// provider that cannot be exhausted, all-fitting byte strings always
/// succeed — two strings of two bytes each yield two filled buffers.
pub fn alloc_mbufs<A: Allocator>(provider: &mut A, bufs: &Vec<Vec<u8>>) -> (r: Result<
    Vec<MBuf>,
    Error,
>)
    ensures
        final(provider).buf_capacity() == old(provider).buf_capacity(),
        final(provider).never_exhausted() == old(provider).never_exhausted(),
        r is Ok ==> forall|i: int|
            0 <= i < bufs@.len() ==> (#[trigger] bufs@[i])@.len() <= old(
                provider,
            ).buf_capacity(),
        (old(provider).never_exhausted() && forall|i: int|
            0 <= i < bufs@.len() ==> (#[trigger] bufs@[i])@.len() <= old(provider).buf_capacity())
            ==> r is Ok,
        r is Ok ==> {
            &&& r->Ok_0@.len() == bufs@.len()
            &&& forall|i: int|
                0 <= i < bufs@.len() ==> #[trigger] r->Ok_0@[i]@ == (MBufView {
                    bytes: bufs@[i]@,
                    ..empty_view(old(provider).buf_capacity())
                })
        },
{
    let mut out: Vec<MBuf> = Vec::new();
    let n = bufs.len();
    let mut i: usize = 0;
    while i < n
        invariant
            n == bufs@.len(),
            i <= n,
            provider.buf_capacity() == old(provider).buf_capacity(),
            provider.never_exhausted() == old(provider).never_exhausted(),
            out@.len() == i,
            forall|k: int|
                0 <= k < i ==> (#[trigger] bufs@[k])@.len() <= old(provider).buf_capacity(),
            forall|k: int|
                0 <= k < i ==> #[trigger] out@[k]@ == (MBufView {
                    bytes: bufs@[k]@,
                    ..empty_view(old(provider).buf_capacity())
                }),
        decreases n - i,
    {
        let m = MBuf::new_with_provider_and_data(provider, bufs[i].as_slice())?;
        out.push(m);
        i = i + 1;
    }
    Ok(out)
}

} // verus!
