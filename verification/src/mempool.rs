//! A fixed-capacity pool of equally-sized buffer slots.
//!
//! A [`MemoryPool`] owns a pre-allocated collection of `size` slots, each of
//! `data_room_size` bytes, together with the bookkeeping parameters the
//! native pool carries (name, per-core cache size, per-slot private metadata
//! size, NUMA socket).  Allocation hands a free slot out as an empty
//! [`MBuf`]; release takes the slot back for reuse.  Allocation fails fast
//! with a typed exhaustion error when no free slot remains — it never
//! blocks and never retries.
//!
//! The pool must outlive every buffer allocated from it, and releasing a
//! buffer into a pool it was not drawn from is rejected by the release
//! contract (the handle's data room must match this pool's and the pool
//! must have a slot outstanding).
//!
//! A deliberate deviation from the native pool: the native allocate and
//! release operations are internally synchronized, so a native pool handle
//! is shareable across threads while the buffer handle stays move-only.
//! This model does not carry interior mutability, so its pool operations
//! take an exclusive reference; the asymmetry (shareable pool, exclusive
//! buffer) belongs to the native runtime, not to this model.  The buffer
//! handle is move-only here as there.

use vstd::prelude::*;

use crate::error::{Error, ENOENT};
use crate::mbuf::{empty_view, Allocator, MBuf, MBufView};

verus! {

/// The abstract state of a pool: its construction parameters and how many
/// slots are currently free.
pub struct MemoryPoolView {
    /// The pool's bookkeeping name.
    pub name: Seq<u8>,
    /// Total number of slots.
    pub size: u32,
    /// Per-core cache size parameter (bookkeeping only in this model).
    pub cache_size: u32,
    /// Per-slot private metadata size parameter (bookkeeping only).
    pub private_size: u16,
    /// Data room of each slot, in bytes.
    pub data_room_size: u16,
    /// The NUMA socket the pool is associated with.
    pub socket_id: i32,
    /// Number of slots currently free.
    pub available: nat,
}

/// A fixed-capacity, pre-allocated collection of equally-sized buffer
/// slots.
pub struct MemoryPool {
    name: Vec<u8>,
    /// The free slots; each is a data room of exactly `data_room_size`
    /// bytes.
    slots: Vec<Vec<u8>>,
    size: u32,
    cache_size: u32,
    private_size: u16,
    data_room_size: u16,
    socket_id: i32,
}

impl View for MemoryPool {
    type V = MemoryPoolView;

    closed spec fn view(&self) -> MemoryPoolView {
        MemoryPoolView {
            name: self.name@,
            size: self.size,
            cache_size: self.cache_size,
            private_size: self.private_size,
            data_room_size: self.data_room_size,
            socket_id: self.socket_id,
            available: self.slots@.len(),
        }
    }
}

impl MemoryPool {
    /// Validity of a pool: never more free slots than the pool's size, and
    /// every free slot is exactly one data room.
    #[verifier::type_invariant]
    closed spec fn wf(self) -> bool {
        &&& self.slots@.len() <= self.size
        &&& forall|i: int|
            0 <= i < self.slots@.len() ==> (#[trigger] self.slots@[i])@.len()
                == self.data_room_size
    }

    /// The construction parameters and free count, unchanged except for
    /// `available`.
    pub open spec fn spec_same_pool(pre: MemoryPoolView, post: MemoryPoolView) -> bool {
        &&& post.name == pre.name
        &&& post.size == pre.size
        &&& post.cache_size == pre.cache_size
        &&& post.private_size == pre.private_size
        &&& post.data_room_size == pre.data_room_size
        &&& post.socket_id == pre.socket_id
    }

    /// Creates a pool of `size` slots, each with a data room of
    /// `data_room_size` bytes, pre-allocating all of them.
    ///
    /// The name is handed to the native side as a C string, so it must not
    /// contain a zero byte.  This realization draws the slots from the
    /// process heap, so creation always succeeds; the fallible signature is
    /// kept because pool creation is a fallible operation of the interface.
    pub fn new(
        name: Vec<u8>,
        size: u32,
        cache_size: u32,
        private_size: u16,
        data_room_size: u16,
        socket_id: i32,
    ) -> (r: Result<MemoryPool, Error>)
        requires
            forall|i: int| 0 <= i < name@.len() ==> name@[i] != 0,
        ensures
            r is Ok,
            r->Ok_0@ == (MemoryPoolView {
                name: name@,
                size,
                cache_size,
                private_size,
                data_room_size,
                socket_id,
                available: size as nat,
            }),
    {
        let mut slots: Vec<Vec<u8>> = Vec::new();
        let mut i: u32 = 0;
        while i < size
            invariant
                i <= size,
                slots@.len() == i,
                forall|k: int|
                    0 <= k < i ==> (#[trigger] slots@[k])@.len() == data_room_size,
            decreases size - i,
        {
            let slot: Vec<u8> = vec![0u8; data_room_size as usize];
            slots.push(slot);
            i = i + 1;
        }
        Ok(MemoryPool { name, slots, size, cache_size, private_size, data_room_size, socket_id })
    }

    /// Allocates an empty buffer from the pool.
    ///
    /// Succeeds exactly when a free slot remains; otherwise fails with the
    /// exhaustion error and leaves the pool untouched.  Never blocks.
    pub fn allocate_buffer(&mut self) -> (r: Result<MBuf, Error>)
        ensures
            r is Ok <==> old(self)@.available > 0,
            r is Ok ==> {
                &&& r->Ok_0@ == empty_view(old(self)@.data_room_size as nat)
                &&& final(self)@.available == old(self)@.available - 1
                &&& Self::spec_same_pool(old(self)@, final(self)@)
            },
            r is Err ==> final(self)@ == old(self)@ && r == Err::<MBuf, Error>(Error(ENOENT)),
    {
        proof {
            use_type_invariant(&*self);
        }
        let mut slots: Vec<Vec<u8>> = Vec::new();
        core::mem::swap(&mut self.slots, &mut slots);
        let r = match slots.pop() {
            Some(slot) => Ok(MBuf::from_slot(slot)),
            None => Err(Error(ENOENT)),
        };
        core::mem::swap(&mut self.slots, &mut slots);
        r
    }

    /// Returns a buffer's slot to the pool for reuse, consuming the handle.
    ///
    /// The handle must have been drawn from this pool: its data room must
    /// match the pool's and the pool must have a slot outstanding.
    pub fn free_buffer(&mut self, mbuf: MBuf)
        requires
            mbuf@.capacity == old(self)@.data_room_size,
            old(self)@.available < old(self)@.size,
        ensures
            final(self)@.available == old(self)@.available + 1,
            Self::spec_same_pool(old(self)@, final(self)@),
    {
        proof {
            use_type_invariant(&*self);
        }
        let slot = mbuf.into_slot();
        let mut slots: Vec<Vec<u8>> = Vec::new();
        core::mem::swap(&mut self.slots, &mut slots);
        slots.push(slot);
        core::mem::swap(&mut self.slots, &mut slots);
    }

    /// The pool's bookkeeping name.  The native read stops at the first
    /// zero byte; names hold none by construction, so this is the whole
    /// name.
    pub fn name(&self) -> (n: &[u8])
        ensures
            n@ == self@.name,
    {
        self.name.as_slice()
    }

    /// The number of slots the pool was created with.
    pub fn size(&self) -> (n: u32)
        ensures
            n == self@.size,
    {
        self.size
    }

    /// The per-core cache size parameter.
    pub fn cache_size(&self) -> (n: u32)
        ensures
            n == self@.cache_size,
    {
        self.cache_size
    }

    /// The per-slot private metadata size parameter.
    pub fn private_data_size(&self) -> (n: u16)
        ensures
            n == self@.private_size,
    {
        self.private_size
    }

    /// The data room of each slot, in bytes.
    pub fn data_room_size(&self) -> (n: u16)
        ensures
            n == self@.data_room_size,
    {
        self.data_room_size
    }

    /// The NUMA socket the pool is associated with.
    pub fn socket_id(&self) -> (n: i32)
        ensures
            n == self@.socket_id,
    {
        self.socket_id
    }

    /// Number of free slots.
    pub fn get_available_count(&self) -> (n: u32)
        ensures
            n == self@.available,
            n <= self@.size,
    {
        proof {
            use_type_invariant(self);
        }
        self.slots.len() as u32
    }

    /// Number of slots currently handed out, always
    /// `size() - get_available_count()`.
    pub fn get_in_use_count(&self) -> (n: u32)
        ensures
            n == self@.size - self@.available,
    {
        proof {
            use_type_invariant(self);
        }
        self.size - self.get_available_count()
    }
}

/// Slot recycling law: allocating a buffer and releasing it returns the
/// pool to exactly its starting state — the slot is neither lost (leak)
/// nor counted twice (double release), whatever happened to the buffer in
/// between.  `mid` is the pool after one successful allocation from `pre`,
/// `post` the pool after one release into `mid`, as the contracts of
/// `allocate_buffer` and `free_buffer` describe them.
pub proof fn lemma_allocate_release_roundtrip(
    pre: MemoryPoolView,
    mid: MemoryPoolView,
    post: MemoryPoolView,
)
    requires
        pre.available > 0,
        MemoryPool::spec_same_pool(pre, mid),
        mid.available == pre.available - 1,
        MemoryPool::spec_same_pool(mid, post),
        post.available == mid.available + 1,
    ensures
        post == pre,
{
}

/// Slot conservation: a pool never has more free slots than its size, so
/// the free count and the in-use count always partition the pool's
/// capacity.  This observer makes the fact available for any live pool.
pub fn pool_conservation(pool: &MemoryPool)
    ensures
        pool@.available <= pool@.size,
        pool@.available + (pool@.size - pool@.available) == pool@.size,
{
    proof {
        use_type_invariant(pool);
    }
}

impl Allocator for MemoryPool {
    closed spec fn buf_capacity(&self) -> nat {
        self.data_room_size as nat
    }

    /// The pool takes back exactly the buffers whose data room matches its
    /// slots, while it has a slot outstanding.
    open spec fn accepts(&self, v: MBufView) -> bool {
        v.capacity == self@.data_room_size && self@.available < self@.size
    }

    /// A pool has a fixed number of slots and can always be exhausted.
    open spec fn never_exhausted(&self) -> bool {
        false
    }

    fn allocate(&mut self) -> (r: Result<MBuf, Error>)
        ensures
            r is Ok <==> old(self)@.available > 0,
            r is Ok ==> final(self)@.available == old(self)@.available - 1,
            r is Err ==> final(self)@.available == old(self)@.available,
            Self::spec_same_pool(old(self)@, final(self)@),
    {
        proof {
            use_type_invariant(&*self);
        }
        self.allocate_buffer()
    }

    fn clone(&mut self, mbuf: &MBuf) -> (r: Result<MBuf, Error>)
        ensures
            r is Ok <==> old(self)@.available > 0 && mbuf@.bytes.len()
                <= old(self)@.data_room_size,
            r is Ok ==> final(self)@.available == old(self)@.available - 1,
            r is Err ==> final(self)@.available == old(self)@.available,
            Self::spec_same_pool(old(self)@, final(self)@),
    {
        proof {
            use_type_invariant(&*self);
        }
        let mut copy = self.allocate_buffer()?;
        match copy.extend_from_slice(mbuf.as_slice()) {
            Ok(()) => Ok(copy),
            Err(e) => {
                self.free_buffer(copy);
                Err(e)
            },
        }
    }

    fn free(&mut self, mbuf: MBuf)
        ensures
            final(self)@.available == old(self)@.available + 1,
            Self::spec_same_pool(old(self)@, final(self)@),
    {
        self.free_buffer(mbuf);
    }
}

} // verus!
