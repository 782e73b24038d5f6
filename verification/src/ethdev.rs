//! Ethernet device handles and the buffer accounting of burst transfer.
//!
//! A device is addressed by a port number; its control operations
//! (configure, start, stop, queue setup) are single calls into the native
//! runtime.  What this layer owns is the *accounting* around the batched
//! receive and transmit calls: the native side reports how many buffers it
//! filled or consumed, and the caller's bounded collection of [`MBuf`]s
//! must be adjusted to match that count exactly — transferred buffers must
//! not be released again by the caller, and the buffers not transferred
//! must stay with the caller, untouched.  [`MBufBurst`] is that bounded
//! collection, and its commit operations are the verified half of the
//! burst path.

use vstd::prelude::*;

use crate::error::{Error, ENOSPC};
use crate::mbuf::MBuf;

verus! {

/// The largest queue identifier.
pub const MAX_QUEUE: u16 = 65535;

/// An Ethernet device (port) handle.
#[derive(PartialEq, Eq, Structural, Clone, Copy, Debug)]
pub struct EthDev {
    port_id: u16,
}

impl EthDev {
    /// A handle for the given port number.
    pub fn new(port_id: u16) -> (r: EthDev)
        ensures
            r.spec_port_id() == port_id,
    {
        EthDev { port_id }
    }

    /// The port number this handle addresses.
    pub fn port_id(&self) -> (r: u16)
        ensures
            r == self.spec_port_id(),
    {
        self.port_id
    }

    /// The port number, in specifications.
    pub closed spec fn spec_port_id(&self) -> u16 {
        self.port_id
    }
}

/// Link-level information of an Ethernet port.
pub struct EthLink {
    /// Link speed in Mbps.
    pub speed: u32,
    /// Whether the link is full duplex.
    pub duplex: bool,
    /// Whether the speed was autonegotiated.
    pub autoneg: bool,
    /// Whether the link is up.
    pub up: bool,
}

/// Receive-side scaling configuration: an optional 40-byte hash key and
/// the word of hash-function flags.
pub struct EthRssConf {
    /// The RSS hash key, if one is pinned.
    pub key: Option<[u8; 40]>,
    /// The word of hash-function flags.
    pub hash: u64,
}

/// The names of a device's extended statistics, retrieved once and reused
/// for each reading.
pub struct XStatsDefs {
    names: Vec<String>,
}

impl View for XStatsDefs {
    type V = Seq<String>;

    closed spec fn view(&self) -> Seq<String> {
        self.names@
    }
}

impl XStatsDefs {
    /// Wraps the retrieved statistic names.
    pub fn new(names: Vec<String>) -> (r: XStatsDefs)
        ensures
            r@ == names@,
    {
        XStatsDefs { names }
    }

    /// The statistic names, in order.
    pub fn names(&self) -> (r: &Vec<String>)
        ensures
            r@ == self@,
    {
        &self.names
    }
}

/// The abstract state of a burst collection: the buffers it holds, in
/// order, and the bound it was created with.
pub struct MBufBurstView {
    /// The buffers, front first.
    pub items: Seq<MBuf>,
    /// The bound: never more buffers than this.
    pub capacity: nat,
}

/// A bounded collection of packet buffers for batched receive and
/// transmit: the caller-supplied storage the native burst calls fill and
/// drain.
pub struct MBufBurst {
    items: Vec<MBuf>,
    cap: usize,
}

impl View for MBufBurst {
    type V = MBufBurstView;

    closed spec fn view(&self) -> MBufBurstView {
        MBufBurstView { items: self.items@, capacity: self.cap as nat }
    }
}

impl MBufBurst {
    /// The bound is never exceeded.
    #[verifier::type_invariant]
    closed spec fn wf(self) -> bool {
        self.items@.len() <= self.cap
    }

    /// An empty collection with the given bound.
    pub fn with_capacity(cap: usize) -> (r: MBufBurst)
        ensures
            r@.items == Seq::<MBuf>::empty(),
            r@.capacity == cap,
    {
        let r = MBufBurst { items: Vec::new(), cap };
        proof {
            assert(r@.items =~= Seq::<MBuf>::empty());
        }
        r
    }

    /// How many buffers the collection holds.
    pub fn len(&self) -> (n: usize)
        ensures
            n == self@.items.len(),
    {
        self.items.len()
    }

    /// The bound the collection was created with.
    pub fn capacity(&self) -> (n: usize)
        ensures
            n == self@.capacity,
    {
        self.cap
    }

    /// Room left before the bound.
    pub fn remaining_capacity(&self) -> (n: usize)
        ensures
            n == self@.capacity - self@.items.len(),
    {
        proof {
            use_type_invariant(self);
        }
        self.cap - self.items.len()
    }

    /// Appends one buffer, handing it back when the collection is full.
    pub fn push(&mut self, mbuf: MBuf) -> (r: Result<(), (Error, MBuf)>)
        ensures
            r is Ok <==> old(self)@.items.len() < old(self)@.capacity,
            r is Ok ==> final(self)@.items == old(self)@.items.push(mbuf) && final(self)@.capacity
                == old(self)@.capacity,
            r is Err ==> final(self)@ == old(self)@ && r->Err_0.0 == Error(ENOSPC)
                && r->Err_0.1 == mbuf,
    {
        proof {
            use_type_invariant(&*self);
        }
        if self.items.len() < self.cap {
            let mut items: Vec<MBuf> = Vec::new();
            core::mem::swap(&mut self.items, &mut items);
            items.push(mbuf);
            core::mem::swap(&mut self.items, &mut items);
            Ok(())
        } else {
            Err((Error(ENOSPC), mbuf))
        }
    }

    /// The buffer at position `i`.
    pub fn get(&self, i: usize) -> (r: &MBuf)
        requires
            i < self@.items.len(),
        ensures
            *r == self@.items[i as int],
    {
        &self.items[i]
    }

    /// Transmit-side accounting.  The native transmit call consumed the
    /// first `transmitted` buffers of the collection and took ownership of
    /// them; this removes exactly those buffers, in order, and returns them
    /// as the transferred batch, which the caller must not release.  The
    /// buffers not transmitted stay, in order and untouched.
    pub fn commit_transmitted(&mut self, transmitted: usize) -> (sent: Vec<MBuf>)
        requires
            transmitted <= old(self)@.items.len(),
        ensures
            sent@ == old(self)@.items.take(transmitted as int),
            final(self)@.items == old(self)@.items.skip(transmitted as int),
            final(self)@.capacity == old(self)@.capacity,
    {
        proof {
            use_type_invariant(&*self);
        }
        let mut items: Vec<MBuf> = Vec::new();
        core::mem::swap(&mut self.items, &mut items);
        let mut sent: Vec<MBuf> = Vec::new();
        let mut j: usize = 0;
        while j < transmitted
            invariant
                transmitted <= old(self)@.items.len(),
                j <= transmitted,
                items@ == old(self)@.items.skip(j as int),
                sent@ == old(self)@.items.take(j as int),
            decreases transmitted - j,
        {
            let m = items.remove(0);
            sent.push(m);
            proof {
                assert(items@ =~= old(self)@.items.skip(j + 1));
                assert(sent@ =~= old(self)@.items.take(j + 1));
            }
            j = j + 1;
        }
        core::mem::swap(&mut self.items, &mut items);
        sent
    }

    /// Receive-side accounting.  The native receive call wrote `received`
    /// buffers into the collection's spare storage — never more than the
    /// room left before the bound — and this adjusts the collection to hold
    /// them after the buffers already present, in arrival order.
    pub fn absorb_received(&mut self, received: Vec<MBuf>)
        requires
            received@.len() <= old(self)@.capacity - old(self)@.items.len(),
        ensures
            final(self)@.items == old(self)@.items + received@,
            final(self)@.capacity == old(self)@.capacity,
    {
        proof {
            use_type_invariant(&*self);
        }
        let mut items: Vec<MBuf> = Vec::new();
        core::mem::swap(&mut self.items, &mut items);
        let mut incoming = received;
        let ghost all = incoming@;
        let mut j: usize = 0;
        let n = incoming.len();
        while j < n
            invariant
                n == all.len(),
                j <= n,
                incoming@ == all.skip(j as int),
                items@ == old(self)@.items + all.take(j as int),
            decreases n - j,
        {
            let m = incoming.remove(0);
            items.push(m);
            proof {
                assert(incoming@ =~= all.skip(j + 1));
                assert(items@ =~= old(self)@.items + all.take(j + 1));
            }
            j = j + 1;
        }
        proof {
            assert(items@ =~= old(self)@.items + all);
        }
        core::mem::swap(&mut self.items, &mut items);
    }

    /// Gives up the whole collection as a plain vector, front first.
    pub fn into_vec(self) -> (r: Vec<MBuf>)
        ensures
            r@ == self@.items,
    {
        self.items
    }
}

/// Burst accounting law: when the native call reports `transmitted` of the
/// collection's buffers sent, the transferred batch is exactly the first
/// `transmitted` buffers and what stays is exactly the rest — splitting
/// the old contents with nothing lost, duplicated or reordered.
pub proof fn lemma_burst_accounting(pre: Seq<MBuf>, transmitted: int)
    requires
        0 <= transmitted <= pre.len(),
    ensures
        pre.take(transmitted) + pre.skip(transmitted) == pre,
        pre.take(transmitted).len() == transmitted,
        pre.skip(transmitted).len() == pre.len() - transmitted,
        forall|k: int| 0 <= k < transmitted ==> pre.take(transmitted)[k] == pre[k],
        forall|k: int|
            transmitted <= k < pre.len() ==> pre.skip(transmitted)[k - transmitted] == pre[k],
{
    assert(pre.take(transmitted) + pre.skip(transmitted) =~= pre);
}

} // verus!
