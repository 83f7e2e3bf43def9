//! Virtio transports and the split-virtqueue engine.
use vstd::prelude::*;

use crate::bytes::{le_decode, le_value, lemma_le_value_bound, read_u16};
use vstd::wrapping::u64_specs::wrapping_add;
use crate::memory::{GuestRam, RamEvent, RamLog, lemma_seen_grows, read_seen, write_seen};

pub mod mmio;
pub mod pci;
pub mod rng;
pub mod blk;

verus! {

pub const VIRTIO_MAGIC: u32 = 0x7472_6976;
pub const VIRTIO_VERSION: u32 = 2;
pub const VIRTIO_VENDOR: u32 = 0x554d_4551;

pub const VIRTIO_F_VERSION_1: u64 = 0x1_0000_0000;

pub const VIRTQ_DESC_F_NEXT: u16 = 1;
pub const VIRTQ_DESC_F_WRITE: u16 = 2;

/// A virtio device backend.
pub trait VirtioDevice: Send {
    /// The virtio device ID (e.g. 4 for the entropy source); a fixed
    /// property of the backend.
    spec fn spec_device_id(&self) -> u32;

    /// The 64-bit device feature set; a fixed property of the backend.
    spec fn spec_device_features(&self) -> u64;

    /// The number of virtqueues; a fixed property of the backend.
    spec fn spec_num_queues(&self) -> usize;

    /// The notifications handed to the backend so far, oldest first: the
    /// queue index and the queue as it was handed over.
    spec fn notifications(&self) -> Seq<(usize, Virtqueue)>;

    fn device_id(&self) -> (r: u32)
        ensures
            r == self.spec_device_id(),
    ;

    fn device_features(&self) -> (r: u64)
        ensures
            r == self.spec_device_features(),
    ;

    fn num_queues(&self) -> (r: usize)
        ensures
            r == self.spec_num_queues(),
    ;

    /// Handle a notification on virtqueue `queue_idx`. Returns true if a
    /// used-ring interrupt should be raised.
    fn on_notify(&mut self, queue_idx: usize, queue: &mut Virtqueue, mem: &dyn GuestRam) -> (raise: bool)
        ensures
            notify_outcome(*old(queue), *final(queue), raise),
            final(self).notifications() == old(self).notifications().push((queue_idx, *old(queue))),
            final(self).spec_device_id() == old(self).spec_device_id(),
            final(self).spec_device_features() == old(self).spec_device_features(),
            final(self).spec_num_queues() == old(self).spec_num_queues(),
    ;

    /// What a read of the device-specific configuration space at `offset`
    /// leaves in a buffer that held `data`.
    spec fn config_read_result(&self, offset: u64, data: Seq<u8>) -> Seq<u8>;

    /// Read from the device-specific configuration space.
    fn read_config(&self, offset: u64, data: &mut [u8])
        ensures
            final(data)@.len() == old(data)@.len(),
            final(data)@ == self.config_read_result(offset, old(data)@),
    ;

    /// Write to the device-specific configuration space.
    fn write_config(&mut self, _offset: u64, _data: &[u8])
        ensures
            final(self).notifications() == old(self).notifications(),
            final(self).spec_device_id() == old(self).spec_device_id(),
            final(self).spec_device_features() == old(self).spec_device_features(),
            final(self).spec_num_queues() == old(self).spec_num_queues(),
    {
    }
}

/// What a notification does to a queue: only the consumer index may move,
/// and an interrupt is asked for exactly when it moved.
pub open spec fn notify_outcome(old: Virtqueue, new: Virtqueue, raise: bool) -> bool {
    &&& new == (Virtqueue { last_avail_idx: new.last_avail_idx, ..old })
    &&& raise <==> new.last_avail_idx != old.last_avail_idx
}

/// Handles one descriptor chain taken off a virtqueue and returns the number
/// of bytes it wrote into guest buffers.
pub trait ChainProcessor {
    /// The descriptor chains handed to the processor so far, oldest first.
    spec fn chains(&self) -> Seq<Seq<VirtqDesc>>;

    fn process_chain(&mut self, chain: &mut [VirtqDesc], mem: &dyn GuestRam) -> (written: u32)
        ensures
            final(self).chains() == old(self).chains().push(old(chain)@),
    ;
}

/// A split-virtqueue descriptor.
#[derive(Clone, Copy, Debug, Default)]
pub struct VirtqDesc {
    pub addr: u64,
    pub len: u32,
    pub flags: u16,
    pub next: u16,
}

/// The descriptor encoded by 16 little-endian bytes.
pub open spec fn spec_decode_desc(b: Seq<u8>) -> VirtqDesc {
    VirtqDesc {
        addr: le_value(b, 0, 8) as u64,
        len: le_value(b, 8, 4) as u32,
        flags: le_value(b, 12, 2) as u16,
        next: le_value(b, 14, 2) as u16,
    }
}

/// Decode a 16-byte descriptor table entry.
fn decode_desc(b: &Vec<u8>) -> (d: VirtqDesc)
    requires
        b@.len() >= 16,
    ensures
        d == spec_decode_desc(b@),
{
    let blen = b.len();
    assert(b@.len() == blen);
    let addr = le_decode(b.as_slice(), 0, 8);
    let len = le_decode(b.as_slice(), 8, 4);
    let flags = le_decode(b.as_slice(), 12, 2);
    let next = le_decode(b.as_slice(), 14, 2);
    proof {
        lemma_le_value_bound(b@, 8, 4);
        lemma_le_value_bound(b@, 12, 2);
        lemma_le_value_bound(b@, 14, 2);
        vstd::arithmetic::power2::lemma2_to64();
    }
    VirtqDesc { addr, len: len as u32, flags: flags as u16, next: next as u16 }
}

/// The 8-byte used-ring element `{ id: u32, len: u32 }`, little-endian.
pub open spec fn spec_used_elem(id: u32, len: u32) -> Seq<u8> {
    seq![
        id as u8,
        (id >> 8u32) as u8,
        (id >> 16u32) as u8,
        (id >> 24u32) as u8,
        len as u8,
        (len >> 8u32) as u8,
        (len >> 16u32) as u8,
        (len >> 24u32) as u8,
    ]
}

fn encode_used_elem(id: u32, len: u32) -> (r: Vec<u8>)
    ensures
        r@ == spec_used_elem(id, len),
{
    let r = vec![
        id as u8,
        (id >> 8u32) as u8,
        (id >> 16u32) as u8,
        (id >> 24u32) as u8,
        len as u8,
        (len >> 8u32) as u8,
        (len >> 16u32) as u8,
        (len >> 24u32) as u8,
    ];
    assert(r@ =~= spec_used_elem(id, len));
    r
}

/// A split virtqueue as configured by the driver.
pub struct Virtqueue {
    pub desc_table: u64,
    pub avail_ring: u64,
    pub used_ring: u64,
    pub num: u16,
    pub last_avail_idx: u16,
    pub ready: bool,
}

/// The power-on state of a queue.
pub open spec fn spec_queue_reset(q: Virtqueue) -> bool {
    q.desc_table == 0 && q.avail_ring == 0 && q.used_ring == 0 && q.num == 0 && q.last_avail_idx
        == 0 && !q.ready
}

/// Guest-physical address of the available ring's `idx` field.
pub open spec fn spec_avail_idx_addr(q: Virtqueue) -> u64 {
    wrapping_add(q.avail_ring, 2)
}

/// Guest-physical address of the available-ring entry that position `idx`
/// of the ring stream occupies.
pub open spec fn spec_avail_entry_addr(q: Virtqueue, idx: u16) -> u64 {
    wrapping_add(wrapping_add(q.avail_ring, 4), ((idx % q.num) * 2) as u64)
}

/// Guest-physical address of descriptor `i` of the descriptor table.
pub open spec fn spec_desc_addr(q: Virtqueue, i: u16) -> u64 {
    wrapping_add(q.desc_table, (i * 16) as u64)
}

/// Guest-physical address of the used-ring element for position `idx`.
pub open spec fn spec_used_elem_addr(q: Virtqueue, idx: u16) -> u64 {
    wrapping_add(wrapping_add(q.used_ring, 4), ((idx % q.num) * 8) as u64)
}

/// Guest-physical address of the used ring's `idx` field.
pub open spec fn spec_used_idx_addr(q: Virtqueue) -> u64 {
    wrapping_add(q.used_ring, 2)
}

/// The number of chains the driver has made available beyond `last`: the
/// distance from `last` to `avail` modulo 2^16.
pub open spec fn spec_pending(last: u16, avail: u16) -> int {
    (avail - last + 0x1_0000) % 0x1_0000
}

/// Where a chain goes after descriptor `d`, the chain now holding `len`
/// descriptors: to `d.next` when `d` has the NEXT flag and the chain is not
/// longer than the queue; otherwise the chain ends.
pub open spec fn spec_chain_next(d: VirtqDesc, len: nat, num: u16) -> Option<u16> {
    if d.flags & VIRTQ_DESC_F_NEXT != 0 && len <= num {
        Some(d.next)
    } else {
        None
    }
}

/// Every descriptor of `c` but the last carries the NEXT flag.
pub open spec fn chain_linked(c: Seq<VirtqDesc>) -> bool {
    forall|j: int| 0 <= j < c.len() - 1 ==> #[trigger] c[j].flags & VIRTQ_DESC_F_NEXT != 0
}

/// A read of the available-ring entry at `pos` of `q` was refused or came
/// back short.
pub open spec fn ring_read_failed(ev: Seq<RamEvent>, q: Virtqueue, pos: u16) -> bool {
    exists|e: int|
        0 <= e < ev.len() && !(#[trigger] ev[e]).write && ev[e].gpa == spec_avail_entry_addr(q, pos) && ev[e].len
            == 2 && (!ev[e].ok || ev[e].data.len() < 2)
}

/// An event of a record is still there, at the same place, once more
/// events follow; so is a refused ring read.
proof fn lemma_prefix_events(ev1: Seq<RamEvent>, ev2: Seq<RamEvent>, q: Virtqueue, pos: u16)
    requires
        ev1.len() <= ev2.len(),
        ev2.subrange(0, ev1.len() as int) == ev1,
    ensures
        forall|i: int| 0 <= i < ev1.len() ==> #[trigger] ev2[i] == ev1[i],
        ring_read_failed(ev1, q, pos) ==> ring_read_failed(ev2, q, pos),
{
    assert forall|i: int| 0 <= i < ev1.len() implies #[trigger] ev2[i] == ev1[i] by {
        assert(ev2.subrange(0, ev1.len() as int)[i] == ev2[i]);
    }
    if ring_read_failed(ev1, q, pos) {
        let e = choose|e: int|
            0 <= e < ev1.len() && !(#[trigger] ev1[e]).write && ev1[e].gpa == spec_avail_entry_addr(q, pos) && ev1[e].len
                == 2 && (!ev1[e].ok || ev1[e].data.len() < 2);
        assert(ev2[e] == ev1[e]);
    }
}

/// Ring position `k` steps after `last`.
pub open spec fn ring_pos(last: u16, k: int) -> u16 {
    ((last + k) % 0x1_0000) as u16
}

/// Descriptor `d` is what a successful read of table entry `i` of `q`
/// gave.
pub open spec fn desc_fetched(ev: Seq<RamEvent>, q: Virtqueue, i: u16, d: VirtqDesc) -> bool {
    exists|b: Seq<u8>|
        #[trigger] read_seen(ev, spec_desc_addr(q, i), 16, b) && b.len() >= 16 && spec_decode_desc(b) == d
}

/// A chain `c` with head `h`, taken at ring position `pos`: its first
/// descriptor is table entry `h`, and the used-ring element for `pos` was
/// written with `h` as its id.
pub open spec fn head_fetched(ev: Seq<RamEvent>, q: Virtqueue, pos: u16, h: u16, c: Seq<VirtqDesc>) -> bool {
    &&& c.len() > 0 ==> desc_fetched(ev, q, h, c[0])
    &&& exists|t: u32| #[trigger] write_seen(ev, spec_used_elem_addr(q, pos), spec_used_elem(h as u32, t))
}

/// Chain `c` was taken at ring position `pos` of `q` as guest memory gave
/// it: its head was read from the available ring at `pos`, each later
/// descriptor is the table entry the one before names in its `next`
/// field, and the used-ring element for `pos` records the head.
pub open spec fn chain_fetched(ev: Seq<RamEvent>, q: Virtqueue, pos: u16, c: Seq<VirtqDesc>) -> bool {
    &&& exists|hd: Seq<u8>|
        #[trigger] read_seen(ev, spec_avail_entry_addr(q, pos), 2, hd) && hd.len() >= 2 && head_fetched(
            ev,
            q,
            pos,
            le_value(hd, 0, 2) as u16,
            c,
        )
    &&& forall|j: int| 0 <= j < c.len() - 1 ==> #[trigger] desc_fetched(ev, q, c[j].next, c[j + 1])
}

/// What a chain's record says stays true once more accesses follow.
proof fn lemma_chain_grows(ev1: Seq<RamEvent>, ev2: Seq<RamEvent>, q: Virtqueue, h: u16, c: Seq<VirtqDesc>)
    requires
        ev1.len() <= ev2.len(),
        ev2.subrange(0, ev1.len() as int) == ev1,
    ensures
        c.len() > 0 && desc_fetched(ev1, q, h, c[0]) ==> desc_fetched(ev2, q, h, c[0]),
        (forall|j: int| 0 <= j < c.len() - 1 ==> #[trigger] desc_fetched(ev1, q, c[j].next, c[j + 1]))
            ==> (forall|j: int| 0 <= j < c.len() - 1 ==> #[trigger] desc_fetched(ev2, q, c[j].next, c[j + 1])),
        forall|i: u16, d: VirtqDesc| #[trigger] desc_fetched(ev1, q, i, d) ==> desc_fetched(ev2, q, i, d),
{
    lemma_seen_grows(ev1, ev2);
    assert forall|i: u16, d: VirtqDesc| #[trigger] desc_fetched(ev1, q, i, d) implies desc_fetched(ev2, q, i, d) by {
        let b = choose|b: Seq<u8>|
            #[trigger] read_seen(ev1, spec_desc_addr(q, i), 16, b) && b.len() >= 16 && spec_decode_desc(b) == d;
        assert(read_seen(ev2, spec_desc_addr(q, i), 16, b));
    }
    if forall|j: int| 0 <= j < c.len() - 1 ==> #[trigger] desc_fetched(ev1, q, c[j].next, c[j + 1]) {
        assert forall|j: int| 0 <= j < c.len() - 1 implies #[trigger] desc_fetched(ev2, q, c[j].next, c[j + 1]) by {
            assert(desc_fetched(ev1, q, c[j].next, c[j + 1]));
        }
    }
}

/// A chain's whole record stays true once more accesses follow.
proof fn lemma_chain_fetched_grows(ev1: Seq<RamEvent>, ev2: Seq<RamEvent>, q: Virtqueue, pos: u16, c: Seq<VirtqDesc>)
    requires
        ev1.len() <= ev2.len(),
        ev2.subrange(0, ev1.len() as int) == ev1,
        chain_fetched(ev1, q, pos, c),
    ensures
        chain_fetched(ev2, q, pos, c),
{
    lemma_seen_grows(ev1, ev2);
    lemma_chain_grows(ev1, ev2, q, 0, c);
    let hd = choose|hd: Seq<u8>|
        #[trigger] read_seen(ev1, spec_avail_entry_addr(q, pos), 2, hd) && hd.len() >= 2 && head_fetched(
            ev1,
            q,
            pos,
            le_value(hd, 0, 2) as u16,
            c,
        );
    let h = le_value(hd, 0, 2) as u16;
    assert(read_seen(ev2, spec_avail_entry_addr(q, pos), 2, hd));
    if c.len() > 0 {
        assert(desc_fetched(ev2, q, h, c[0]));
    }
    let t = choose|t: u32| #[trigger] write_seen(ev1, spec_used_elem_addr(q, pos), spec_used_elem(h as u32, t));
    assert(write_seen(ev2, spec_used_elem_addr(q, pos), spec_used_elem(h as u32, t)));
    assert(head_fetched(ev2, q, pos, h, c));
    assert forall|j: int| 0 <= j < c.len() - 1 implies #[trigger] desc_fetched(ev2, q, c[j].next, c[j + 1]) by {
        assert(desc_fetched(ev1, q, c[j].next, c[j + 1]));
    }
}

/// The records of all chains taken so far stay true once more accesses
/// follow.
proof fn lemma_all_chains_grow(
    ev1: Seq<RamEvent>,
    ev2: Seq<RamEvent>,
    q: Virtqueue,
    start: u16,
    n0: int,
    chains: Seq<Seq<VirtqDesc>>,
)
    requires
        ev1.len() <= ev2.len(),
        ev2.subrange(0, ev1.len() as int) == ev1,
    ensures
        forall|k: int|
            n0 <= k < chains.len() && chain_fetched(ev1, q, ring_pos(start, k - n0), #[trigger] chains[k])
                ==> chain_fetched(ev2, q, ring_pos(start, k - n0), chains[k]),
{
    assert forall|k: int|
        n0 <= k < chains.len() && chain_fetched(ev1, q, ring_pos(start, k - n0), #[trigger] chains[k]) implies chain_fetched(
        ev2,
        q,
        ring_pos(start, k - n0),
        chains[k],
    ) by {
        lemma_chain_fetched_grows(ev1, ev2, q, ring_pos(start, k - n0), chains[k]);
    }
}

/// What the processing loop has established stays true once more accesses
/// follow.
proof fn lemma_events_grow(
    ev1: Seq<RamEvent>,
    ev2: Seq<RamEvent>,
    q: Virtqueue,
    start: u16,
    n0: int,
    chains: Seq<Seq<VirtqDesc>>,
    ev0: Seq<RamEvent>,
    ad: Seq<u8>,
)
    requires
        ev1.len() <= ev2.len(),
        ev2.subrange(0, ev1.len() as int) == ev1,
        ev1.len() >= ev0.len(),
        ev1.subrange(0, ev0.len() as int) == ev0,
    ensures
        forall|k: int|
            n0 <= k < chains.len() && chain_fetched(ev1, q, ring_pos(start, k - n0), #[trigger] chains[k])
                ==> chain_fetched(ev2, q, ring_pos(start, k - n0), chains[k]),
        read_seen(ev1, spec_avail_idx_addr(q), 2, ad) ==> read_seen(ev2, spec_avail_idx_addr(q), 2, ad),
        ev2.len() >= ev0.len(),
        ev2.subrange(0, ev0.len() as int) == ev0,
{
    lemma_all_chains_grow(ev1, ev2, q, start, n0, chains);
    lemma_seen_grows(ev1, ev2);
    assert(ev2.subrange(0, ev0.len() as int) =~= ev1.subrange(0, ev0.len() as int));
}

/// The number of chains available beyond `last` when the driver's index is
/// `avail`.
pub fn pending_chains(last: u16, avail: u16) -> (r: u16)
    ensures
        r as int == spec_pending(last, avail),
{
    if avail >= last {
        avail - last
    } else {
        ((avail as u32 + 0x1_0000) - last as u32) as u16
    }
}

/// The next descriptor of a chain after `d`, the chain now holding `len`
/// descriptors, or `None` when the chain ends.
pub fn chain_next(d: &VirtqDesc, len: usize, num: u16) -> (r: Option<u16>)
    ensures
        r == spec_chain_next(*d, len as nat, num),
{
    if (d.flags & VIRTQ_DESC_F_NEXT) != 0 && len <= num as usize {
        Some(d.next)
    } else {
        None
    }
}

impl Virtqueue {
    pub fn new() -> (q: Self)
        ensures
            spec_queue_reset(q),
    {
        Virtqueue {
            desc_table: 0,
            avail_ring: 0,
            used_ring: 0,
            num: 0,
            last_avail_idx: 0,
            ready: false,
        }
    }

    /// Address of the available ring's `idx` field.
    pub fn avail_idx_addr(&self) -> (r: u64)
        ensures
            r == spec_avail_idx_addr(*self),
    {
        self.avail_ring.wrapping_add(2)
    }

    /// Address of the available-ring entry for position `idx`.
    pub fn avail_entry_addr(&self, idx: u16) -> (r: u64)
        requires
            self.num > 0,
        ensures
            r == spec_avail_entry_addr(*self, idx),
    {
        let slot = (idx % self.num) as u64;
        self.avail_ring.wrapping_add(4).wrapping_add(slot * 2)
    }

    /// Address of descriptor `i`.
    pub fn desc_addr(&self, i: u16) -> (r: u64)
        ensures
            r == spec_desc_addr(*self, i),
    {
        self.desc_table.wrapping_add((i as u64) * 16)
    }

    /// The used-ring element that records chain `head`, having had
    /// `written` bytes written, at the current position: its address and
    /// its eight bytes `{ id: head, len: written }`.
    pub fn used_ring_update(&self, head: u16, written: u32) -> (r: (u64, Vec<u8>))
        requires
            self.num > 0,
        ensures
            r.0 == spec_used_elem_addr(*self, self.last_avail_idx),
            r.1@ == spec_used_elem(head as u32, written),
    {
        let slot = (self.last_avail_idx % self.num) as u64;
        let addr = self.used_ring.wrapping_add(4).wrapping_add(slot * 8);
        (addr, encode_used_elem(head as u32, written))
    }

    /// The write that publishes the current position as the used ring's
    /// `idx`: its address and the two little-endian bytes.
    pub fn used_idx_update(&self) -> (r: (u64, Vec<u8>))
        ensures
            r.0 == spec_used_idx_addr(*self),
            r.1@ == seq![self.last_avail_idx as u8, (self.last_avail_idx >> 8u16) as u8],
    {
        let idx = self.last_avail_idx;
        let bytes = vec![idx as u8, (idx >> 8u16) as u8];
        assert(bytes@ =~= seq![idx as u8, (idx >> 8u16) as u8]);
        (self.used_ring.wrapping_add(2), bytes)
    }

    /// Process the available descriptor chains with `handler`, recording
    /// each in the used ring. Returns the number of chains processed. The
    /// accesses to guest memory and what they give are those of
    /// [`Virtqueue::process_logged`].
    pub fn process<H: ChainProcessor + ?Sized>(&mut self, mem: &dyn GuestRam, handler: &mut H) -> (processed: usize)
        ensures
            !old(self).ready || old(self).num == 0 ==> processed == 0 && *final(self) == *old(self)
                && final(handler).chains() == old(handler).chains(),
            processed < 0x1_0000,
            final(self).last_avail_idx as int == (old(self).last_avail_idx + processed) % 0x1_0000,
            final(self).desc_table == old(self).desc_table,
            final(self).avail_ring == old(self).avail_ring,
            final(self).used_ring == old(self).used_ring,
            final(self).num == old(self).num,
            final(self).ready == old(self).ready,
            final(handler).chains().len() == old(handler).chains().len() + processed,
            final(handler).chains().subrange(0, old(handler).chains().len() as int) == old(handler).chains(),
            forall|k: int|
                old(handler).chains().len() <= k < final(handler).chains().len()
                    ==> #[trigger] final(handler).chains()[k].len() <= old(self).num + 1
                    && chain_linked(final(handler).chains()[k]),
    {
        let mut ram = RamLog::new(mem);
        self.process_logged(&mut ram, handler)
    }

    /// [`Virtqueue::process`] over a record of its guest-memory accesses.
    ///
    /// The available index is read at [`spec_avail_idx_addr`] and at most
    /// [`spec_pending`] chains are taken. Chain `k` is taken at ring
    /// position `last_avail_idx + k`: its head is read from the available
    /// ring there, each descriptor from the table entry the one before
    /// names (the head first), and its used-ring element is written with
    /// that head ([`chain_fetched`]). After at least one chain the new
    /// position is written as the used ring's index. Guest memory may
    /// refuse any access, so the number of chains is stated for every
    /// outcome.
    #[verifier::rlimit(60)]
    #[verifier::spinoff_prover]
    pub fn process_logged<H: ChainProcessor + ?Sized>(&mut self, ram: &mut RamLog, handler: &mut H) -> (processed: usize)
        ensures
            !old(self).ready || old(self).num == 0 ==> processed == 0 && *final(self) == *old(self)
                && final(handler).chains() == old(handler).chains(),
            processed < 0x1_0000,
            final(self).last_avail_idx as int == (old(self).last_avail_idx + processed) % 0x1_0000,
            final(self).desc_table == old(self).desc_table,
            final(self).avail_ring == old(self).avail_ring,
            final(self).used_ring == old(self).used_ring,
            final(self).num == old(self).num,
            final(self).ready == old(self).ready,
            final(handler).chains().len() == old(handler).chains().len() + processed,
            final(handler).chains().subrange(0, old(handler).chains().len() as int) == old(handler).chains(),
            forall|k: int|
                old(handler).chains().len() <= k < final(handler).chains().len()
                    ==> #[trigger] final(handler).chains()[k].len() <= old(self).num + 1
                    && chain_linked(final(handler).chains()[k])
                    && chain_fetched(
                    final(ram).events(),
                    *old(self),
                    ring_pos(old(self).last_avail_idx, k - old(handler).chains().len()),
                    final(handler).chains()[k],
                ),
            processed > 0 ==> exists|ad: Seq<u8>|
                #[trigger] read_seen(final(ram).events(), spec_avail_idx_addr(*old(self)), 2, ad) && ad.len()
                    >= 2 && processed <= spec_pending(old(self).last_avail_idx, le_value(ad, 0, 2) as u16),
            processed > 0 ==> write_seen(
                final(ram).events(),
                spec_used_idx_addr(*old(self)),
                seq![final(self).last_avail_idx as u8, (final(self).last_avail_idx >> 8u16) as u8],
            ),
            final(ram).events().len() >= old(ram).events().len(),
            final(ram).events().subrange(0, old(ram).events().len() as int) == old(ram).events(),
            old(self).ready && old(self).num > 0 ==> final(ram).events().len() > old(ram).events().len() && ({
                let a = final(ram).events()[old(ram).events().len() as int];
                &&& !a.write && a.gpa == spec_avail_idx_addr(*old(self)) && a.len == 2
                &&& a.ok && a.data.len() >= 2 ==> processed == spec_pending(
                    old(self).last_avail_idx,
                    le_value(a.data, 0, 2) as u16,
                ) || ring_read_failed(final(ram).events(), *old(self), ring_pos(old(self).last_avail_idx, processed as int))
                &&& !(a.ok && a.data.len() >= 2) ==> processed == 0
            }),
    {
        let ghost q0 = *self;
        let ghost ev0 = ram.events();
        if !self.ready || self.num == 0 {
            return 0;
        }
        let data = match ram.read_at(self.avail_idx_addr(), 2) {
            Ok(d) => d,
            Err(_) => {
                assert(ram.events().subrange(0, ev0.len() as int) =~= ev0);
                assert(ram.events()[ev0.len() as int].len == 2);
                return 0;
            },
        };
        assert(ram.events()[ev0.len() as int] == RamEvent { write: false, gpa: spec_avail_idx_addr(q0), len: 2, data: data@, ok: true });
        if data.len() < 2 {
            assert(ram.events().subrange(0, ev0.len() as int) =~= ev0);
            return 0;
        }
        let ghost ad = data@;
        assert(ram.events()[ev0.len() as int] == RamEvent { write: false, gpa: spec_avail_idx_addr(q0), len: 2, data: ad, ok: true });
        assert(read_seen(ram.events(), spec_avail_idx_addr(q0), 2, ad));
        let avail_idx = read_u16(data.as_slice(), 0);
        let pending = pending_chains(self.last_avail_idx, avail_idx);
        let ghost start = self.last_avail_idx;
        let ghost n0 = old(handler).chains().len() as int;
        assert(ram.events().subrange(0, ev0.len() as int) =~= ev0);
        let mut processed: usize = 0;
        while processed < pending as usize
            invariant
                self.num == old(self).num && self.num > 0,
                self.ready == old(self).ready,
                self.desc_table == old(self).desc_table,
                self.avail_ring == old(self).avail_ring,
                self.used_ring == old(self).used_ring,
                q0 == *old(self),
                ev0 == old(ram).events(),
                n0 == old(handler).chains().len(),
                start == old(self).last_avail_idx,
                pending < 0x1_0000,
                processed <= pending,
                pending == spec_pending(start, le_value(ad, 0, 2) as u16),
                ad.len() >= 2,
                read_seen(ram.events(), spec_avail_idx_addr(q0), 2, ad),
                ram.events().len() >= ev0.len(),
                ram.events().subrange(0, ev0.len() as int) == ev0,
                ram.events().len() > ev0.len(),
                ram.events()[ev0.len() as int] == (RamEvent { write: false, gpa: spec_avail_idx_addr(q0), len: 2, data: ad, ok: true }),
                self.last_avail_idx as int == (start + processed) % 0x1_0000,
                handler.chains().len() == n0 + processed,
                handler.chains().subrange(0, n0) == old(handler).chains(),
                forall|k: int|
                    n0 <= k < handler.chains().len() ==> #[trigger] handler.chains()[k].len() <= self.num + 1
                        && chain_linked(handler.chains()[k]) && chain_fetched(
                        ram.events(),
                        q0,
                        ring_pos(start, k - n0),
                        handler.chains()[k],
                    ),
            ensures
                processed == pending || ring_read_failed(ram.events(), q0, ring_pos(start, processed as int)),
            decreases pending - processed,
        {
            let ghost ev_it = ram.events();
            let ghost chains_it = handler.chains();
            let pos = self.last_avail_idx;
            assert(pos == ring_pos(start, processed as int));
            let ring_data = match ram.read_at(self.avail_entry_addr(pos), 2) {
                Ok(d) => d,
                Err(_) => {
                    proof {
                        assert(ram.events().subrange(0, ev_it.len() as int) =~= ev_it);
                        lemma_events_grow(ev_it, ram.events(), q0, start, n0, chains_it, ev0, ad);
                        lemma_prefix_events(ev_it, ram.events(), q0, 0);
                        assert(!ram.events()[ev_it.len() as int].ok);
                        assert(ring_read_failed(ram.events(), q0, ring_pos(start, processed as int)));
                    }
                    break;
                },
            };
            if ring_data.len() < 2 {
                proof {
                    assert(ram.events().subrange(0, ev_it.len() as int) =~= ev_it);
                    lemma_events_grow(ev_it, ram.events(), q0, start, n0, chains_it, ev0, ad);
                    lemma_prefix_events(ev_it, ram.events(), q0, 0);
                    assert(ram.events()[ev_it.len() as int].data == ring_data@);
                    assert(ring_read_failed(ram.events(), q0, ring_pos(start, processed as int)));
                }
                break;
            }
            let ghost hd = ring_data@;
            assert(ram.events()[ev_it.len() as int] == RamEvent { write: false, gpa: spec_avail_entry_addr(q0, pos), len: 2, data: hd, ok: true });
            assert(read_seen(ram.events(), spec_avail_entry_addr(q0, pos), 2, hd));
            let head_idx = read_u16(ring_data.as_slice(), 0);
            assert(head_idx == le_value(hd, 0, 2) as u16);
            let ghost ev_chain = ram.events();
            let mut chain: Vec<VirtqDesc> = Vec::new();
            let mut next: Option<u16> = Some(head_idx);
            while next.is_some()
                invariant_except_break
                    chain@.len() <= self.num as int,
                    next is Some && chain@.len() > 0 ==> chain@.last().flags & VIRTQ_DESC_F_NEXT != 0,
                    next is Some ==> next->0 == (if chain@.len() == 0 { head_idx } else { chain@.last().next }),
                invariant
                    self.desc_table == q0.desc_table,
                    chain_linked(chain@),
                    ram.events().len() >= ev_chain.len(),
                    ram.events().subrange(0, ev_chain.len() as int) == ev_chain,
                    chain@.len() > 0 ==> desc_fetched(ram.events(), q0, head_idx, chain@[0]),
                    forall|j: int|
                        0 <= j < chain@.len() - 1 ==> #[trigger] desc_fetched(ram.events(), q0, chain@[j].next, chain@[j + 1]),
                ensures
                    chain@.len() <= self.num as int + 1,
                decreases (self.num as int + 1) - chain@.len(),
            {
                let desc_idx = next.unwrap();
                let ghost ev_d = ram.events();
                let desc_data = match ram.read_at(self.desc_addr(desc_idx), 16) {
                    Ok(d) => d,
                    Err(_) => {
                        proof {
                    assert(ram.events().subrange(0, ev_d.len() as int) =~= ev_d);
                    lemma_chain_grows(ev_d, ram.events(), q0, head_idx, chain@);
                }
                        assert(ram.events().subrange(0, ev_chain.len() as int) =~= ev_chain);
                        break;
                    },
                };
                proof {
                    assert(ram.events().subrange(0, ev_d.len() as int) =~= ev_d);
                    lemma_chain_grows(ev_d, ram.events(), q0, head_idx, chain@);
                }
                assert(ram.events().subrange(0, ev_chain.len() as int) =~= ev_chain);
                if desc_data.len() < 16 {
                    break;
                }
                let desc = decode_desc(&desc_data);
                assert(ram.events()[ev_d.len() as int] == RamEvent { write: false, gpa: spec_desc_addr(q0, desc_idx), len: 16, data: desc_data@, ok: true });
                assert(read_seen(ram.events(), spec_desc_addr(q0, desc_idx), 16, desc_data@));
                assert(desc_fetched(ram.events(), q0, desc_idx, desc));
                let ghost before = chain@;
                chain.push(desc);
                proof {
                    assert forall|j: int| 0 <= j < chain@.len() - 1 implies #[trigger] chain@[j].flags
                        & VIRTQ_DESC_F_NEXT != 0 by {
                        if j < before.len() - 1 {
                            assert(chain@[j] == before[j]);
                        } else {
                            assert(chain@[j] == before.last());
                        }
                    }
                    assert forall|j: int| 0 <= j < chain@.len() - 1 implies #[trigger] desc_fetched(
                        ram.events(),
                        q0,
                        chain@[j].next,
                        chain@[j + 1],
                    ) by {
                        if j < before.len() - 1 {
                            assert(chain@[j] == before[j] && chain@[j + 1] == before[j + 1]);
                        } else {
                            assert(chain@[j] == before.last());
                        }
                    }
                }
                next = chain_next(&desc, chain.len(), self.num);
                if chain.len() > self.num as usize {
                    break;
                }
            }
            let ghost handed = chain@;
            let total_written = handler.process_chain(chain.as_mut_slice(), ram.mem());
            let (used_addr, used_elem) = self.used_ring_update(head_idx, total_written);
            let ghost ev_w = ram.events();
            let _ = ram.write_at(used_addr, used_elem.as_slice());
            assert(ram.events()[ev_w.len() as int].write && ram.events()[ev_w.len() as int].gpa == spec_used_elem_addr(q0, pos)
                && ram.events()[ev_w.len() as int].data == spec_used_elem(head_idx as u32, total_written));
            assert(write_seen(ram.events(), spec_used_elem_addr(q0, pos), spec_used_elem(head_idx as u32, total_written)));
            proof {
                assert(ram.events().subrange(0, ev_w.len() as int) =~= ev_w);
                lemma_chain_grows(ev_w, ram.events(), q0, head_idx, handed);
                assert(ram.events().subrange(0, ev_chain.len() as int) =~= ev_chain);
                lemma_seen_grows(ev_chain, ram.events());
                assert(head_fetched(ram.events(), q0, pos, head_idx, handed));
                assert(chain_fetched(ram.events(), q0, pos, handed));
                // earlier chains keep their record
                assert(ram.events().subrange(0, ev_it.len() as int) =~= ev_it);
                lemma_all_chains_grow(ev_it, ram.events(), q0, start, n0, chains_it);
                lemma_seen_grows(ev_it, ram.events());
                lemma_prefix_events(ev_it, ram.events(), q0, 0);
                assert(ram.events().subrange(0, ev0.len() as int) =~= ev0);
            }
            self.last_avail_idx = self.last_avail_idx.wrapping_add(1);
            processed = processed + 1;
            proof {
                assert(handler.chains().subrange(0, n0) =~= old(handler).chains());
                assert(handler.chains().last() == handed);
                assert(handler.chains().subrange(0, chains_it.len() as int) =~= chains_it);
                assert forall|k: int|
                    n0 <= k < handler.chains().len() implies #[trigger] handler.chains()[k].len() <= self.num + 1
                        && chain_linked(handler.chains()[k]) && chain_fetched(
                        ram.events(),
                        q0,
                        ring_pos(start, k - n0),
                        handler.chains()[k],
                    ) by {
                    if k < chains_it.len() {
                        assert(handler.chains()[k] == chains_it[k]);
                    } else {
                        assert(k == chains_it.len());
                        assert(ring_pos(start, k - n0) == pos);
                    }
                }
            }
        }
        let ghost ev_end = ram.events();
        if processed > 0 {
            let (idx_addr, idx_bytes) = self.used_idx_update();
            let _ = ram.write_at(idx_addr, idx_bytes.as_slice());
            assert(ram.events()[ev_end.len() as int].write);
            assert(write_seen(ram.events(), spec_used_idx_addr(q0), seq![self.last_avail_idx as u8, (self.last_avail_idx >> 8u16) as u8]));
            proof {
                assert(ram.events().subrange(0, ev_end.len() as int) =~= ev_end);
                lemma_all_chains_grow(ev_end, ram.events(), q0, start, n0, handler.chains());
                lemma_seen_grows(ev_end, ram.events());
                lemma_prefix_events(ev_end, ram.events(), q0, ring_pos(start, processed as int));
                assert(ram.events().subrange(0, ev0.len() as int) =~= ev0);
            }
        }
        processed
    }
}

} // verus!
