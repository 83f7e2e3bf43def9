//! The virtio entropy device: fills guest-writable buffers with random
//! bytes from an entropy source.
use vstd::prelude::*;

use super::{ChainProcessor, VIRTIO_F_VERSION_1, VIRTQ_DESC_F_WRITE, VirtioDevice, VirtqDesc, Virtqueue};
use crate::memory::{GuestRam, RamEvent, RamLog, extends, lemma_extends};

verus! {

/// A source of random bytes (the host's `/dev/urandom`).
pub trait EntropySource: Send {
    /// `len` random bytes.
    fn fill(&mut self, len: usize) -> Result<Vec<u8>, String>;
}

/// Bytes the guest offers for the device to write: the lengths of the
/// device-writable, non-empty descriptors.
pub open spec fn writable_len(chain: Seq<VirtqDesc>) -> nat
    decreases chain.len(),
{
    if chain.len() == 0 {
        0
    } else {
        let d = chain.last();
        writable_len(chain.drop_last()) + if d.flags & VIRTQ_DESC_F_WRITE != 0 && d.len > 0 {
            d.len as nat
        } else {
            0
        }
    }
}

/// The fill a descriptor asks for: its address and length when it is
/// device-writable and non-empty.
pub open spec fn spec_fill_request(d: VirtqDesc) -> Option<(u64, u32)> {
    if d.flags & VIRTQ_DESC_F_WRITE != 0 && d.len > 0 {
        Some((d.addr, d.len))
    } else {
        None
    }
}

/// Where and how many random bytes descriptor `d` receives, if any.
pub fn fill_request(d: &VirtqDesc) -> (r: Option<(u64, u32)>)
    ensures
        r == spec_fill_request(*d),
{
    if (d.flags & VIRTQ_DESC_F_WRITE) != 0 && d.len > 0 {
        Some((d.addr, d.len))
    } else {
        None
    }
}

/// The virtio entropy device (device type 4).
pub struct VirtioRng<E> {
    entropy: E,
    notified: Ghost<Seq<(usize, Virtqueue)>>,
    handled: Ghost<Seq<Seq<VirtqDesc>>>,
}

impl<E: EntropySource> VirtioRng<E> {
    /// The entropy source the device draws from.
    pub closed spec fn source(&self) -> E {
        self.entropy
    }

    pub fn new(entropy: E) -> (r: Self)
        ensures
            r.source() == entropy,
            r.notifications() == Seq::<(usize, Virtqueue)>::empty(),
    {
        VirtioRng { entropy, notified: Ghost(Seq::empty()), handled: Ghost(Seq::empty()) }
    }
}

/// The bytes the accepted writes among `ev` wrote.
pub open spec fn accepted_write_bytes(ev: Seq<RamEvent>) -> nat
    decreases ev.len(),
{
    if ev.len() == 0 {
        0
    } else {
        accepted_write_bytes(ev.drop_last()) + if ev.last().write && ev.last().ok {
            ev.last().len
        } else {
            0
        }
    }
}

/// Every event is a write of a whole buffer that asks for random bytes:
/// at its address, of its length.
pub open spec fn fills_only(ev: Seq<RamEvent>, chain: Seq<VirtqDesc>) -> bool {
    forall|e: int|
        0 <= e < ev.len() ==> (#[trigger] ev[e]).write && ev[e].data.len() == ev[e].len && exists|k: int|
            0 <= k < chain.len() && spec_fill_request(chain[k]) == Some((ev[e].gpa, ev[e].len as u32))
}

impl<E: EntropySource> VirtioRng<E> {
    /// Fill each device-writable buffer of `chain` with random bytes, over
    /// a record of the guest-memory accesses: the only accesses are writes
    /// of whole buffers that ask for random bytes, and the count returned
    /// is the bytes of the accepted ones (modulo 2^32).
    #[verifier::rlimit(40)]
    pub fn fill_chain(&mut self, ram: &mut RamLog, chain: &[VirtqDesc]) -> (total: u32)
        ensures
            extends(old(ram).events(), final(ram).events()),
            fills_only(final(ram).events().subrange(old(ram).events().len() as int, final(ram).events().len() as int), chain@),
            total as int == accepted_write_bytes(
                final(ram).events().subrange(old(ram).events().len() as int, final(ram).events().len() as int),
            ) % 0x1_0000_0000,
            writable_len(chain@) <= u32::MAX ==> total <= writable_len(chain@),
            writable_len(chain@) == 0 ==> total == 0,
            final(self).chains() == old(self).chains(),
            final(self).notifications() == old(self).notifications(),
    {
        let ghost ev0 = ram.events();
        proof {
            lemma_extends(ev0, ev0, ev0, RamEvent { write: false, gpa: 0, len: 0, data: Seq::empty(), ok: false });
            assert(ev0.subrange(ev0.len() as int, ev0.len() as int) =~= Seq::<RamEvent>::empty());
        }
        let mut total_written: u32 = 0;
        let mut i: usize = 0;
        while i < chain.len()
            invariant
                i <= chain@.len(),
                ev0 == old(ram).events(),
                extends(ev0, ram.events()),
                self.handled == old(self).handled,
                self.notified == old(self).notified,
                fills_only(ram.events().subrange(ev0.len() as int, ram.events().len() as int), chain@),
                total_written as int == accepted_write_bytes(ram.events().subrange(ev0.len() as int, ram.events().len() as int))
                    % 0x1_0000_0000,
                writable_len(chain@.subrange(0, i as int)) <= u32::MAX ==> total_written <= writable_len(
                    chain@.subrange(0, i as int),
                ),
                writable_len(chain@.subrange(0, i as int)) == 0 ==> total_written == 0,
            decreases chain@.len() - i,
        {
            let desc = chain[i];
            proof {
                assert(chain@.subrange(0, i + 1).drop_last() =~= chain@.subrange(0, i as int));
                lemma_writable_len_prefix(chain@, i as int + 1);
            }
            if let Some((addr, len)) = fill_request(&desc) {
                let got = self.entropy.fill(len as usize);
                if let Ok(buf) = got {
                    if buf.len() == len as usize {
                        let ghost evk = ram.events();
                        let ghost before = evk.subrange(ev0.len() as int, evk.len() as int);
                        let stored = ram.write_at(addr, buf.as_slice());
                        proof {
                            let e = ram.events().last();
                            lemma_extends(evk, evk, evk, e);
                            assert(ram.events() =~= evk.push(e));
                            lemma_extends(ev0, evk, ram.events(), e);
                            let after = ram.events().subrange(ev0.len() as int, ram.events().len() as int);
                            assert(after =~= before.push(e));
                            assert(after.drop_last() =~= before);
                            assert(spec_fill_request(chain@[i as int]) == Some((e.gpa, e.len as u32)));
                            assert forall|j: int| 0 <= j < after.len() implies (#[trigger] after[j]).write && after[j].data.len()
                                == after[j].len && exists|k: int|
                                0 <= k < chain@.len() && spec_fill_request(chain@[k]) == Some((after[j].gpa, after[j].len as u32)) by {
                                if j < before.len() {
                                    assert(after[j] == before[j]);
                                } else {
                                    assert(after[j] == e);
                                    assert(spec_fill_request(chain@[i as int]) == Some((after[j].gpa, after[j].len as u32)));
                                }
                            }
                        }
                        if stored.is_ok() {
                            total_written = total_written.wrapping_add(len);
                            proof {
                                let after = ram.events().subrange(ev0.len() as int, ram.events().len() as int);
                                vstd::arithmetic::div_mod::lemma_add_mod_noop(accepted_write_bytes(before) as int, len as int, 0x1_0000_0000);
                                vstd::arithmetic::div_mod::lemma_small_mod(len as nat, 0x1_0000_0000);
                                vstd::arithmetic::div_mod::lemma_mod_twice(accepted_write_bytes(before) as int, 0x1_0000_0000);
                            }
                        }
                    }
                }
            }
            i = i + 1;
        }
        assert(chain@.subrange(0, i as int) =~= chain@);
        total_written
    }
}

impl<E: EntropySource> ChainProcessor for VirtioRng<E> {
    closed spec fn chains(&self) -> Seq<Seq<VirtqDesc>> {
        self.handled@
    }

    /// Fill each device-writable buffer of the chain with random bytes;
    /// returns the bytes written. Buffers whose randomness or copy fails
    /// are not counted.
    fn process_chain(&mut self, chain: &mut [VirtqDesc], mem: &dyn GuestRam) -> (total: u32)
        ensures
            final(chain)@ == old(chain)@,
            writable_len(old(chain)@) <= u32::MAX ==> total <= writable_len(old(chain)@),
            writable_len(old(chain)@) == 0 ==> total == 0,
    {
        let mut ram = RamLog::new(mem);
        let total_written = self.fill_chain(&mut ram, chain);
        self.handled = Ghost(old(self).handled@.push(old(chain)@));
        total_written
    }
}


/// The writable length of a prefix never exceeds that of a longer one.
proof fn lemma_writable_len_prefix(chain: Seq<VirtqDesc>, n: int)
    requires
        0 <= n <= chain.len(),
    ensures
        writable_len(chain.subrange(0, n)) <= writable_len(chain),
    decreases chain.len() - n,
{
    if n < chain.len() {
        lemma_writable_len_prefix(chain, n + 1);
        assert(chain.subrange(0, n + 1).drop_last() =~= chain.subrange(0, n));
    } else {
        assert(chain.subrange(0, n) =~= chain);
    }
}

impl<E: EntropySource> VirtioDevice for VirtioRng<E> {
    open spec fn spec_device_id(&self) -> u32 {
        4
    }

    open spec fn spec_device_features(&self) -> u64 {
        VIRTIO_F_VERSION_1
    }

    open spec fn spec_num_queues(&self) -> usize {
        1
    }

    /// The entropy device has no configuration space: reads leave the
    /// buffer as it was.
    open spec fn config_read_result(&self, offset: u64, data: Seq<u8>) -> Seq<u8> {
        data
    }

    fn read_config(&self, offset: u64, data: &mut [u8]) {
    }

    closed spec fn notifications(&self) -> Seq<(usize, Virtqueue)> {
        self.notified@
    }

    fn device_id(&self) -> (r: u32) {
        4
    }

    fn device_features(&self) -> (r: u64) {
        VIRTIO_F_VERSION_1
    }

    fn num_queues(&self) -> (r: usize) {
        1
    }

    /// Only queue 0 exists; an interrupt is asked for when a chain was
    /// processed.
    fn on_notify(&mut self, queue_idx: usize, queue: &mut Virtqueue, mem: &dyn GuestRam) -> (raise: bool)
        ensures
            queue_idx != 0 ==> !raise && *final(queue) == *old(queue),
            !old(queue).ready || old(queue).num == 0 ==> !raise,
            queue_idx == 0 ==> final(self).chains().len() == old(self).chains().len() + (
            final(queue).last_avail_idx - old(queue).last_avail_idx + 0x1_0000) % 0x1_0000,
            queue_idx != 0 ==> final(self).chains() == old(self).chains(),
    {
        if queue_idx != 0 {
            self.notified = Ghost(old(self).notified@.push((queue_idx, *old(queue))));
            return false;
        }
        let processed = queue.process(mem, self);
        self.notified = Ghost(old(self).notified@.push((queue_idx, *old(queue))));
        processed > 0
    }
}

} // verus!
