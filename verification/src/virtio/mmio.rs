//! virtio-mmio transport (version 2).
//!
//! A `VirtioMmioDevice` presents a `VirtioDevice` backend as a 4 KiB MMIO
//! register window: 32-bit registers below 0x100, the device-specific
//! configuration from 0x100 on.
use std::sync::Arc;
use vstd::prelude::*;

use super::pci::{get_le, le_byte_at, put_le, spec_get_le};
use super::{VIRTIO_MAGIC, VIRTIO_VENDOR, VIRTIO_VERSION, Virtqueue, VirtioDevice, notify_outcome};
use crate::bytes::{le_value, lemma_le_value_bound};
use crate::bus::{BusAccess, BusDevice};
use crate::memory::GuestRam;
use crate::serial::IrqSink;

verus! {

/// Largest virtqueue size advertised in `QueueNumMax`.
pub const MMIO_QUEUE_NUM_MAX: u32 = 256;

/// Start of the device-specific configuration within the register window.
pub const MMIO_CONFIG_OFFSET: u64 = 0x100;

/// Last byte of the register window.
pub const MMIO_WINDOW_LAST: u64 = 0xfff;

/// The register state of a virtio-mmio transport.
pub struct VirtioMmioState {
    pub queue_sel: u32,
    pub device_features_sel: u32,
    pub driver_features_sel: u32,
    pub driver_features: u32,
    pub interrupt_status: u32,
    pub status: u32,
    pub queues: Seq<Virtqueue>,
}

/// A queue as `Virtqueue::new` makes it: everything zero, not ready.
pub open spec fn spec_queue_cleared() -> Virtqueue {
    Virtqueue { desc_table: 0, avail_ring: 0, used_ring: 0, num: 0, last_avail_idx: 0, ready: false }
}

/// Whether `QueueSel` names an existing queue.
pub open spec fn has_selected_queue(s: VirtioMmioState) -> bool {
    (s.queue_sel as int) < s.queues.len()
}

/// The 32-bit value a read of register `offset` (below the configuration
/// area) returns; `device_id` and `features` come from the backend.
pub open spec fn mmio_reg_value(s: VirtioMmioState, device_id: u32, features: u64, offset: u64) -> u32 {
    if offset == 0x00 {
        VIRTIO_MAGIC
    } else if offset == 0x04 {
        VIRTIO_VERSION
    } else if offset == 0x08 {
        device_id
    } else if offset == 0x0c {
        VIRTIO_VENDOR
    } else if offset == 0x10 {
        if s.device_features_sel == 0 {
            features as u32
        } else if s.device_features_sel == 1 {
            (features >> 32u64) as u32
        } else {
            0
        }
    } else if offset == 0x34 && has_selected_queue(s) {
        MMIO_QUEUE_NUM_MAX
    } else if offset == 0x44 && has_selected_queue(s) && s.queues[s.queue_sel as int].ready {
        1
    } else if offset == 0x60 {
        s.interrupt_status
    } else if offset == 0x70 {
        s.status
    } else {
        0
    }
}

/// The register state after a driver write of `val` to register `offset`
/// (any register but `QueueNotify`).
pub open spec fn mmio_written(s: VirtioMmioState, offset: u64, val: u32) -> VirtioMmioState {
    let sel = s.queue_sel as int;
    let q = s.queues[sel];
    if offset == 0x14 {
        VirtioMmioState { device_features_sel: val, ..s }
    } else if offset == 0x20 {
        if s.driver_features_sel == 0 {
            VirtioMmioState { driver_features: val, ..s }
        } else {
            s
        }
    } else if offset == 0x24 {
        VirtioMmioState { driver_features_sel: val, ..s }
    } else if offset == 0x30 {
        VirtioMmioState { queue_sel: val, ..s }
    } else if offset == 0x64 {
        VirtioMmioState { interrupt_status: s.interrupt_status & !val, ..s }
    } else if offset == 0x70 {
        if val == 0 {
            VirtioMmioState {
                status: 0,
                queues: Seq::new(s.queues.len(), |i: int| spec_queue_cleared()),
                interrupt_status: 0,
                ..s
            }
        } else {
            VirtioMmioState { status: val, ..s }
        }
    } else if !has_selected_queue(s) {
        s
    } else if offset == 0x38 {
        VirtioMmioState { queues: s.queues.update(sel, Virtqueue { num: val as u16, ..q }), ..s }
    } else if offset == 0x44 {
        VirtioMmioState { queues: s.queues.update(sel, Virtqueue { ready: val != 0, ..q }), ..s }
    } else if offset == 0x80 {
        VirtioMmioState {
            queues: s.queues.update(
                sel,
                Virtqueue { desc_table: (q.desc_table & 0xffff_ffff_0000_0000) | (val as u64), ..q },
            ),
            ..s
        }
    } else if offset == 0x84 {
        VirtioMmioState {
            queues: s.queues.update(
                sel,
                Virtqueue {
                    desc_table: (q.desc_table & 0x0000_0000_ffff_ffff) | ((val as u64) << 32u64),
                    ..q
                },
            ),
            ..s
        }
    } else if offset == 0x90 {
        VirtioMmioState {
            queues: s.queues.update(
                sel,
                Virtqueue { avail_ring: (q.avail_ring & 0xffff_ffff_0000_0000) | (val as u64), ..q },
            ),
            ..s
        }
    } else if offset == 0x94 {
        VirtioMmioState {
            queues: s.queues.update(
                sel,
                Virtqueue {
                    avail_ring: (q.avail_ring & 0x0000_0000_ffff_ffff) | ((val as u64) << 32u64),
                    ..q
                },
            ),
            ..s
        }
    } else if offset == 0xa0 {
        VirtioMmioState {
            queues: s.queues.update(
                sel,
                Virtqueue { used_ring: (q.used_ring & 0xffff_ffff_0000_0000) | (val as u64), ..q },
            ),
            ..s
        }
    } else if offset == 0xa4 {
        VirtioMmioState {
            queues: s.queues.update(
                sel,
                Virtqueue {
                    used_ring: (q.used_ring & 0x0000_0000_ffff_ffff) | ((val as u64) << 32u64),
                    ..q
                },
            ),
            ..s
        }
    } else {
        s
    }
}

/// Whether a register write lowers the interrupt line: an `InterruptACK`
/// that leaves no interrupt pending.
pub open spec fn mmio_write_lowers(s: VirtioMmioState, offset: u64, val: u32) -> bool {
    offset == 0x64 && s.interrupt_status & !val == 0
}

/// The 32-bit value of a 4-byte access.
pub open spec fn access_value(data: Seq<u8>) -> u32 {
    spec_get_le(data) as u32
}

/// Writing the device status and reading it back returns the value written.
pub proof fn lemma_mmio_status_roundtrip(s: VirtioMmioState, device_id: u32, features: u64, v: u32)
    ensures
        mmio_reg_value(mmio_written(s, 0x70, v), device_id, features, 0x70) == v,
{
}

/// A status write of zero resets the transport: every queue is cleared (and
/// so not ready) and no interrupt is pending; the selectors are kept.
pub proof fn lemma_mmio_status_zero_resets(s: VirtioMmioState)
    ensures
        ({
            let t = mmio_written(s, 0x70, 0);
            &&& t.status == 0
            &&& t.interrupt_status == 0
            &&& t.queues.len() == s.queues.len()
            &&& forall|k: int| 0 <= k < t.queues.len() ==> #[trigger] t.queues[k] == spec_queue_cleared()
            &&& t.queue_sel == s.queue_sel
            &&& t.device_features_sel == s.device_features_sel
            &&& t.driver_features_sel == s.driver_features_sel
            &&& t.driver_features == s.driver_features
        }),
{
}

/// Acknowledging every pending interrupt bit leaves none pending and lowers
/// the interrupt line.
pub proof fn lemma_mmio_ack_all(s: VirtioMmioState)
    ensures
        mmio_written(s, 0x64, s.interrupt_status).interrupt_status == 0,
        mmio_write_lowers(s, 0x64, s.interrupt_status),
{
    let x = s.interrupt_status;
    assert(x & !x == 0) by (bit_vector);
}

/// `DeviceFeaturesSel` 0 and 1 select the low and high words of the device
/// features.
pub proof fn lemma_mmio_feature_words(s: VirtioMmioState, device_id: u32, features: u64)
    ensures
        mmio_reg_value(mmio_written(s, 0x14, 0), device_id, features, 0x10) == features as u32,
        mmio_reg_value(mmio_written(s, 0x14, 1), device_id, features, 0x10) == (features
            >> 32u64) as u32,
{
}

/// `QueueReady` reads back as 1 after a non-zero write and 0 after a zero
/// write, on an existing queue.
pub proof fn lemma_mmio_queue_ready_roundtrip(s: VirtioMmioState, device_id: u32, features: u64, v: u32)
    requires
        has_selected_queue(s),
    ensures
        mmio_reg_value(mmio_written(s, 0x44, v), device_id, features, 0x44) == (if v != 0 {
            1u32
        } else {
            0u32
        }),
{
}

/// Writing the low then the high half of a queue address gives the 64-bit
/// address `hi:lo`, whatever the queue held before.
pub proof fn lemma_mmio_queue_address_halves(s: VirtioMmioState, lo: u32, hi: u32)
    requires
        has_selected_queue(s),
    ensures
        mmio_written(mmio_written(s, 0x80, lo), 0x84, hi).queues[s.queue_sel as int].desc_table == ((
        hi as u64) << 32u64) | (lo as u64),
        mmio_written(mmio_written(s, 0x90, lo), 0x94, hi).queues[s.queue_sel as int].avail_ring == ((
        hi as u64) << 32u64) | (lo as u64),
        mmio_written(mmio_written(s, 0xa0, lo), 0xa4, hi).queues[s.queue_sel as int].used_ring == ((
        hi as u64) << 32u64) | (lo as u64),
{
    let q = s.queues[s.queue_sel as int];
    let (d, a, u) = (q.desc_table, q.avail_ring, q.used_ring);
    let (l, h) = (lo as u64, hi as u64);
    assert(l < 0x1_0000_0000 && h < 0x1_0000_0000);
    assert(forall|x: u64, l: u64, h: u64|
        l < 0x1_0000_0000 && h < 0x1_0000_0000 ==> #[trigger] ((((x & 0xffff_ffff_0000_0000) | l)
            & 0x0000_0000_ffff_ffff) | (h << 32u64)) == (h << 32u64) | l) by (bit_vector);
}

/// Generic virtio-mmio (version 2) transport.
#[verifier::reject_recursive_types(M)]
pub struct VirtioMmioDevice<M: GuestRam> {
    mem: Arc<M>,
    device: Box<dyn VirtioDevice>,
    queues: Vec<Virtqueue>,
    queue_sel: u32,
    device_features_sel: u32,
    driver_features_sel: u32,
    driver_features: u32,
    interrupt_status: u32,
    status: u32,
    irq_sink: Box<dyn IrqSink>,
    /// Levels handed to the current interrupt sink, in order.
    levels: Ghost<Seq<bool>>,
    served: Ghost<Seq<BusAccess>>,
}

impl<M: GuestRam> VirtioMmioDevice<M> {
    pub closed spec fn view(&self) -> VirtioMmioState {
        VirtioMmioState {
            queue_sel: self.queue_sel,
            device_features_sel: self.device_features_sel,
            driver_features_sel: self.driver_features_sel,
            driver_features: self.driver_features,
            interrupt_status: self.interrupt_status,
            status: self.status,
            queues: self.queues@,
        }
    }

    /// The backend's virtio device ID.
    pub closed spec fn virtio_id(&self) -> u32 {
        self.device.spec_device_id()
    }

    /// The backend's device features.
    pub closed spec fn features(&self) -> u64 {
        self.device.spec_device_features()
    }

    /// Levels handed to the current interrupt sink.
    pub closed spec fn levels(&self) -> Seq<bool> {
        self.levels@
    }

    /// What the backend's device-specific configuration read at `offset`
    /// leaves in a buffer that held `data`.
    pub closed spec fn device_config(&self, offset: u64, data: Seq<u8>) -> Seq<u8> {
        self.device.config_read_result(offset, data)
    }

    /// The notifications handed to the backend so far: the queue index and
    /// the queue as it stood.
    pub closed spec fn notifications(&self) -> Seq<(usize, Virtqueue)> {
        self.device.notifications()
    }

    /// A transport for `device` with one cleared queue per backend queue.
    pub fn new(mem: Arc<M>, irq_sink: Box<dyn IrqSink>, device: Box<dyn VirtioDevice>) -> (r: Self)
        ensures
            r.view() == (VirtioMmioState {
                queue_sel: 0,
                device_features_sel: 0,
                driver_features_sel: 0,
                driver_features: 0,
                interrupt_status: 0,
                status: 0,
                queues: Seq::new(device.spec_num_queues() as nat, |i: int| spec_queue_cleared()),
            }),
            r.levels() == Seq::<bool>::empty(),
    {
        let num_queues = device.num_queues();
        let mut queues: Vec<Virtqueue> = Vec::new();
        let mut i: usize = 0;
        while i < num_queues
            invariant
                0 <= i <= num_queues,
                queues@ == Seq::new(i as nat, |k: int| spec_queue_cleared()),
            decreases num_queues - i,
        {
            let q = Virtqueue::new();
            queues.push(q);
            assert(queues@ =~= Seq::new((i + 1) as nat, |k: int| spec_queue_cleared()));
            i = i + 1;
        }
        VirtioMmioDevice {
            mem,
            device,
            queues,
            queue_sel: 0,
            device_features_sel: 0,
            driver_features_sel: 0,
            driver_features: 0,
            interrupt_status: 0,
            status: 0,
            irq_sink,
            levels: Ghost(Seq::empty()),
            served: Ghost(Seq::empty()),
        }
    }

    /// Replace the active IRQ sink.
    pub fn replace_irq_sink(&mut self, sink: Box<dyn IrqSink>)
        ensures
            final(self).view() == old(self).view(),
            final(self).virtio_id() == old(self).virtio_id(),
            final(self).features() == old(self).features(),
            final(self).notifications() == old(self).notifications(),
            final(self).levels() == Seq::<bool>::empty(),
    {
        self.irq_sink = sink;
        self.levels = Ghost(Seq::empty());
    }

    /// Trigger a used-ring interrupt to notify the guest.
    fn trigger_interrupt(&mut self)
        ensures
            final(self).view() == (VirtioMmioState {
                interrupt_status: old(self).view().interrupt_status | 1,
                ..old(self).view()
            }),
            final(self).virtio_id() == old(self).virtio_id(),
            final(self).features() == old(self).features(),
            final(self).notifications() == old(self).notifications(),
            final(self).levels() == old(self).levels().push(true),
    {
        self.interrupt_status = self.interrupt_status | 1;
        self.irq_sink.set_level(true);
        self.levels = Ghost(self.levels@.push(true));
    }

    /// Replace queue `i`.
    fn set_queue(&mut self, i: usize, q: Virtqueue)
        requires
            i < old(self).queues@.len(),
        ensures
            final(self).view() == (VirtioMmioState {
                queues: old(self).view().queues.update(i as int, q),
                ..old(self).view()
            }),
            final(self).virtio_id() == old(self).virtio_id(),
            final(self).features() == old(self).features(),
            final(self).notifications() == old(self).notifications(),
            final(self).levels() == old(self).levels(),
    {
        self.queues.set(i, q);
    }

    /// Status 0: every queue back to its cleared state, no interrupt pending.
    fn reset_queues(&mut self)
        ensures
            final(self).view() == (VirtioMmioState {
                queues: Seq::new(old(self).view().queues.len(), |i: int| spec_queue_cleared()),
                interrupt_status: 0,
                ..old(self).view()
            }),
            final(self).virtio_id() == old(self).virtio_id(),
            final(self).features() == old(self).features(),
            final(self).notifications() == old(self).notifications(),
            final(self).levels() == old(self).levels(),
    {
        let n = self.queues.len();
        let mut i: usize = 0;
        while i < n
            invariant
                0 <= i <= n,
                n == self.queues@.len(),
                forall|k: int| 0 <= k < i ==> self.queues@[k] == spec_queue_cleared(),
                self.device == old(self).device,
                self.queue_sel == old(self).queue_sel,
                self.device_features_sel == old(self).device_features_sel,
                self.driver_features_sel == old(self).driver_features_sel,
                self.driver_features == old(self).driver_features,
                self.interrupt_status == old(self).interrupt_status,
                self.status == old(self).status,
                self.levels == old(self).levels,
            decreases n - i,
        {
            let q = Virtqueue::new();
            self.queues.set(i, q);
            i = i + 1;
        }
        self.interrupt_status = 0;
        assert(self.queues@ =~= Seq::new(n as nat, |i: int| spec_queue_cleared()));
    }

    /// Hand queue `queue_idx` to the backend; returns whether it asks for an
    /// interrupt.
    fn notify_queue(&mut self, queue_idx: usize) -> (raise: bool)
        requires
            queue_idx < old(self).queues@.len(),
        ensures
            notify_outcome(old(self).view().queues[queue_idx as int], final(self).view().queues[queue_idx as int], raise),
            final(self).view().queues.len() == old(self).view().queues.len(),
            forall|k: int|
                0 <= k < old(self).view().queues.len() && k != queue_idx ==> final(self).view().queues[k]
                    == old(self).view().queues[k],
            final(self).view() == (VirtioMmioState { queues: final(self).view().queues, ..old(self).view() }),
            final(self).virtio_id() == old(self).virtio_id(),
            final(self).features() == old(self).features(),
            final(self).notifications() == old(self).notifications().push((queue_idx, old(self).view().queues[queue_idx as int])),
            final(self).levels() == old(self).levels(),
    {
        let mut q = self.queues.remove(queue_idx);
        let raise = self.device.on_notify(queue_idx, &mut q, &*self.mem);
        self.queues.insert(queue_idx, q);
        raise
    }

    /// A register write below the configuration area, other than
    /// `QueueNotify`.
    fn write_register(&mut self, offset: u64, val: u32)
        requires
            offset != 0x50,
        ensures
            final(self).view() == mmio_written(old(self).view(), offset, val),
            final(self).virtio_id() == old(self).virtio_id(),
            final(self).features() == old(self).features(),
            final(self).notifications() == old(self).notifications(),
            final(self).levels() == (if mmio_write_lowers(old(self).view(), offset, val) {
                old(self).levels().push(false)
            } else {
                old(self).levels()
            }),
    {
        let sel = self.queue_sel as usize;
        let has_q = sel < self.queues.len();
        if offset == 0x14 {
            self.device_features_sel = val;
        } else if offset == 0x20 {
            if self.driver_features_sel == 0 {
                self.driver_features = val;
            }
        } else if offset == 0x24 {
            self.driver_features_sel = val;
        } else if offset == 0x30 {
            self.queue_sel = val;
        } else if offset == 0x64 {
            self.interrupt_status = self.interrupt_status & !val;
            if self.interrupt_status == 0 {
                self.irq_sink.set_level(false);
                self.levels = Ghost(self.levels@.push(false));
            }
        } else if offset == 0x70 {
            self.status = val;
            if val == 0 {
                self.reset_queues();
            }
        } else if !has_q {
        } else {
            let q = &self.queues[sel];
            let (dt, ar, ur, num, lai, ready) = (
                q.desc_table,
                q.avail_ring,
                q.used_ring,
                q.num,
                q.last_avail_idx,
                q.ready,
            );
            if offset == 0x38 {
                self.set_queue(sel, Virtqueue { desc_table: dt, avail_ring: ar, used_ring: ur, num: val as u16, last_avail_idx: lai, ready });
            } else if offset == 0x44 {
                self.set_queue(sel, Virtqueue { desc_table: dt, avail_ring: ar, used_ring: ur, num, last_avail_idx: lai, ready: val != 0 });
            } else if offset == 0x80 {
                self.set_queue(sel, Virtqueue { desc_table: (dt & 0xffff_ffff_0000_0000) | (val as u64), avail_ring: ar, used_ring: ur, num, last_avail_idx: lai, ready });
            } else if offset == 0x84 {
                self.set_queue(sel, Virtqueue { desc_table: (dt & 0x0000_0000_ffff_ffff) | ((val as u64) << 32u64), avail_ring: ar, used_ring: ur, num, last_avail_idx: lai, ready });
            } else if offset == 0x90 {
                self.set_queue(sel, Virtqueue { desc_table: dt, avail_ring: (ar & 0xffff_ffff_0000_0000) | (val as u64), used_ring: ur, num, last_avail_idx: lai, ready });
            } else if offset == 0x94 {
                self.set_queue(sel, Virtqueue { desc_table: dt, avail_ring: (ar & 0x0000_0000_ffff_ffff) | ((val as u64) << 32u64), used_ring: ur, num, last_avail_idx: lai, ready });
            } else if offset == 0xa0 {
                self.set_queue(sel, Virtqueue { desc_table: dt, avail_ring: ar, used_ring: (ur & 0xffff_ffff_0000_0000) | (val as u64), num, last_avail_idx: lai, ready });
            } else if offset == 0xa4 {
                self.set_queue(sel, Virtqueue { desc_table: dt, avail_ring: ar, used_ring: (ur & 0x0000_0000_ffff_ffff) | ((val as u64) << 32u64), num, last_avail_idx: lai, ready });
            }
        }
    }
}

/// The value of a 4-byte access is the little-endian `u32` of its bytes.
fn access_u32(data: &[u8]) -> (r: u32)
    requires
        data@.len() == 4,
    ensures
        r == access_value(data@),
        r as nat == le_value(data@, 0, 4),
{
    let v = get_le(data);
    proof {
        lemma_le_value_bound(data@, 0, 4);
        vstd::arithmetic::power2::lemma2_to64();
    }
    v as u32
}

impl<M: GuestRam> BusDevice for VirtioMmioDevice<M> {
    open spec fn obeys_access_record(&self) -> bool {
        true
    }

    closed spec fn accesses(&self) -> Seq<BusAccess> {
        self.served@
    }

    fn read(&mut self, offset: u64, data: &mut [u8])
        ensures
            final(self).view() == old(self).view(),
            final(self).virtio_id() == old(self).virtio_id(),
            final(self).features() == old(self).features(),
            final(self).notifications() == old(self).notifications(),
            final(self).levels() == old(self).levels(),
            offset < MMIO_CONFIG_OFFSET && old(data)@.len() != 4 ==> final(data)@ == old(data)@,
            !(MMIO_CONFIG_OFFSET <= offset <= MMIO_WINDOW_LAST) && old(data)@.len() == 4 ==> forall|i: int|
                0 <= i < 4 ==> final(data)@[i] == le_byte_at(
                    mmio_reg_value(old(self).view(), old(self).virtio_id(), old(self).features(), offset)
                        as u64,
                    i,
                ),
            offset > MMIO_WINDOW_LAST && old(data)@.len() != 4 ==> final(data)@ == old(data)@,
            MMIO_CONFIG_OFFSET <= offset <= MMIO_WINDOW_LAST ==> final(data)@ == old(self).device_config(
                (offset - MMIO_CONFIG_OFFSET) as u64,
                old(data)@,
            ),
    {
        if data.len() != 4 && offset < MMIO_CONFIG_OFFSET {
            self.served = Ghost(old(self).served@.push(BusAccess { write: false, offset, data: data@ }));
            return;
        }
        if MMIO_CONFIG_OFFSET <= offset && offset <= MMIO_WINDOW_LAST {
            self.device.read_config(offset - MMIO_CONFIG_OFFSET, data);
            self.served = Ghost(old(self).served@.push(BusAccess { write: false, offset, data: data@ }));
            return;
        }
        let sel = self.queue_sel as usize;
        let has_q = sel < self.queues.len();
        let val: u32 = if offset == 0x00 {
            VIRTIO_MAGIC
        } else if offset == 0x04 {
            VIRTIO_VERSION
        } else if offset == 0x08 {
            self.device.device_id()
        } else if offset == 0x0c {
            VIRTIO_VENDOR
        } else if offset == 0x10 {
            let features = self.device.device_features();
            if self.device_features_sel == 0 {
                features as u32
            } else if self.device_features_sel == 1 {
                (features >> 32u64) as u32
            } else {
                0
            }
        } else if offset == 0x34 && has_q {
            MMIO_QUEUE_NUM_MAX
        } else if offset == 0x44 && has_q && self.queues[sel].ready {
            1
        } else if offset == 0x60 {
            self.interrupt_status
        } else if offset == 0x70 {
            self.status
        } else {
            0
        };
        if data.len() == 4 {
            put_le(data, val as u64);
        }        self.served = Ghost(old(self).served@.push(BusAccess { write: false, offset, data: data@ }));
    }

    fn write(&mut self, offset: u64, data: &[u8])
        ensures
            final(self).virtio_id() == old(self).virtio_id(),
            final(self).features() == old(self).features(),
            offset < MMIO_CONFIG_OFFSET && data@.len() != 4 ==> final(self).view() == old(self).view()
                && final(self).levels() == old(self).levels(),
            offset >= MMIO_CONFIG_OFFSET ==> final(self).view() == old(self).view() && final(self).levels()
                == old(self).levels(),
            offset < MMIO_CONFIG_OFFSET && offset != 0x50 && data@.len() == 4 ==> final(self).view()
                == mmio_written(old(self).view(), offset, access_value(data@)) && final(self).levels() == (
            if mmio_write_lowers(old(self).view(), offset, access_value(data@)) {
                old(self).levels().push(false)
            } else {
                old(self).levels()
            }),
            offset == 0x50 && data@.len() == 4 && (access_value(data@) as int) >= old(self).view().queues.len()
                ==> final(self).view() == old(self).view() && final(self).levels() == old(self).levels(),
            offset == 0x50 && data@.len() == 4 && (access_value(data@) as int) < old(self).view().queues.len()
                ==> ({
                let q = access_value(data@) as int;
                let moved = final(self).view().queues[q].last_avail_idx != old(self).view().queues[q].last_avail_idx;
                &&& final(self).view().queues.len() == old(self).view().queues.len()
                &&& forall|k: int|
                    0 <= k < old(self).view().queues.len() && k != q ==> final(self).view().queues[k]
                        == old(self).view().queues[k]
                &&& final(self).view() == (VirtioMmioState {
                    queues: final(self).view().queues,
                    interrupt_status: final(self).view().interrupt_status,
                    ..old(self).view()
                })
                &&& notify_outcome(old(self).view().queues[q], final(self).view().queues[q], moved)
                &&& final(self).view().interrupt_status == (if moved {
                    old(self).view().interrupt_status | 1
                } else {
                    old(self).view().interrupt_status
                })
                &&& final(self).levels() == (if moved {
                    old(self).levels().push(true)
                } else {
                    old(self).levels()
                })
                &&& final(self).notifications() == old(self).notifications().push((q as usize, old(self).view().queues[q]))
            }),
            !(offset == 0x50 && data@.len() == 4 && (access_value(data@) as int) < old(self).view().queues.len())
                ==> final(self).notifications() == old(self).notifications(),
    {
        let ghost record = old(self).served@.push(BusAccess { write: true, offset, data: data@ });
        if data.len() != 4 && offset < MMIO_CONFIG_OFFSET {
            self.served = Ghost(record);
            return;
        }
        if offset >= MMIO_CONFIG_OFFSET {
            self.device.write_config(offset - MMIO_CONFIG_OFFSET, data);
            self.served = Ghost(record);
            return;
        }
        let val = access_u32(data);
        if offset == 0x50 {
            let queue_idx = val as usize;
            if queue_idx < self.queues.len() {
                let raise = self.notify_queue(queue_idx);
                if raise {
                    self.trigger_interrupt();
                }
            }
        } else {
            self.write_register(offset, val);
        }        self.served = Ghost(record);
    }
}

} // verus!
