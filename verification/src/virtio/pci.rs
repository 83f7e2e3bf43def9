//! virtio-pci transport (virtio 1.0).
//!
//! A `VirtioPciDevice` presents a `VirtioDevice` backend to the guest as a
//! PCI function. Configuration space advertises the IDs, BAR0 and the virtio
//! capability chain; BAR0 is an MMIO region holding the common, ISR, notify
//! and device-specific structures. All BARs are routed through a single
//! `VirtioPciMmio` dispatcher over a fixed window. Interrupts use INTx.
use std::sync::Arc;
use vstd::prelude::*;

use super::{Virtqueue, VirtioDevice, notify_outcome};
use crate::bytes::{le_decode, le_value};
use crate::bus::{BusAccess, BusDevice};
use crate::memory::GuestRam;
use crate::pci::{
    ConfigSpace, PciDevice, cfg_byte, le16_at, le32_at, lemma_put16_get16, lemma_put32_get32,
    put16, put32,
};
use crate::serial::IrqSink;

verus! {

// ---- PCI identifiers -------------------------------------------------------
pub const VIRTIO_PCI_VENDOR: u16 = 0x1af4;
/// Modern device IDs are 0x1040 + virtio type.
pub const VIRTIO_PCI_DEVICE_BASE: u16 = 0x1040;

// ---- PCI capability chain --------------------------------------------------
pub const PCI_CAP_ID_VNDR: u8 = 0x09;
pub const VIRTIO_PCI_CAP_COMMON_CFG: u8 = 1;
pub const VIRTIO_PCI_CAP_NOTIFY_CFG: u8 = 2;
pub const VIRTIO_PCI_CAP_ISR_CFG: u8 = 3;
pub const VIRTIO_PCI_CAP_DEVICE_CFG: u8 = 4;

/// Offsets of the capability structures within configuration space.
pub const CAP_COMMON: usize = 0x40;
pub const CAP_NOTIFY: usize = 0x50;
pub const CAP_ISR: usize = 0x64;
pub const CAP_DEVICE: usize = 0x74;

/// Reported for every MSI-X vector field: only INTx is implemented.
pub const VIRTIO_MSI_NO_VECTOR: u64 = 0xffff;

/// ISR status bit raised for a used-ring interrupt.
pub const ISR_QUEUE: u8 = 0x1;

/// Largest virtqueue size advertised in `common_cfg.queue_size`.
pub const QUEUE_SIZE_MAX: u16 = 256;

// ---- BAR0 layout -----------------------------------------------------------
pub const BAR0_SIZE: u64 = 0x1000;
pub const COMMON_CFG_OFFSET: u64 = 0x0000;
pub const COMMON_CFG_LEN: u64 = 0x0040;
pub const ISR_OFFSET: u64 = 0x0040;
pub const ISR_LEN: u64 = 0x0010;
pub const NOTIFY_OFFSET: u64 = 0x0050;
pub const NOTIFY_LEN: u64 = 0x0010;
pub const DEVICE_CFG_OFFSET: u64 = 0x0100;
pub const DEVICE_CFG_LEN: u64 = 0x0100;

/// PCI base class / subclass advertised for a virtio device type.
pub open spec fn spec_pci_class(virtio_id: u32) -> (u8, u8) {
    if virtio_id == 2 {
        (0x01, 0x00)
    } else {
        (0xff, 0x00)
    }
}

/// PCI base class / subclass for a virtio device type: block devices are
/// mass-storage controllers, everything else "unassigned".
pub fn pci_class(virtio_id: u32) -> (r: (u8, u8))
    ensures
        r == spec_pci_class(virtio_id),
{
    match virtio_id {
        2 => (0x01, 0x00),
        _ => (0xff, 0x00),
    }
}

/// `s` with one `virtio_pci_cap` header written at `at`.
pub open spec fn spec_cap(
    s: Seq<u8>,
    at: int,
    next: u8,
    len: u8,
    cfg_type: u8,
    bar_offset: u32,
    bar_len: u32,
) -> Seq<u8> {
    let h = s.update(at, PCI_CAP_ID_VNDR).update(at + 1, next).update(at + 2, len).update(
        at + 3,
        cfg_type,
    ).update(at + 4, 0).update(at + 5, 0).update(at + 6, 0).update(at + 7, 0);
    put32(put32(h, at + 8, bar_offset), at + 12, bar_len)
}

/// Write one `virtio_pci_cap` header at `at`: vendor capability ID, next
/// pointer, length, type, BAR 0, then the BAR offset and length.
pub fn write_cap(
    cs: &mut ConfigSpace,
    at: usize,
    next: u8,
    len: u8,
    cfg_type: u8,
    bar_offset: u32,
    bar_len: u32,
)
    requires
        at + 15 < 256,
    ensures
        final(cs)@ == spec_cap(old(cs)@, at as int, next, len, cfg_type, bar_offset, bar_len),
{
    cs.set_u8(at, PCI_CAP_ID_VNDR);
    cs.set_u8(at + 1, next);
    cs.set_u8(at + 2, len);
    cs.set_u8(at + 3, cfg_type);
    cs.set_u8(at + 4, 0);
    cs.set_u8(at + 5, 0);
    cs.set_u8(at + 6, 0);
    cs.set_u8(at + 7, 0);
    cs.set_u32(at + 8, bar_offset);
    cs.set_u32(at + 12, bar_len);
}

/// The static configuration space of a virtio function: IDs, class,
/// status (capability list present), BAR0, subsystem IDs, interrupt pin
/// INTA, and the chain common -> notify -> ISR -> device capabilities.
pub open spec fn virtio_config_bytes(virtio_id: u32, irq_line: u8) -> Seq<u8> {
    let (class, subclass) = spec_pci_class(virtio_id);
    let s0 = Seq::new(256, |i: int| 0u8);
    let s1 = put16(s0, 0x00, VIRTIO_PCI_VENDOR);
    let s2 = put16(s1, 0x02, (VIRTIO_PCI_DEVICE_BASE + virtio_id as u16) as u16);
    let s3 = put16(s2, 0x04, 0x0000);
    let s4 = put16(s3, 0x06, 0x0010);
    let s5 = s4.update(0x08, 0x01).update(0x09, 0x00).update(0x0a, subclass).update(0x0b, class).update(
        0x0e,
        0x00,
    );
    let s6 = put32(s5, 0x10, 0);
    let s7 = put16(s6, 0x2c, VIRTIO_PCI_VENDOR);
    let s8 = put16(s7, 0x2e, virtio_id as u16);
    let s9 = s8.update(0x34, CAP_COMMON as u8).update(0x3c, irq_line).update(0x3d, 0x01);
    let c1 = spec_cap(s9, 0x40, 0x50, 0x10, VIRTIO_PCI_CAP_COMMON_CFG, 0x0000, 0x0040);
    let c2 = spec_cap(c1, 0x50, 0x64, 0x14, VIRTIO_PCI_CAP_NOTIFY_CFG, 0x0050, 0x0010);
    let c3 = put32(c2, 0x60, 0);
    let c4 = spec_cap(c3, 0x64, 0x74, 0x10, VIRTIO_PCI_CAP_ISR_CFG, 0x0040, 0x0010);
    spec_cap(c4, 0x74, 0x00, 0x10, VIRTIO_PCI_CAP_DEVICE_CFG, 0x0100, 0x0100)
}

/// Build the static PCI configuration space for a virtio function.
pub fn build_config(virtio_id: u32, irq_line: u8) -> (cs: ConfigSpace)
    requires
        VIRTIO_PCI_DEVICE_BASE + virtio_id as u16 <= u16::MAX,
    ensures
        cs@ == virtio_config_bytes(virtio_id, irq_line),
{
    let mut cs = ConfigSpace::new();
    let (class, subclass) = pci_class(virtio_id);
    cs.set_u16(0x00, VIRTIO_PCI_VENDOR);
    cs.set_u16(0x02, VIRTIO_PCI_DEVICE_BASE + virtio_id as u16);
    cs.set_u16(0x04, 0x0000);
    cs.set_u16(0x06, 0x0010);
    cs.set_u8(0x08, 0x01);
    cs.set_u8(0x09, 0x00);
    cs.set_u8(0x0a, subclass);
    cs.set_u8(0x0b, class);
    cs.set_u8(0x0e, 0x00);
    cs.set_u32(0x10, 0x0000_0000);
    cs.set_u16(0x2c, VIRTIO_PCI_VENDOR);
    cs.set_u16(0x2e, virtio_id as u16);
    cs.set_u8(0x34, CAP_COMMON as u8);
    cs.set_u8(0x3c, irq_line);
    cs.set_u8(0x3d, 0x01);
    write_cap(
        &mut cs,
        CAP_COMMON,
        CAP_NOTIFY as u8,
        0x10,
        VIRTIO_PCI_CAP_COMMON_CFG,
        COMMON_CFG_OFFSET as u32,
        COMMON_CFG_LEN as u32,
    );
    write_cap(
        &mut cs,
        CAP_NOTIFY,
        CAP_ISR as u8,
        0x14,
        VIRTIO_PCI_CAP_NOTIFY_CFG,
        NOTIFY_OFFSET as u32,
        NOTIFY_LEN as u32,
    );
    cs.set_u32(CAP_NOTIFY + 16, 0);
    write_cap(
        &mut cs,
        CAP_ISR,
        CAP_DEVICE as u8,
        0x10,
        VIRTIO_PCI_CAP_ISR_CFG,
        ISR_OFFSET as u32,
        ISR_LEN as u32,
    );
    write_cap(
        &mut cs,
        CAP_DEVICE,
        0x00,
        0x10,
        VIRTIO_PCI_CAP_DEVICE_CFG,
        DEVICE_CFG_OFFSET as u32,
        DEVICE_CFG_LEN as u32,
    );
    cs
}

/// `256^n`.
pub open spec fn pow256(n: nat) -> nat
    decreases n,
{
    if n == 0 {
        1
    } else {
        256 * pow256((n - 1) as nat)
    }
}

/// Byte `i` (little-endian) of `v`; zero past the eighth byte.
pub open spec fn le_byte_at(v: u64, i: int) -> u8 {
    if 0 <= i < 8 {
        ((v as nat / pow256(i as nat)) % 256) as u8
    } else {
        0
    }
}

/// Pack `value` little-endian into `data` (the access width is
/// `data.len()`); bytes past the eighth are zero.
pub fn put_le(data: &mut [u8], value: u64)
    ensures
        final(data)@.len() == old(data)@.len(),
        forall|i: int| 0 <= i < final(data)@.len() ==> final(data)@[i] == le_byte_at(value, i),
{
    let mut rem: u64 = value;
    let mut i: usize = 0;
    assert(pow256(0) == 1);
    assert(value as nat / 1 == value as nat);
    while i < data.len()
        invariant
            0 <= i <= data@.len(),
            data@.len() == old(data)@.len(),
            i <= 8 ==> rem as nat == value as nat / pow256(i as nat),
            forall|j: int| 0 <= j < i ==> data@[j] == le_byte_at(value, j),
        decreases data@.len() - i,
    {
        if i < 8 {
            data[i] = (rem % 256) as u8;
            proof {
                lemma_pow256_pos(i as nat);
                vstd::arithmetic::div_mod::lemma_div_denominator(
                    value as int,
                    pow256(i as nat) as int,
                    256,
                );
                lemma_pow256_pos(i as nat);
                assert(pow256((i + 1) as nat) == 256 * pow256(i as nat));
                assert(pow256(i as nat) * 256 == 256 * pow256(i as nat)) by (nonlinear_arith);
            }
            rem = rem / 256;
        } else {
            data[i] = 0;
        }
        i = i + 1;
    }
}

/// `256^n` is positive.
pub proof fn lemma_pow256_pos(n: nat)
    ensures
        pow256(n) > 0,
    decreases n,
{
    if n > 0 {
        lemma_pow256_pos((n - 1) as nat);
    }
}

/// The value of an access: up to 8 little-endian bytes of `data`.
pub open spec fn spec_get_le(data: Seq<u8>) -> u64 {
    le_value(data, 0, if data.len() < 8 { data.len() } else { 8 }) as u64
}

/// Read up to 8 little-endian bytes from `data` into a `u64`.
pub fn get_le(data: &[u8]) -> (r: u64)
    ensures
        r == spec_get_le(data@),
        r as nat == le_value(data@, 0, if data@.len() < 8 { data@.len() } else { 8 }),
{
    let n = if data.len() < 8 {
        data.len()
    } else {
        8
    };
    le_decode(data, 0, n)
}

/// The bytes of `v` read back: `le_value` over `le_byte_at` from byte `j`
/// for `n` bytes is `v / 256^j mod 256^n`.
pub proof fn lemma_le_bytes_value(s: Seq<u8>, v: u64, j: nat, n: nat)
    requires
        j + n <= 8,
        j + n <= s.len(),
        forall|i: int| j <= i < j + n ==> s[i] == le_byte_at(v, i),
    ensures
        le_value(s, j as int, n) == (v as nat / pow256(j)) % pow256(n),
    decreases n,
{
    lemma_pow256_pos(j);
    lemma_pow256_pos(n);
    if n == 0 {
    } else {
        lemma_le_bytes_value(s, v, j + 1, (n - 1) as nat);
        lemma_pow256_pos((n - 1) as nat);
        let w = v as nat / pow256(j);
        vstd::arithmetic::div_mod::lemma_div_denominator(v as int, pow256(j) as int, 256);
        assert(pow256(j + 1) == 256 * pow256(j));
        assert(pow256(j) * 256 == 256 * pow256(j)) by (nonlinear_arith);
        assert(v as nat / pow256(j + 1) == w / 256);
        vstd::arithmetic::div_mod::lemma_mod_breakdown(w as int, 256, pow256((n - 1) as nat) as int);
        assert(pow256(n) == 256 * pow256((n - 1) as nat));
        assert(s[j as int] == (w % 256) as u8);
    }
}

/// `256^n` is at most `2^64` for widths of up to 8 bytes.
pub proof fn lemma_pow256_le_2_64(n: nat)
    requires
        n <= 8,
    ensures
        pow256(n) <= 0x1_0000_0000_0000_0000,
{
    reveal_with_fuel(pow256, 9);
}

/// A value packed with `put_le` into an access of up to 8 bytes reads back
/// with `get_le` as the value truncated to the access width.
#[verifier::spinoff_prover]
pub proof fn lemma_put_get_le(s: Seq<u8>, v: u64)
    requires
        s.len() <= 8,
        forall|i: int| 0 <= i < s.len() ==> s[i] == le_byte_at(v, i),
    ensures
        spec_get_le(s) as nat == v as nat % pow256(s.len()),
{
    let n = s.len();
    lemma_le_bytes_value(s, v, 0, n);
    assert(pow256(0) == 1);
    assert(v as nat / 1nat == v as nat) by (nonlinear_arith);
    assert(v as nat / pow256(0) == v as nat);
    lemma_pow256_pos(n);
    lemma_pow256_le_2_64(n);
    let x = le_value(s, 0, n);
    assert(x == v as nat % pow256(n));
    assert(x < pow256(n));
    assert(x < 0x1_0000_0000_0000_0000);
    assert(spec_get_le(s) == x as u64);
    assert((x as u64) as nat == x);
}


/// The transport state of a virtio-pci function.
pub struct VirtioPciState {
    pub device_feature_select: u32,
    pub driver_feature_select: u32,
    pub driver_features: u64,
    pub status: u8,
    pub queue_select: u16,
    pub isr_status: u8,
    pub queues: Seq<Virtqueue>,
    /// The 256 bytes of PCI configuration space.
    pub config: Seq<u8>,
}

/// A queue at power-on: everything zero except the advertised size.
pub open spec fn spec_queue_power_on() -> Virtqueue {
    Virtqueue {
        desc_table: 0,
        avail_ring: 0,
        used_ring: 0,
        num: QUEUE_SIZE_MAX,
        last_avail_idx: 0,
        ready: false,
    }
}

/// All transport state back to power-on defaults (the status register is
/// left to the caller).
pub open spec fn spec_transport_reset(s: VirtioPciState) -> VirtioPciState {
    VirtioPciState {
        queues: Seq::new(s.queues.len(), |i: int| spec_queue_power_on()),
        device_feature_select: 0,
        driver_feature_select: 0,
        driver_features: 0,
        queue_select: 0,
        isr_status: 0,
        ..s
    }
}

/// The value a read of the common configuration structure at `offset`
/// returns; `features` are the backend's device features.
pub open spec fn common_cfg_value(s: VirtioPciState, features: u64, offset: u64) -> u64 {
    let sel = s.queue_select as int;
    let has_q = sel < s.queues.len();
    let q = s.queues[sel];
    if offset == 0x00 {
        s.device_feature_select as u64
    } else if offset == 0x04 {
        if s.device_feature_select == 0 {
            features & 0xffff_ffff
        } else if s.device_feature_select == 1 {
            features >> 32u64
        } else {
            0
        }
    } else if offset == 0x08 {
        s.driver_feature_select as u64
    } else if offset == 0x0c {
        if s.driver_feature_select == 0 {
            s.driver_features & 0xffff_ffff
        } else if s.driver_feature_select == 1 {
            s.driver_features >> 32u64
        } else {
            0
        }
    } else if offset == 0x10 || offset == 0x1a {
        VIRTIO_MSI_NO_VECTOR
    } else if offset == 0x12 {
        s.queues.len() as u64
    } else if offset == 0x14 {
        s.status as u64
    } else if offset == 0x16 {
        s.queue_select as u64
    } else if !has_q {
        0
    } else if offset == 0x18 {
        q.num as u64
    } else if offset == 0x1c {
        if q.ready {
            1
        } else {
            0
        }
    } else if offset == 0x20 {
        q.desc_table & 0xffff_ffff
    } else if offset == 0x24 {
        q.desc_table >> 32u64
    } else if offset == 0x28 {
        q.avail_ring & 0xffff_ffff
    } else if offset == 0x2c {
        q.avail_ring >> 32u64
    } else if offset == 0x30 {
        q.used_ring & 0xffff_ffff
    } else if offset == 0x34 {
        q.used_ring >> 32u64
    } else {
        0
    }
}

/// Replace the low 32 bits of `old` with the low 32 bits of `value`.
pub open spec fn with_low32(old: u64, value: u64) -> u64 {
    (old & 0xffff_ffff_0000_0000) | (value & 0xffff_ffff)
}

/// Replace the high 32 bits of `old` with `value`.
pub open spec fn with_high32(old: u64, value: u64) -> u64 {
    (old & 0x0000_0000_ffff_ffff) | (value << 32u64)
}

/// The transport state after a driver write of `value` at `offset` of the
/// common configuration structure.
pub open spec fn common_cfg_written(s: VirtioPciState, offset: u64, value: u64) -> VirtioPciState {
    let sel = s.queue_select as int;
    let has_q = sel < s.queues.len();
    let q = s.queues[sel];
    if offset == 0x00 {
        VirtioPciState { device_feature_select: value as u32, ..s }
    } else if offset == 0x08 {
        VirtioPciState { driver_feature_select: value as u32, ..s }
    } else if offset == 0x0c {
        let half = (value as u32) as u64;
        if s.driver_feature_select == 0 {
            VirtioPciState {
                driver_features: (s.driver_features & 0xffff_ffff_0000_0000) | half,
                ..s
            }
        } else if s.driver_feature_select == 1 {
            VirtioPciState {
                driver_features: (s.driver_features & 0x0000_0000_ffff_ffff) | (half << 32u64),
                ..s
            }
        } else {
            s
        }
    } else if offset == 0x14 {
        if value as u8 == 0 {
            spec_transport_reset(VirtioPciState { status: 0, ..s })
        } else {
            VirtioPciState { status: value as u8, ..s }
        }
    } else if offset == 0x16 {
        VirtioPciState { queue_select: value as u16, ..s }
    } else if !has_q {
        s
    } else if offset == 0x18 {
        VirtioPciState { queues: s.queues.update(sel, Virtqueue { num: value as u16, ..q }), ..s }
    } else if offset == 0x1c {
        VirtioPciState { queues: s.queues.update(sel, Virtqueue { ready: value != 0, ..q }), ..s }
    } else if offset == 0x20 {
        VirtioPciState {
            queues: s.queues.update(sel, Virtqueue { desc_table: with_low32(q.desc_table, value), ..q }),
            ..s
        }
    } else if offset == 0x24 {
        VirtioPciState {
            queues: s.queues.update(sel, Virtqueue { desc_table: with_high32(q.desc_table, value), ..q }),
            ..s
        }
    } else if offset == 0x28 {
        VirtioPciState {
            queues: s.queues.update(sel, Virtqueue { avail_ring: with_low32(q.avail_ring, value), ..q }),
            ..s
        }
    } else if offset == 0x2c {
        VirtioPciState {
            queues: s.queues.update(sel, Virtqueue { avail_ring: with_high32(q.avail_ring, value), ..q }),
            ..s
        }
    } else if offset == 0x30 {
        VirtioPciState {
            queues: s.queues.update(sel, Virtqueue { used_ring: with_low32(q.used_ring, value), ..q }),
            ..s
        }
    } else if offset == 0x34 {
        VirtioPciState {
            queues: s.queues.update(sel, Virtqueue { used_ring: with_high32(q.used_ring, value), ..q }),
            ..s
        }
    } else {
        s
    }
}

/// Which BAR0 structure an offset falls in.
pub open spec fn in_common(o: u64) -> bool {
    o < COMMON_CFG_OFFSET + COMMON_CFG_LEN
}

pub open spec fn in_isr(o: u64) -> bool {
    ISR_OFFSET <= o < ISR_OFFSET + ISR_LEN
}

pub open spec fn in_notify(o: u64) -> bool {
    NOTIFY_OFFSET <= o < NOTIFY_OFFSET + NOTIFY_LEN
}

pub open spec fn in_device_cfg(o: u64) -> bool {
    DEVICE_CFG_OFFSET <= o < DEVICE_CFG_OFFSET + DEVICE_CFG_LEN
}

/// Configuration registers the guest may write: command (0x04-0x05), BAR0
/// (0x10-0x13) and interrupt line (0x3c).
pub open spec fn cfg_writable(j: int) -> bool {
    j == 0x04 || j == 0x05 || (0x10 <= j <= 0x13) || j == 0x3c
}

/// Configuration space after a guest write of `data` at `offset`, before
/// the BAR0 encoding is re-imposed.
pub open spec fn cfg_bytes_written(cfg: Seq<u8>, offset: u64, data: Seq<u8>) -> Seq<u8> {
    Seq::new(
        cfg.len(),
        |j: int|
            if cfg_writable(j) && offset <= j < offset + data.len() {
                data[j - offset]
            } else {
                cfg[j]
            },
    )
}

/// Configuration space after a guest write: writable bytes take the new
/// values, then BAR0 keeps its 32-bit, non-prefetchable, 4 KiB encoding.
pub open spec fn cfg_after_write(cfg: Seq<u8>, offset: u64, data: Seq<u8>) -> Seq<u8> {
    let s = cfg_bytes_written(cfg, offset, data);
    put32(s, 0x10, le32_at(s, 0x10) & 0xffff_f000)
}

/// Writing `queue_select` and reading it back returns the value written,
/// truncated to the register's 16 bits.
pub proof fn lemma_queue_select_roundtrip(s: VirtioPciState, features: u64, v: u64)
    ensures
        common_cfg_value(common_cfg_written(s, 0x16, v), features, 0x16) == (v as u16) as u64,
{
}

/// A non-zero `device_status` write reads back; a zero write resets the
/// transport to its power-on state and leaves status 0.
pub proof fn lemma_device_status_write(s: VirtioPciState, features: u64, v: u64)
    ensures
        v as u8 != 0 ==> common_cfg_value(common_cfg_written(s, 0x14, v), features, 0x14) == (v
            as u8) as u64,
        v as u8 == 0 ==> common_cfg_written(s, 0x14, v) == spec_transport_reset(
            VirtioPciState { status: 0, ..s },
        ),
        v as u8 == 0 ==> forall|k: int|
            0 <= k < s.queues.len() ==> #[trigger] common_cfg_written(s, 0x14, v).queues[k]
                == spec_queue_power_on(),
{
}

/// `device_feature_select` 0 and 1 expose the low and high words of the
/// device features.
pub proof fn lemma_device_feature_words(s: VirtioPciState, features: u64)
    ensures
        common_cfg_value(common_cfg_written(s, 0x00, 0), features, 0x04) == features & 0xffff_ffff,
        common_cfg_value(common_cfg_written(s, 0x00, 1), features, 0x04) == features >> 32u64,
{
}

/// `queue_enable` reads back as 1 after a non-zero write and 0 after a zero
/// write, on an existing queue.
pub proof fn lemma_queue_enable_roundtrip(s: VirtioPciState, features: u64, v: u64)
    requires
        (s.queue_select as int) < s.queues.len(),
    ensures
        common_cfg_value(common_cfg_written(s, 0x1c, v), features, 0x1c) == (if v != 0 {
            1u64
        } else {
            0u64
        }),
{
}

/// Writing the low then the high half of the descriptor table address gives
/// the 64-bit address `hi:lo`, whatever the queue held before.
pub proof fn lemma_queue_desc_halves(s: VirtioPciState, lo: u32, hi: u32)
    requires
        (s.queue_select as int) < s.queues.len(),
    ensures
        common_cfg_written(common_cfg_written(s, 0x20, lo as u64), 0x24, hi as u64).queues[s.queue_select
            as int].desc_table == ((hi as u64) << 32u64) | (lo as u64),
{
    let d = s.queues[s.queue_select as int].desc_table;
    let (l, h) = (lo as u64, hi as u64);
    assert(l < 0x1_0000_0000 && h < 0x1_0000_0000);
    assert(forall|x: u64, l: u64, h: u64|
        l < 0x1_0000_0000 && h < 0x1_0000_0000 ==> #[trigger] ((((x & 0xffff_ffff_0000_0000) | (l
            & 0xffff_ffff)) & 0x0000_0000_ffff_ffff) | (h << 32u64)) == (h << 32u64) | l)
        by (bit_vector);
}

/// A guest configuration write changes no byte but the command register,
/// BAR0 and the interrupt line: the IDs, class and capability chain stay.
pub proof fn lemma_config_write_keeps_read_only(cfg: Seq<u8>, offset: u64, data: Seq<u8>, j: int)
    requires
        cfg.len() == 256,
        0 <= j < 256,
        !cfg_writable(j),
    ensures
        cfg_after_write(cfg, offset, data)[j] == cfg[j],
{
    let s = cfg_bytes_written(cfg, offset, data);
    lemma_put32_get32(s, 0x10, le32_at(s, 0x10) & 0xffff_f000);
}

/// After any guest configuration write BAR0 reads as a 4 KiB-aligned,
/// 32-bit, non-prefetchable memory BAR.
pub proof fn lemma_config_write_bar_aligned(cfg: Seq<u8>, offset: u64, data: Seq<u8>)
    requires
        cfg.len() == 256,
    ensures
        le32_at(cfg_after_write(cfg, offset, data), 0x10) & 0xfff == 0,
{
    let s = cfg_bytes_written(cfg, offset, data);
    let w = le32_at(s, 0x10);
    lemma_put32_get32(s, 0x10, w & 0xffff_f000);
    assert((w & 0xffff_f000) & 0xfff == 0) by (bit_vector);
}

/// A single virtio device behind a PCI function (modern transport).
#[verifier::reject_recursive_types(M)]
pub struct VirtioPciDevice<M: GuestRam> {
    mem: Arc<M>,
    device: Box<dyn VirtioDevice>,
    queues: Vec<Virtqueue>,
    config: ConfigSpace,
    device_feature_select: u32,
    driver_feature_select: u32,
    driver_features: u64,
    status: u8,
    queue_select: u16,
    isr_status: u8,
    irq_sink: Box<dyn IrqSink>,
    /// Levels handed to the current interrupt sink, in order.
    levels: Ghost<Seq<bool>>,
    /// Accesses served through BAR0, in order.
    served: Ghost<Seq<BusAccess>>,
    /// Configuration writes handed to the function, in order.
    cfg_writes: Ghost<Seq<(u64, Seq<u8>)>>,
}

impl<M: GuestRam> VirtioPciDevice<M> {
    pub closed spec fn view(&self) -> VirtioPciState {
        VirtioPciState {
            device_feature_select: self.device_feature_select,
            driver_feature_select: self.driver_feature_select,
            driver_features: self.driver_features,
            status: self.status,
            queue_select: self.queue_select,
            isr_status: self.isr_status,
            queues: self.queues@,
            config: self.config@,
        }
    }

    /// The backend's device features.
    pub closed spec fn features(&self) -> u64 {
        self.device.spec_device_features()
    }

    /// The backend's virtio device ID.
    pub closed spec fn virtio_id(&self) -> u32 {
        self.device.spec_device_id()
    }

    /// Levels handed to the current interrupt sink.
    pub closed spec fn levels(&self) -> Seq<bool> {
        self.levels@
    }

    /// What the backend's device-specific configuration read at `offset`
    /// leaves in a buffer that held `data`.
    pub closed spec fn device_config(&self, offset: u64, data: Seq<u8>) -> Seq<u8> {
        self.device.config_read_result(offset, data)
    }

    /// The notifications handed to the backend so far: the queue index and
    /// the queue as it stood.
    pub closed spec fn notifications(&self) -> Seq<(usize, Virtqueue)> {
        self.device.notifications()
    }

    pub fn new(mem: Arc<M>, irq_sink: Box<dyn IrqSink>, device: Box<dyn VirtioDevice>, irq_line: u8) -> (r: Self)
        requires
            VIRTIO_PCI_DEVICE_BASE + device.spec_device_id() as u16 <= u16::MAX,
        ensures
            r.view().config == virtio_config_bytes(device.spec_device_id(), irq_line),
            r.view().queues == Seq::new(device.spec_num_queues() as nat, |i: int| spec_queue_power_on()),
            r.view().device_feature_select == 0,
            r.view().driver_feature_select == 0,
            r.view().driver_features == 0,
            r.view().status == 0,
            r.view().queue_select == 0,
            r.view().isr_status == 0,
            r.levels() == Seq::<bool>::empty(),
    {
        let virtio_id = device.device_id();
        let num_queues = device.num_queues();
        let mut queues: Vec<Virtqueue> = Vec::new();
        let mut i: usize = 0;
        while i < num_queues
            invariant
                0 <= i <= num_queues,
                queues@ == Seq::new(i as nat, |k: int| spec_queue_power_on()),
            decreases num_queues - i,
        {
            let mut queue = Virtqueue::new();
            queue.num = QUEUE_SIZE_MAX;
            queues.push(queue);
            assert(queues@ =~= Seq::new((i + 1) as nat, |k: int| spec_queue_power_on()));
            i = i + 1;
        }
        VirtioPciDevice {
            config: build_config(virtio_id, irq_line),
            mem,
            device,
            queues,
            device_feature_select: 0,
            driver_feature_select: 0,
            driver_features: 0,
            status: 0,
            queue_select: 0,
            isr_status: 0,
            irq_sink,
            levels: Ghost(Seq::empty()),
            served: Ghost(Seq::empty()),
            cfg_writes: Ghost(Seq::empty()),
        }
    }

    /// Replace the active IRQ sink.
    pub fn replace_irq_sink(&mut self, sink: Box<dyn IrqSink>)
        ensures
            final(self).view() == old(self).view(),
            final(self).features() == old(self).features(),
            final(self).notifications() == old(self).notifications(),
            final(self).virtio_id() == old(self).virtio_id(),
            final(self).levels() == Seq::<bool>::empty(),
    {
        self.irq_sink = sink;
        self.levels = Ghost(Seq::empty());
    }

    /// Current BAR0 base address as programmed by the guest (0 if
    /// unassigned).
    pub fn bar_base(&self) -> (r: u64)
        ensures
            r == (le32_at(self.view().config, 0x10) & 0xffff_f000) as u64,
    {
        (self.config.get_u32(0x10) & 0xffff_f000) as u64
    }

    /// Whether the PCI command register has memory space decoding enabled.
    pub fn mem_enabled(&self) -> (r: bool)
        ensures
            r == (le16_at(self.view().config, 0x04) & 0x0002 != 0),
    {
        self.config.get_u16(0x04) & 0x0002 != 0
    }

    /// Raise a used-ring interrupt: set the ISR queue bit and assert the line.
    fn trigger_interrupt(&mut self)
        ensures
            final(self).view() == (VirtioPciState {
                isr_status: old(self).view().isr_status | ISR_QUEUE,
                ..old(self).view()
            }),
            final(self).features() == old(self).features(),
            final(self).notifications() == old(self).notifications(),
            final(self).virtio_id() == old(self).virtio_id(),
            final(self).levels() == old(self).levels().push(true),
    {
        self.isr_status = self.isr_status | ISR_QUEUE;
        self.irq_sink.set_level(true);
        self.levels = Ghost(self.levels@.push(true));
    }

    /// Reset all transport state to the power-on defaults and lower the line.
    fn reset(&mut self)
        ensures
            final(self).view() == spec_transport_reset(old(self).view()),
            final(self).features() == old(self).features(),
            final(self).notifications() == old(self).notifications(),
            final(self).virtio_id() == old(self).virtio_id(),
            final(self).levels() == old(self).levels().push(false),
    {
        let n = self.queues.len();
        let mut i: usize = 0;
        while i < n
            invariant
                0 <= i <= n,
                n == self.queues@.len(),
                self.queues@.len() == old(self).queues@.len(),
                forall|k: int| 0 <= k < i ==> self.queues@[k] == spec_queue_power_on(),
                self.device == old(self).device,
                self.config == old(self).config,
                self.status == old(self).status,
                self.device_feature_select == old(self).device_feature_select,
                self.driver_feature_select == old(self).driver_feature_select,
                self.driver_features == old(self).driver_features,
                self.queue_select == old(self).queue_select,
                self.isr_status == old(self).isr_status,
                self.levels == old(self).levels,
            decreases n - i,
        {
            let mut q = Virtqueue::new();
            q.num = QUEUE_SIZE_MAX;
            self.queues.set(i, q);
            i = i + 1;
        }
        self.device_feature_select = 0;
        self.driver_feature_select = 0;
        self.driver_features = 0;
        self.queue_select = 0;
        self.isr_status = 0;
        self.irq_sink.set_level(false);
        self.levels = Ghost(self.levels@.push(false));
        assert(self.queues@ =~= Seq::new(n as nat, |i: int| spec_queue_power_on()));
    }

    fn common_cfg_read(&self, offset: u64, data: &mut [u8])
        ensures
            final(data)@.len() == old(data)@.len(),
            forall|i: int|
                0 <= i < final(data)@.len() ==> final(data)@[i] == le_byte_at(
                    common_cfg_value(self.view(), self.features(), offset),
                    i,
                ),
    {
        let sel = self.queue_select as usize;
        let has_q = sel < self.queues.len();
        let value: u64 = if offset == 0x00 {
            self.device_feature_select as u64
        } else if offset == 0x04 {
            let features = self.device.device_features();
            if self.device_feature_select == 0 {
                features & 0xffff_ffff
            } else if self.device_feature_select == 1 {
                features >> 32u64
            } else {
                0
            }
        } else if offset == 0x08 {
            self.driver_feature_select as u64
        } else if offset == 0x0c {
            if self.driver_feature_select == 0 {
                self.driver_features & 0xffff_ffff
            } else if self.driver_feature_select == 1 {
                self.driver_features >> 32u64
            } else {
                0
            }
        } else if offset == 0x10 || offset == 0x1a {
            VIRTIO_MSI_NO_VECTOR
        } else if offset == 0x12 {
            self.queues.len() as u64
        } else if offset == 0x14 {
            self.status as u64
        } else if offset == 0x16 {
            self.queue_select as u64
        } else if !has_q {
            0
        } else if offset == 0x18 {
            self.queues[sel].num as u64
        } else if offset == 0x1c {
            if self.queues[sel].ready {
                1
            } else {
                0
            }
        } else if offset == 0x20 {
            self.queues[sel].desc_table & 0xffff_ffff
        } else if offset == 0x24 {
            self.queues[sel].desc_table >> 32u64
        } else if offset == 0x28 {
            self.queues[sel].avail_ring & 0xffff_ffff
        } else if offset == 0x2c {
            self.queues[sel].avail_ring >> 32u64
        } else if offset == 0x30 {
            self.queues[sel].used_ring & 0xffff_ffff
        } else if offset == 0x34 {
            self.queues[sel].used_ring >> 32u64
        } else {
            0
        };
        put_le(data, value);
    }

    /// Replace queue `i`.
    fn set_queue(&mut self, i: usize, q: Virtqueue)
        requires
            i < old(self).queues@.len(),
        ensures
            final(self).view() == (VirtioPciState {
                queues: old(self).view().queues.update(i as int, q),
                ..old(self).view()
            }),
            final(self).features() == old(self).features(),
            final(self).notifications() == old(self).notifications(),
            final(self).virtio_id() == old(self).virtio_id(),
            final(self).levels() == old(self).levels(),
    {
        self.queues.set(i, q);
    }

    fn common_cfg_write(&mut self, offset: u64, data: &[u8])
        ensures
            final(self).view() == common_cfg_written(old(self).view(), offset, spec_get_le(data@)),
            final(self).features() == old(self).features(),
            final(self).notifications() == old(self).notifications(),
            final(self).virtio_id() == old(self).virtio_id(),
            final(self).levels() == (if offset == 0x14 && spec_get_le(data@) as u8 == 0 {
                old(self).levels().push(false)
            } else {
                old(self).levels()
            }),
    {
        let value = get_le(data);
        let sel = self.queue_select as usize;
        let has_q = sel < self.queues.len();
        if offset == 0x00 {
            self.device_feature_select = value as u32;
        } else if offset == 0x08 {
            self.driver_feature_select = value as u32;
        } else if offset == 0x0c {
            let half = (value as u32) as u64;
            if self.driver_feature_select == 0 {
                self.driver_features = (self.driver_features & 0xffff_ffff_0000_0000) | half;
            } else if self.driver_feature_select == 1 {
                self.driver_features = (self.driver_features & 0x0000_0000_ffff_ffff) | (half << 32u64);
            }
        } else if offset == 0x14 {
            self.status = value as u8;
            if self.status == 0 {
                self.reset();
            }
        } else if offset == 0x16 {
            self.queue_select = value as u16;
        } else if !has_q {
        } else {
            let q = &self.queues[sel];
            let (dt, ar, ur, num, lai, ready) = (q.desc_table, q.avail_ring, q.used_ring, q.num, q.last_avail_idx, q.ready);
            if offset == 0x18 {
                self.set_queue(sel, Virtqueue { desc_table: dt, avail_ring: ar, used_ring: ur, num: value as u16, last_avail_idx: lai, ready });
            } else if offset == 0x1c {
                self.set_queue(sel, Virtqueue { desc_table: dt, avail_ring: ar, used_ring: ur, num, last_avail_idx: lai, ready: value != 0 });
            } else if offset == 0x20 {
                self.set_queue(sel, Virtqueue { desc_table: (dt & 0xffff_ffff_0000_0000) | (value & 0xffff_ffff), avail_ring: ar, used_ring: ur, num, last_avail_idx: lai, ready });
            } else if offset == 0x24 {
                self.set_queue(sel, Virtqueue { desc_table: (dt & 0x0000_0000_ffff_ffff) | (value << 32u64), avail_ring: ar, used_ring: ur, num, last_avail_idx: lai, ready });
            } else if offset == 0x28 {
                self.set_queue(sel, Virtqueue { desc_table: dt, avail_ring: (ar & 0xffff_ffff_0000_0000) | (value & 0xffff_ffff), used_ring: ur, num, last_avail_idx: lai, ready });
            } else if offset == 0x2c {
                self.set_queue(sel, Virtqueue { desc_table: dt, avail_ring: (ar & 0x0000_0000_ffff_ffff) | (value << 32u64), used_ring: ur, num, last_avail_idx: lai, ready });
            } else if offset == 0x30 {
                self.set_queue(sel, Virtqueue { desc_table: dt, avail_ring: ar, used_ring: (ur & 0xffff_ffff_0000_0000) | (value & 0xffff_ffff), num, last_avail_idx: lai, ready });
            } else if offset == 0x34 {
                self.set_queue(sel, Virtqueue { desc_table: dt, avail_ring: ar, used_ring: (ur & 0x0000_0000_ffff_ffff) | (value << 32u64), num, last_avail_idx: lai, ready });
            }
        }
    }

    /// Handle a read of BAR0 at `offset`.
    pub fn mmio_read(&mut self, offset: u64, data: &mut [u8])
        ensures
            final(data)@.len() == old(data)@.len(),
            final(self).features() == old(self).features(),
            final(self).notifications() == old(self).notifications(),
            final(self).virtio_id() == old(self).virtio_id(),
            in_common(offset) ==> final(self).view() == old(self).view() && final(self).levels()
                == old(self).levels() && forall|i: int|
                0 <= i < final(data)@.len() ==> final(data)@[i] == le_byte_at(
                    common_cfg_value(old(self).view(), old(self).features(), offset),
                    i,
                ),
            in_isr(offset) ==> final(self).view() == (VirtioPciState {
                isr_status: 0,
                ..old(self).view()
            }) && final(self).levels() == old(self).levels().push(false) && (final(data)@.len() > 0
                ==> final(data)@[0] == old(self).view().isr_status) && forall|i: int|
                1 <= i < final(data)@.len() ==> final(data)@[i] == 0u8,
            in_device_cfg(offset) ==> final(self).view() == old(self).view() && final(self).levels()
                == old(self).levels(),
            in_device_cfg(offset) ==> final(data)@ == old(self).device_config(
                (offset - DEVICE_CFG_OFFSET) as u64,
                old(data)@,
            ),
            !in_common(offset) && !in_isr(offset) && !in_device_cfg(offset) ==> final(self).view()
                == old(self).view() && final(self).levels() == old(self).levels() && forall|i: int|
                0 <= i < final(data)@.len() ==> final(data)@[i] == 0u8,
    {
        if offset < COMMON_CFG_OFFSET + COMMON_CFG_LEN {
            self.common_cfg_read(offset, data);
        } else if ISR_OFFSET <= offset && offset < ISR_OFFSET + ISR_LEN {
            fill_zero(data);
            if data.len() > 0 {
                data[0] = self.isr_status;
            }
            self.isr_status = 0;
            self.irq_sink.set_level(false);
            self.levels = Ghost(self.levels@.push(false));
        } else if NOTIFY_OFFSET <= offset && offset < NOTIFY_OFFSET + NOTIFY_LEN {
            fill_zero(data);
        } else if DEVICE_CFG_OFFSET <= offset && offset < DEVICE_CFG_OFFSET + DEVICE_CFG_LEN {
            self.device.read_config(offset - DEVICE_CFG_OFFSET, data);
        } else {
            fill_zero(data);
        }
    }

    /// Handle a write to BAR0 at `offset`.
    pub fn mmio_write(&mut self, offset: u64, data: &[u8])
        ensures
            final(self).features() == old(self).features(),
            final(self).virtio_id() == old(self).virtio_id(),
            in_common(offset) ==> final(self).view() == common_cfg_written(
                old(self).view(),
                offset,
                spec_get_le(data@),
            ) && final(self).levels() == (if offset == 0x14 && spec_get_le(data@) as u8 == 0 {
                old(self).levels().push(false)
            } else {
                old(self).levels()
            }),
            in_notify(offset) && (spec_get_le(data@) as usize) < old(self).view().queues.len() ==> ({
                let q = spec_get_le(data@) as usize as int;
                let moved = final(self).view().queues[q].last_avail_idx != old(self).view().queues[q].last_avail_idx;
                &&& final(self).view().queues.len() == old(self).view().queues.len()
                &&& forall|k: int|
                    0 <= k < old(self).view().queues.len() && k != q ==> final(self).view().queues[k]
                        == old(self).view().queues[k]
                &&& final(self).view() == (VirtioPciState {
                    queues: final(self).view().queues,
                    isr_status: final(self).view().isr_status,
                    ..old(self).view()
                })
                &&& notify_outcome(old(self).view().queues[q], final(self).view().queues[q], moved)
                &&& final(self).view().isr_status == (if moved {
                    old(self).view().isr_status | ISR_QUEUE
                } else {
                    old(self).view().isr_status
                })
                &&& final(self).levels() == (if moved {
                    old(self).levels().push(true)
                } else {
                    old(self).levels()
                })
                &&& final(self).notifications() == old(self).notifications().push((q as usize, old(self).view().queues[q]))
            }),
            !(in_notify(offset) && (spec_get_le(data@) as usize) < old(self).view().queues.len())
                ==> final(self).notifications() == old(self).notifications(),
            !in_common(offset) && !(in_notify(offset) && (spec_get_le(data@) as usize) < old(
                self,
            ).view().queues.len()) ==> final(self).view() == old(self).view() && final(self).levels()
                == old(self).levels(),
    {
        if offset < COMMON_CFG_OFFSET + COMMON_CFG_LEN {
            self.common_cfg_write(offset, data);
        } else if NOTIFY_OFFSET <= offset && offset < NOTIFY_OFFSET + NOTIFY_LEN {
            let queue_idx = get_le(data) as usize;
            if queue_idx < self.queues.len() {
                let raise = self.notify_queue(queue_idx);
                if raise {
                    self.trigger_interrupt();
                }
            }
        } else if DEVICE_CFG_OFFSET <= offset && offset < DEVICE_CFG_OFFSET + DEVICE_CFG_LEN {
            self.device.write_config(offset - DEVICE_CFG_OFFSET, data);
        }
    }

    /// Hand queue `queue_idx` to the backend; returns whether it asks for an
    /// interrupt.
    fn notify_queue(&mut self, queue_idx: usize) -> (raise: bool)
        requires
            queue_idx < old(self).queues@.len(),
        ensures
            notify_outcome(old(self).view().queues[queue_idx as int], final(self).view().queues[queue_idx as int], raise),
            final(self).view().queues.len() == old(self).view().queues.len(),
            forall|k: int|
                0 <= k < old(self).view().queues.len() && k != queue_idx ==> final(self).view().queues[k]
                    == old(self).view().queues[k],
            final(self).view() == (VirtioPciState { queues: final(self).view().queues, ..old(self).view() }),
            final(self).features() == old(self).features(),
            final(self).notifications() == old(self).notifications().push((queue_idx, old(self).view().queues[queue_idx as int])),
            final(self).virtio_id() == old(self).virtio_id(),
            final(self).levels() == old(self).levels(),
    {
        let mut q = self.queues.remove(queue_idx);
        let raise = self.device.on_notify(queue_idx, &mut q, &*self.mem);
        self.queues.insert(queue_idx, q);
        raise
    }
}


/// Fill `data` with zeros.
pub fn fill_zero(data: &mut [u8])
    ensures
        final(data)@.len() == old(data)@.len(),
        forall|i: int| 0 <= i < final(data)@.len() ==> final(data)@[i] == 0u8,
{
    let mut i: usize = 0;
    while i < data.len()
        invariant
            i <= data@.len(),
            data@.len() == old(data)@.len(),
            forall|j: int| 0 <= j < i ==> data@[j] == 0u8,
        decreases data@.len() - i,
    {
        data[i] = 0;
        i = i + 1;
    }
}

impl<M: GuestRam> PciDevice for VirtioPciDevice<M> {
    open spec fn obeys_config_model(&self) -> bool {
        true
    }

    open spec fn config_byte(&self, idx: int) -> u8 {
        cfg_byte(self.view().config, idx)
    }

    closed spec fn config_writes(&self) -> Seq<(u64, Seq<u8>)> {
        self.cfg_writes@
    }

    fn config_read(&self, offset: u64, data: &mut [u8])
        ensures
            forall|i: int|
                0 <= i < final(data)@.len() ==> final(data)@[i] == cfg_byte(self.view().config, offset + i),
    {
        self.config.config_read(offset, data);
    }

    /// Only the command register, BAR0 and the interrupt line are writable;
    /// BAR0 keeps its 32-bit, non-prefetchable, 4 KiB encoding.
    fn config_write(&mut self, offset: u64, data: &[u8])
        ensures
            final(self).view() == (VirtioPciState {
                config: cfg_after_write(old(self).view().config, offset, data@),
                ..old(self).view()
            }),
            final(self).features() == old(self).features(),
            final(self).notifications() == old(self).notifications(),
            final(self).virtio_id() == old(self).virtio_id(),
            final(self).levels() == old(self).levels(),
    {
        let ghost cfg0 = self.config@;
        proof {
            self.config.lemma_len();
        }
        let mut i: usize = 0;
        while i < data.len()
            invariant
                0 <= i <= data@.len(),
                self.config@.len() == 256,
                cfg0.len() == 256,
                self.config@ == cfg_bytes_written(cfg0, offset, data@.take(i as int)),
                self.device == old(self).device,
                self.queues == old(self).queues,
                self.device_feature_select == old(self).device_feature_select,
                self.driver_feature_select == old(self).driver_feature_select,
                self.driver_features == old(self).driver_features,
                self.status == old(self).status,
                self.queue_select == old(self).queue_select,
                self.isr_status == old(self).isr_status,
                self.levels == old(self).levels,
            decreases data@.len() - i,
        {
            let ghost before = self.config@;
            if offset < 256 && (i as u64) < 256 - offset {
                let off = offset as usize + i;
                if off == 0x04 || off == 0x05 || (0x10 <= off && off <= 0x13) || off == 0x3c {
                    self.config.set_u8(off, data[i]);
                }
            }
            proof {
                let next = cfg_bytes_written(cfg0, offset, data@.take(i + 1));
                assert forall|j: int| 0 <= j < 256 implies self.config@[j] == next[j] by {
                    if j == offset + i {
                        assert(offset < 256 && (i as u64) < 256 - offset);
                    } else {
                        assert(self.config@[j] == before[j]);
                    }
                }
                assert(self.config@ =~= next);
            }
            i = i + 1;
        }
        assert(data@.take(data@.len() as int) =~= data@);
        assert(self.config@ =~= cfg_bytes_written(cfg0, offset, data@));
        let bar = self.config.get_u32(0x10) & 0xffff_f000;
        self.config.set_u32(0x10, bar);
        self.cfg_writes = Ghost(old(self).cfg_writes@.push((offset, data@)));
    }
}

/// A virtio-pci function as the BAR window sees it. The PCI root bus and
/// the window both reach the same function, so the window holds handles to
/// functions rather than the functions themselves.
pub trait VirtioPciBar {
    /// Whether memory space decoding is enabled. The window's routing is
    /// stated over this and [`Self::spec_bar_base`], as they stand when the
    /// access arrives.
    spec fn spec_mem_enabled(&self) -> bool;

    /// The BAR0 base address (0 if unassigned).
    spec fn spec_bar_base(&self) -> u64;

    fn mem_enabled(&self) -> (r: bool)
        ensures
            r == self.spec_mem_enabled(),
    ;

    fn bar_base(&self) -> (r: u64)
        ensures
            r == self.spec_bar_base(),
    ;

    /// Whether the function keeps [`Self::bar_accesses`]. One that does
    /// not override this (a handle written outside verified code, which
    /// cannot name the record) promises nothing about it.
    open spec fn obeys_bar_record(&self) -> bool {
        false
    }

    /// The accesses served through BAR0 so far, oldest first, at offsets
    /// relative to the BAR; meaningful where [`Self::obeys_bar_record`]
    /// holds.
    open spec fn bar_accesses(&self) -> Seq<BusAccess> {
        Seq::empty()
    }

    fn mmio_read(&mut self, offset: u64, data: &mut [u8])
        ensures
            final(data)@.len() == old(data)@.len(),
            old(self).obeys_bar_record() ==> final(self).bar_accesses() == old(self).bar_accesses().push(
                BusAccess { write: false, offset, data: final(data)@ },
            ),
    ;

    fn mmio_write(&mut self, offset: u64, data: &[u8])
        ensures
            old(self).obeys_bar_record() ==> final(self).bar_accesses() == old(self).bar_accesses().push(
                BusAccess { write: true, offset, data: data@ },
            ),
    ;
}

impl<M: GuestRam> VirtioPciBar for VirtioPciDevice<M> {
    /// Bit 1 (memory space) of the command register.
    open spec fn spec_mem_enabled(&self) -> bool {
        le16_at(self.view().config, 0x04) & 0x0002 != 0
    }

    /// BAR0 with its flag bits masked off.
    open spec fn spec_bar_base(&self) -> u64 {
        (le32_at(self.view().config, 0x10) & 0xffff_f000) as u64
    }

    fn mem_enabled(&self) -> (r: bool) {
        VirtioPciDevice::mem_enabled(self)
    }

    fn bar_base(&self) -> (r: u64) {
        VirtioPciDevice::bar_base(self)
    }

    open spec fn obeys_bar_record(&self) -> bool {
        true
    }

    closed spec fn bar_accesses(&self) -> Seq<BusAccess> {
        self.served@
    }

    fn mmio_read(&mut self, offset: u64, data: &mut [u8])
        ensures
            final(data)@.len() == old(data)@.len(),
            final(self).features() == old(self).features(),
            final(self).notifications() == old(self).notifications(),
            final(self).virtio_id() == old(self).virtio_id(),
            in_common(offset) ==> final(self).view() == old(self).view() && final(self).levels()
                == old(self).levels() && forall|i: int|
                0 <= i < final(data)@.len() ==> final(data)@[i] == le_byte_at(
                    common_cfg_value(old(self).view(), old(self).features(), offset),
                    i,
                ),
            in_isr(offset) ==> final(self).view() == (VirtioPciState {
                isr_status: 0,
                ..old(self).view()
            }) && final(self).levels() == old(self).levels().push(false) && (final(data)@.len() > 0
                ==> final(data)@[0] == old(self).view().isr_status) && forall|i: int|
                1 <= i < final(data)@.len() ==> final(data)@[i] == 0u8,
            in_device_cfg(offset) ==> final(self).view() == old(self).view() && final(self).levels()
                == old(self).levels(),
            in_device_cfg(offset) ==> final(data)@ == old(self).device_config(
                (offset - DEVICE_CFG_OFFSET) as u64,
                old(data)@,
            ),
            !in_common(offset) && !in_isr(offset) && !in_device_cfg(offset) ==> final(self).view()
                == old(self).view() && final(self).levels() == old(self).levels() && forall|i: int|
                0 <= i < final(data)@.len() ==> final(data)@[i] == 0u8,
    {
        VirtioPciDevice::mmio_read(self, offset, data);
        self.served = Ghost(old(self).served@.push(BusAccess { write: false, offset, data: data@ }));
    }

    fn mmio_write(&mut self, offset: u64, data: &[u8])
        ensures
            final(self).features() == old(self).features(),
            final(self).virtio_id() == old(self).virtio_id(),
            in_common(offset) ==> final(self).view() == common_cfg_written(
                old(self).view(),
                offset,
                spec_get_le(data@),
            ) && final(self).levels() == (if offset == 0x14 && spec_get_le(data@) as u8 == 0 {
                old(self).levels().push(false)
            } else {
                old(self).levels()
            }),
            in_notify(offset) && (spec_get_le(data@) as usize) < old(self).view().queues.len() ==> ({
                let q = spec_get_le(data@) as usize as int;
                let moved = final(self).view().queues[q].last_avail_idx != old(self).view().queues[q].last_avail_idx;
                &&& final(self).view().queues.len() == old(self).view().queues.len()
                &&& forall|k: int|
                    0 <= k < old(self).view().queues.len() && k != q ==> final(self).view().queues[k]
                        == old(self).view().queues[k]
                &&& final(self).view() == (VirtioPciState {
                    queues: final(self).view().queues,
                    isr_status: final(self).view().isr_status,
                    ..old(self).view()
                })
                &&& notify_outcome(old(self).view().queues[q], final(self).view().queues[q], moved)
                &&& final(self).view().isr_status == (if moved {
                    old(self).view().isr_status | ISR_QUEUE
                } else {
                    old(self).view().isr_status
                })
                &&& final(self).levels() == (if moved {
                    old(self).levels().push(true)
                } else {
                    old(self).levels()
                })
                &&& final(self).notifications() == old(self).notifications().push((q as usize, old(self).view().queues[q]))
            }),
            !(in_notify(offset) && (spec_get_le(data@) as usize) < old(self).view().queues.len())
                ==> final(self).notifications() == old(self).notifications(),
            !in_common(offset) && !(in_notify(offset) && (spec_get_le(data@) as usize) < old(
                self,
            ).view().queues.len()) ==> final(self).view() == old(self).view() && final(self).levels()
                == old(self).levels(),
    {
        VirtioPciDevice::mmio_write(self, offset, data);
        self.served = Ghost(old(self).served@.push(BusAccess { write: true, offset, data: data@ }));
    }
}

/// Whether an enabled BAR at `base` claims `addr`.
pub open spec fn bar_claims(enabled: bool, base: u64, addr: u64) -> bool {
    enabled && base != 0 && base <= addr && addr < base + BAR0_SIZE
}

/// Whether the BAR of `d` claims `addr`.
pub open spec fn bar_hit<D: VirtioPciBar>(d: D, addr: u64) -> bool {
    bar_claims(d.spec_mem_enabled(), d.spec_bar_base(), addr)
}

/// `i` is the first of `devs` whose BAR claims `addr`.
pub open spec fn first_hit<D: VirtioPciBar>(devs: Seq<D>, addr: u64, i: int) -> bool {
    &&& 0 <= i < devs.len()
    &&& bar_hit(devs[i], addr)
    &&& forall|k: int| 0 <= k < i ==> !bar_hit(#[trigger] devs[k], addr)
}

/// No BAR of `devs` claims `addr`.
pub open spec fn no_hit<D: VirtioPciBar>(devs: Seq<D>, addr: u64) -> bool {
    forall|k: int| 0 <= k < devs.len() ==> !bar_hit(#[trigger] devs[k], addr)
}

/// The guest-physical address of offset `offset` in a window at `base`.
pub open spec fn window_addr(base: u64, offset: u64) -> u64 {
    vstd::wrapping::u64_specs::wrapping_add(base, offset)
}

/// Routes a fixed MMIO window to whichever virtio-pci BAR currently covers
/// the accessed address, so devices need not be re-registered as the guest
/// moves their BARs.
pub struct VirtioPciMmio<D> {
    window_base: u64,
    devices: Vec<D>,
    served: Ghost<Seq<BusAccess>>,
}

impl<D: VirtioPciBar> VirtioPciMmio<D> {
    pub closed spec fn window_base(&self) -> u64 {
        self.window_base
    }

    pub closed spec fn devices(&self) -> Seq<D> {
        self.devices@
    }

    pub fn new(window_base: u64) -> (r: Self)
        ensures
            r.window_base() == window_base,
            r.devices() == Seq::<D>::empty(),
    {
        VirtioPciMmio { window_base, devices: Vec::new(), served: Ghost(Seq::empty()) }
    }

    pub fn add_device(&mut self, device: D)
        ensures
            final(self).devices() == old(self).devices().push(device),
            final(self).window_base() == old(self).window_base(),
    {
        self.devices.push(device);
    }

    /// Find the first device whose enabled BAR0 contains `addr`, with the
    /// BAR-relative offset.
    fn route(&self, addr: u64) -> (r: Option<(usize, u64)>)
        ensures
            match r {
                Some((i, rel)) => first_hit(self.devices(), addr, i as int) && rel == addr
                    - self.devices()[i as int].spec_bar_base() && rel < BAR0_SIZE,
                None => no_hit(self.devices(), addr),
            },
    {
        let mut i: usize = 0;
        while i < self.devices.len()
            invariant
                0 <= i <= self.devices@.len(),
                forall|k: int| 0 <= k < i ==> !bar_hit(#[trigger] self.devices@[k], addr),
            decreases self.devices@.len() - i,
        {
            if self.devices[i].mem_enabled() {
                let base = self.devices[i].bar_base();
                if base != 0 && addr >= base && addr - base < BAR0_SIZE {
                    return Some((i, addr - base));
                }
            }
            i = i + 1;
        }
        None
    }
}

impl<D: VirtioPciBar> BusDevice for VirtioPciMmio<D> {
    open spec fn obeys_access_record(&self) -> bool {
        true
    }

    closed spec fn accesses(&self) -> Seq<BusAccess> {
        self.served@
    }

    /// Routed to the first device whose enabled BAR0 covers the address;
    /// unclaimed reads are all ones.
    fn read(&mut self, offset: u64, data: &mut [u8])
        ensures
            final(self).window_base() == old(self).window_base(),
            final(self).devices().len() == old(self).devices().len(),
            no_hit(old(self).devices(), window_addr(old(self).window_base(), offset))
                ==> final(self).devices() == old(self).devices()
                && forall|j: int| 0 <= j < final(data)@.len() ==> final(data)@[j] == 0xffu8,
            forall|i: int, j: int|
                first_hit(old(self).devices(), window_addr(old(self).window_base(), offset), i)
                    && 0 <= j < old(self).devices().len() && j != i
                    ==> final(self).devices()[j] == old(self).devices()[j],
            forall|i: int|
                first_hit(old(self).devices(), window_addr(old(self).window_base(), offset), i)
                    && old(self).devices()[i].obeys_bar_record()
                    ==> #[trigger] final(self).devices()[i].bar_accesses() == old(self).devices()[i].bar_accesses().push(
                    BusAccess {
                        write: false,
                        offset: (window_addr(old(self).window_base(), offset) - old(self).devices()[i].spec_bar_base()) as u64,
                        data: final(data)@,
                    },
                ),
    {
        let addr = self.window_base.wrapping_add(offset);
        match self.route(addr) {
            Some((i, rel)) => {
                let mut d = self.devices.remove(i);
                d.mmio_read(rel, data);
                self.devices.insert(i, d);
            },
            None => crate::bus::fill_ff(data),
        }
        self.served = Ghost(old(self).served@.push(BusAccess { write: false, offset, data: data@ }));
    }

    /// Routed to the first device whose enabled BAR0 covers the address;
    /// unclaimed writes are dropped.
    fn write(&mut self, offset: u64, data: &[u8])
        ensures
            final(self).window_base() == old(self).window_base(),
            final(self).devices().len() == old(self).devices().len(),
            no_hit(old(self).devices(), window_addr(old(self).window_base(), offset))
                ==> final(self).devices() == old(self).devices(),
            forall|i: int, j: int|
                first_hit(old(self).devices(), window_addr(old(self).window_base(), offset), i)
                    && 0 <= j < old(self).devices().len() && j != i
                    ==> final(self).devices()[j] == old(self).devices()[j],
            forall|i: int|
                first_hit(old(self).devices(), window_addr(old(self).window_base(), offset), i)
                    && old(self).devices()[i].obeys_bar_record()
                    ==> #[trigger] final(self).devices()[i].bar_accesses() == old(self).devices()[i].bar_accesses().push(
                    BusAccess {
                        write: true,
                        offset: (window_addr(old(self).window_base(), offset) - old(self).devices()[i].spec_bar_base()) as u64,
                        data: data@,
                    },
                ),
    {
        let addr = self.window_base.wrapping_add(offset);
        if let Some((i, rel)) = self.route(addr) {
            let mut d = self.devices.remove(i);
            d.mmio_write(rel, data);
            self.devices.insert(i, d);
        }
        self.served = Ghost(old(self).served@.push(BusAccess { write: true, offset, data: data@ }));
    }
}

} // verus!
