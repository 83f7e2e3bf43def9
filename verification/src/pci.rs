//! PCI host bridge and the legacy type-1 configuration mechanism.
//!
//! Only a single bus with no bridges is implemented.
use std::collections::HashMap;
use vstd::prelude::*;

use crate::bus::{BusAccess, BusDevice};

verus! {

broadcast use vstd::std_specs::hash::group_hash_axioms;

/// A device that owns one 256-byte PCI configuration space.
pub trait PciDevice {
    /// Whether the function follows [`Self::config_byte`] and keeps
    /// [`Self::config_writes`]. A function that does not override this (one
    /// written outside verified code, which cannot name them) promises
    /// nothing about either.
    open spec fn obeys_config_model(&self) -> bool {
        false
    }

    /// The byte a configuration read returns at register `idx`; meaningful
    /// where [`Self::obeys_config_model`] holds.
    open spec fn config_byte(&self, idx: int) -> u8 {
        0xff
    }

    /// The configuration writes handed to the function so far, oldest
    /// first, as (register, bytes).
    open spec fn config_writes(&self) -> Seq<(u64, Seq<u8>)> {
        Seq::empty()
    }

    /// Read `data.len()` bytes of configuration space starting at `offset`.
    fn config_read(&self, offset: u64, data: &mut [u8])
        ensures
            final(data)@.len() == old(data)@.len(),
            self.obeys_config_model() ==> forall|i: int|
                0 <= i < final(data)@.len() ==> final(data)@[i] == self.config_byte(offset + i),
    ;

    /// Write `data` into configuration space starting at `offset`.
    fn config_write(&mut self, offset: u64, data: &[u8])
        ensures
            old(self).obeys_config_model() ==> final(self).config_writes() == old(self).config_writes().push(
                (offset, data@),
            ),
    ;
}

/// Little-endian 16-bit value stored at `o`.
pub open spec fn le16_at(s: Seq<u8>, o: int) -> u16 {
    (s[o] as u16) | ((s[o + 1] as u16) << 8u16)
}

/// Little-endian 32-bit value stored at `o`.
pub open spec fn le32_at(s: Seq<u8>, o: int) -> u32 {
    (s[o] as u32) | ((s[o + 1] as u32) << 8u32) | ((s[o + 2] as u32) << 16u32) | ((s[o + 3] as u32)
        << 24u32)
}

/// `s` with the little-endian bytes of `v` stored at `o`.
pub open spec fn put16(s: Seq<u8>, o: int, v: u16) -> Seq<u8> {
    s.update(o, v as u8).update(o + 1, (v >> 8u16) as u8)
}

/// `s` with the little-endian bytes of `v` stored at `o`.
pub open spec fn put32(s: Seq<u8>, o: int, v: u32) -> Seq<u8> {
    s.update(o, v as u8).update(o + 1, (v >> 8u32) as u8).update(o + 2, (v >> 16u32) as u8).update(
        o + 3,
        (v >> 24u32) as u8,
    )
}

/// The byte a read of configuration space at `idx` returns: bytes past the
/// end of the 256-byte space read as `0xff`.
pub open spec fn cfg_byte(s: Seq<u8>, idx: int) -> u8 {
    if 0 <= idx < 256 {
        s[idx]
    } else {
        0xff
    }
}

/// A plain 256-byte configuration space backing store.
pub struct ConfigSpace {
    regs: [u8; 256],
    writes: Ghost<Seq<(u64, Seq<u8>)>>,
}

impl View for ConfigSpace {
    type V = Seq<u8>;

    closed spec fn view(&self) -> Seq<u8> {
        self.regs@
    }
}

impl ConfigSpace {
    /// The store is always exactly 256 bytes.
    pub proof fn lemma_len(&self)
        ensures
            self@.len() == 256,
    {
    }

    /// Create an all-zero configuration space.
    pub fn new() -> (r: Self)
        ensures
            r@ == Seq::new(256, |i: int| 0u8),
    {
        let r = ConfigSpace { regs: [0u8; 256], writes: Ghost(Seq::empty()) };
        assert(r@ =~= Seq::new(256, |i: int| 0u8));
        r
    }

    /// Store a byte at `offset`.
    pub fn set_u8(&mut self, offset: usize, value: u8)
        requires
            offset < 256,
        ensures
            final(self)@ == old(self)@.update(offset as int, value),
    {
        self.regs[offset] = value;
    }

    /// Store a little-endian 16-bit value at `offset`.
    pub fn set_u16(&mut self, offset: usize, value: u16)
        requires
            offset + 1 < 256,
        ensures
            final(self)@ == put16(old(self)@, offset as int, value),
    {
        self.regs[offset] = value as u8;
        self.regs[offset + 1] = (value >> 8u16) as u8;
    }

    /// Store a little-endian 32-bit value at `offset`.
    pub fn set_u32(&mut self, offset: usize, value: u32)
        requires
            offset + 3 < 256,
        ensures
            final(self)@ == put32(old(self)@, offset as int, value),
    {
        self.regs[offset] = value as u8;
        self.regs[offset + 1] = (value >> 8u32) as u8;
        self.regs[offset + 2] = (value >> 16u32) as u8;
        self.regs[offset + 3] = (value >> 24u32) as u8;
    }

    /// Load a little-endian 16-bit value from `offset`.
    pub fn get_u16(&self, offset: usize) -> (r: u16)
        requires
            offset + 1 < 256,
        ensures
            r == le16_at(self@, offset as int),
    {
        (self.regs[offset] as u16) | ((self.regs[offset + 1] as u16) << 8u16)
    }

    /// Load a little-endian 32-bit value from `offset`.
    pub fn get_u32(&self, offset: usize) -> (r: u32)
        requires
            offset + 3 < 256,
        ensures
            r == le32_at(self@, offset as int),
    {
        (self.regs[offset] as u32) | ((self.regs[offset + 1] as u32) << 8u32) | ((self.regs[offset
            + 2] as u32) << 16u32) | ((self.regs[offset + 3] as u32) << 24u32)
    }
}

impl PciDevice for ConfigSpace {
    open spec fn obeys_config_model(&self) -> bool {
        true
    }

    open spec fn config_byte(&self, idx: int) -> u8 {
        cfg_byte(self@, idx)
    }

    closed spec fn config_writes(&self) -> Seq<(u64, Seq<u8>)> {
        self.writes@
    }

    /// Bytes past the end of the 256-byte space read back as `0xff`.
    fn config_read(&self, offset: u64, data: &mut [u8])
        ensures
            forall|i: int|
                0 <= i < final(data)@.len() ==> final(data)@[i] == cfg_byte(self@, offset + i),
    {
        let mut i: usize = 0;
        while i < data.len()
            invariant
                0 <= i <= data@.len(),
                data@.len() == old(data)@.len(),
                forall|j: int| 0 <= j < i ==> data@[j] == cfg_byte(self@, offset + j),
            decreases data@.len() - i,
        {
            let b = if offset < 256 && (i as u64) < 256 - offset {
                self.regs[(offset as usize) + i]
            } else {
                0xff
            };
            data[i] = b;
            i = i + 1;
        }
    }

    /// The plain store is read-only to the guest.
    fn config_write(&mut self, offset: u64, data: &[u8])
        ensures
            final(self)@ == old(self)@,
    {
        self.writes = Ghost(old(self).writes@.push((offset, data@)));
    }
}

/// A 16-bit value stored with `put16` reads back with `le16_at`.
pub proof fn lemma_put16_get16(s: Seq<u8>, o: int, v: u16)
    requires
        0 <= o,
        o + 1 < s.len(),
    ensures
        le16_at(put16(s, o, v), o) == v,
        put16(s, o, v).len() == s.len(),
        forall|j: int| 0 <= j < s.len() && j != o && j != o + 1 ==> #[trigger] put16(s, o, v)[j] == s[j],
{
    let t = put16(s, o, v);
    assert(t[o] == v as u8);
    assert(t[o + 1] == (v >> 8u16) as u8);
    let a = t[o];
    let b = t[o + 1];
    assert((a as u16) | ((b as u16) << 8u16) == v) by (bit_vector)
        requires
            a == v as u8,
            b == (v >> 8u16) as u8,
    ;
}

/// A 32-bit value stored with `put32` reads back with `le32_at`, and its
/// halves read back with `le16_at`.
pub proof fn lemma_put32_get32(s: Seq<u8>, o: int, v: u32)
    requires
        0 <= o,
        o + 3 < s.len(),
    ensures
        le32_at(put32(s, o, v), o) == v,
        le16_at(put32(s, o, v), o) == v as u16,
        le16_at(put32(s, o, v), o + 2) == (v >> 16u32) as u16,
        put32(s, o, v).len() == s.len(),
        forall|j: int| 0 <= j < s.len() && !(o <= j < o + 4) ==> #[trigger] put32(s, o, v)[j] == s[j],
{
    let t = put32(s, o, v);
    let a = t[o];
    let b = t[o + 1];
    let c = t[o + 2];
    let d = t[o + 3];
    assert(a == v as u8 && b == (v >> 8u32) as u8 && c == (v >> 16u32) as u8 && d == (v >> 24u32) as u8);
    assert((a as u32) | ((b as u32) << 8u32) | ((c as u32) << 16u32) | ((d as u32) << 24u32) == v)
        by (bit_vector)
        requires
            a == v as u8,
            b == (v >> 8u32) as u8,
            c == (v >> 16u32) as u8,
            d == (v >> 24u32) as u8,
    ;
    assert((a as u16) | ((b as u16) << 8u16) == v as u16) by (bit_vector)
        requires
            a == v as u8,
            b == (v >> 8u32) as u8,
    ;
    assert((c as u16) | ((d as u16) << 8u16) == (v >> 16u32) as u16) by (bit_vector)
        requires
            c == (v >> 16u32) as u8,
            d == (v >> 24u32) as u8,
    ;
}

/// Configuration bytes of the Intel 440FX host bridge (`8086:1237`).
pub open spec fn host_bridge_bytes() -> Seq<u8> {
    Seq::new(
        256,
        |i: int|
            if i == 0x00 {
                0x86u8
            } else if i == 0x01 {
                0x80u8
            } else if i == 0x02 {
                0x37u8
            } else if i == 0x03 {
                0x12u8
            } else if i == 0x08 {
                0x02u8
            } else if i == 0x0b {
                0x06u8
            } else {
                0u8
            },
    )
}

/// Configuration space for an Intel 440FX (`8086:1237`) host bridge at slot
/// 00:00.0. It carries no BARs and is read-only; it gives the guest a
/// recognizable device in slot 0 so enumeration proceeds.
pub fn host_bridge() -> (cs: ConfigSpace)
    ensures
        cs@ == host_bridge_bytes(),
        le16_at(cs@, 0) == 0x8086,
        le16_at(cs@, 2) == 0x1237,
        cs@[0x0b] == 0x06,
{
    let mut cs = ConfigSpace::new();
    cs.set_u16(0x00, 0x8086);
    cs.set_u16(0x02, 0x1237);
    cs.set_u8(0x08, 0x02);
    cs.set_u8(0x09, 0x00);
    cs.set_u8(0x0a, 0x00);
    cs.set_u8(0x0b, 0x06);
    cs.set_u8(0x0e, 0x00);
    assert(0x8086u16 as u8 == 0x86u8 && (0x8086u16 >> 8u16) as u8 == 0x80u8) by (bit_vector);
    assert(0x1237u16 as u8 == 0x37u8 && (0x1237u16 >> 8u16) as u8 == 0x12u8) by (bit_vector);
    assert(cs@ =~= host_bridge_bytes());
    assert((0x86u8 as u16) | ((0x80u8 as u16) << 8u16) == 0x8086u16) by (bit_vector);
    assert((0x37u8 as u16) | ((0x12u8 as u16) << 8u16) == 0x1237u16) by (bit_vector);
    cs
}

/// Slot key of device `dev`, function `func` on bus 0.
pub open spec fn spec_slot_key(dev: u8, func: u8) -> u16 {
    ((dev as u16) << 3u16) | ((func as u16) & 0x07u16)
}

pub fn slot_key(dev: u8, func: u8) -> (r: u16)
    ensures
        r == spec_slot_key(dev, func),
{
    ((dev as u16) << 3u16) | ((func as u16) & 0x07u16)
}

/// Decode a latched `CONFIG_ADDRESS` plus the byte offset within the
/// `CONFIG_DATA` window into a `(slot key, register)` pair; `None` when the
/// enable bit (31) is clear or the bus is not 0.
pub open spec fn spec_selected(config_address: u32, port_byte: u64) -> Option<(u16, u64)> {
    if config_address & 0x8000_0000u32 == 0 {
        None
    } else if (config_address >> 16u32) & 0xffu32 != 0 {
        None
    } else {
        Some(
            (
                spec_slot_key(
                    ((config_address >> 11u32) & 0x1fu32) as u8,
                    ((config_address >> 8u32) & 0x07u32) as u8,
                ),
                ((config_address & 0xfcu32) as u64).wrapping_add(port_byte),
            ),
        )
    }
}

/// Byte `k` (little-endian) of `v`.
pub open spec fn le_byte(v: u32, k: int) -> u8 {
    if k == 0 {
        v as u8
    } else if k == 1 {
        (v >> 8u32) as u8
    } else if k == 2 {
        (v >> 16u32) as u8
    } else {
        (v >> 24u32) as u8
    }
}

/// The value assembled from four little-endian bytes.
pub open spec fn le_word(b0: u8, b1: u8, b2: u8, b3: u8) -> u32 {
    (b0 as u32) | ((b1 as u32) << 8u32) | ((b2 as u32) << 16u32) | ((b3 as u32) << 24u32)
}

/// `CONFIG_ADDRESS` after a write of `data` at byte `offset` of the latch:
/// bytes that fall inside the 4-byte latch replace the old ones.
pub open spec fn latch_written(addr: u32, offset: u64, data: Seq<u8>) -> u32 {
    let pick = |k: int|
        if offset <= k && k - offset < data.len() {
            data[k - offset]
        } else {
            le_byte(addr, k)
        };
    le_word(pick(0), pick(1), pick(2), pick(3))
}

/// PCI bus 0 and the type-1 configuration mechanism.
pub struct PciRootBus<D> {
    /// Last value written to the `CONFIG_ADDRESS` port (`0xcf8`).
    config_address: u32,
    /// Devices keyed by [`slot_key`].
    devices: HashMap<u16, D>,
    served: Ghost<Seq<BusAccess>>,
}

impl<D: PciDevice> PciRootBus<D> {
    /// The latched `CONFIG_ADDRESS`.
    pub closed spec fn config_address(&self) -> u32 {
        self.config_address
    }

    /// Devices by slot key.
    pub closed spec fn devices(&self) -> Map<u16, D> {
        self.devices@
    }

    /// Create an empty bus with no devices.
    pub fn new() -> (r: Self)
        ensures
            r.config_address() == 0,
            r.devices() == Map::<u16, D>::empty(),
    {
        PciRootBus { config_address: 0, devices: HashMap::new(), served: Ghost(Seq::empty()) }
    }

    /// Place `device` in slot `dev`/`func` on bus 0.
    pub fn add_device(&mut self, dev: u8, func: u8, device: D)
        ensures
            final(self).devices() == old(self).devices().insert(spec_slot_key(dev, func), device),
            final(self).config_address() == old(self).config_address(),
    {
        let key = slot_key(dev, func);
        let _ = self.devices.insert(key, device);
    }

    /// Decode the latched address for a `CONFIG_DATA` access at `port_byte`.
    fn selected(&self, port_byte: u64) -> (r: Option<(u16, u64)>)
        ensures
            r == spec_selected(self.config_address, port_byte),
    {
        if self.config_address & 0x8000_0000u32 == 0 {
            return None;
        }
        let bus = (self.config_address >> 16u32) & 0xffu32;
        if bus != 0 {
            return None;
        }
        let dev = ((self.config_address >> 11u32) & 0x1fu32) as u8;
        let func = ((self.config_address >> 8u32) & 0x07u32) as u8;
        let reg = ((self.config_address & 0xfcu32) as u64).wrapping_add(port_byte);
        Some((slot_key(dev, func), reg))
    }
}

impl<D: PciDevice> BusDevice for PciRootBus<D> {
    open spec fn obeys_access_record(&self) -> bool {
        true
    }

    closed spec fn accesses(&self) -> Seq<BusAccess> {
        self.served@
    }

    /// Offsets below 4 read back the `CONFIG_ADDRESS` latch; the rest read the
    /// selected device's configuration register (or `0xff` if none).
    fn read(&mut self, offset: u64, data: &mut [u8])
        ensures
            final(self).config_address() == old(self).config_address(),
            final(self).devices() == old(self).devices(),
            offset < 4 ==> forall|i: int|
                0 <= i < final(data)@.len() ==> final(data)@[i] == (if offset + i < 4 {
                    le_byte(old(self).config_address(), offset + i)
                } else {
                    0u8
                }),
            offset >= 4 && !(spec_selected(old(self).config_address(), (offset - 4) as u64) matches Some(
                (k, _),
            ) && old(self).devices().contains_key(k)) ==> forall|i: int|
                0 <= i < final(data)@.len() ==> final(data)@[i] == 0xffu8,
            offset >= 4 && spec_selected(old(self).config_address(), (offset - 4) as u64) is Some && old(self).devices().contains_key(
                spec_selected(old(self).config_address(), (offset - 4) as u64)->Some_0.0,
            ) ==> ({
                let (k, reg) = spec_selected(old(self).config_address(), (offset - 4) as u64)->Some_0;
                old(self).devices()[k].obeys_config_model() ==> forall|i: int|
                    0 <= i < final(data)@.len() ==> final(data)@[i] == old(self).devices()[k].config_byte(reg + i)
            }),
    {
        if offset < 4 {
            let a = self.config_address;
            let mut i: usize = 0;
            while i < data.len()
                invariant
                    offset < 4,
                    a == self.config_address,
                    0 <= i <= data@.len(),
                    data@.len() == old(data)@.len(),
                    forall|j: int|
                        0 <= j < i ==> data@[j] == (if offset + j < 4 {
                            le_byte(a, offset + j)
                        } else {
                            0u8
                        }),
                decreases data@.len() - i,
            {
                let b = if (i as u64) < 4 - offset {
                    let k = offset + i as u64;
                    if k == 0 {
                        a as u8
                    } else if k == 1 {
                        (a >> 8u32) as u8
                    } else if k == 2 {
                        (a >> 16u32) as u8
                    } else {
                        (a >> 24u32) as u8
                    }
                } else {
                    0u8
                };
                data[i] = b;
                i = i + 1;
            }
            self.served = Ghost(old(self).served@.push(BusAccess { write: false, offset, data: data@ }));
            return ;
        }
        match self.selected(offset - 4) {
            Some((key, reg)) => match self.devices.get(&key) {
                Some(dev) => dev.config_read(reg, data),
                None => crate::bus::fill_ff(data),
            },
            None => crate::bus::fill_ff(data),
        }        self.served = Ghost(old(self).served@.push(BusAccess { write: false, offset, data: data@ }));
    }

    /// Offsets below 4 update the `CONFIG_ADDRESS` latch; the rest forward to
    /// the selected device's configuration register (a no-op if none).
    fn write(&mut self, offset: u64, data: &[u8])
        ensures
            offset < 4 ==> final(self).config_address() == latch_written(
                old(self).config_address(),
                offset,
                data@,
            ) && final(self).devices() == old(self).devices(),
            offset >= 4 ==> final(self).config_address() == old(self).config_address(),
            offset >= 4 ==> final(self).devices().dom() == old(self).devices().dom(),
            offset >= 4 ==> forall|k: u16|
                old(self).devices().contains_key(k) && !(spec_selected(
                    old(self).config_address(),
                    (offset - 4) as u64,
                ) matches Some((sk, _)) && sk == k) ==> final(self).devices()[k] == old(
                    self,
                ).devices()[k],
            offset >= 4 && spec_selected(old(self).config_address(), (offset - 4) as u64) is Some && old(self).devices().contains_key(
                spec_selected(old(self).config_address(), (offset - 4) as u64)->Some_0.0,
            ) ==> ({
                let (k, reg) = spec_selected(old(self).config_address(), (offset - 4) as u64)->Some_0;
                old(self).devices()[k].obeys_config_model() ==> final(self).devices()[k].config_writes()
                    == old(self).devices()[k].config_writes().push((reg, data@))
            }),
    {
        if offset < 4 {
            let a = self.config_address;
            let mut b0 = a as u8;
            let mut b1 = (a >> 8u32) as u8;
            let mut b2 = (a >> 16u32) as u8;
            let mut b3 = (a >> 24u32) as u8;
            let mut i: usize = 0;
            while i < data.len()
                invariant
                    offset < 4,
                    0 <= i <= data@.len(),
                    b0 == (if offset <= 0 && 0 - offset < i { data@[0 - offset] } else { le_byte(a, 0) }),
                    b1 == (if offset <= 1 && 1 - offset < i { data@[1 - offset] } else { le_byte(a, 1) }),
                    b2 == (if offset <= 2 && 2 - offset < i { data@[2 - offset] } else { le_byte(a, 2) }),
                    b3 == (if offset <= 3 && 3 - offset < i { data@[3 - offset] } else { le_byte(a, 3) }),
                decreases data@.len() - i,
            {
                if (i as u64) < 4 - offset {
                    let k = offset + i as u64;
                    if k == 0 {
                        b0 = data[i];
                    } else if k == 1 {
                        b1 = data[i];
                    } else if k == 2 {
                        b2 = data[i];
                    } else {
                        b3 = data[i];
                    }
                }
                i = i + 1;
            }
            self.config_address = (b0 as u32) | ((b1 as u32) << 8u32) | ((b2 as u32) << 16u32) | ((
            b3 as u32) << 24u32);
            self.served = Ghost(old(self).served@.push(BusAccess { write: true, offset, data: data@ }));
            return ;
        }
        if let Some((key, reg)) = self.selected(offset - 4) {
            if let Some(mut dev) = self.devices.remove(&key) {
                dev.config_write(reg, data);
                let _ = self.devices.insert(key, dev);
                assert(self.devices@.dom() =~= old(self).devices@.dom());
            }
        }        self.served = Ghost(old(self).served@.push(BusAccess { write: true, offset, data: data@ }));
    }
}

/// `CONFIG_ADDRESS` reads back: a full 4-byte write at the latch followed by
/// reads of its bytes returns the bytes written.
pub proof fn lemma_latch_roundtrip(addr: u32, data: Seq<u8>)
    requires
        data.len() == 4,
    ensures
        le_byte(latch_written(addr, 0, data), 0) == data[0],
        le_byte(latch_written(addr, 0, data), 1) == data[1],
        le_byte(latch_written(addr, 0, data), 2) == data[2],
        le_byte(latch_written(addr, 0, data), 3) == data[3],
{
    let (b0, b1, b2, b3) = (data[0], data[1], data[2], data[3]);
    let w = latch_written(addr, 0, data);
    assert(w == le_word(b0, b1, b2, b3));
    assert(le_word(b0, b1, b2, b3) as u8 == b0 && (le_word(b0, b1, b2, b3) >> 8u32) as u8 == b1
        && (le_word(b0, b1, b2, b3) >> 16u32) as u8 == b2 && (le_word(b0, b1, b2, b3) >> 24u32) as u8
        == b3) by (bit_vector);
}

/// Without the enable bit (31), `CONFIG_DATA` selects no device.
pub proof fn lemma_disabled_selects_nothing(addr: u32, port_byte: u64)
    requires
        addr & 0x8000_0000u32 == 0,
    ensures
        spec_selected(addr, port_byte) is None,
{
}

/// An enabled address on bus 0 selects the slot given by bits 15:11 and
/// 10:8, and the dword register given by bits 7:2.
pub proof fn lemma_selects_slot(dev: u8, func: u8, reg: u8, port_byte: u64)
    requires
        dev < 32,
        func < 8,
        port_byte < 4,
    ensures
        spec_selected(
            0x8000_0000u32 | ((dev as u32) << 11u32) | ((func as u32) << 8u32) | ((reg as u32) & 0xfcu32),
            port_byte,
        ) == Some((spec_slot_key(dev, func), (((reg as u32) & 0xfcu32) as u64).wrapping_add(port_byte))),
{
    let a = 0x8000_0000u32 | ((dev as u32) << 11u32) | ((func as u32) << 8u32) | ((reg as u32)
        & 0xfcu32);
    assert(a & 0x8000_0000u32 != 0 && (a >> 16u32) & 0xffu32 == 0 && ((a >> 11u32) & 0x1fu32) as u8
        == dev && ((a >> 8u32) & 0x07u32) as u8 == func && a & 0xfcu32 == (reg as u32) & 0xfcu32)
        by (bit_vector)
        requires
            dev < 32,
            func < 8,
            a == 0x8000_0000u32 | ((dev as u32) << 11u32) | ((func as u32) << 8u32) | ((reg as u32)
                & 0xfcu32),
    ;
}

} // verus!
