//! The virtio block device: requests of a header, data buffers and a
//! status byte, served from a disk image.
use vstd::prelude::*;

use super::pci::le_byte_at;
use super::{ChainProcessor, VIRTIO_F_VERSION_1, VirtioDevice, VirtqDesc, Virtqueue};
use crate::bytes::{le_value, read_u32, read_u64};
use crate::memory::{GuestRam, RamEvent, RamLog, extends, lemma_extends, lemma_seen_grows, read_seen, write_seen};

verus! {

/// Request types.
pub const VIRTIO_BLK_T_IN: u32 = 0;
pub const VIRTIO_BLK_T_OUT: u32 = 1;
pub const VIRTIO_BLK_T_FLUSH: u32 = 4;
pub const VIRTIO_BLK_T_GET_ID: u32 = 8;

/// Request status values.
pub const VIRTIO_BLK_S_OK: u8 = 0;
pub const VIRTIO_BLK_S_IOERR: u8 = 1;
pub const VIRTIO_BLK_S_UNSUPP: u8 = 2;

/// Feature bit: the device reports the most data buffers a request may
/// have (`seg_max` in the configuration space).
pub const VIRTIO_BLK_F_SEG_MAX: u64 = 0x4;

/// Feature bit: the device supports the flush (cache) command.
pub const VIRTIO_BLK_F_FLUSH: u64 = 0x200;

/// The most data buffers in one request: a chain holds at most a queue's
/// worth of descriptors, two of which are the header and the status.
pub const BLK_SEG_MAX: u32 = 254;

/// The length of the device ID string.
pub const VIRTIO_BLK_ID_BYTES: usize = 20;

pub const SECTOR_SIZE: u64 = 512;

/// A disk image (a host file).
pub trait BlockBackend: Send {
    /// `len` bytes at `offset`.
    fn read_exact_at(&self, len: usize, offset: u64) -> Result<Vec<u8>, String>;

    /// Write all of `data` at `offset`.
    fn write_all_at(&self, data: &[u8], offset: u64) -> Result<(), String>;

    /// Flush the image to stable storage.
    fn sync_all(&self) -> Result<(), String>;
}

/// The device ID string: ASCII, NUL-padded to `VIRTIO_BLK_ID_BYTES`.
pub open spec fn spec_blk_id() -> Seq<u8> {
    seq![0x66u8, 0x65, 0x72, 0x72, 0x76, 0x6d, 0, 0, 0, 0, 0, 0, 0, 0, 0, 0, 0, 0, 0, 0]
}

fn blk_id() -> (r: Vec<u8>)
    ensures
        r@ == spec_blk_id(),
{
    let r = vec![0x66u8, 0x65, 0x72, 0x72, 0x76, 0x6d, 0, 0, 0, 0, 0, 0, 0, 0, 0, 0, 0, 0, 0, 0];
    assert(r@ =~= spec_blk_id());
    r
}

/// Byte `i` of the configuration space: the capacity in sectors at 0..8
/// and `seg_max` at 12..16, little-endian; zero elsewhere.
pub open spec fn blk_config_byte(capacity: u64, i: int) -> u8 {
    if 0 <= i < 8 {
        le_byte_at(capacity, i)
    } else if 12 <= i < 16 {
        le_byte_at(BLK_SEG_MAX as u64, i - 12)
    } else {
        0
    }
}

/// The smaller of `a` and `b`.
pub open spec fn min_nat(a: nat, b: nat) -> nat {
    if a <= b {
        a
    } else {
        b
    }
}

/// The total length of the data buffers.
pub open spec fn data_len(data: Seq<VirtqDesc>) -> nat
    decreases data.len(),
{
    if data.len() == 0 {
        0
    } else {
        data_len(data.drop_last()) + data.last().len as nat
    }
}

/// The data length of a prefix never exceeds that of the whole.
proof fn lemma_data_len_prefix(data: Seq<VirtqDesc>, n: int)
    requires
        0 <= n <= data.len(),
    ensures
        data_len(data.subrange(0, n)) <= data_len(data),
    decreases data.len() - n,
{
    if n < data.len() {
        lemma_data_len_prefix(data, n + 1);
        assert(data.subrange(0, n + 1).drop_last() =~= data.subrange(0, n));
    } else {
        assert(data.subrange(0, n) =~= data);
    }
}

/// The part of the device ID that a GET_ID request places in data buffer
/// `k`: the ID bytes from the buffers' running length before `k` up to the
/// running length after it, both capped at the ID's length.
pub open spec fn spec_id_piece(data: Seq<VirtqDesc>, k: int) -> Seq<u8> {
    let before = data_len(data.subrange(0, k));
    spec_blk_id().subrange(
        min_nat(before, VIRTIO_BLK_ID_BYTES as nat) as int,
        min_nat(before + data[k].len as nat, VIRTIO_BLK_ID_BYTES as nat) as int,
    )
}

/// The writes a GET_ID request makes: for each data buffer, its address and
/// the piece of the device ID it receives (empty once the ID is out).
pub fn id_writes(data: &[VirtqDesc]) -> (r: Vec<(u64, Vec<u8>)>)
    ensures
        r@.len() == data@.len(),
        forall|k: int| 0 <= k < data@.len() ==> #[trigger] r@[k].0 == data@[k].addr && r@[k].1@
            == spec_id_piece(data@, k),
{
    let id = blk_id();
    let mut r: Vec<(u64, Vec<u8>)> = Vec::new();
    let mut pos: usize = 0;
    let mut i: usize = 0;
    while i < data.len()
        invariant
            i <= data@.len(),
            id@ == spec_blk_id(),
            r@.len() == i,
            pos as nat == min_nat(data_len(data@.subrange(0, i as int)), VIRTIO_BLK_ID_BYTES as nat),
            forall|k: int| 0 <= k < i ==> #[trigger] r@[k].0 == data@[k].addr && r@[k].1@
                == spec_id_piece(data@, k),
        decreases data@.len() - i,
    {
        let desc = data[i];
        proof {
            assert(data@.subrange(0, i + 1).drop_last() =~= data@.subrange(0, i as int));
        }
        let room = VIRTIO_BLK_ID_BYTES - pos;
        let n: usize = if (desc.len as u64) < (room as u64) {
            desc.len as usize
        } else {
            room
        };
        let piece = vstd::slice::slice_to_vec(&id.as_slice()[pos..pos + n]);
        assert(piece@ =~= spec_id_piece(data@, i as int));
        r.push((desc.addr, piece));
        pos = pos + n;
        i = i + 1;
    }
    r
}

/// The disk offset of each data buffer of a request at `sector`: the
/// sector's byte offset plus the lengths of the buffers before it, modulo
/// 2^64.
pub fn request_offsets(sector: u64, data: &[VirtqDesc]) -> (r: Vec<u64>)
    ensures
        r@.len() == data@.len(),
        forall|k: int| 0 <= k < data@.len() ==> #[trigger] r@[k] as int == (sector * SECTOR_SIZE
            + data_len(data@.subrange(0, k))) % 0x1_0000_0000_0000_0000,
{
    let mut r: Vec<u64> = Vec::new();
    let mut offset = sector.wrapping_mul(SECTOR_SIZE);
    let mut i: usize = 0;
    while i < data.len()
        invariant
            i <= data@.len(),
            r@.len() == i,
            offset as int == (sector * SECTOR_SIZE + data_len(data@.subrange(0, i as int)))
                % 0x1_0000_0000_0000_0000,
            forall|k: int| 0 <= k < i ==> #[trigger] r@[k] as int == (sector * SECTOR_SIZE + data_len(
                data@.subrange(0, k),
            )) % 0x1_0000_0000_0000_0000,
        decreases data@.len() - i,
    {
        r.push(offset);
        let len = data[i].len as u64;
        proof {
            assert(data@.subrange(0, i + 1).drop_last() =~= data@.subrange(0, i as int));
            let p = sector * SECTOR_SIZE + data_len(data@.subrange(0, i as int));
            vstd::arithmetic::div_mod::lemma_add_mod_noop(p, len as int, 0x1_0000_0000_0000_0000);
            vstd::arithmetic::div_mod::lemma_small_mod(len as nat, 0x1_0000_0000_0000_0000);
            vstd::arithmetic::div_mod::lemma_mod_twice(p, 0x1_0000_0000_0000_0000);
        }
        offset = offset.wrapping_add(len);
        i = i + 1;
    }
    r
}

/// The request type and sector of a 16-byte request header
/// (`{ type: u32, reserved: u32, sector: u64 }`, little-endian), or `None`
/// when fewer than 16 bytes were read.
pub fn parse_request_header(hdr: &[u8]) -> (r: Option<(u32, u64)>)
    ensures
        hdr@.len() < 16 ==> r is None,
        hdr@.len() >= 16 ==> r == Some(
            (le_value(hdr@, 0, 4) as u32, le_value(hdr@, 8, 8) as u64),
        ),
{
    if hdr.len() < 16 {
        return None;
    }
    let req_type = read_u32(hdr, 0);
    let sector = read_u64(hdr, 8);
    Some((req_type, sector))
}

/// One access to the disk image made through a [`DiskLog`]: a read of
/// `len` bytes that returned `data`, or a write of `data`, at byte
/// `offset`; `ok` tells whether the image accepted it.
pub struct DiskEvent {
    pub write: bool,
    pub offset: u64,
    pub len: nat,
    pub data: Seq<u8>,
    pub ok: bool,
}

/// The record of a disk read of `len` bytes at `offset` that gave `r`.
pub open spec fn disk_read_event(offset: u64, len: nat, r: Result<Vec<u8>, String>) -> DiskEvent {
    DiskEvent {
        write: false,
        offset,
        len,
        data: match r {
            Ok(v) => v@,
            Err(_) => Seq::empty(),
        },
        ok: r is Ok,
    }
}

/// A successful disk read of `len` bytes at `offset` that returned `d` is
/// among the events.
pub open spec fn disk_read_seen(ev: Seq<DiskEvent>, offset: u64, len: nat, d: Seq<u8>) -> bool {
    exists|e: int|
        0 <= e < ev.len() && #[trigger] ev[e] == DiskEvent { write: false, offset, len, data: d, ok: true }
}

/// A successful disk write of `d` at `offset` is among the events.
pub open spec fn disk_write_seen(ev: Seq<DiskEvent>, offset: u64, d: Seq<u8>) -> bool {
    exists|e: int|
        0 <= e < ev.len() && #[trigger] ev[e] == DiskEvent { write: true, offset, len: d.len(), data: d, ok: true }
}

/// Disk events seen stay seen once more events follow.
pub proof fn lemma_disk_seen_grows(ev1: Seq<DiskEvent>, ev2: Seq<DiskEvent>)
    requires
        ev1.len() <= ev2.len(),
        ev2.subrange(0, ev1.len() as int) == ev1,
    ensures
        forall|o: u64, l: nat, d: Seq<u8>| #[trigger] disk_read_seen(ev1, o, l, d) ==> disk_read_seen(ev2, o, l, d),
        forall|o: u64, d: Seq<u8>| #[trigger] disk_write_seen(ev1, o, d) ==> disk_write_seen(ev2, o, d),
{
    assert forall|o: u64, l: nat, d: Seq<u8>| #[trigger] disk_read_seen(ev1, o, l, d) implies disk_read_seen(ev2, o, l, d) by {
        let e = choose|e: int| 0 <= e < ev1.len() && #[trigger] ev1[e] == DiskEvent { write: false, offset: o, len: l, data: d, ok: true };
        assert(ev2[e] == ev2.subrange(0, ev1.len() as int)[e]);
    }
    assert forall|o: u64, d: Seq<u8>| #[trigger] disk_write_seen(ev1, o, d) implies disk_write_seen(ev2, o, d) by {
        let e = choose|e: int| 0 <= e < ev1.len() && #[trigger] ev1[e] == DiskEvent { write: true, offset: o, len: d.len(), data: d, ok: true };
        assert(ev2[e] == ev2.subrange(0, ev1.len() as int)[e]);
    }
}

/// A disk image with a record of the reads and writes made through it.
pub struct DiskLog<'a, B> {
    disk: &'a B,
    events: Ghost<Seq<DiskEvent>>,
}

impl<'a, B: BlockBackend> DiskLog<'a, B> {
    /// The accesses made so far, oldest first.
    pub closed spec fn events(&self) -> Seq<DiskEvent> {
        self.events@
    }

    /// A record of accesses to `disk`, empty.
    pub fn new(disk: &'a B) -> (r: Self)
        ensures
            r.events() == Seq::<DiskEvent>::empty(),
    {
        DiskLog { disk, events: Ghost(Seq::empty()) }
    }

    /// Read `len` bytes at `offset`, recording the access and what it gave.
    pub fn read_exact_at(&mut self, len: usize, offset: u64) -> (r: Result<Vec<u8>, String>)
        ensures
            final(self).events() == old(self).events().push(disk_read_event(offset, len as nat, r)),
    {
        let r = self.disk.read_exact_at(len, offset);
        self.events = Ghost(old(self).events@.push(disk_read_event(offset, len as nat, r)));
        r
    }

    /// Write `data` at `offset`, recording the access and whether it was
    /// accepted.
    pub fn write_all_at(&mut self, data: &[u8], offset: u64) -> (r: Result<(), String>)
        ensures
            final(self).events() == old(self).events().push(
                DiskEvent { write: true, offset, len: data@.len(), data: data@, ok: r is Ok },
            ),
    {
        let r = self.disk.write_all_at(data, offset);
        self.events = Ghost(
            old(self).events@.push(DiskEvent { write: true, offset, len: data@.len(), data: data@, ok: r is Ok }),
        );
        r
    }
}

/// The disk offset of data buffer `k` of a request at `sector`: the
/// sector's byte offset plus the lengths of the buffers before it, modulo
/// 2^64.
pub open spec fn disk_offset(sector: u64, data: Seq<VirtqDesc>, k: int) -> u64 {
    ((sector * SECTOR_SIZE + data_len(data.subrange(0, k))) % 0x1_0000_0000_0000_0000) as u64
}

/// Data buffer `k` of a read request was filled: the disk gave its length
/// in bytes at its disk offset, and exactly those bytes were written to
/// the buffer.
pub open spec fn in_transferred(dev: Seq<DiskEvent>, mev: Seq<RamEvent>, sector: u64, data: Seq<VirtqDesc>, k: int) -> bool {
    exists|d: Seq<u8>|
        #[trigger] disk_read_seen(dev, disk_offset(sector, data, k), data[k].len as nat, d) && d.len() == data[k].len
            && write_seen(mev, data[k].addr, d)
}

/// Data buffer `k` of a write request was stored: the bytes read from the
/// buffer were written to the disk at its disk offset.
pub open spec fn out_transferred(dev: Seq<DiskEvent>, mev: Seq<RamEvent>, sector: u64, data: Seq<VirtqDesc>, k: int) -> bool {
    exists|d: Seq<u8>|
        #[trigger] read_seen(mev, data[k].addr, data[k].len as nat, d) && disk_write_seen(dev, disk_offset(sector, data, k), d)
}

/// Move the data of a read (`VIRTIO_BLK_T_IN`) or write (`VIRTIO_BLK_T_OUT`)
/// request at `sector` between the disk and the data buffers, buffer by
/// buffer; any other type is unsupported. `written` counts the bytes
/// placed in guest memory. When the request succeeds, every buffer was
/// transferred at its own disk offset ([`in_transferred`],
/// [`out_transferred`]).
#[verifier::rlimit(40)]
pub fn transfer<B: BlockBackend>(
    disk: &mut DiskLog<B>,
    ram: &mut RamLog,
    req_type: u32,
    sector: u64,
    data: &[VirtqDesc],
    written: &mut u32,
) -> (status: u8)
    ensures
        req_type != VIRTIO_BLK_T_IN && req_type != VIRTIO_BLK_T_OUT ==> *final(written) == *old(written)
            && status == (if data@.len() == 0 {
            VIRTIO_BLK_S_OK
        } else {
            VIRTIO_BLK_S_UNSUPP
        }),
        req_type == VIRTIO_BLK_T_OUT ==> *final(written) == *old(written) && (status == VIRTIO_BLK_S_OK
            || status == VIRTIO_BLK_S_IOERR),
        req_type == VIRTIO_BLK_T_IN ==> (status == VIRTIO_BLK_S_OK || status == VIRTIO_BLK_S_IOERR) && (
        status == VIRTIO_BLK_S_OK ==> *final(written) as int == (*old(written) + data_len(data@))
            % 0x1_0000_0000),
        req_type == VIRTIO_BLK_T_IN && status == VIRTIO_BLK_S_OK ==> forall|k: int|
            0 <= k < data@.len() ==> #[trigger] in_transferred(final(disk).events(), final(ram).events(), sector, data@, k),
        req_type == VIRTIO_BLK_T_OUT && status == VIRTIO_BLK_S_OK ==> forall|k: int|
            0 <= k < data@.len() ==> #[trigger] out_transferred(final(disk).events(), final(ram).events(), sector, data@, k),
        extends(old(ram).events(), final(ram).events()),
{
    proof { lemma_extends(old(ram).events(), old(ram).events(), old(ram).events(), RamEvent { write: false, gpa: 0, len: 0, data: Seq::empty(), ok: false }); }
    let offsets = request_offsets(sector, data);
    let mut i: usize = 0;
    while i < data.len()
        invariant
            i <= data@.len(),
            offsets@.len() == data@.len(),
            forall|k: int| 0 <= k < data@.len() ==> #[trigger] offsets@[k] == disk_offset(sector, data@, k),
            req_type != VIRTIO_BLK_T_IN ==> *written == *old(written),
            req_type == VIRTIO_BLK_T_IN ==> *written as int == (*old(written) + data_len(
                data@.subrange(0, i as int),
            )) % 0x1_0000_0000,
            i > 0 ==> req_type == VIRTIO_BLK_T_IN || req_type == VIRTIO_BLK_T_OUT,
            req_type == VIRTIO_BLK_T_IN ==> forall|k: int|
                0 <= k < i ==> #[trigger] in_transferred(disk.events(), ram.events(), sector, data@, k),
            req_type == VIRTIO_BLK_T_OUT ==> forall|k: int|
                0 <= k < i ==> #[trigger] out_transferred(disk.events(), ram.events(), sector, data@, k),
            extends(old(ram).events(), ram.events()),
        decreases data@.len() - i,
    {
        let desc = data[i];
        let offset = offsets[i];
        proof {
            assert(data@.subrange(0, i + 1).drop_last() =~= data@.subrange(0, i as int));
        }
        let ghost dev0 = disk.events();
        let ghost mev0 = ram.events();
        if req_type == VIRTIO_BLK_T_IN {
            let buf = match disk.read_exact_at(desc.len as usize, offset) {
                Ok(b) => b,
                Err(_) => return VIRTIO_BLK_S_IOERR,
            };
            if buf.len() != desc.len as usize {
                return VIRTIO_BLK_S_IOERR;
            }
            let ghost dev1 = disk.events();
            assert(dev1[dev0.len() as int] == DiskEvent { write: false, offset, len: desc.len as nat, data: buf@, ok: true });
            let stored = ram.write_at(desc.addr, buf.as_slice());
            proof { lemma_extends(old(ram).events(), mev0, mev0, ram.events().last()); }
            assert(ram.events() == mev0.push(ram.events().last()));
            if stored.is_err() {
                return VIRTIO_BLK_S_IOERR;
            }
            assert(ram.events()[mev0.len() as int].write && ram.events()[mev0.len() as int].gpa == desc.addr
                && ram.events()[mev0.len() as int].data == buf@);
            proof {
                assert(disk_read_seen(disk.events(), offset, desc.len as nat, buf@));
                assert(write_seen(ram.events(), desc.addr, buf@));
                assert(in_transferred(disk.events(), ram.events(), sector, data@, i as int));
                assert(disk.events().subrange(0, dev0.len() as int) =~= dev0);
                assert(ram.events().subrange(0, mev0.len() as int) =~= mev0);
                lemma_disk_seen_grows(dev0, disk.events());
                lemma_seen_grows(mev0, ram.events());
                assert forall|k: int| 0 <= k < i implies #[trigger] in_transferred(disk.events(), ram.events(), sector, data@, k) by {
                    assert(in_transferred(dev0, mev0, sector, data@, k));
                    let d = choose|d: Seq<u8>|
                        #[trigger] disk_read_seen(dev0, disk_offset(sector, data@, k), data@[k].len as nat, d) && d.len()
                            == data@[k].len && write_seen(mev0, data@[k].addr, d);
                    assert(disk_read_seen(disk.events(), disk_offset(sector, data@, k), data@[k].len as nat, d));
                }
            }
            *written = written.wrapping_add(desc.len);
            proof {
                let prev = data_len(data@.subrange(0, i as int));
                vstd::arithmetic::div_mod::lemma_add_mod_noop(*old(written) + prev, desc.len as int, 0x1_0000_0000);
                vstd::arithmetic::div_mod::lemma_small_mod(desc.len as nat, 0x1_0000_0000);
                vstd::arithmetic::div_mod::lemma_mod_twice((*old(written) + prev) as int, 0x1_0000_0000);
            }
        } else if req_type == VIRTIO_BLK_T_OUT {
            let fetched = ram.read_at(desc.addr, desc.len as usize);
            proof { lemma_extends(old(ram).events(), mev0, mev0, ram.events().last()); }
            assert(ram.events() == mev0.push(ram.events().last()));
            let buf = match fetched {
                Ok(b) => b,
                Err(_) => return VIRTIO_BLK_S_IOERR,
            };
            assert(ram.events()[mev0.len() as int] == RamEvent { write: false, gpa: desc.addr, len: desc.len as nat, data: buf@, ok: true });
            if disk.write_all_at(buf.as_slice(), offset).is_err() {
                return VIRTIO_BLK_S_IOERR;
            }
            assert(disk.events()[dev0.len() as int] == DiskEvent { write: true, offset, len: buf@.len(), data: buf@, ok: true });
            proof {
                assert(read_seen(ram.events(), desc.addr, desc.len as nat, buf@));
                assert(disk_write_seen(disk.events(), offset, buf@));
                assert(out_transferred(disk.events(), ram.events(), sector, data@, i as int));
                assert(disk.events().subrange(0, dev0.len() as int) =~= dev0);
                assert(ram.events().subrange(0, mev0.len() as int) =~= mev0);
                lemma_disk_seen_grows(dev0, disk.events());
                lemma_seen_grows(mev0, ram.events());
                assert forall|k: int| 0 <= k < i implies #[trigger] out_transferred(disk.events(), ram.events(), sector, data@, k) by {
                    assert(out_transferred(dev0, mev0, sector, data@, k));
                    let d = choose|d: Seq<u8>|
                        #[trigger] read_seen(mev0, data@[k].addr, data@[k].len as nat, d) && disk_write_seen(dev0, disk_offset(sector, data@, k), d);
                    assert(read_seen(ram.events(), data@[k].addr, data@[k].len as nat, d));
                }
            }
        } else {
            return VIRTIO_BLK_S_UNSUPP;
        }
        i = i + 1;
    }
    proof {
        assert(data@.subrange(0, i as int) =~= data@);
    }
    VIRTIO_BLK_S_OK
}

/// The virtio block device (device type 2).
pub struct VirtioBlk<B> {
    disk: B,
    capacity_sectors: u64,
    debug: bool,
    notified: Ghost<Seq<(usize, Virtqueue)>>,
    handled: Ghost<Seq<Seq<VirtqDesc>>>,
}

impl<B: BlockBackend> VirtioBlk<B> {
    /// The capacity in 512-byte sectors.
    pub closed spec fn capacity(&self) -> u64 {
        self.capacity_sectors
    }

    /// A device over `disk`, an image of `disk_len` bytes: its capacity is
    /// the whole sectors of the image.
    pub fn new(disk: B, disk_len: u64, debug: bool) -> (r: Self)
        ensures
            r.capacity() == disk_len / SECTOR_SIZE,
            r.notifications() == Seq::<(usize, Virtqueue)>::empty(),
    {
        VirtioBlk { disk, capacity_sectors: disk_len / SECTOR_SIZE, debug, notified: Ghost(Seq::empty()), handled: Ghost(Seq::empty()) }
    }

    /// Place the device ID string in the data buffers, in order, until its
    /// `VIRTIO_BLK_ID_BYTES` bytes are out or the buffers are full: the
    /// writes of [`id_writes`], skipping empty ones.
    ///
    /// On success each buffer holds its piece of the ID: every non-empty
    /// piece of [`spec_id_piece`] was written at its buffer's address.
    pub fn write_id(data: &[VirtqDesc], ram: &mut RamLog, written: &mut u32) -> (status: u8)
        ensures
            extends(old(ram).events(), final(ram).events()),
            status == VIRTIO_BLK_S_OK || status == VIRTIO_BLK_S_IOERR,
            status == VIRTIO_BLK_S_OK ==> forall|k: int|
                0 <= k < data@.len() && spec_id_piece(data@, k).len() > 0 ==> #[trigger] write_seen(
                    final(ram).events(),
                    data@[k].addr,
                    spec_id_piece(data@, k),
                ),
            data_len(data@) == 0 ==> status == VIRTIO_BLK_S_OK && *final(written) == *old(written),
            status == VIRTIO_BLK_S_OK ==> *final(written) as int == (*old(written) + min_nat(
                data_len(data@),
                VIRTIO_BLK_ID_BYTES as nat,
            )) % 0x1_0000_0000,
    {
        let plan = id_writes(data);
        assert(extends(old(ram).events(), ram.events())) by {
            lemma_extends(ram.events(), ram.events(), ram.events(), RamEvent { write: false, gpa: 0, len: 0, data: Seq::empty(), ok: false });
        }
        let mut i: usize = 0;
        while i < plan.len()
            invariant
                i <= plan@.len(),
                plan@.len() == data@.len(),
                forall|k: int| 0 <= k < data@.len() ==> #[trigger] plan@[k].0 == data@[k].addr
                    && plan@[k].1@ == spec_id_piece(data@, k),
                *written as int == (*old(written) + min_nat(
                    data_len(data@.subrange(0, i as int)),
                    VIRTIO_BLK_ID_BYTES as nat,
                )) % 0x1_0000_0000,
                forall|k: int|
                    0 <= k < i && spec_id_piece(data@, k).len() > 0 ==> #[trigger] write_seen(
                        ram.events(),
                        data@[k].addr,
                        spec_id_piece(data@, k),
                    ),
                extends(old(ram).events(), ram.events()),
            decreases plan@.len() - i,
        {
            let (addr, bytes) = (plan[i].0, &plan[i].1);
            let ghost ev_i = ram.events();
            proof {
                assert(data@.subrange(0, i + 1).drop_last() =~= data@.subrange(0, i as int));
                lemma_data_len_prefix(data@, i + 1);
                lemma_data_len_prefix(data@, i as int);
                assert(plan@[i as int].1@ == spec_id_piece(data@, i as int));
            }
            let n = bytes.len();
            if n > 0 {
                let stored = ram.write_at(addr, bytes.as_slice());
                proof { lemma_extends(old(ram).events(), ev_i, ev_i, ram.events().last()); }
                assert(ram.events() == ev_i.push(ram.events().last()));
                if stored.is_err() {
                    return VIRTIO_BLK_S_IOERR;
                }
                assert(ram.events()[ev_i.len() as int].write && ram.events()[ev_i.len() as int].gpa == addr
                    && ram.events()[ev_i.len() as int].data == bytes@);
                proof {
                    assert(ram.events().subrange(0, ev_i.len() as int) =~= ev_i);
                    lemma_seen_grows(ev_i, ram.events());
                    assert forall|k: int|
                        0 <= k < i + 1 && spec_id_piece(data@, k).len() > 0 implies #[trigger] write_seen(
                        ram.events(),
                        data@[k].addr,
                        spec_id_piece(data@, k),
                    ) by {
                        if k < i {
                            assert(write_seen(ev_i, data@[k].addr, spec_id_piece(data@, k)));
                        }
                    }
                }
            }
            *written = written.wrapping_add(n as u32);
            proof {
                let p = data_len(data@.subrange(0, i as int));
                let pos = min_nat(p, VIRTIO_BLK_ID_BYTES as nat);
                vstd::arithmetic::div_mod::lemma_add_mod_noop(*old(written) + pos, n as int, 0x1_0000_0000);
                vstd::arithmetic::div_mod::lemma_small_mod(n as nat, 0x1_0000_0000);
                vstd::arithmetic::div_mod::lemma_mod_twice((*old(written) + pos) as int, 0x1_0000_0000);
            }
            i = i + 1;
        }
        proof {
            assert(data@.subrange(0, i as int) =~= data@);
        }
        VIRTIO_BLK_S_OK
    }

    /// Serve one request on the data buffers `data`, starting at `sector`;
    /// `written` counts the bytes placed in guest memory. Returns the
    /// request status. The disk and guest memory are reached through
    /// records: a successful read or write request moved every buffer at
    /// its own disk offset, and a successful GET_ID placed each piece of
    /// the ID in its buffer.
    pub fn execute(
        &self,
        disk: &mut DiskLog<B>,
        ram: &mut RamLog,
        req_type: u32,
        sector: u64,
        data: &[VirtqDesc],
        written: &mut u32,
    ) -> (status: u8)
        ensures
            extends(old(ram).events(), final(ram).events()),
            req_type == VIRTIO_BLK_T_IN && status == VIRTIO_BLK_S_OK ==> forall|k: int|
                0 <= k < data@.len() ==> #[trigger] in_transferred(final(disk).events(), final(ram).events(), sector, data@, k),
            req_type == VIRTIO_BLK_T_OUT && status == VIRTIO_BLK_S_OK ==> forall|k: int|
                0 <= k < data@.len() ==> #[trigger] out_transferred(final(disk).events(), final(ram).events(), sector, data@, k),
            req_type == VIRTIO_BLK_T_GET_ID && status == VIRTIO_BLK_S_OK ==> forall|k: int|
                0 <= k < data@.len() && spec_id_piece(data@, k).len() > 0 ==> #[trigger] write_seen(
                    final(ram).events(),
                    data@[k].addr,
                    spec_id_piece(data@, k),
                ),
            req_type == VIRTIO_BLK_T_FLUSH ==> *final(written) == *old(written) && (status
                == VIRTIO_BLK_S_OK || status == VIRTIO_BLK_S_IOERR),
            req_type == VIRTIO_BLK_T_GET_ID ==> (status == VIRTIO_BLK_S_OK || status == VIRTIO_BLK_S_IOERR)
                && (status == VIRTIO_BLK_S_OK ==> *final(written) as int == (*old(written) + min_nat(
                data_len(data@),
                VIRTIO_BLK_ID_BYTES as nat,
            )) % 0x1_0000_0000),
            req_type != VIRTIO_BLK_T_FLUSH && req_type != VIRTIO_BLK_T_GET_ID && req_type != VIRTIO_BLK_T_IN
                && req_type != VIRTIO_BLK_T_OUT ==> *final(written) == *old(written) && status == (if data@.len() == 0 {
                VIRTIO_BLK_S_OK
            } else {
                VIRTIO_BLK_S_UNSUPP
            }),
            req_type == VIRTIO_BLK_T_OUT ==> *final(written) == *old(written) && (status
                == VIRTIO_BLK_S_OK || status == VIRTIO_BLK_S_IOERR),
            req_type == VIRTIO_BLK_T_IN ==> (status == VIRTIO_BLK_S_OK || status == VIRTIO_BLK_S_IOERR)
                && (status == VIRTIO_BLK_S_OK ==> *final(written) as int == (*old(written) + data_len(
                data@)) % 0x1_0000_0000),
    {
        proof { lemma_extends(ram.events(), ram.events(), ram.events(), RamEvent { write: false, gpa: 0, len: 0, data: Seq::empty(), ok: false }); }
        if req_type == VIRTIO_BLK_T_FLUSH {
            return match self.disk.sync_all() {
                Ok(()) => VIRTIO_BLK_S_OK,
                Err(_) => VIRTIO_BLK_S_IOERR,
            };
        }
        if req_type == VIRTIO_BLK_T_GET_ID {
            return Self::write_id(data, ram, written);
        }
        transfer(disk, ram, req_type, sector, data, written)
    }
}

/// Transfers recorded stay recorded once more guest-memory accesses
/// follow.
proof fn lemma_transferred_grows(
    dev: Seq<DiskEvent>,
    mev1: Seq<RamEvent>,
    mev2: Seq<RamEvent>,
    sector: u64,
    data: Seq<VirtqDesc>,
)
    requires
        extends(mev1, mev2),
    ensures
        forall|k: int| #[trigger] in_transferred(dev, mev1, sector, data, k) ==> in_transferred(dev, mev2, sector, data, k),
        forall|k: int| #[trigger] out_transferred(dev, mev1, sector, data, k) ==> out_transferred(dev, mev2, sector, data, k),
{
    lemma_seen_grows(mev1, mev2);
    assert forall|k: int| #[trigger] in_transferred(dev, mev1, sector, data, k) implies in_transferred(dev, mev2, sector, data, k) by {
        let d = choose|d: Seq<u8>|
            #[trigger] disk_read_seen(dev, disk_offset(sector, data, k), data[k].len as nat, d) && d.len() == data[k].len
                && write_seen(mev1, data[k].addr, d);
        assert(write_seen(mev2, data[k].addr, d));
    }
    assert forall|k: int| #[trigger] out_transferred(dev, mev1, sector, data, k) implies out_transferred(dev, mev2, sector, data, k) by {
        let d = choose|d: Seq<u8>|
            #[trigger] read_seen(mev1, data[k].addr, data[k].len as nat, d) && disk_write_seen(dev, disk_offset(sector, data, k), d);
        assert(read_seen(mev2, data[k].addr, data[k].len as nat, d));
    }
}

/// What a request chain's status byte and byte count report, given the
/// header read `h` and the status write `last`: the header's type and
/// sector are decoded from `h`; the status went to the last descriptor;
/// an unknown type is refused unless the request has no data, and a
/// successful read or write moved every buffer, a successful GET_ID placed
/// the ID.
pub open spec fn request_served(
    dev: Seq<DiskEvent>,
    ev: Seq<RamEvent>,
    chain: Seq<VirtqDesc>,
    h: RamEvent,
    last: RamEvent,
    total: u32,
) -> bool {
    let t = le_value(h.data, 0, 4) as u32;
    let sector = le_value(h.data, 8, 8) as u64;
    let data = chain.subrange(1, chain.len() - 1);
    let st = last.data[0];
    let stored: int = if last.ok { 1 } else { 0 };
    &&& last.write && last.gpa == chain[chain.len() - 1].addr && last.data.len() == 1
    &&& t != VIRTIO_BLK_T_IN && t != VIRTIO_BLK_T_OUT && t != VIRTIO_BLK_T_FLUSH && t != VIRTIO_BLK_T_GET_ID
        ==> st == (if data.len() == 0 { VIRTIO_BLK_S_OK } else { VIRTIO_BLK_S_UNSUPP }) && total == stored
    &&& t == VIRTIO_BLK_T_IN && st == VIRTIO_BLK_S_OK ==> total as int == (data_len(data) + stored)
        % 0x1_0000_0000 && forall|k: int| 0 <= k < data.len() ==> #[trigger] in_transferred(dev, ev, sector, data, k)
    &&& t == VIRTIO_BLK_T_OUT && st == VIRTIO_BLK_S_OK ==> total == stored && forall|k: int|
        0 <= k < data.len() ==> #[trigger] out_transferred(dev, ev, sector, data, k)
    &&& t == VIRTIO_BLK_T_GET_ID && st == VIRTIO_BLK_S_OK ==> forall|k: int|
        0 <= k < data.len() && spec_id_piece(data, k).len() > 0 ==> #[trigger] write_seen(ev, data[k].addr, spec_id_piece(data, k))
}

impl<B: BlockBackend> VirtioBlk<B> {
    /// Serve one request chain: read the 16-byte header at the first
    /// descriptor, serve the request on the buffers between, and write the
    /// status byte at the last descriptor. Returns the bytes written to
    /// guest memory, the status byte included. A chain shorter than header
    /// and status, or a header that cannot be read, is ignored.
    #[verifier::rlimit(40)]
    pub fn serve_request(&self, disk: &mut DiskLog<B>, ram: &mut RamLog, chain: &[VirtqDesc]) -> (total: u32)
        ensures
            extends(old(ram).events(), final(ram).events()),
            chain@.len() < 2 ==> total == 0 && final(ram).events() == old(ram).events(),
            chain@.len() >= 2 ==> final(ram).events().len() > old(ram).events().len() && ({
                let h = final(ram).events()[old(ram).events().len() as int];
                &&& !h.write && h.gpa == chain@[0].addr && h.len == 16
                &&& !(h.ok && h.data.len() >= 16) ==> total == 0 && final(ram).events().len() == old(
                    ram,
                ).events().len() + 1
                &&& h.ok && h.data.len() >= 16 ==> request_served(
                    final(disk).events(),
                    final(ram).events(),
                    chain@,
                    h,
                    final(ram).events().last(),
                    total,
                )
            }),
    {
        let ghost ev0 = ram.events();
        proof { lemma_extends(ev0, ev0, ev0, RamEvent { write: false, gpa: 0, len: 0, data: Seq::empty(), ok: false }); }
        let n = chain.len();
        if n < 2 {
            return 0;
        }
        let read = ram.read_at(chain[0].addr, 16);
        let ghost ev1 = ram.events();
        proof { lemma_extends(ev0, ev0, ev0, ev1.last()); }
        assert(ev1 == ev0.push(ev1.last()));
        let hdr = match read {
            Ok(h) => h,
            Err(_) => return 0,
        };
        let (req_type, sector) = match parse_request_header(hdr.as_slice()) {
            Some(h) => h,
            None => return 0,
        };
        let data = &chain[1..n - 1];
        assert(data@ == chain@.subrange(1, n - 1));
        let mut written: u32 = 0;
        let status = self.execute(disk, ram, req_type, sector, data, &mut written);
        let ghost ev2 = ram.events();
        let ghost dev2 = disk.events();
        let status_desc = chain[n - 1];
        let status_bytes = [status];
        let stored = ram.write_at(status_desc.addr, &status_bytes);
        let ghost ev3 = ram.events();
        proof {
            assert(ev3 == ev2.push(ev3.last()));
            lemma_extends(ev2, ev2, ev2, ev3.last());
            assert(extends(ev2, ev3));
            lemma_extends(ev0, ev1, ev2, ev3.last());
            assert(extends(ev0, ev2));
            lemma_extends(ev0, ev2, ev3, ev3.last());
            assert(extends(ev0, ev3));
            lemma_extends(ev1, ev2, ev3, ev3.last());
            assert(extends(ev1, ev3));
            assert(ev3[ev0.len() as int] == ev1[ev0.len() as int]) by {
                assert(ev3.subrange(0, ev1.len() as int)[ev0.len() as int] == ev3[ev0.len() as int]);
            }
            lemma_transferred_grows(dev2, ev2, ev3, sector, data@);
            lemma_seen_grows(ev2, ev3);
            assert(status_bytes@ =~= seq![status]);
        }
        if stored.is_ok() {
            written = written.wrapping_add(1);
        }
        proof {
            let h = ev3[ev0.len() as int];
            assert(h.data == hdr@);
            assert(le_value(h.data, 0, 4) as u32 == req_type);
            assert(le_value(h.data, 8, 8) as u64 == sector);
            if req_type == VIRTIO_BLK_T_IN && status == VIRTIO_BLK_S_OK {
                vstd::arithmetic::div_mod::lemma_add_mod_noop(data_len(data@) as int, (if stored is Ok { 1int } else { 0 }), 0x1_0000_0000);
                vstd::arithmetic::div_mod::lemma_small_mod((if stored is Ok { 1nat } else { 0 }), 0x1_0000_0000);
            }
            let last = ev3.last();
            assert(last.write && last.gpa == chain@[n - 1].addr && last.data.len() == 1);
            assert(last.data[0] == status);
            assert(chain@.subrange(1, chain@.len() - 1) == data@);
            assert(last.ok == (stored is Ok));
            if req_type == VIRTIO_BLK_T_IN && status == VIRTIO_BLK_S_OK {
                assert forall|k: int| 0 <= k < data@.len() implies #[trigger] in_transferred(dev2, ev3, sector, data@, k) by {
                    assert(in_transferred(dev2, ev2, sector, data@, k));
                }
            }
            if req_type == VIRTIO_BLK_T_OUT && status == VIRTIO_BLK_S_OK {
                assert forall|k: int| 0 <= k < data@.len() implies #[trigger] out_transferred(dev2, ev3, sector, data@, k) by {
                    assert(out_transferred(dev2, ev2, sector, data@, k));
                }
            }
            if req_type == VIRTIO_BLK_T_GET_ID && status == VIRTIO_BLK_S_OK {
                assert forall|k: int| 0 <= k < data@.len() && spec_id_piece(data@, k).len() > 0 implies #[trigger] write_seen(
                    ev3,
                    data@[k].addr,
                    spec_id_piece(data@, k),
                ) by {
                    assert(write_seen(ev2, data@[k].addr, spec_id_piece(data@, k)));
                }
            }
            assert(request_served(dev2, ev3, chain@, h, last, written));
        }
        written
    }
}

impl<B: BlockBackend> ChainProcessor for VirtioBlk<B> {
    closed spec fn chains(&self) -> Seq<Seq<VirtqDesc>> {
        self.handled@
    }

    /// A request is a 16-byte header (type, reserved, sector), data
    /// buffers, and a status byte; returns the bytes written to guest
    /// memory, the status byte included. A chain shorter than header and
    /// status is ignored.
    fn process_chain(&mut self, chain: &mut [VirtqDesc], mem: &dyn GuestRam) -> (total: u32)
        ensures
            final(chain)@ == old(chain)@,
            old(chain)@.len() < 2 ==> total == 0,
    {
        self.handled = Ghost(old(self).handled@.push(old(chain)@));
        let mut disk = DiskLog::new(&self.disk);
        let mut ram = RamLog::new(mem);
        self.serve_request(&mut disk, &mut ram, chain)
    }
}

/// An 8-byte read of the block device's configuration space at offset 0
/// gives its capacity in sectors, little-endian, whatever the buffer held.
pub proof fn lemma_blk_config_capacity<B: BlockBackend>(dev: &VirtioBlk<B>, data: Seq<u8>)
    requires
        data.len() == 8,
    ensures
        super::pci::spec_get_le(dev.config_read_result(0, data)) == dev.capacity(),
{
    let r = dev.config_read_result(0, data);
    assert forall|i: int| 0 <= i < r.len() implies r[i] == le_byte_at(dev.capacity(), i) by {}
    super::pci::lemma_put_get_le(r, dev.capacity());
    assert(super::pci::pow256(8) == 0x1_0000_0000_0000_0000) by {
        reveal_with_fuel(super::pci::pow256, 9);
    }
    vstd::arithmetic::div_mod::lemma_small_mod(dev.capacity() as nat, 0x1_0000_0000_0000_0000);
}

impl<B: BlockBackend> VirtioDevice for VirtioBlk<B> {
    open spec fn spec_device_id(&self) -> u32 {
        2
    }

    open spec fn spec_device_features(&self) -> u64 {
        VIRTIO_F_VERSION_1 | VIRTIO_BLK_F_FLUSH | VIRTIO_BLK_F_SEG_MAX
    }

    open spec fn spec_num_queues(&self) -> usize {
        1
    }

    open spec fn config_read_result(&self, offset: u64, data: Seq<u8>) -> Seq<u8> {
        Seq::new(data.len(), |i: int| blk_config_byte(self.capacity(), offset + i))
    }

    closed spec fn notifications(&self) -> Seq<(usize, Virtqueue)> {
        self.notified@
    }

    fn device_id(&self) -> (r: u32) {
        2
    }

    fn device_features(&self) -> (r: u64) {
        VIRTIO_F_VERSION_1 | VIRTIO_BLK_F_FLUSH | VIRTIO_BLK_F_SEG_MAX
    }

    fn num_queues(&self) -> (r: usize) {
        1
    }

    /// Only queue 0 exists; an interrupt is asked for when a request was
    /// processed.
    fn on_notify(&mut self, queue_idx: usize, queue: &mut Virtqueue, mem: &dyn GuestRam) -> (raise: bool)
        ensures
            queue_idx != 0 ==> !raise && *final(queue) == *old(queue),
            !old(queue).ready || old(queue).num == 0 ==> !raise,
            queue_idx == 0 ==> final(self).chains().len() == old(self).chains().len() + (
            final(queue).last_avail_idx - old(queue).last_avail_idx + 0x1_0000) % 0x1_0000,
            queue_idx != 0 ==> final(self).chains() == old(self).chains(),
    {
        if queue_idx != 0 {
            self.notified = Ghost(old(self).notified@.push((queue_idx, *old(queue))));
            return false;
        }
        let processed = queue.process(mem, self);
        self.notified = Ghost(old(self).notified@.push((queue_idx, *old(queue))));
        processed > 0
    }

    /// The configuration space: the capacity in sectors and `seg_max`,
    /// little-endian; the other bytes read as zero.
    fn read_config(&self, offset: u64, data: &mut [u8])
        ensures
            forall|i: int|
                0 <= i < final(data)@.len() ==> final(data)@[i] == blk_config_byte(self.capacity(), offset + i),
    {
        let mut cfg = [0u8; 16];
        super::pci::put_le(&mut cfg, self.capacity_sectors);
        let mut seg_max = [0u8; 4];
        super::pci::put_le(&mut seg_max, BLK_SEG_MAX as u64);
        cfg[8] = 0;
        cfg[9] = 0;
        cfg[10] = 0;
        cfg[11] = 0;
        cfg[12] = seg_max[0];
        cfg[13] = seg_max[1];
        cfg[14] = seg_max[2];
        cfg[15] = seg_max[3];
        proof {
            assert forall|k: int| 8 <= k < 12 implies le_byte_at(self.capacity_sectors, k) == 0u8 by {}
        }
        assert(forall|k: int| 0 <= k < 16 ==> cfg@[k] == blk_config_byte(self.capacity_sectors, k));
        let mut i: usize = 0;
        while i < data.len()
            invariant
                i <= data@.len(),
                data@.len() == old(data)@.len(),
                cfg@.len() == 16,
                forall|k: int| 0 <= k < 16 ==> cfg@[k] == blk_config_byte(self.capacity_sectors, k),
                forall|k: int|
                    0 <= k < i ==> data@[k] == blk_config_byte(self.capacity_sectors, offset + k),
            decreases data@.len() - i,
        {
            if offset < 16 && (i as u64) < 16 - offset {
                data[i] = cfg[(offset as usize) + i];
            } else {
                data[i] = 0;
            }
            i = i + 1;
        }
        assert(data@ =~= self.config_read_result(offset, old(data)@));
    }
}

} // verus!
