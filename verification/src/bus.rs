//! Generic I/O bus: maps `[base, base+len)` ranges to devices and dispatches
//! reads and writes.
//!
//! Used for both PIO (16-bit port address space) and MMIO (64-bit physical
//! address space). Registered ranges are kept sorted by base and pairwise
//! disjoint, so a point lookup is a binary search.
use vstd::prelude::*;

verus! {

/// Error type for bus registration. Dispatch itself cannot fail from the
/// caller's perspective: unmapped accesses are handled silently (reads return
/// 0xff, writes are dropped).
#[derive(Debug, Clone, Copy)]
pub enum BusError {
    ZeroLength(u64),
    Overflow { base: u64, end: u64 },
    Overlap { base: u64, len: u64 },
}

/// Anything that lives on a bus. Offsets are relative to the device's base;
/// a serial port registered at 0x3f8 sees offsets 0..8 for its registers.
pub trait BusDevice {
    /// Whether the device keeps [`Self::accesses`]: the access record is
    /// promised only by devices that say so. A device that does not
    /// override this (one written outside verified code, which cannot
    /// name the record) promises nothing about it.
    open spec fn obeys_access_record(&self) -> bool {
        false
    }

    /// The accesses the device has served so far, oldest first; meaningful
    /// where [`Self::obeys_access_record`] holds.
    open spec fn accesses(&self) -> Seq<BusAccess> {
        Seq::empty()
    }

    /// Read from `offset`, filling `data` entirely. `data.len()` is the
    /// access width in bytes.
    fn read(&mut self, offset: u64, data: &mut [u8])
        ensures
            final(data)@.len() == old(data)@.len(),
            old(self).obeys_access_record() ==> final(self).accesses() == old(self).accesses().push(
                BusAccess { write: false, offset, data: final(data)@ },
            ),
    ;

    /// Write `data` to `offset`. `data.len()` is the access width in bytes.
    fn write(&mut self, offset: u64, data: &[u8])
        ensures
            old(self).obeys_access_record() ==> final(self).accesses() == old(self).accesses().push(
                BusAccess { write: true, offset, data: data@ },
            ),
    ;
}

/// One access a device served: a write of `data`, or a read that
/// returned `data`, at `offset` from the device's base.
pub struct BusAccess {
    pub write: bool,
    pub offset: u64,
    pub data: Seq<u8>,
}

/// A range `[base, base+len)` on the bus.
#[derive(Clone, Copy, Debug)]
pub struct BusRange {
    pub base: u64,
    pub len: u64,
}

/// End of a range, saturating at `u64::MAX`.
pub open spec fn spec_range_end(r: BusRange) -> int {
    if r.base + r.len > u64::MAX {
        u64::MAX as int
    } else {
        r.base + r.len
    }
}

/// A range that `BusRange::new` accepts: non-empty and not wrapping.
pub open spec fn valid_range(r: BusRange) -> bool {
    r.len > 0 && r.base + r.len <= u64::MAX
}

/// The two ranges share an address.
pub open spec fn ranges_overlap(a: BusRange, b: BusRange) -> bool {
    a.base < spec_range_end(b) && b.base < spec_range_end(a)
}

/// `addr` lies inside `r`.
pub open spec fn range_hits(r: BusRange, addr: u64) -> bool {
    r.base <= addr && addr < spec_range_end(r)
}

/// `[addr, addr+len)` lies fully inside `r` (and does not wrap).
pub open spec fn range_contains(r: BusRange, addr: u64, len: u64) -> bool {
    addr + len <= u64::MAX && addr >= r.base && addr + len <= spec_range_end(r)
}

/// Every range is valid, and the sequence is sorted by base with no two
/// ranges sharing an address.
pub open spec fn ranges_wf(s: Seq<BusRange>) -> bool {
    &&& forall|i: int| 0 <= i < s.len() ==> #[trigger] valid_range(s[i])
    &&& forall|i: int, j: int|
        0 <= i < j < s.len() ==> #[trigger] s[i].base + s[i].len <= #[trigger] s[j].base
}

impl BusRange {
    /// Builds `[base, base+len)`, refusing an empty or wrapping range.
    pub fn new(base: u64, len: u64) -> (r: Result<Self, BusError>)
        ensures
            len == 0 ==> r == Err::<BusRange, BusError>(BusError::ZeroLength(base)),
            len != 0 && base + len > u64::MAX ==> r == Err::<BusRange, BusError>(
                BusError::Overflow { base, end: u64::MAX },
            ),
            len != 0 && base + len <= u64::MAX ==> r == Ok::<BusRange, BusError>(BusRange { base, len }),
            r is Ok ==> valid_range(r->Ok_0),
    {
        if len == 0 {
            return Err(BusError::ZeroLength(base));
        }
        match base.checked_add(len) {
            None => Err(BusError::Overflow { base, end: u64::MAX }),
            Some(_end) => Ok(BusRange { base, len }),
        }
    }

    /// One-byte range used as a lookup key for a point address.
    pub fn point(addr: u64) -> (r: Self)
        ensures
            r.base == addr,
            r.len == 1,
    {
        BusRange { base: addr, len: 1 }
    }

    /// End of the range; saturates so the key `point(u64::MAX)` cannot
    /// overflow.
    pub fn end(&self) -> (r: u64)
        ensures
            r == spec_range_end(*self),
    {
        self.base.saturating_add(self.len)
    }

    /// Does `[addr, addr+len)` lie fully within this range?
    pub fn contains_range(&self, addr: u64, len: u64) -> (r: bool)
        ensures
            r == range_contains(*self, addr, len),
    {
        match addr.checked_add(len) {
            Some(req_end) => addr >= self.base && req_end <= self.end(),
            None => false,
        }
    }

    /// Do the two ranges share an address?
    pub fn overlaps(&self, other: &Self) -> (r: bool)
        ensures
            r == ranges_overlap(*self, *other),
    {
        self.base < other.end() && other.base < self.end()
    }
}

/// Two valid, disjoint ranges in sorted order cannot both hold `addr`.
pub proof fn lemma_sorted_ranges_disjoint(s: Seq<BusRange>, i: int, j: int, addr: u64)
    requires
        ranges_wf(s),
        0 <= i < s.len(),
        0 <= j < s.len(),
        range_hits(s[i], addr),
        range_hits(s[j], addr),
    ensures
        i == j,
{
    if i < j {
        assert(s[i].base + s[i].len <= s[j].base);
        assert(valid_range(s[i]));
    } else if j < i {
        assert(s[j].base + s[j].len <= s[i].base);
        assert(valid_range(s[j]));
    }
}

/// A bus: a range -> device map with O(log n) point lookup.
pub struct Bus<D> {
    ranges: Vec<BusRange>,
    devices: Vec<D>,
}

impl<D: BusDevice> Bus<D> {
    /// The registered ranges, sorted by base.
    pub closed spec fn ranges(&self) -> Seq<BusRange> {
        self.ranges@
    }

    /// The devices, in the order of their ranges.
    pub closed spec fn devices(&self) -> Seq<D> {
        self.devices@
    }

    /// Internal invariant: one device per range, ranges sorted and disjoint.
    pub closed spec fn wf(&self) -> bool {
        &&& self.ranges@.len() == self.devices@.len()
        &&& ranges_wf(self.ranges@)
    }

    /// The index of the range that holds `addr`, if there is one.
    pub open spec fn spec_lookup(&self, addr: u64) -> Option<int> {
        if exists|i: int| 0 <= i < self.ranges().len() && range_hits(#[trigger] self.ranges()[i], addr) {
            Some(choose|i: int| 0 <= i < self.ranges().len() && range_hits(#[trigger] self.ranges()[i], addr))
        } else {
            None
        }
    }

    /// Where an access of `len` bytes at `addr` goes: the index of the
    /// device that claims it and the offset relative to that device's base.
    pub open spec fn spec_route(&self, addr: u64, len: u64) -> Option<(int, u64)> {
        match self.spec_lookup(addr) {
            Some(i) => if range_contains(self.ranges()[i], addr, len) {
                Some((i, (addr - self.ranges()[i].base) as u64))
            } else {
                None
            },
            None => None,
        }
    }

    /// An empty bus.
    pub fn new() -> (r: Self)
        ensures
            r.wf(),
            r.ranges() == Seq::<BusRange>::empty(),
            r.devices() == Seq::<D>::empty(),
    {
        Bus { ranges: Vec::new(), devices: Vec::new() }
    }

    /// Register `device` at `[base, base+len)`. Returns `BusError::Overlap`
    /// if the range collides with any existing device.
    pub fn register(&mut self, base: u64, len: u64, device: D) -> (r: Result<(), BusError>)
        requires
            old(self).wf(),
        ensures
            final(self).wf(),
            len == 0 ==> r == Err::<(), BusError>(BusError::ZeroLength(base)),
            len != 0 && base + len > u64::MAX ==> r == Err::<(), BusError>(
                BusError::Overflow { base, end: u64::MAX },
            ),
            len != 0 && base + len <= u64::MAX && (exists|i: int|
                0 <= i < old(self).ranges().len() && ranges_overlap(
                    #[trigger] old(self).ranges()[i],
                    BusRange { base, len },
                )) ==> r == Err::<(), BusError>(BusError::Overlap { base, len }),
            r is Err ==> final(self).ranges() == old(self).ranges() && final(self).devices() == old(
                self,
            ).devices(),
            r is Ok <==> (len != 0 && base + len <= u64::MAX && forall|i: int|
                0 <= i < old(self).ranges().len() ==> !ranges_overlap(
                    #[trigger] old(self).ranges()[i],
                    BusRange { base, len },
                )),
            r is Ok ==> exists|k: int|
                0 <= k <= old(self).ranges().len() && final(self).ranges() == old(
                    self,
                ).ranges().insert(k, BusRange { base, len }) && final(self).devices() == old(
                    self,
                ).devices().insert(k, device),
    {
        let range = match BusRange::new(base, len) {
            Ok(r) => r,
            Err(e) => return Err(e),
        };
        let n = self.ranges.len();
        // Find the first range that starts at or after `base`, checking for
        // overlap on the way.
        let mut k: usize = 0;
        while k < n && self.ranges[k].base < base
            invariant
                self.wf(),
                n == self.ranges@.len(),
                0 <= k <= n,
                forall|i: int| 0 <= i < k ==> #[trigger] self.ranges@[i].base < base,
                forall|i: int| 0 <= i < k ==> !ranges_overlap(#[trigger] self.ranges@[i], range) || (i == k - 1 && ranges_overlap(self.ranges@[i], range)),
                valid_range(range),
                range.base == base && range.len == len,
            decreases n - k,
        {
            k = k + 1;
        }
        // The neighbour below `base` is the only earlier range that can
        // overlap; the one at `k` is the only later one.
        if k > 0 && self.ranges[k - 1].overlaps(&range) {
            assert(ranges_overlap(self.ranges()[k - 1], BusRange { base, len }));
            return Err(BusError::Overlap { base, len });
        }
        if k < n && self.ranges[k].overlaps(&range) {
            assert(ranges_overlap(self.ranges()[k as int], BusRange { base, len }));
            return Err(BusError::Overlap { base, len });
        }
        proof {
            let s = self.ranges@;
            assert forall|i: int| 0 <= i < s.len() implies !ranges_overlap(#[trigger] s[i], range) by {
                if i < k - 1 {
                    assert(s[i].base + s[i].len <= s[k - 1].base);
                    assert(valid_range(s[i]));
                } else if i > k {
                    assert(s[k as int].base + s[k as int].len <= s[i].base);
                    assert(valid_range(s[k as int]));
                    assert(valid_range(s[i]));
                }
            }
        }
        let ghost old_ranges = self.ranges@;
        let ghost old_devices = self.devices@;
        self.ranges.insert(k, range);
        self.devices.insert(k, device);
        assert(self.ranges() == old_ranges.insert(k as int, BusRange { base, len }));
        assert(self.devices() == old_devices.insert(k as int, device));
        assert(self.ranges() == old(self).ranges().insert(k as int, BusRange { base, len })
            && self.devices() == old(self).devices().insert(k as int, device));
        proof {
            let s = self.ranges@;
            assert(s == old_ranges.insert(k as int, range));
            assert forall|i: int, j: int| 0 <= i < j < s.len() implies #[trigger] s[i].base + s[i].len
                <= #[trigger] s[j].base by {
                if j < k {
                    assert(old_ranges[i].base + old_ranges[i].len <= old_ranges[j].base);
                } else if i > k {
                    assert(old_ranges[i - 1].base + old_ranges[i - 1].len <= old_ranges[j - 1].base);
                } else if i == k {
                    assert(!ranges_overlap(old_ranges[j - 1], range));
                    assert(valid_range(old_ranges[j - 1]));
                    assert(old_ranges[j - 1].base >= base);
                } else if j == k {
                    assert(!ranges_overlap(old_ranges[i], range));
                    assert(valid_range(old_ranges[i]));
                    assert(old_ranges[i].base < base);
                } else {
                    assert(i < k && k < j);
                    assert(old_ranges[i].base + old_ranges[i].len <= old_ranges[j - 1].base);
                }
            }
            assert forall|i: int| 0 <= i < s.len() implies #[trigger] valid_range(s[i]) by {
                if i < k {
                    assert(valid_range(old_ranges[i]));
                } else if i > k {
                    assert(valid_range(old_ranges[i - 1]));
                }
            }
        }
        Ok(())
    }

    /// Binary search for the range holding `addr`.
    fn lookup(&self, addr: u64) -> (r: Option<usize>)
        requires
            self.wf(),
        ensures
            r matches Some(i) ==> i < self.ranges().len() && range_hits(self.ranges()[i as int], addr)
                && self.spec_lookup(addr) == Some(i as int),
            r is None ==> self.spec_lookup(addr) is None,
    {
        let mut lo: usize = 0;
        let mut hi: usize = self.ranges.len();
        while lo < hi
            invariant
                self.wf(),
                0 <= lo <= hi <= self.ranges@.len(),
                forall|i: int| 0 <= i < lo ==> spec_range_end(#[trigger] self.ranges@[i]) <= addr,
                forall|i: int| hi <= i < self.ranges@.len() ==> addr < (#[trigger] self.ranges@[i]).base,
            decreases hi - lo,
        {
            let mid = lo + (hi - lo) / 2;
            let r = self.ranges[mid];
            proof {
                assert(valid_range(self.ranges@[mid as int]));
            }
            if addr < r.base {
                proof {
                    assert forall|i: int| mid <= i < self.ranges@.len() implies addr < (
                    #[trigger] self.ranges@[i]).base by {
                        if i > mid {
                            assert(self.ranges@[mid as int].base + self.ranges@[mid as int].len
                                <= self.ranges@[i].base);
                        }
                    }
                }
                hi = mid;
            } else if addr - r.base < r.len {
                proof {
                    assert(range_hits(self.ranges@[mid as int], addr));
                    assert forall|j: int| 0 <= j < self.ranges().len() && range_hits(
                        #[trigger] self.ranges()[j],
                        addr,
                    ) implies j == mid by {
                        lemma_sorted_ranges_disjoint(self.ranges@, j, mid as int, addr);
                    }
                    assert(self.spec_lookup(addr) == Some(mid as int));
                }
                return Some(mid);
            } else {
                proof {
                    assert forall|i: int| 0 <= i < mid + 1 implies spec_range_end(
                        #[trigger] self.ranges@[i],
                    ) <= addr by {
                        if i < mid {
                            assert(self.ranges@[i].base + self.ranges@[i].len <= self.ranges@[mid as int].base);
                            assert(valid_range(self.ranges@[i]));
                        }
                    }
                }
                lo = mid + 1;
            }
        }
        proof {
            assert forall|j: int| 0 <= j < self.ranges().len() implies !range_hits(
                #[trigger] self.ranges()[j],
                addr,
            ) by {
                if j < lo {
                } else {
                }
            }
        }
        None
    }

    /// Dispatch a read. Returns `true` if a device claimed the access.
    /// On unclaimed reads, `data` is filled with 0xff (hardware pull-up
    /// convention) and `false` is returned.
    pub fn read(&mut self, addr: u64, data: &mut [u8]) -> (r: bool)
        requires
            old(self).wf(),
        ensures
            final(self).wf(),
            final(self).ranges() == old(self).ranges(),
            final(data)@.len() == old(data)@.len(),
            final(self).devices().len() == old(self).devices().len(),
            old(data)@.len() == 0 ==> r && final(data)@ == old(data)@ && final(self).devices()
                == old(self).devices(),
            old(data)@.len() > 0 ==> (r <==> old(self).spec_route(addr, old(data)@.len() as u64) is Some),
            old(data)@.len() > 0 && !r ==> final(self).devices() == old(self).devices() && forall|
                i: int,
            | 0 <= i < final(data)@.len() ==> final(data)@[i] == 0xffu8,
            old(data)@.len() > 0 && r ==> forall|j: int|
                0 <= j < old(self).devices().len() && j != old(self).spec_route(
                    addr,
                    old(data)@.len() as u64,
                )->Some_0.0 ==> final(self).devices()[j] == old(self).devices()[j],
            old(data)@.len() > 0 && r ==> ({
                let (i, off) = old(self).spec_route(addr, old(data)@.len() as u64)->Some_0;
                old(self).devices()[i].obeys_access_record() ==> final(self).devices()[i].accesses() == old(self).devices()[i].accesses().push(
                    BusAccess { write: false, offset: off, data: final(data)@ },
                )
            }),
    {
        if data.len() == 0 {
            return true;
        }
        let ghost len = data@.len() as u64;
        let idx = match self.lookup(addr) {
            Some(i) => i,
            None => {
                fill_ff(data);
                return false;
            },
        };
        let range = self.ranges[idx];
        if !range.contains_range(addr, data.len() as u64) {
            fill_ff(data);
            return false;
        }
        let offset = addr - range.base;
        self.devices[idx].read(offset, data);
        true
    }

    /// Dispatch a write. Returns `true` if a device claimed the access.
    /// Unclaimed writes are dropped silently.
    pub fn write(&mut self, addr: u64, data: &[u8]) -> (r: bool)
        requires
            old(self).wf(),
        ensures
            final(self).wf(),
            final(self).ranges() == old(self).ranges(),
            final(self).devices().len() == old(self).devices().len(),
            data@.len() == 0 ==> r && final(self).devices() == old(self).devices(),
            data@.len() > 0 ==> (r <==> old(self).spec_route(addr, data@.len() as u64) is Some),
            data@.len() > 0 && !r ==> final(self).devices() == old(self).devices(),
            data@.len() > 0 && r ==> forall|j: int|
                0 <= j < old(self).devices().len() && j != old(self).spec_route(
                    addr,
                    data@.len() as u64,
                )->Some_0.0 ==> final(self).devices()[j] == old(self).devices()[j],
            data@.len() > 0 && r ==> ({
                let (i, off) = old(self).spec_route(addr, data@.len() as u64)->Some_0;
                old(self).devices()[i].obeys_access_record() ==> final(self).devices()[i].accesses() == old(self).devices()[i].accesses().push(
                    BusAccess { write: true, offset: off, data: data@ },
                )
            }),
    {
        if data.len() == 0 {
            return true;
        }
        let idx = match self.lookup(addr) {
            Some(i) => i,
            None => {
                return false;
            },
        };
        let range = self.ranges[idx];
        if !range.contains_range(addr, data.len() as u64) {
            return false;
        }
        let offset = addr - range.base;
        self.devices[idx].write(offset, data);
        true
    }
}

/// Fill `data` with the all-ones pattern of an unclaimed read.
pub fn fill_ff(data: &mut [u8])
    ensures
        final(data)@.len() == old(data)@.len(),
        forall|i: int| 0 <= i < final(data)@.len() ==> final(data)@[i] == 0xffu8,
{
    let mut i: usize = 0;
    while i < data.len()
        invariant
            i <= data@.len(),
            data@.len() == old(data)@.len(),
            forall|j: int| 0 <= j < i ==> data@[j] == 0xffu8,
        decreases data@.len() - i,
    {
        data[i] = 0xff;
        i = i + 1;
    }
}

} // verus!
