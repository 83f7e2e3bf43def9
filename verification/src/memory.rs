//! Guest physical memory as the device models see it, and the bounds rules
//! every access to it follows.
use vstd::prelude::*;

verus! {

/// Guest-physical memory. Implemented over the host mapping that backs the
/// guest's RAM; reads and writes outside it fail.
pub trait GuestRam: Send + Sync {
    /// Copy `len` bytes starting at guest-physical address `gpa`.
    fn read_at(&self, gpa: u64, len: usize) -> Result<Vec<u8>, String>;

    /// Copy `data` to guest-physical address `gpa`.
    fn write_at(&self, gpa: u64, data: &[u8]) -> Result<(), String>;

    /// Size of guest memory in bytes.
    fn size(&self) -> u64;
}

/// One access made through a [`RamLog`]: a read of `len` bytes that
/// returned `data`, or a write of `data`, at `gpa`; `ok` tells whether
/// guest memory accepted it (a refused read returns no data).
pub struct RamEvent {
    pub write: bool,
    pub gpa: u64,
    pub len: nat,
    pub data: Seq<u8>,
    pub ok: bool,
}

/// The record of a read of `len` bytes at `gpa` that gave `r`.
pub open spec fn read_event(gpa: u64, len: nat, r: Result<Vec<u8>, String>) -> RamEvent {
    RamEvent {
        write: false,
        gpa,
        len,
        data: match r {
            Ok(v) => v@,
            Err(_) => Seq::empty(),
        },
        ok: r is Ok,
    }
}

/// A successful read of `len` bytes at `gpa` that returned `d` is among
/// the events.
pub open spec fn read_seen(ev: Seq<RamEvent>, gpa: u64, len: nat, d: Seq<u8>) -> bool {
    exists|e: int| 0 <= e < ev.len() && #[trigger] ev[e] == RamEvent { write: false, gpa, len, data: d, ok: true }
}

/// A write of `d` at `gpa` is among the events.
pub open spec fn write_seen(ev: Seq<RamEvent>, gpa: u64, d: Seq<u8>) -> bool {
    exists|e: int|
        0 <= e < ev.len() && (#[trigger] ev[e]).write && ev[e].gpa == gpa && ev[e].data == d
}

/// Events seen in a record stay seen once more events follow.
pub proof fn lemma_seen_grows(ev1: Seq<RamEvent>, ev2: Seq<RamEvent>)
    requires
        ev1.len() <= ev2.len(),
        ev2.subrange(0, ev1.len() as int) == ev1,
    ensures
        forall|g: u64, l: nat, d: Seq<u8>| #[trigger] read_seen(ev1, g, l, d) ==> read_seen(ev2, g, l, d),
        forall|g: u64, d: Seq<u8>| #[trigger] write_seen(ev1, g, d) ==> write_seen(ev2, g, d),
{
    assert forall|g: u64, l: nat, d: Seq<u8>| #[trigger] read_seen(ev1, g, l, d) implies read_seen(ev2, g, l, d) by {
        let e = choose|e: int| 0 <= e < ev1.len() && #[trigger] ev1[e] == RamEvent { write: false, gpa: g, len: l, data: d, ok: true };
        assert(ev2[e] == ev2.subrange(0, ev1.len() as int)[e]);
    }
    assert forall|g: u64, d: Seq<u8>| #[trigger] write_seen(ev1, g, d) implies write_seen(ev2, g, d) by {
        let e = choose|e: int| 0 <= e < ev1.len() && (#[trigger] ev1[e]).write && ev1[e].gpa == g && ev1[e].data == d;
        assert(ev2[e] == ev2.subrange(0, ev1.len() as int)[e]);
    }
}

/// Record `b` is record `a` followed by further events.
pub open spec fn extends<T>(a: Seq<T>, b: Seq<T>) -> bool {
    a.len() <= b.len() && b.subrange(0, a.len() as int) == a
}

/// A record extends itself, extending survives a further event, and it
/// chains.
pub proof fn lemma_extends<T>(a: Seq<T>, b: Seq<T>, c: Seq<T>, e: T)
    ensures
        extends(a, a),
        extends(a, b) ==> extends(a, b.push(e)),
        extends(a, b) && extends(b, c) ==> extends(a, c),
{
    assert(a.subrange(0, a.len() as int) =~= a);
    if extends(a, b) {
        assert(b.push(e).subrange(0, a.len() as int) =~= b.subrange(0, a.len() as int));
    }
    if extends(a, b) && extends(b, c) {
        assert(c.subrange(0, a.len() as int) =~= c.subrange(0, b.len() as int).subrange(0, a.len() as int));
    }
}

/// An extended record keeps every earlier event at its place.
pub proof fn lemma_extends_index<T>(a: Seq<T>, b: Seq<T>)
    requires
        extends(a, b),
    ensures
        forall|i: int| 0 <= i < a.len() ==> #[trigger] b[i] == a[i],
{
    assert forall|i: int| 0 <= i < a.len() implies #[trigger] b[i] == a[i] by {
        assert(b.subrange(0, a.len() as int)[i] == b[i]);
    }
}

/// Guest memory with a record of the accesses made through it, in order.
pub struct RamLog<'a> {
    mem: &'a dyn GuestRam,
    events: Ghost<Seq<RamEvent>>,
}

impl<'a> RamLog<'a> {
    /// The accesses made so far, oldest first.
    pub closed spec fn events(&self) -> Seq<RamEvent> {
        self.events@
    }

    /// A record of accesses to `mem`, empty.
    pub fn new(mem: &'a dyn GuestRam) -> (r: Self)
        ensures
            r.events() == Seq::<RamEvent>::empty(),
    {
        RamLog { mem, events: Ghost(Seq::empty()) }
    }

    /// Size of guest memory in bytes.
    pub fn size(&self) -> u64 {
        self.mem.size()
    }

    /// The memory itself, for accesses that are not to be recorded.
    pub fn mem(&self) -> &'a dyn GuestRam {
        self.mem
    }

    /// Read `len` bytes at `gpa`, recording the access and what it gave.
    pub fn read_at(&mut self, gpa: u64, len: usize) -> (r: Result<Vec<u8>, String>)
        ensures
            final(self).events() == old(self).events().push(read_event(gpa, len as nat, r)),
    {
        let r = self.mem.read_at(gpa, len);
        self.events = Ghost(old(self).events@.push(read_event(gpa, len as nat, r)));
        r
    }

    /// Write `data` at `gpa`, recording the access and whether it was
    /// accepted.
    pub fn write_at(&mut self, gpa: u64, data: &[u8]) -> (r: Result<(), String>)
        ensures
            final(self).events() == old(self).events().push(
                RamEvent { write: true, gpa, len: data@.len(), data: data@, ok: r is Ok },
            ),
    {
        let r = self.mem.write_at(gpa, data);
        self.events = Ghost(
            old(self).events@.push(RamEvent { write: true, gpa, len: data@.len(), data: data@, ok: r is Ok }),
        );
        r
    }
}

/// Page size the guest RAM is rounded up to.
pub const PAGE_SIZE: usize = 4096;

/// `size` rounded up to a whole number of pages.
pub open spec fn spec_page_aligned(size: nat) -> nat {
    (((size + 4095) as int / 4096) * 4096) as nat
}

/// Round a RAM size up to whole pages (`div_ceil(4096) * 4096`).
pub fn page_aligned_size(size: usize) -> (r: usize)
    requires
        spec_page_aligned(size as nat) <= usize::MAX,
    ensures
        r == spec_page_aligned(size as nat),
        r >= size,
        r % PAGE_SIZE == 0,
        r - size < PAGE_SIZE,
{
    let pages = size / PAGE_SIZE + if size % PAGE_SIZE == 0 {
        0
    } else {
        1
    };
    assert(pages == (size + 4095) / 4096);
    assert(pages * 4096 <= usize::MAX);
    let r = pages * PAGE_SIZE;
    assert(r % 4096 == 0) by (nonlinear_arith)
        requires
            r == pages * 4096,
    ;
    r
}

/// Why guest memory cannot be set up.
#[derive(Debug, Clone, Copy, PartialEq, Eq, Structural)]
pub enum AllocError {
    /// No memory was asked for.
    ZeroSize,
}

/// The size to map for `size` bytes of guest RAM: refused when zero, else
/// rounded up to whole pages.
pub fn allocation_size(size: usize) -> (r: Result<usize, AllocError>)
    requires
        spec_page_aligned(size as nat) <= usize::MAX,
    ensures
        size == 0 ==> r == Err::<usize, AllocError>(AllocError::ZeroSize),
        size > 0 ==> r == Ok::<usize, AllocError>(spec_page_aligned(size as nat) as usize),
{
    if size == 0 {
        return Err(AllocError::ZeroSize);
    }
    Ok(page_aligned_size(size))
}

/// Why a guest-physical access was refused.
#[derive(Debug, Clone, Copy, PartialEq, Eq)]
pub enum RangeError {
    /// The address does not fit in a host `usize`.
    Unrepresentable,
    /// `gpa + len` overflows the host address space.
    Overflow,
    /// The access runs past the end of guest memory.
    OutOfBounds,
}

/// The host offset of an access of `len` bytes at `gpa` into a memory of
/// `size` bytes, or why it is refused.
pub fn checked_range(gpa: u64, len: usize, size: usize) -> (r: Result<usize, RangeError>)
    ensures
        gpa > usize::MAX ==> r == Err::<usize, RangeError>(RangeError::Unrepresentable),
        gpa <= usize::MAX && gpa + len > usize::MAX ==> r == Err::<usize, RangeError>(
            RangeError::Overflow,
        ),
        gpa <= usize::MAX && gpa + len <= usize::MAX && gpa + len > size ==> r == Err::<
            usize,
            RangeError,
        >(RangeError::OutOfBounds),
        r is Ok <==> gpa + len <= size,
        r matches Ok(start) ==> start == gpa,
{
    if gpa > usize::MAX as u64 {
        return Err(RangeError::Unrepresentable);
    }
    let start = gpa as usize;
    let end = match start.checked_add(len) {
        Some(e) => e,
        None => return Err(RangeError::Overflow),
    };
    if end > size {
        return Err(RangeError::OutOfBounds);
    }
    Ok(start)
}

} // verus!
