//! Linux ioctl request numbers: direction, type, number and argument size
//! packed into one word.
use vstd::prelude::*;

verus! {

pub const IOC_NRBITS: u32 = 8;
pub const IOC_TYPEBITS: u32 = 8;
pub const IOC_SIZEBITS: u32 = 14;
pub const IOC_DIRBITS: u32 = 2;

pub const IOC_NRSHIFT: u32 = 0;
pub const IOC_TYPESHIFT: u32 = 8;
pub const IOC_SIZESHIFT: u32 = 16;
pub const IOC_DIRSHIFT: u32 = 30;

/// Linux ioctl direction bits.
pub const IOC_NONE: u32 = 0;
pub const IOC_WRITE: u32 = 1;
pub const IOC_READ: u32 = 2;

/// The request number for direction `dir`, type `type_code`, number `nr`
/// and an argument of `size` bytes.
pub open spec fn spec_ioc(dir: u32, type_code: u32, nr: u32, size: u32) -> u64 {
    ((dir << 30u32) | (type_code << 8u32) | (nr << 0u32) | (size << 16u32)) as u64
}

pub fn ioc(dir: u32, type_code: u32, nr: u32, size: u32) -> (r: u64)
    ensures
        r == spec_ioc(dir, type_code, nr, size),
{
    ((dir << IOC_DIRSHIFT) | (type_code << IOC_TYPESHIFT) | (nr << IOC_NRSHIFT) | (size
        << IOC_SIZESHIFT)) as u64
}

/// A request without an argument.
pub fn io(type_code: u32, nr: u32) -> (r: u64)
    ensures
        r == spec_ioc(IOC_NONE, type_code, nr, 0),
{
    ioc(IOC_NONE, type_code, nr, 0)
}

/// A request that reads a `T` from the kernel.
pub fn ior<T>(type_code: u32, nr: u32) -> (r: u64)
    ensures
        r == spec_ioc(IOC_READ, type_code, nr, vstd::layout::size_of::<T>() as u32),
{
    ioc(IOC_READ, type_code, nr, core::mem::size_of::<T>() as u32)
}

/// A request that writes a `T` to the kernel.
pub fn iow<T>(type_code: u32, nr: u32) -> (r: u64)
    ensures
        r == spec_ioc(IOC_WRITE, type_code, nr, vstd::layout::size_of::<T>() as u32),
{
    ioc(IOC_WRITE, type_code, nr, core::mem::size_of::<T>() as u32)
}

/// A request that both writes and reads a `T`.
pub fn iowr<T>(type_code: u32, nr: u32) -> (r: u64)
    ensures
        r == spec_ioc(IOC_READ | IOC_WRITE, type_code, nr, vstd::layout::size_of::<T>() as u32),
{
    ioc(IOC_READ | IOC_WRITE, type_code, nr, core::mem::size_of::<T>() as u32)
}

/// The four fields of a request number are recovered from it, each within
/// its width: number (8 bits), type (8 bits), size (14 bits), direction
/// (2 bits).
pub proof fn lemma_ioc_fields(dir: u32, type_code: u32, nr: u32, size: u32)
    requires
        dir < 4,
        type_code < 0x100,
        nr < 0x100,
        size < 0x4000,
    ensures
        spec_ioc(dir, type_code, nr, size) & 0xff == nr,
        (spec_ioc(dir, type_code, nr, size) >> 8u64) & 0xff == type_code,
        (spec_ioc(dir, type_code, nr, size) >> 16u64) & 0x3fff == size,
        (spec_ioc(dir, type_code, nr, size) >> 30u64) & 0x3 == dir,
        spec_ioc(dir, type_code, nr, size) < 0x1_0000_0000,
{
    let v = (dir << 30u32) | (type_code << 8u32) | (nr << 0u32) | (size << 16u32);
    assert(v & 0xff == nr && (v >> 8u32) & 0xff == type_code && (v >> 16u32) & 0x3fff == size && (v
        >> 30u32) & 0x3 == dir) by (bit_vector)
        requires
            v == (dir << 30u32) | (type_code << 8u32) | (nr << 0u32) | (size << 16u32),
            dir < 4,
            type_code < 0x100,
            nr < 0x100,
            size < 0x4000,
    ;
    let w = v as u64;
    assert(w & 0xff == (v & 0xff) as u64 && (w >> 8u64) & 0xff == ((v >> 8u32) & 0xff) as u64 && (w
        >> 16u64) & 0x3fff == ((v >> 16u32) & 0x3fff) as u64 && (w >> 30u64) & 0x3 == ((v >> 30u32)
        & 0x3) as u64) by (bit_vector)
        requires
            w == v as u64,
    ;
}

} // verus!
