//! Linux boot: kernel image detection and loading (bzImage or ELF64), the
//! zero page (boot parameters), the command line, and the initial CPU
//! state for 32-bit protected mode (bzImage) or 64-bit long mode (ELF).
use vstd::prelude::*;

use crate::bytes::{
    le_value, lemma_field_after_put, lemma_field_after_update, lemma_field_put, put_le, write_le,
};
use crate::elf::{Elf64Header, Elf64Phdr, ELF64_HEADER_SIZE, ELF64_PHDR_SIZE, header_fields_match, phdr_fields_match};
use crate::memory::{GuestRam, RamLog, RamEvent, extends, lemma_extends, lemma_extends_index, lemma_seen_grows, write_seen};
use crate::traits::{Segment, Vcpu, VcpuEvent, VcpuLog, VcpuRegs, VcpuSregs};

verus! {

/// Address of the kernel command line.
pub const CMDLINE_ADDR: u64 = 0x0002_0000;

/// Longest command line, terminating NUL included.
pub const CMDLINE_MAX: usize = 2048;

/// EFER: long mode enable.
pub const EFER_LME: u64 = 0x100;

/// EFER: long mode active.
pub const EFER_LMA: u64 = 0x400;

/// EFER: no-execute enable.
pub const EFER_NXE: u64 = 0x800;

pub const BOOT_STACK_POINTER: u64 = 0x8ff0;
pub const ZERO_PAGE_START: u64 = 0x7000;
pub const EBDA_START: u64 = 0x9fc00;

/// Where the kernel is loaded (1 MiB).
pub const HIMEM_START: u64 = 0x0010_0000;

pub const NORMAL_VGA_MODE: u16 = 0xffff;
pub const LINUX_BOOT_HDR_LOAD_HIGH: u8 = 0x01;
pub const LINUX_BOOT_HDR_KEEP_SEGMENTS: u8 = 0x40;
pub const LINUX_BOOT_HDR_CAN_USE_HEAP: u8 = 0x80;
pub const LINUX_HEAP_END_PTR: u16 = 0xfe00;

/// Offset of the setup header in a bzImage and in the zero page.
pub const SETUP_HEADER_OFFSET: usize = 0x1f1;

/// Size of the setup header (up to and including `kernel_info_offset`).
pub const SETUP_HEADER_SIZE: usize = 0x7b;

/// Where the initial ramdisk is loaded (128 MiB).
pub const INITRAMFS_ADDR: u64 = 0x800_0000;

pub const BOOT_GDT_OFFSET: u64 = 0x500;
pub const X86_CR0_PE: u64 = 0x1;
pub const X86_CR4_PAE: u64 = 0x20;
pub const X86_CR0_PG: u64 = 0x8000_0000;

/// Identity-mapping page tables for long mode.
pub const BOOT_PML4_ADDR: u64 = 0xa000;
pub const BOOT_PDPTE_ADDR: u64 = 0xb000;
pub const BOOT_PDE_ADDR: u64 = 0xc000;

/// Size of the zero page.
pub const BOOT_PARAMS_SIZE: usize = 4096;

/// Boot protocol values.
pub const KERNEL_TYPE_OF_LOADER: u8 = 0xff;
pub const KERNEL_BOOT_FLAG_MAGIC_NUMBER: u16 = 0xaa55;
pub const KERNEL_HDR_MAGIC_NUMBER: u32 = 0x5372_6448;
pub const KERNEL_MIN_ALIGNMENT_BYTES: u32 = 0x0100_0000;

/// E820 memory types.
pub const E820_RAM: u32 = 1;
pub const E820_RESERVED: u32 = 2;

/// The steps of boot setup whose failure is reported.
#[derive(Debug, Clone, Copy, PartialEq, Eq, Structural)]
pub enum BootStage {
    KernelPayload,
    ElfSegment,
    ElfBss,
    Initrd,
    BootParams,
    Cmdline,
    GdtEntry,
    Pml4,
    Pdpte,
    PdEntry,
    GetSregs,
    SetSregs,
    GetRegs,
    SetRegs,
}

/// Why boot setup failed.
#[derive(Debug, Clone, PartialEq, Eq)]
pub enum BootError {
    /// Neither an ELF64 file nor a bzImage.
    UnsupportedFormat,
    /// The bzImage payload would start at or past the end of the file.
    PayloadOffset { offset: usize, size: usize },
    /// The ELF file ends inside a header or segment.
    ElfTruncated,
    /// The ELF magic number is wrong.
    BadElfMagic,
    /// The ELF file is not 64-bit.
    NotElf64,
    /// An ELF segment does not fit in guest memory.
    SegmentTooLarge,
    /// The command line, NUL included, is longer than `CMDLINE_MAX`.
    CmdlineTooLong { len: usize },
    /// The bzImage is too short to hold a setup header.
    SetupHeaderTruncated,
    /// The initial ramdisk does not fit the 32-bit boot protocol fields.
    InitrdTooLarge,
    /// Guest memory ends below 1 MiB, where the memory map needs RAM.
    MemoryTooSmall,
    /// A guest memory access failed.
    Memory { stage: BootStage, msg: String },
    /// The vCPU refused a register access.
    Vcpu { stage: BootStage, msg: String },
}

// ---- image format ----------------------------------------------------------

/// An ELF64 file: magic `\x7fELF` and class 2.
pub open spec fn spec_is_elf64(d: Seq<u8>) -> bool {
    d.len() >= 5 && d[0] == 0x7f && d[1] == 0x45 && d[2] == 0x4c && d[3] == 0x46 && d[4] == 2
}

pub fn is_elf64(data: &[u8]) -> (r: bool)
    ensures
        r == spec_is_elf64(data@),
{
    data.len() >= 5 && data[0] == 0x7f && data[1] == 0x45 && data[2] == 0x4c && data[3] == 0x46
        && data[4] == 2
}

/// A bzImage: boot flag 0xaa55, setup header magic "HdrS" and boot
/// protocol 2.00 or later.
pub open spec fn spec_is_bzimage(d: Seq<u8>) -> bool {
    &&& d[0x1fe] == 0x55
    &&& d[0x1ff] == 0xaa
    &&& d[0x202] == 0x48
    &&& d[0x203] == 0x64
    &&& d[0x204] == 0x72
    &&& d[0x205] == 0x53
    &&& le_value(d, 0x206, 2) >= 0x0200
}

pub fn is_bzimage(data: &[u8]) -> (r: bool)
    requires
        data@.len() >= 0x208,
    ensures
        r == spec_is_bzimage(data@),
{
    reveal_with_fuel(le_value, 3);
    data[0x1fe] == 0x55 && data[0x1ff] == 0xaa && data[0x202] == 0x48 && data[0x203] == 0x64
        && data[0x204] == 0x72 && data[0x205] == 0x53 && (data[0x206] as u16 + 256 * data[0x207] as u16)
        >= 0x0200
}

/// The two kernel image formats the loader accepts.
#[derive(Debug, Clone, Copy, PartialEq, Eq, Structural)]
pub enum KernelImageFormat {
    BzImage,
    Elf64,
}

/// The format of a kernel image: ELF64 is recognised first, then bzImage.
/// An image that is not ELF64 must be long enough to hold a setup header
/// magic.
pub fn detect_kernel_image_format(data: &[u8]) -> (r: Result<KernelImageFormat, BootError>)
    requires
        spec_is_elf64(data@) || data@.len() >= 0x208,
    ensures
        spec_is_elf64(data@) ==> r == Ok::<KernelImageFormat, BootError>(KernelImageFormat::Elf64),
        !spec_is_elf64(data@) && spec_is_bzimage(data@) ==> r == Ok::<KernelImageFormat, BootError>(
            KernelImageFormat::BzImage,
        ),
        !spec_is_elf64(data@) && !spec_is_bzimage(data@) ==> r == Err::<KernelImageFormat, BootError>(
            BootError::UnsupportedFormat,
        ),
{
    if is_elf64(data) {
        return Ok(KernelImageFormat::Elf64);
    }
    if is_bzimage(data) {
        return Ok(KernelImageFormat::BzImage);
    }
    Err(BootError::UnsupportedFormat)
}

/// Setup sectors of a bzImage: the byte at 0x1f1, 0 meaning 4.
pub open spec fn spec_setup_sects(d: Seq<u8>) -> u8 {
    if d[0x1f1] == 0 {
        4
    } else {
        d[0x1f1]
    }
}

pub fn get_setup_sects(kernel_data: &[u8]) -> (r: u8)
    requires
        kernel_data@.len() > 0x1f1,
    ensures
        r == spec_setup_sects(kernel_data@),
{
    let setup_sects = kernel_data[0x1f1];
    if setup_sects == 0 {
        4
    } else {
        setup_sects
    }
}

/// Where the protected-mode payload of a bzImage starts: after the boot
/// sector and the setup sectors.
pub open spec fn spec_payload_offset(d: Seq<u8>) -> int {
    (spec_setup_sects(d) + 1) * 512
}

/// The payload offset of a bzImage, refused when it is not inside the file.
pub fn bzimage_payload_offset(kernel_data: &[u8]) -> (r: Result<usize, BootError>)
    requires
        kernel_data@.len() > 0x1f1,
    ensures
        spec_payload_offset(kernel_data@) < kernel_data@.len() ==> r == Ok::<usize, BootError>(
            spec_payload_offset(kernel_data@) as usize,
        ),
        spec_payload_offset(kernel_data@) >= kernel_data@.len() ==> r == Err::<usize, BootError>(
            BootError::PayloadOffset {
                offset: spec_payload_offset(kernel_data@) as usize,
                size: kernel_data@.len() as usize,
            },
        ),
{
    let setup_sects = get_setup_sects(kernel_data);
    let payload_offset = (setup_sects as usize + 1) * 512;
    if payload_offset >= kernel_data.len() {
        return Err(BootError::PayloadOffset { offset: payload_offset, size: kernel_data.len() });
    }
    Ok(payload_offset)
}

// ---- command line ----------------------------------------------------------

/// The command line as placed in guest memory: its bytes and a NUL,
/// refused when longer than `CMDLINE_MAX`.
pub fn cmdline_bytes(cmdline: &[u8]) -> (r: Result<Vec<u8>, BootError>)
    requires
        cmdline@.len() < usize::MAX,
    ensures
        cmdline@.len() + 1 <= CMDLINE_MAX ==> (r matches Ok(v) && v@ == cmdline@.push(0)),
        cmdline@.len() + 1 > CMDLINE_MAX ==> r == Err::<Vec<u8>, BootError>(
            BootError::CmdlineTooLong { len: (cmdline@.len() + 1) as usize },
        ),
{
    if cmdline.len() >= CMDLINE_MAX {
        return Err(BootError::CmdlineTooLong { len: cmdline.len() + 1 });
    }
    let mut v: Vec<u8> = Vec::new();
    let mut i: usize = 0;
    while i < cmdline.len()
        invariant
            i <= cmdline@.len(),
            v@ == cmdline@.subrange(0, i as int),
        decreases cmdline@.len() - i,
    {
        v.push(cmdline[i]);
        i = i + 1;
        assert(v@ =~= cmdline@.subrange(0, i as int));
    }
    v.push(0);
    assert(v@ =~= cmdline@.push(0));
    Ok(v)
}

/// Place the NUL-terminated command line at `CMDLINE_ADDR`.
pub fn setup_cmdline(mem: &dyn GuestRam, cmdline: &[u8]) -> (r: Result<(), BootError>)
    requires
        cmdline@.len() < usize::MAX,
    ensures
        cmdline@.len() + 1 > CMDLINE_MAX <==> r == Err::<(), BootError>(
            BootError::CmdlineTooLong { len: (cmdline@.len() + 1) as usize },
        ),
        r is Ok ==> cmdline@.len() + 1 <= CMDLINE_MAX,
        r is Err && cmdline@.len() + 1 <= CMDLINE_MAX ==> (r->Err_0 matches BootError::Memory { stage, .. }
            && stage == BootStage::Cmdline),
{
    let mut ram = RamLog::new(mem);
    setup_cmdline_logged(&mut ram, cmdline)
}

/// [`setup_cmdline`] over a record of its guest-memory accesses: on
/// success the command line and its NUL were written at `CMDLINE_ADDR`.
pub fn setup_cmdline_logged(ram: &mut RamLog, cmdline: &[u8]) -> (r: Result<(), BootError>)
    requires
        cmdline@.len() < usize::MAX,
    ensures
        cmdline@.len() + 1 > CMDLINE_MAX <==> r == Err::<(), BootError>(
            BootError::CmdlineTooLong { len: (cmdline@.len() + 1) as usize },
        ),
        r is Ok ==> cmdline@.len() + 1 <= CMDLINE_MAX,
        r is Err && cmdline@.len() + 1 <= CMDLINE_MAX ==> (r->Err_0 matches BootError::Memory { stage, .. }
            && stage == BootStage::Cmdline),
        r is Ok ==> write_seen(final(ram).events(), CMDLINE_ADDR, cmdline@.push(0)),
        extends(old(ram).events(), final(ram).events()),
{
    let ghost ev0 = ram.events();
    proof { lemma_extends(ev0, ev0, ev0, RamEvent { write: false, gpa: 0, len: 0, data: Seq::empty(), ok: false }); }
    let bytes = cmdline_bytes(cmdline)?;
    let stored = ram.write_at(CMDLINE_ADDR, bytes.as_slice());
    proof {
        lemma_extends(ev0, ev0, ev0, ram.events().last());
        assert(ram.events() =~= ev0.push(ram.events().last()));
        assert(ram.events()[ev0.len() as int].write && ram.events()[ev0.len() as int].gpa == CMDLINE_ADDR
            && ram.events()[ev0.len() as int].data == cmdline@.push(0));
    }
    match stored {
        Ok(()) => Ok(()),
        Err(msg) => Err(BootError::Memory { stage: BootStage::Cmdline, msg }),
    }
}

// ---- segments and descriptor tables ---------------------------------------

/// A flat 64-bit segment: base 0, limit 0xfffff in 4 KiB units, present,
/// ring 0, code/data, long mode.
pub open spec fn spec_generate_segment(selector_index: u16, type_: u8) -> Segment {
    Segment {
        base: 0,
        limit: 0x000f_ffff,
        selector: selector_index << 3u16,
        type_,
        present: 1,
        dpl: 0,
        db: 0,
        s: 1,
        l: 1,
        g: 1,
        avl: 0,
        unusable: 0,
        padding: 0,
    }
}

pub fn generate_segment(selector_index: u16, type_: u8) -> (r: Segment)
    ensures
        r == spec_generate_segment(selector_index, type_),
{
    Segment {
        base: 0,
        limit: 0x000f_ffff,
        selector: selector_index << 3u16,
        type_,
        present: 1,
        dpl: 0,
        db: 0,
        s: 1,
        l: 1,
        g: 1,
        avl: 0,
        unusable: 0,
        padding: 0,
    }
}

/// The flags nibble of a descriptor: G, D/B, L, AVL.
pub open spec fn gdt_flags(seg: Segment) -> u64 {
    ((seg.g as u64 & 0x1) << 3u64) | ((seg.db as u64 & 0x1) << 2u64) | ((seg.l as u64 & 0x1) << 1u64)
        | (seg.avl as u64 & 0x1)
}

/// The access byte of a descriptor: P, DPL, S, type.
pub open spec fn gdt_access(seg: Segment) -> u64 {
    ((seg.present as u64 & 0x1) << 7u64) | ((seg.dpl as u64 & 0x3) << 5u64) | ((seg.s as u64 & 0x1)
        << 4u64) | (seg.type_ as u64 & 0xf)
}

/// The 8-byte GDT descriptor of a segment.
pub open spec fn spec_gdt_entry(seg: Segment) -> u64 {
    let base = seg.base;
    let limit = seg.limit as u64;
    ((base & 0xff00_0000) << 32u64) | ((base & 0x00ff_ffff) << 16u64) | (limit & 0x0000_ffff) | ((
    limit & 0x000f_0000) << 32u64) | (gdt_flags(seg) << 52u64) | (gdt_access(seg) << 40u64)
}

pub fn segment_gdt_entry(seg: &Segment) -> (r: u64)
    ensures
        r == spec_gdt_entry(*seg),
{
    let base = seg.base;
    let limit = seg.limit as u64;
    let flags = ((seg.g as u64 & 0x1) << 3u64) | ((seg.db as u64 & 0x1) << 2u64) | ((seg.l as u64
        & 0x1) << 1u64) | (seg.avl as u64 & 0x1);
    let access = ((seg.present as u64 & 0x1) << 7u64) | ((seg.dpl as u64 & 0x3) << 5u64) | ((
    seg.s as u64 & 0x1) << 4u64) | (seg.type_ as u64 & 0xf);
    ((base & 0xff00_0000) << 32u64) | ((base & 0x00ff_ffff) << 16u64) | (limit & 0x0000_ffff) | ((
    limit & 0x000f_0000) << 32u64) | (flags << 52u64) | (access << 40u64)
}

/// A descriptor holds the segment's base (low 32 bits), limit (low 20
/// bits), flags and access byte in their architectural fields.
pub proof fn lemma_gdt_entry_fields(seg: Segment)
    ensures
        ({
            let e = spec_gdt_entry(seg);
            &&& (e & 0xffff) | (((e >> 48u64) & 0xf) << 16u64) == (seg.limit as u64) & 0xf_ffff
            &&& ((e >> 16u64) & 0xff_ffff) | (((e >> 56u64) & 0xff) << 24u64) == seg.base & 0xffff_ffff
            &&& (e >> 40u64) & 0xff == gdt_access(seg)
            &&& (e >> 52u64) & 0xf == gdt_flags(seg)
        }),
{
    let base = seg.base;
    let limit = seg.limit as u64;
    let f = gdt_flags(seg);
    let a = gdt_access(seg);
    let (g, db, l, avl) = (seg.g, seg.db, seg.l, seg.avl);
    let (p, dpl, sb, t) = (seg.present, seg.dpl, seg.s, seg.type_);
    assert(f < 16) by (bit_vector)
        requires
            f == ((g as u64 & 0x1) << 3u64) | ((db as u64 & 0x1) << 2u64) | ((l as u64 & 0x1) << 1u64)
                | (avl as u64 & 0x1),
    ;
    assert(a < 256) by (bit_vector)
        requires
            a == ((p as u64 & 0x1) << 7u64) | ((dpl as u64 & 0x3) << 5u64) | ((sb as u64 & 0x1) << 4u64)
                | (t as u64 & 0xf),
    ;
    assert(limit < 0x1_0000_0000);
    assert({
        let e = ((base & 0xff00_0000) << 32u64) | ((base & 0x00ff_ffff) << 16u64) | (limit & 0x0000_ffff)
            | ((limit & 0x000f_0000) << 32u64) | (f << 52u64) | (a << 40u64);
        &&& (e & 0xffff) | (((e >> 48u64) & 0xf) << 16u64) == limit & 0xf_ffff
        &&& ((e >> 16u64) & 0xff_ffff) | (((e >> 56u64) & 0xff) << 24u64) == base & 0xffff_ffff
        &&& (e >> 40u64) & 0xff == a
        &&& (e >> 52u64) & 0xf == f
    }) by (bit_vector)
        requires
            f < 16,
            a < 256,
            limit < 0x1_0000_0000,
    ;
}

/// Turn `seg` into a flat 32-bit segment of the given type: base 0, limit
/// 4 GiB - 1, page granular, 32-bit, not long mode.
pub fn make_flat32_segment(seg: &mut Segment, type_: u8)
    ensures
        *final(seg) == (Segment {
            base: 0,
            limit: 0xffff_ffff,
            g: 1,
            db: 1,
            l: 0,
            type_,
            ..*old(seg)
        }),
{
    seg.base = 0;
    seg.limit = 0xffff_ffff;
    seg.g = 1;
    seg.db = 1;
    seg.l = 0;
    seg.type_ = type_;
}

/// Code segment type: execute/read, accessed.
pub const CODE_SEGMENT_TYPE: u8 = 0b1011;

/// Data segment type: read/write, accessed.
pub const DATA_SEGMENT_TYPE: u8 = 0b0011;

/// Special registers for a bzImage entered in 32-bit protected mode: flat
/// segments, protection on, paging, PAE and long mode off.
pub open spec fn spec_protected_mode_sregs(s: VcpuSregs) -> VcpuSregs {
    let flat = |seg: Segment, t: u8| Segment { base: 0, limit: 0xffff_ffff, g: 1, db: 1, l: 0, type_: t, ..seg };
    VcpuSregs {
        cs: flat(s.cs, CODE_SEGMENT_TYPE),
        ds: flat(s.ds, DATA_SEGMENT_TYPE),
        es: flat(s.es, DATA_SEGMENT_TYPE),
        fs: flat(s.fs, DATA_SEGMENT_TYPE),
        gs: flat(s.gs, DATA_SEGMENT_TYPE),
        ss: flat(s.ss, DATA_SEGMENT_TYPE),
        cr0: (s.cr0 | X86_CR0_PE) & !X86_CR0_PG,
        cr4: s.cr4 & !X86_CR4_PAE,
        efer: s.efer & !(EFER_LME | EFER_LMA | EFER_NXE),
        ..s
    }
}

pub fn protected_mode_sregs(sregs: VcpuSregs) -> (r: VcpuSregs)
    ensures
        r == spec_protected_mode_sregs(sregs),
{
    let mut s = sregs;
    make_flat32_segment(&mut s.cs, CODE_SEGMENT_TYPE);
    make_flat32_segment(&mut s.ds, DATA_SEGMENT_TYPE);
    make_flat32_segment(&mut s.es, DATA_SEGMENT_TYPE);
    make_flat32_segment(&mut s.fs, DATA_SEGMENT_TYPE);
    make_flat32_segment(&mut s.gs, DATA_SEGMENT_TYPE);
    make_flat32_segment(&mut s.ss, DATA_SEGMENT_TYPE);
    s.cr0 = s.cr0 | X86_CR0_PE;
    s.cr0 = s.cr0 & !X86_CR0_PG;
    s.cr4 = s.cr4 & !X86_CR4_PAE;
    s.efer = s.efer & !(EFER_LME | EFER_LMA | EFER_NXE);
    s
}

/// Read, convert and write back the special registers for protected mode.
pub fn setup_protected_mode(vcpu: &dyn Vcpu) -> (r: Result<(), BootError>)
    ensures
        r is Err ==> (r->Err_0 matches BootError::Vcpu { stage, .. } && (stage == BootStage::GetSregs
            || stage == BootStage::SetSregs)),
{
    let mut log = VcpuLog::new(vcpu);
    setup_protected_mode_logged(&mut log)
}

/// Calls `i` and `i + 1` of a vCPU record read the special registers and
/// handed back `f` of them, accepted.
pub open spec fn sregs_converted(ev: Seq<VcpuEvent>, i: int, long: bool) -> bool {
    &&& 0 <= i && i + 2 <= ev.len()
    &&& ev[i] is GetSregs && ev[i]->GetSregs_0 is Some
    &&& ev[i + 1] == VcpuEvent::SetSregs(
        if long {
            spec_long_mode_sregs(ev[i]->GetSregs_0->Some_0)
        } else {
            spec_protected_mode_sregs(ev[i]->GetSregs_0->Some_0)
        },
        true,
    )
}

/// [`setup_protected_mode`] over a record of its vCPU calls: on success the
/// special registers read were handed back converted for protected mode.
pub fn setup_protected_mode_logged(vcpu: &mut VcpuLog) -> (r: Result<(), BootError>)
    ensures
        r is Err ==> (r->Err_0 matches BootError::Vcpu { stage, .. } && (stage == BootStage::GetSregs
            || stage == BootStage::SetSregs)),
        r is Ok ==> final(vcpu).events().len() == old(vcpu).events().len() + 2 && sregs_converted(
            final(vcpu).events(),
            old(vcpu).events().len() as int,
            false,
        ),
        extends(old(vcpu).events(), final(vcpu).events()),
{
    let ghost ev0 = vcpu.events();
    proof { lemma_extends(ev0, ev0, ev0, VcpuEvent::GetRegs(None)); }
    let got = vcpu.get_sregs();
    let ghost ev1 = vcpu.events();
    proof {
        lemma_extends(ev0, ev0, ev0, ev1.last());
        assert(ev1 =~= ev0.push(ev1.last()));
    }
    let sregs = match got {
        Ok(s) => s,
        Err(msg) => return Err(BootError::Vcpu { stage: BootStage::GetSregs, msg }),
    };
    let sregs = protected_mode_sregs(sregs);
    let set = vcpu.set_sregs(&sregs);
    proof {
        lemma_extends(ev1, ev1, ev1, vcpu.events().last());
        assert(vcpu.events() =~= ev1.push(vcpu.events().last()));
        lemma_extends(ev0, ev1, vcpu.events(), vcpu.events().last());
    }
    match set {
        Ok(()) => Ok(()),
        Err(msg) => Err(BootError::Vcpu { stage: BootStage::SetSregs, msg }),
    }
}

/// The long-mode code segment (GDT index 1).
pub open spec fn spec_code_seg() -> Segment {
    spec_generate_segment(1, CODE_SEGMENT_TYPE)
}

/// The long-mode data segment (GDT index 2).
pub open spec fn spec_data_seg() -> Segment {
    spec_generate_segment(2, DATA_SEGMENT_TYPE)
}

/// The boot GDT: null, code and data descriptors.
pub open spec fn spec_boot_gdt() -> Seq<u64> {
    seq![0, spec_gdt_entry(spec_code_seg()), spec_gdt_entry(spec_data_seg())]
}

pub fn boot_gdt() -> (r: Vec<u64>)
    ensures
        r@ == spec_boot_gdt(),
{
    let code = generate_segment(1, CODE_SEGMENT_TYPE);
    let data = generate_segment(2, DATA_SEGMENT_TYPE);
    let r = vec![0u64, segment_gdt_entry(&code), segment_gdt_entry(&data)];
    assert(r@ =~= spec_boot_gdt());
    r
}

/// The descriptor of a flat long-mode segment of type `t`.
proof fn lemma_flat_entry(seg: Segment, t: u8)
    requires
        seg.base == 0,
        seg.limit == 0xf_ffff,
        seg.g == 1,
        seg.db == 0,
        seg.l == 1,
        seg.avl == 0,
        seg.present == 1,
        seg.dpl == 0,
        seg.s == 1,
        seg.type_ == t,
        t < 16,
    ensures
        spec_gdt_entry(seg) == 0x00af_9000_0000_ffffu64 | ((t as u64) << 40u64),
{
    let (g, db, l, avl) = (seg.g, seg.db, seg.l, seg.avl);
    let (p, dpl, sb, ty) = (seg.present, seg.dpl, seg.s, seg.type_);
    let f = gdt_flags(seg);
    let a = gdt_access(seg);
    assert(f == 0xa) by (bit_vector)
        requires
            f == ((g as u64 & 0x1) << 3u64) | ((db as u64 & 0x1) << 2u64) | ((l as u64 & 0x1) << 1u64)
                | (avl as u64 & 0x1),
            g == 1,
            db == 0,
            l == 1,
            avl == 0,
    ;
    assert(a == 0x90 | (ty as u64)) by (bit_vector)
        requires
            a == ((p as u64 & 0x1) << 7u64) | ((dpl as u64 & 0x3) << 5u64) | ((sb as u64 & 0x1) << 4u64)
                | (ty as u64 & 0xf),
            p == 1,
            dpl == 0,
            sb == 1,
            ty < 16,
    ;
    let base = seg.base;
    let limit = seg.limit as u64;
    assert(((base & 0xff00_0000) << 32u64) | ((base & 0x00ff_ffff) << 16u64) | (limit & 0x0000_ffff)
        | ((limit & 0x000f_0000) << 32u64) | (f << 52u64) | (a << 40u64) == 0x00af_9000_0000_ffffu64 | ((
    ty as u64) << 40u64)) by (bit_vector)
        requires
            base == 0,
            limit == 0xf_ffff,
            f == 0xa,
            a == 0x90 | (ty as u64),
            ty < 16,
    ;
}

/// The boot GDT descriptors are the canonical flat 64-bit code and data
/// descriptors.
pub proof fn lemma_boot_gdt_values()
    ensures
        spec_boot_gdt() == seq![0u64, 0x00af_9b00_0000_ffffu64, 0x00af_9300_0000_ffffu64],
{
    let c = spec_code_seg();
    let d = spec_data_seg();
    lemma_flat_entry(c, 0xb);
    lemma_flat_entry(d, 0x3);
    assert(0x00af_9000_0000_ffffu64 | (0xbu64 << 40u64) == 0x00af_9b00_0000_ffffu64) by (bit_vector);
    assert(0x00af_9000_0000_ffffu64 | (0x3u64 << 40u64) == 0x00af_9300_0000_ffffu64) by (bit_vector);
    assert(spec_boot_gdt() =~= seq![0u64, 0x00af_9b00_0000_ffffu64, 0x00af_9300_0000_ffffu64]);
}

/// Special registers for an ELF kernel entered in 64-bit long mode: flat
/// long-mode segments, the boot GDT, protection and paging on with the
/// identity page tables, PAE, long mode enabled and active.
pub open spec fn spec_long_mode_sregs(s: VcpuSregs) -> VcpuSregs {
    VcpuSregs {
        cs: spec_code_seg(),
        ds: spec_data_seg(),
        es: spec_data_seg(),
        fs: spec_data_seg(),
        gs: spec_data_seg(),
        ss: spec_data_seg(),
        gdt: crate::traits::Dtable { base: BOOT_GDT_OFFSET, limit: 23, ..s.gdt },
        cr0: (s.cr0 | X86_CR0_PE) | X86_CR0_PG,
        cr3: BOOT_PML4_ADDR,
        cr4: s.cr4 | X86_CR4_PAE,
        efer: s.efer | (EFER_LMA | EFER_LME),
        ..s
    }
}

pub fn long_mode_sregs(sregs: VcpuSregs) -> (r: VcpuSregs)
    ensures
        r == spec_long_mode_sregs(sregs),
{
    let code = generate_segment(1, CODE_SEGMENT_TYPE);
    let data = generate_segment(2, DATA_SEGMENT_TYPE);
    let mut s = sregs;
    s.cs = code;
    s.ds = data;
    s.es = data;
    s.fs = data;
    s.gs = data;
    s.ss = data;
    s.gdt.base = BOOT_GDT_OFFSET;
    s.gdt.limit = 23;
    s.cr0 = s.cr0 | X86_CR0_PE;
    s.cr3 = BOOT_PML4_ADDR;
    s.cr4 = s.cr4 | X86_CR4_PAE;
    s.cr0 = s.cr0 | X86_CR0_PG;
    s.efer = s.efer | (EFER_LMA | EFER_LME);
    s
}

/// The page-directory entry `i`: a present, writable 2 MiB page at
/// `i * 2 MiB`.
pub open spec fn spec_pd_entry(i: u64) -> u64 {
    (i << 21u64) | 0x83
}

/// Entry `i` of the boot page directory maps guest-physical `i * 2 MiB`
/// to itself as a present, writable huge page.
pub proof fn lemma_pd_entry_identity(i: u64)
    requires
        i < 512,
    ensures
        spec_pd_entry(i) >> 21u64 == i,
        spec_pd_entry(i) & 0x83 == 0x83,
        spec_pd_entry(i) & !0x1f_ffffu64 == i * 0x20_0000,
{
    assert(((i << 21u64) | 0x83) >> 21u64 == i && ((i << 21u64) | 0x83) & 0x83 == 0x83 && ((i
        << 21u64) | 0x83) & !0x1f_ffffu64 == i << 21u64) by (bit_vector)
        requires
            i < 512,
    ;
    assert(i << 21u64 == i * 0x20_0000) by (bit_vector)
        requires
            i < 512,
    ;
}

/// Write `k` of the long-mode setup: the three boot GDT descriptors, the
/// PML4 entry, the PDPT entry, then the 512 page-directory entries; each is
/// an address and the 64-bit value stored there, little-endian.
pub open spec fn spec_table_write(k: int) -> (u64, u64) {
    if k < 3 {
        ((BOOT_GDT_OFFSET + 8 * k) as u64, spec_boot_gdt()[k])
    } else if k == 3 {
        (BOOT_PML4_ADDR, BOOT_PDPTE_ADDR | 0b11)
    } else if k == 4 {
        (BOOT_PDPTE_ADDR, BOOT_PDE_ADDR | 0b11)
    } else {
        ((BOOT_PDE_ADDR + 8 * (k - 5)) as u64, spec_pd_entry((k - 5) as u64))
    }
}

/// Number of writes that set up long mode.
pub const LONG_MODE_TABLE_WRITES: usize = 517;

/// All writes that set up long mode, in order.
pub open spec fn spec_long_mode_tables() -> Seq<(u64, u64)> {
    Seq::new(LONG_MODE_TABLE_WRITES as nat, |k: int| spec_table_write(k))
}

/// The stage under which a failure of write `k` is reported.
pub open spec fn spec_table_stage(k: int) -> BootStage {
    if k < 3 {
        BootStage::GdtEntry
    } else if k == 3 {
        BootStage::Pml4
    } else if k == 4 {
        BootStage::Pdpte
    } else {
        BootStage::PdEntry
    }
}

fn table_stage(k: usize) -> (s: BootStage)
    ensures
        s == spec_table_stage(k as int),
{
    if k < 3 {
        BootStage::GdtEntry
    } else if k == 3 {
        BootStage::Pml4
    } else if k == 4 {
        BootStage::Pdpte
    } else {
        BootStage::PdEntry
    }
}

/// The long-mode tables as address/value pairs.
pub fn long_mode_tables() -> (r: Vec<(u64, u64)>)
    ensures
        r@ == spec_long_mode_tables(),
{
    let gdt = boot_gdt();
    let mut r: Vec<(u64, u64)> = Vec::new();
    r.push((BOOT_GDT_OFFSET, gdt[0]));
    r.push((BOOT_GDT_OFFSET + 8, gdt[1]));
    r.push((BOOT_GDT_OFFSET + 16, gdt[2]));
    r.push((BOOT_PML4_ADDR, BOOT_PDPTE_ADDR | 0b11));
    r.push((BOOT_PDPTE_ADDR, BOOT_PDE_ADDR | 0b11));
    assert(r@ =~= Seq::new(5, |k: int| spec_table_write(k)));
    let mut i: u64 = 0;
    while i < 512
        invariant
            i <= 512,
            r@ == Seq::new((5 + i) as nat, |k: int| spec_table_write(k)),
        decreases 512 - i,
    {
        r.push((BOOT_PDE_ADDR + i * 8, (i << 21u64) | 0x83));
        proof {
            assert(spec_table_write(5 + i) == ((BOOT_PDE_ADDR + i * 8) as u64, spec_pd_entry(i)));
        }
        i = i + 1;
        assert(r@ =~= Seq::new((5 + i) as nat, |k: int| spec_table_write(k)));
    }
    r
}

/// Write the boot GDT and the identity page tables (first 1 GiB, 2 MiB
/// pages) for long mode: the writes of [`spec_long_mode_tables`], in order.
pub fn write_long_mode_tables(mem: &dyn GuestRam) -> (r: Result<(), BootError>)
    ensures
        r is Err ==> (r->Err_0 matches BootError::Memory { stage, .. } && (stage == BootStage::GdtEntry
            || stage == BootStage::Pml4 || stage == BootStage::Pdpte || stage == BootStage::PdEntry)),
{
    let mut ram = RamLog::new(mem);
    write_long_mode_tables_logged(&mut ram)
}

/// The 8 little-endian bytes of `v`.
pub open spec fn spec_le8(v: u64) -> Seq<u8> {
    put_le(Seq::new(8, |i: int| 0u8), 0, v as nat, 8)
}

/// Every write of the long-mode plan is among the events.
pub open spec fn tables_written(ev: Seq<RamEvent>) -> bool {
    forall|k: int|
        0 <= k < LONG_MODE_TABLE_WRITES ==> #[trigger] write_seen(
            ev,
            spec_table_write(k).0,
            spec_le8(spec_table_write(k).1),
        )
}

/// [`write_long_mode_tables`] over a record of its guest-memory accesses:
/// on success every write of [`spec_long_mode_tables`] was made.
pub fn write_long_mode_tables_logged(ram: &mut RamLog) -> (r: Result<(), BootError>)
    ensures
        r is Err ==> (r->Err_0 matches BootError::Memory { stage, .. } && (stage == BootStage::GdtEntry
            || stage == BootStage::Pml4 || stage == BootStage::Pdpte || stage == BootStage::PdEntry)),
        r is Ok ==> tables_written(final(ram).events()),
        extends(old(ram).events(), final(ram).events()),
{
    let ghost ev0 = ram.events();
    proof { lemma_extends(ev0, ev0, ev0, RamEvent { write: false, gpa: 0, len: 0, data: Seq::empty(), ok: false }); }
    let tables = long_mode_tables();
    let mut k: usize = 0;
    while k < tables.len()
        invariant
            tables@ == spec_long_mode_tables(),
            extends(ev0, ram.events()),
            ev0 == old(ram).events(),
            forall|j: int| 0 <= j < k ==> #[trigger] write_seen(
                ram.events(),
                spec_table_write(j).0,
                spec_le8(spec_table_write(j).1),
            ),
        decreases tables@.len() - k,
    {
        let (addr, value) = tables[k];
        let bytes = le_bytes_u64(value);
        let ghost evk = ram.events();
        let stored = ram.write_at(addr, bytes.as_slice());
        proof {
            lemma_extends(evk, evk, evk, ram.events().last());
            assert(ram.events() =~= evk.push(ram.events().last()));
            lemma_extends(ev0, evk, ram.events(), ram.events().last());
        }
        if let Err(msg) = stored {
            return Err(BootError::Memory { stage: table_stage(k), msg });
        }
        proof {
            lemma_seen_grows(evk, ram.events());
            assert(tables@[k as int] == spec_table_write(k as int));
            assert(ram.events()[evk.len() as int].write && ram.events()[evk.len() as int].gpa == addr
                && ram.events()[evk.len() as int].data == bytes@);
            assert forall|j: int| 0 <= j < k + 1 implies #[trigger] write_seen(
                ram.events(),
                spec_table_write(j).0,
                spec_le8(spec_table_write(j).1),
            ) by {
                if j < k {
                    assert(write_seen(evk, spec_table_write(j).0, spec_le8(spec_table_write(j).1)));
                }
            }
        }
        k = k + 1;
    }
    Ok(())
}

/// The 8 little-endian bytes of `v`.
pub fn le_bytes_u64(v: u64) -> (r: Vec<u8>)
    ensures
        r@ == put_le(Seq::new(8, |i: int| 0u8), 0, v as nat, 8),
        r@.len() == 8,
        le_value(r@, 0, 8) == v,
{
    let mut r = vec![0u8; 8];
    assert(r@ =~= Seq::new(8, |i: int| 0u8));
    write_le(&mut r, 0, v, 8);
    proof {
        crate::bytes::lemma_put_le(Seq::new(8, |i: int| 0u8), 0, v as nat, 8);
        vstd::arithmetic::power2::lemma2_to64_rest();
        vstd::arithmetic::div_mod::lemma_small_mod(v as nat, vstd::arithmetic::power2::pow2(64));
    }
    r
}

/// Enter long mode: write the boot GDT and page tables, then hand the
/// vCPU the long-mode special registers.
pub fn setup_long_mode(vcpu: &dyn Vcpu, mem: &dyn GuestRam) -> (r: Result<(), BootError>)
    ensures
        r is Err ==> (r->Err_0 matches BootError::Vcpu { stage, .. } && (stage == BootStage::GetSregs
            || stage == BootStage::SetSregs)) || (r->Err_0 matches BootError::Memory { stage, .. } && (
        stage == BootStage::GdtEntry || stage == BootStage::Pml4 || stage == BootStage::Pdpte || stage
            == BootStage::PdEntry)),
{
    let mut log = VcpuLog::new(vcpu);
    let mut ram = RamLog::new(mem);
    setup_long_mode_logged(&mut log, &mut ram)
}

/// [`setup_long_mode`] over records of its vCPU calls and guest-memory
/// accesses: on success the boot GDT and page tables were written, and the
/// special registers read were handed back converted for long mode.
pub fn setup_long_mode_logged(vcpu: &mut VcpuLog, ram: &mut RamLog) -> (r: Result<(), BootError>)
    ensures
        r is Err ==> (r->Err_0 matches BootError::Vcpu { stage, .. } && (stage == BootStage::GetSregs
            || stage == BootStage::SetSregs)) || (r->Err_0 matches BootError::Memory { stage, .. } && (
        stage == BootStage::GdtEntry || stage == BootStage::Pml4 || stage == BootStage::Pdpte || stage
            == BootStage::PdEntry)),
        r is Ok ==> final(vcpu).events().len() == old(vcpu).events().len() + 2 && sregs_converted(
            final(vcpu).events(),
            old(vcpu).events().len() as int,
            true,
        ) && tables_written(final(ram).events()),
        extends(old(vcpu).events(), final(vcpu).events()),
        extends(old(ram).events(), final(ram).events()),
{
    let ghost ev0 = vcpu.events();
    proof {
        lemma_extends(ev0, ev0, ev0, VcpuEvent::GetRegs(None));
        lemma_extends(ram.events(), ram.events(), ram.events(), RamEvent { write: false, gpa: 0, len: 0, data: Seq::empty(), ok: false });
    }
    let got = vcpu.get_sregs();
    let ghost ev1 = vcpu.events();
    proof {
        lemma_extends(ev0, ev0, ev0, ev1.last());
        assert(ev1 =~= ev0.push(ev1.last()));
    }
    let sregs = match got {
        Ok(s) => s,
        Err(msg) => return Err(BootError::Vcpu { stage: BootStage::GetSregs, msg }),
    };
    write_long_mode_tables_logged(ram)?;
    let sregs = long_mode_sregs(sregs);
    let set = vcpu.set_sregs(&sregs);
    proof {
        lemma_extends(ev1, ev1, ev1, vcpu.events().last());
        assert(vcpu.events() =~= ev1.push(vcpu.events().last()));
        lemma_extends(ev0, ev1, vcpu.events(), vcpu.events().last());
    }
    match set {
        Ok(()) => Ok(()),
        Err(msg) => Err(BootError::Vcpu { stage: BootStage::SetSregs, msg }),
    }
}

/// General registers at kernel entry: `rip` at the entry point, the boot
/// stack, `rsi` at the zero page, and only the reserved RFLAGS bit set
/// (interrupts off).
pub open spec fn spec_boot_regs(regs: VcpuRegs, entry_point: u64) -> VcpuRegs {
    VcpuRegs {
        rip: entry_point,
        rsp: BOOT_STACK_POINTER,
        rbp: BOOT_STACK_POINTER,
        rsi: ZERO_PAGE_START,
        rflags: 0x2,
        ..regs
    }
}

pub fn boot_regs(regs: VcpuRegs, entry_point: u64) -> (r: VcpuRegs)
    ensures
        r == spec_boot_regs(regs, entry_point),
{
    let mut r = regs;
    r.rip = entry_point;
    r.rsp = BOOT_STACK_POINTER;
    r.rbp = BOOT_STACK_POINTER;
    r.rsi = ZERO_PAGE_START;
    r.rflags = 0x2;
    r
}

/// Read, convert and write back the general registers for kernel entry.
pub fn setup_general_registers(vcpu: &dyn Vcpu, entry_point: u64) -> (r: Result<(), BootError>)
    ensures
        r is Err ==> (r->Err_0 matches BootError::Vcpu { stage, .. } && (stage == BootStage::GetRegs
            || stage == BootStage::SetRegs)),
{
    let mut log = VcpuLog::new(vcpu);
    setup_general_registers_logged(&mut log, entry_point)
}

/// Calls `i` and `i + 1` of a vCPU record read the general registers and
/// handed them back set for entry at `entry_point`, accepted.
pub open spec fn regs_set_for_entry(ev: Seq<VcpuEvent>, i: int, entry_point: u64) -> bool {
    &&& 0 <= i && i + 2 <= ev.len()
    &&& ev[i] is GetRegs && ev[i]->GetRegs_0 is Some
    &&& ev[i + 1] == VcpuEvent::SetRegs(spec_boot_regs(ev[i]->GetRegs_0->Some_0, entry_point), true)
}

/// [`setup_general_registers`] over a record of its vCPU calls: on success
/// the registers read were handed back set for entry at `entry_point`.
pub fn setup_general_registers_logged(vcpu: &mut VcpuLog, entry_point: u64) -> (r: Result<(), BootError>)
    ensures
        r is Err ==> (r->Err_0 matches BootError::Vcpu { stage, .. } && (stage == BootStage::GetRegs
            || stage == BootStage::SetRegs)),
        r is Ok ==> final(vcpu).events().len() == old(vcpu).events().len() + 2 && regs_set_for_entry(
            final(vcpu).events(),
            old(vcpu).events().len() as int,
            entry_point,
        ),
        extends(old(vcpu).events(), final(vcpu).events()),
{
    let ghost ev0 = vcpu.events();
    proof { lemma_extends(ev0, ev0, ev0, VcpuEvent::GetRegs(None)); }
    let got = vcpu.get_regs();
    let ghost ev1 = vcpu.events();
    proof {
        lemma_extends(ev0, ev0, ev0, ev1.last());
        assert(ev1 =~= ev0.push(ev1.last()));
    }
    let regs = match got {
        Ok(r) => r,
        Err(msg) => return Err(BootError::Vcpu { stage: BootStage::GetRegs, msg }),
    };
    let regs = boot_regs(regs, entry_point);
    let set = vcpu.set_regs(&regs);
    proof {
        lemma_extends(ev1, ev1, ev1, vcpu.events().last());
        assert(vcpu.events() =~= ev1.push(vcpu.events().last()));
        lemma_extends(ev0, ev1, vcpu.events(), vcpu.events().last());
    }
    match set {
        Ok(()) => Ok(()),
        Err(msg) => Err(BootError::Vcpu { stage: BootStage::SetRegs, msg }),
    }
}

// ---- zero page -------------------------------------------------------------

/// Offsets in the zero page (`struct boot_params`).
pub const BP_E820_ENTRIES: usize = 0x1e8;
pub const BP_VID_MODE: usize = 0x1fa;
pub const BP_BOOT_FLAG: usize = 0x1fe;
pub const BP_HEADER: usize = 0x202;
pub const BP_TYPE_OF_LOADER: usize = 0x210;
pub const BP_LOADFLAGS: usize = 0x211;
pub const BP_CODE32_START: usize = 0x214;
pub const BP_RAMDISK_IMAGE: usize = 0x218;
pub const BP_RAMDISK_SIZE: usize = 0x21c;
pub const BP_HEAP_END_PTR: usize = 0x224;
pub const BP_CMD_LINE_PTR: usize = 0x228;
pub const BP_KERNEL_ALIGNMENT: usize = 0x230;
pub const BP_CMDLINE_SIZE: usize = 0x238;
pub const BP_E820_TABLE: usize = 0x2d0;

/// Size of one E820 entry: address (8), size (8), type (4).
pub const E820_ENTRY_SIZE: usize = 20;

/// A zero page of all zeros.
pub open spec fn zeroed_page() -> Seq<u8> {
    Seq::new(4096, |i: int| 0u8)
}

/// `s` with E820 entry `i` set to `[addr, addr + size)` of type `kind`.
pub open spec fn put_e820(s: Seq<u8>, i: int, addr: u64, size: u64, kind: u32) -> Seq<u8> {
    let o = 0x2d0 + 20 * i;
    put_le(put_le(put_le(s, o, addr as nat, 8), o + 8, size as nat, 8), o + 16, kind as nat, 4)
}

/// The memory map: usable RAM below the EBDA, the EBDA/ROM hole reserved
/// up to 1 MiB, usable RAM from 1 MiB to the end of guest memory.
pub open spec fn e820_written(s: Seq<u8>, mem_size: u64) -> Seq<u8> {
    let s1 = put_e820(s, 0, 0, EBDA_START, E820_RAM);
    let s2 = put_e820(s1, 1, EBDA_START, (HIMEM_START - EBDA_START) as u64, E820_RESERVED);
    let s3 = put_e820(s2, 2, HIMEM_START, (mem_size - HIMEM_START) as u64, E820_RAM);
    s3.update(0x1e8, 3)
}

/// The zero page before any bzImage header: loader type, boot flag, header
/// magic, command line, alignment and the memory map.
pub open spec fn boot_params_base(cmdline_len: nat, mem_size: u64) -> Seq<u8> {
    let s0 = zeroed_page().update(0x210, KERNEL_TYPE_OF_LOADER);
    let s1 = put_le(s0, 0x1fe, KERNEL_BOOT_FLAG_MAGIC_NUMBER as nat, 2);
    let s2 = put_le(s1, 0x202, KERNEL_HDR_MAGIC_NUMBER as nat, 4);
    let s3 = put_le(s2, 0x228, CMDLINE_ADDR as nat, 4);
    let s4 = put_le(s3, 0x238, ((cmdline_len + 1) % 0x1_0000_0000) as nat, 4);
    let s5 = put_le(s4, 0x230, KERNEL_MIN_ALIGNMENT_BYTES as nat, 4);
    e820_written(s5, mem_size)
}

/// The zero page with a bzImage's setup header copied in, then the fields
/// the loader owns: video mode, loader type, load flags (high load, keep
/// segments, heap), heap end, command line and the 32-bit entry point.
pub open spec fn bz_header_applied(s: Seq<u8>, kernel: Seq<u8>, cmdline_len: nat) -> Seq<u8> {
    let h = s.subrange(0, 0x1f1) + kernel.subrange(0x1f1, 0x26c) + s.subrange(0x26c, 4096);
    let h1 = put_le(h, 0x1fa, NORMAL_VGA_MODE as nat, 2);
    let h2 = h1.update(0x210, 0xff);
    let h3 = h2.update(0x211, h2[0x211] | 0xc1);
    let h4 = put_le(h3, 0x224, LINUX_HEAP_END_PTR as nat, 2);
    let h5 = put_le(h4, 0x228, CMDLINE_ADDR as nat, 4);
    let h6 = put_le(h5, 0x238, ((cmdline_len + 1) % 0x1_0000_0000) as nat, 4);
    put_le(h6, 0x214, HIMEM_START as nat, 4)
}

/// The zero page handed to the kernel.
pub open spec fn spec_boot_params(
    format: KernelImageFormat,
    kernel: Seq<u8>,
    cmdline_len: nat,
    initrd_addr: u32,
    initrd_size: u32,
    mem_size: u64,
) -> Seq<u8> {
    let b = boot_params_base(cmdline_len, mem_size);
    let h = if format == KernelImageFormat::BzImage {
        bz_header_applied(b, kernel, cmdline_len)
    } else {
        b
    };
    put_le(put_le(h, 0x218, initrd_addr as nat, 4), 0x21c, initrd_size as nat, 4)
}

/// Store E820 entry `i`.
fn write_e820(zp: &mut Vec<u8>, i: usize, addr: u64, size: u64, kind: u32)
    requires
        i < 3,
        old(zp)@.len() == 4096,
    ensures
        final(zp)@ == put_e820(old(zp)@, i as int, addr, size, kind),
        final(zp)@.len() == 4096,
{
    let o = BP_E820_TABLE + E820_ENTRY_SIZE * i;
    write_le(zp, o, addr, 8);
    proof {
        crate::bytes::lemma_put_le(old(zp)@, o as int, addr as nat, 8);
    }
    write_le(zp, o + 8, size, 8);
    proof {
        crate::bytes::lemma_put_le(put_le(old(zp)@, o as int, addr as nat, 8), o + 8, size as nat, 8);
    }
    write_le(zp, o + 16, kind as u64, 4);
    proof {
        crate::bytes::lemma_put_le(
            put_le(put_le(old(zp)@, o as int, addr as nat, 8), o + 8, size as nat, 8),
            o + 16,
            kind as nat,
            4,
        );
    }
}

/// Build the zero page: boot protocol header fields, the memory map, and
/// for a bzImage its own setup header with the loader's fields on top;
/// last the initial ramdisk location. A bzImage too short to hold a setup
/// header is refused.
pub fn build_boot_params(
    image_format: KernelImageFormat,
    kernel_data: &[u8],
    cmdline_len: usize,
    initrd_addr: u32,
    initrd_size: u32,
    mem_size: u64,
) -> (r: Result<Vec<u8>, BootError>)
    requires
        mem_size >= HIMEM_START,
        cmdline_len < usize::MAX,
    ensures
        image_format == KernelImageFormat::BzImage && kernel_data@.len() < 0x26c ==> r == Err::<
            Vec<u8>,
            BootError,
        >(BootError::SetupHeaderTruncated),
        !(image_format == KernelImageFormat::BzImage && kernel_data@.len() < 0x26c) ==> (r matches Ok(
            zp,
        ) && zp@ == spec_boot_params(
            image_format,
            kernel_data@,
            cmdline_len as nat,
            initrd_addr,
            initrd_size,
            mem_size,
        )),
{
    let mut zp = vec![0u8; BOOT_PARAMS_SIZE];
    assert(zp@ =~= zeroed_page());
    zp.set(BP_TYPE_OF_LOADER, KERNEL_TYPE_OF_LOADER);
    write_le(&mut zp, BP_BOOT_FLAG, KERNEL_BOOT_FLAG_MAGIC_NUMBER as u64, 2);
    proof { crate::bytes::lemma_put_le(zeroed_page().update(0x210, KERNEL_TYPE_OF_LOADER), 0x1fe, KERNEL_BOOT_FLAG_MAGIC_NUMBER as nat, 2); }
    let ghost s1 = zp@;
    write_le(&mut zp, BP_HEADER, KERNEL_HDR_MAGIC_NUMBER as u64, 4);
    proof { crate::bytes::lemma_put_le(s1, 0x202, KERNEL_HDR_MAGIC_NUMBER as nat, 4); }
    let ghost s2 = zp@;
    write_le(&mut zp, BP_CMD_LINE_PTR, CMDLINE_ADDR, 4);
    proof { crate::bytes::lemma_put_le(s2, 0x228, CMDLINE_ADDR as nat, 4); }
    let ghost s3 = zp@;
    write_le(&mut zp, BP_CMDLINE_SIZE, ((cmdline_len as u64) + 1) % 0x1_0000_0000, 4);
    proof { crate::bytes::lemma_put_le(s3, 0x238, ((cmdline_len + 1) % 0x1_0000_0000) as nat, 4); }
    let ghost s4 = zp@;
    write_le(&mut zp, BP_KERNEL_ALIGNMENT, KERNEL_MIN_ALIGNMENT_BYTES as u64, 4);
    proof { crate::bytes::lemma_put_le(s4, 0x230, KERNEL_MIN_ALIGNMENT_BYTES as nat, 4); }
    write_e820(&mut zp, 0, 0, EBDA_START, E820_RAM);
    write_e820(&mut zp, 1, EBDA_START, HIMEM_START - EBDA_START, E820_RESERVED);
    write_e820(&mut zp, 2, HIMEM_START, mem_size - HIMEM_START, E820_RAM);
    zp.set(BP_E820_ENTRIES, 3);
    let ghost base = zp@;
    assert(base == boot_params_base(cmdline_len as nat, mem_size));
    if let KernelImageFormat::BzImage = image_format {
        if kernel_data.len() < SETUP_HEADER_OFFSET + SETUP_HEADER_SIZE {
            return Err(BootError::SetupHeaderTruncated);
        }
        let mut i: usize = SETUP_HEADER_OFFSET;
        while i < SETUP_HEADER_OFFSET + SETUP_HEADER_SIZE
            invariant
                0x1f1 <= i <= 0x26c,
                kernel_data@.len() >= 0x26c,
                base.len() == 4096,
                zp@ == base.subrange(0, 0x1f1) + kernel_data@.subrange(0x1f1, i as int) + base.subrange(
                    i as int,
                    4096,
                ),
            decreases 0x26c - i,
        {
            zp.set(i, kernel_data[i]);
            i = i + 1;
            assert(zp@ =~= base.subrange(0, 0x1f1) + kernel_data@.subrange(0x1f1, i as int)
                + base.subrange(i as int, 4096));
        }
        let ghost h = zp@;
        write_le(&mut zp, BP_VID_MODE, NORMAL_VGA_MODE as u64, 2);
        proof { crate::bytes::lemma_put_le(h, 0x1fa, NORMAL_VGA_MODE as nat, 2); }
        zp.set(BP_TYPE_OF_LOADER, 0xff);
        let flags = zp[BP_LOADFLAGS];
        assert(LINUX_BOOT_HDR_LOAD_HIGH | LINUX_BOOT_HDR_KEEP_SEGMENTS | LINUX_BOOT_HDR_CAN_USE_HEAP
            == 0xc1) by (bit_vector);
        zp.set(BP_LOADFLAGS, flags | (LINUX_BOOT_HDR_LOAD_HIGH | LINUX_BOOT_HDR_KEEP_SEGMENTS | LINUX_BOOT_HDR_CAN_USE_HEAP));
        let ghost h3 = zp@;
        write_le(&mut zp, BP_HEAP_END_PTR, LINUX_HEAP_END_PTR as u64, 2);
        proof { crate::bytes::lemma_put_le(h3, 0x224, LINUX_HEAP_END_PTR as nat, 2); }
        let ghost h4 = zp@;
        write_le(&mut zp, BP_CMD_LINE_PTR, CMDLINE_ADDR, 4);
        proof { crate::bytes::lemma_put_le(h4, 0x228, CMDLINE_ADDR as nat, 4); }
        let ghost h5 = zp@;
        write_le(&mut zp, BP_CMDLINE_SIZE, ((cmdline_len as u64) + 1) % 0x1_0000_0000, 4);
        proof { crate::bytes::lemma_put_le(h5, 0x238, ((cmdline_len + 1) % 0x1_0000_0000) as nat, 4); }
        let ghost h6 = zp@;
        write_le(&mut zp, BP_CODE32_START, HIMEM_START, 4);
        proof { crate::bytes::lemma_put_le(h6, 0x214, HIMEM_START as nat, 4); }
        assert(zp@ == bz_header_applied(base, kernel_data@, cmdline_len as nat));
    }
    let ghost h = zp@;
    write_le(&mut zp, BP_RAMDISK_IMAGE, initrd_addr as u64, 4);
    proof { crate::bytes::lemma_put_le(h, 0x218, initrd_addr as nat, 4); }
    let ghost h1 = zp@;
    write_le(&mut zp, BP_RAMDISK_SIZE, initrd_size as u64, 4);
    Ok(zp)
}

/// The three fields of an E820 entry read back.
proof fn lemma_put_e820(s: Seq<u8>, i: int, addr: u64, size: u64, kind: u32)
    requires
        s.len() == 4096,
        0 <= i < 3,
    ensures
        put_e820(s, i, addr, size, kind).len() == 4096,
        le_value(put_e820(s, i, addr, size, kind), 0x2d0 + 20 * i, 8) == addr,
        le_value(put_e820(s, i, addr, size, kind), 0x2d0 + 20 * i + 8, 8) == size,
        le_value(put_e820(s, i, addr, size, kind), 0x2d0 + 20 * i + 16, 4) == kind,
{
    vstd::arithmetic::power2::lemma2_to64();
    vstd::arithmetic::power2::lemma2_to64_rest();
    let o = 0x2d0 + 20 * i;
    let t1 = put_le(s, o, addr as nat, 8);
    let t2 = put_le(t1, o + 8, size as nat, 8);
    lemma_field_put(s, o, addr as nat, 8);
    lemma_field_put(t1, o + 8, size as nat, 8);
    lemma_field_put(t2, o + 16, kind as nat, 4);
    lemma_field_after_put(t1, o + 8, size as nat, 8, o, 8);
    lemma_field_after_put(t2, o + 16, kind as nat, 4, o, 8);
    lemma_field_after_put(t2, o + 16, kind as nat, 4, o + 8, 8);
}

/// Fields outside E820 entry `i` are left alone.
proof fn lemma_put_e820_frame(s: Seq<u8>, i: int, addr: u64, size: u64, kind: u32, o2: int, n2: nat)
    requires
        s.len() == 4096,
        0 <= i < 3,
        0 <= o2,
        o2 + n2 <= 4096,
        o2 + n2 <= 0x2d0 + 20 * i || 0x2d0 + 20 * i + 20 <= o2,
    ensures
        le_value(put_e820(s, i, addr, size, kind), o2, n2) == le_value(s, o2, n2),
{
    let o = 0x2d0 + 20 * i;
    let t1 = put_le(s, o, addr as nat, 8);
    let t2 = put_le(t1, o + 8, size as nat, 8);
    lemma_field_after_put(s, o, addr as nat, 8, o2, n2);
    lemma_field_after_put(t1, o + 8, size as nat, 8, o2, n2);
    lemma_field_after_put(t2, o + 16, kind as nat, 4, o2, n2);
}

/// The memory map leaves the setup-header area alone.
proof fn lemma_e820_frame(s: Seq<u8>, mem_size: u64, o2: int, n2: nat)
    requires
        s.len() == 4096,
        mem_size >= HIMEM_START,
        0x1e9 <= o2,
        o2 + n2 <= 0x2d0,
    ensures
        le_value(e820_written(s, mem_size), o2, n2) == le_value(s, o2, n2),
        e820_written(s, mem_size).len() == 4096,
{
    let s1 = put_e820(s, 0, 0, EBDA_START, E820_RAM);
    let s2 = put_e820(s1, 1, EBDA_START, (HIMEM_START - EBDA_START) as u64, E820_RESERVED);
    let s3 = put_e820(s2, 2, HIMEM_START, (mem_size - HIMEM_START) as u64, E820_RAM);
    lemma_put_e820(s, 0, 0, EBDA_START, E820_RAM);
    lemma_put_e820(s1, 1, EBDA_START, (HIMEM_START - EBDA_START) as u64, E820_RESERVED);
    lemma_put_e820(s2, 2, HIMEM_START, (mem_size - HIMEM_START) as u64, E820_RAM);
    lemma_put_e820_frame(s, 0, 0, EBDA_START, E820_RAM, o2, n2);
    lemma_put_e820_frame(s1, 1, EBDA_START, (HIMEM_START - EBDA_START) as u64, E820_RESERVED, o2, n2);
    lemma_put_e820_frame(s2, 2, HIMEM_START, (mem_size - HIMEM_START) as u64, E820_RAM, o2, n2);
    lemma_field_after_update(s3, 0x1e8, 3, o2, n2);
}

/// The memory map in the zero page: three entries, RAM below the EBDA,
/// the EBDA/ROM hole reserved up to 1 MiB, RAM from 1 MiB to the end of
/// guest memory.
pub open spec fn e820_table_is(zp: Seq<u8>, mem_size: u64) -> bool {
    &&& zp[0x1e8] == 3
    &&& le_value(zp, 0x2d0, 8) == 0
    &&& le_value(zp, 0x2d8, 8) == EBDA_START
    &&& le_value(zp, 0x2e0, 4) == E820_RAM
    &&& le_value(zp, 0x2e4, 8) == EBDA_START
    &&& le_value(zp, 0x2ec, 8) == HIMEM_START - EBDA_START
    &&& le_value(zp, 0x2f4, 4) == E820_RESERVED
    &&& le_value(zp, 0x2f8, 8) == HIMEM_START
    &&& le_value(zp, 0x300, 8) == mem_size - HIMEM_START
    &&& le_value(zp, 0x308, 4) == E820_RAM
}

proof fn lemma_e820_written(s: Seq<u8>, mem_size: u64)
    requires
        s.len() == 4096,
        mem_size >= HIMEM_START,
    ensures
        e820_table_is(e820_written(s, mem_size), mem_size),
{
    let s1 = put_e820(s, 0, 0, EBDA_START, E820_RAM);
    let s2 = put_e820(s1, 1, EBDA_START, (HIMEM_START - EBDA_START) as u64, E820_RESERVED);
    let s3 = put_e820(s2, 2, HIMEM_START, (mem_size - HIMEM_START) as u64, E820_RAM);
    lemma_put_e820(s, 0, 0, EBDA_START, E820_RAM);
    lemma_put_e820(s1, 1, EBDA_START, (HIMEM_START - EBDA_START) as u64, E820_RESERVED);
    lemma_put_e820(s2, 2, HIMEM_START, (mem_size - HIMEM_START) as u64, E820_RAM);
    lemma_put_e820_frame(s1, 1, EBDA_START, (HIMEM_START - EBDA_START) as u64, E820_RESERVED, 0x2d0, 8);
    lemma_put_e820_frame(s1, 1, EBDA_START, (HIMEM_START - EBDA_START) as u64, E820_RESERVED, 0x2d8, 8);
    lemma_put_e820_frame(s1, 1, EBDA_START, (HIMEM_START - EBDA_START) as u64, E820_RESERVED, 0x2e0, 4);
    lemma_put_e820_frame(s2, 2, HIMEM_START, (mem_size - HIMEM_START) as u64, E820_RAM, 0x2d0, 8);
    lemma_put_e820_frame(s2, 2, HIMEM_START, (mem_size - HIMEM_START) as u64, E820_RAM, 0x2d8, 8);
    lemma_put_e820_frame(s2, 2, HIMEM_START, (mem_size - HIMEM_START) as u64, E820_RAM, 0x2e0, 4);
    lemma_put_e820_frame(s2, 2, HIMEM_START, (mem_size - HIMEM_START) as u64, E820_RAM, 0x2e4, 8);
    lemma_put_e820_frame(s2, 2, HIMEM_START, (mem_size - HIMEM_START) as u64, E820_RAM, 0x2ec, 8);
    lemma_put_e820_frame(s2, 2, HIMEM_START, (mem_size - HIMEM_START) as u64, E820_RAM, 0x2f4, 4);
    lemma_field_after_update(s3, 0x1e8, 3, 0x2d0, 8);
    lemma_field_after_update(s3, 0x1e8, 3, 0x2d8, 8);
    lemma_field_after_update(s3, 0x1e8, 3, 0x2e0, 4);
    lemma_field_after_update(s3, 0x1e8, 3, 0x2e4, 8);
    lemma_field_after_update(s3, 0x1e8, 3, 0x2ec, 8);
    lemma_field_after_update(s3, 0x1e8, 3, 0x2f4, 4);
    lemma_field_after_update(s3, 0x1e8, 3, 0x2f8, 8);
    lemma_field_after_update(s3, 0x1e8, 3, 0x300, 8);
    lemma_field_after_update(s3, 0x1e8, 3, 0x308, 4);
}

/// What the kernel reads from the zero page: the initial ramdisk where it
/// was placed, the command line at `CMDLINE_ADDR` with its size (NUL
/// included), the loader type, and the memory map; for an ELF kernel the
/// boot protocol magic numbers; for a bzImage the 32-bit entry point and
/// the loader's load flags on top of the image's own.
pub proof fn lemma_boot_params_fields(
    format: KernelImageFormat,
    kernel: Seq<u8>,
    cmdline_len: nat,
    initrd_addr: u32,
    initrd_size: u32,
    mem_size: u64,
)
    requires
        mem_size >= HIMEM_START,
        cmdline_len < u32::MAX,
        format == KernelImageFormat::BzImage ==> kernel.len() >= 0x26c,
    ensures
        ({
            let zp = spec_boot_params(format, kernel, cmdline_len, initrd_addr, initrd_size, mem_size);
            &&& zp.len() == 4096
            &&& le_value(zp, 0x218, 4) == initrd_addr
            &&& le_value(zp, 0x21c, 4) == initrd_size
            &&& le_value(zp, 0x228, 4) == CMDLINE_ADDR
            &&& le_value(zp, 0x238, 4) == cmdline_len + 1
            &&& zp[0x210] == KERNEL_TYPE_OF_LOADER
            &&& e820_table_is(zp, mem_size)
            &&& format == KernelImageFormat::Elf64 ==> {
                &&& le_value(zp, 0x1fe, 2) == KERNEL_BOOT_FLAG_MAGIC_NUMBER
                &&& le_value(zp, 0x202, 4) == KERNEL_HDR_MAGIC_NUMBER
                &&& le_value(zp, 0x230, 4) == KERNEL_MIN_ALIGNMENT_BYTES
            }
            &&& format == KernelImageFormat::BzImage ==> {
                &&& le_value(zp, 0x214, 4) == HIMEM_START
                &&& zp[0x211] == kernel[0x211] | 0xc1
                &&& le_value(zp, 0x1fa, 2) == NORMAL_VGA_MODE
                &&& le_value(zp, 0x224, 2) == LINUX_HEAP_END_PTR
            }
        }),
{
    vstd::arithmetic::div_mod::lemma_small_mod((cmdline_len + 1) as nat, 0x1_0000_0000);
    reveal_with_fuel(le_value, 2);
    vstd::arithmetic::power2::lemma2_to64();
    let z = zeroed_page();
    let s0 = z.update(0x210, KERNEL_TYPE_OF_LOADER);
    let s1 = put_le(s0, 0x1fe, KERNEL_BOOT_FLAG_MAGIC_NUMBER as nat, 2);
    let s2 = put_le(s1, 0x202, KERNEL_HDR_MAGIC_NUMBER as nat, 4);
    let s3 = put_le(s2, 0x228, CMDLINE_ADDR as nat, 4);
    let s4 = put_le(s3, 0x238, ((cmdline_len + 1) % 0x1_0000_0000) as nat, 4);
    let s5 = put_le(s4, 0x230, KERNEL_MIN_ALIGNMENT_BYTES as nat, 4);
    let b = e820_written(s5, mem_size);
    // header fields of the base page
    lemma_field_put(s0, 0x1fe, KERNEL_BOOT_FLAG_MAGIC_NUMBER as nat, 2);
    lemma_field_put(s1, 0x202, KERNEL_HDR_MAGIC_NUMBER as nat, 4);
    lemma_field_put(s2, 0x228, CMDLINE_ADDR as nat, 4);
    lemma_field_put(s3, 0x238, ((cmdline_len + 1) % 0x1_0000_0000) as nat, 4);
    lemma_field_put(s4, 0x230, KERNEL_MIN_ALIGNMENT_BYTES as nat, 4);
    lemma_field_after_put(s1, 0x202, KERNEL_HDR_MAGIC_NUMBER as nat, 4, 0x1fe, 2);
    lemma_field_after_put(s2, 0x228, CMDLINE_ADDR as nat, 4, 0x1fe, 2);
    lemma_field_after_put(s2, 0x228, CMDLINE_ADDR as nat, 4, 0x202, 4);
    lemma_field_after_put(s3, 0x238, ((cmdline_len + 1) % 0x1_0000_0000) as nat, 4, 0x1fe, 2);
    lemma_field_after_put(s3, 0x238, ((cmdline_len + 1) % 0x1_0000_0000) as nat, 4, 0x202, 4);
    lemma_field_after_put(s3, 0x238, ((cmdline_len + 1) % 0x1_0000_0000) as nat, 4, 0x228, 4);
    lemma_field_after_put(s4, 0x230, KERNEL_MIN_ALIGNMENT_BYTES as nat, 4, 0x1fe, 2);
    lemma_field_after_put(s4, 0x230, KERNEL_MIN_ALIGNMENT_BYTES as nat, 4, 0x202, 4);
    lemma_field_after_put(s4, 0x230, KERNEL_MIN_ALIGNMENT_BYTES as nat, 4, 0x228, 4);
    lemma_field_after_put(s4, 0x230, KERNEL_MIN_ALIGNMENT_BYTES as nat, 4, 0x238, 4);
    lemma_e820_frame(s5, mem_size, 0x1fe, 2);
    lemma_e820_frame(s5, mem_size, 0x202, 4);
    lemma_e820_frame(s5, mem_size, 0x228, 4);
    lemma_e820_frame(s5, mem_size, 0x238, 4);
    lemma_e820_frame(s5, mem_size, 0x230, 4);
    lemma_e820_frame(s5, mem_size, 0x210, 1);
    lemma_e820_written(s5, mem_size);
    // the loader type byte survives the header puts
    crate::bytes::lemma_put_le(s0, 0x1fe, KERNEL_BOOT_FLAG_MAGIC_NUMBER as nat, 2);
    crate::bytes::lemma_put_le(s1, 0x202, KERNEL_HDR_MAGIC_NUMBER as nat, 4);
    crate::bytes::lemma_put_le(s2, 0x228, CMDLINE_ADDR as nat, 4);
    crate::bytes::lemma_put_le(s3, 0x238, ((cmdline_len + 1) % 0x1_0000_0000) as nat, 4);
    crate::bytes::lemma_put_le(s4, 0x230, KERNEL_MIN_ALIGNMENT_BYTES as nat, 4);
    assert(le_value(s5, 0x210, 1) == s5[0x210] as nat);
    assert(le_value(b, 0x210, 1) == b[0x210] as nat);
    let h = if format == KernelImageFormat::BzImage {
        bz_header_applied(b, kernel, cmdline_len)
    } else {
        b
    };
    if format == KernelImageFormat::BzImage {
        lemma_bz_header_fields(b, kernel, cmdline_len, mem_size);
    }
    let r1 = put_le(h, 0x218, initrd_addr as nat, 4);
    let zp = put_le(r1, 0x21c, initrd_size as nat, 4);
    lemma_field_put(h, 0x218, initrd_addr as nat, 4);
    lemma_field_put(r1, 0x21c, initrd_size as nat, 4);
    lemma_field_after_put(r1, 0x21c, initrd_size as nat, 4, 0x218, 4);
    lemma_ramdisk_frame(h, initrd_addr, initrd_size, 0x228, 4);
    lemma_ramdisk_frame(h, initrd_addr, initrd_size, 0x238, 4);
    lemma_ramdisk_frame(h, initrd_addr, initrd_size, 0x210, 1);
    lemma_ramdisk_frame(h, initrd_addr, initrd_size, 0x1fe, 2);
    lemma_ramdisk_frame(h, initrd_addr, initrd_size, 0x202, 4);
    lemma_ramdisk_frame(h, initrd_addr, initrd_size, 0x230, 4);
    lemma_ramdisk_frame(h, initrd_addr, initrd_size, 0x214, 4);
    lemma_ramdisk_frame(h, initrd_addr, initrd_size, 0x211, 1);
    lemma_ramdisk_frame(h, initrd_addr, initrd_size, 0x1fa, 2);
    lemma_ramdisk_frame(h, initrd_addr, initrd_size, 0x224, 2);
    lemma_ramdisk_frame(h, initrd_addr, initrd_size, 0x1e8, 1);
    lemma_ramdisk_e820_frame(h, initrd_addr, initrd_size, mem_size);
    assert(le_value(zp, 0x210, 1) == zp[0x210] as nat);
    assert(le_value(zp, 0x211, 1) == zp[0x211] as nat);
    assert(le_value(zp, 0x1e8, 1) == zp[0x1e8] as nat);
    assert(le_value(h, 0x210, 1) == h[0x210] as nat);
    assert(le_value(h, 0x211, 1) == h[0x211] as nat);
    assert(le_value(h, 0x1e8, 1) == h[0x1e8] as nat);
    assert(le_value(b, 0x1e8, 1) == b[0x1e8] as nat);
}

/// The ramdisk fields leave every other field alone.
proof fn lemma_ramdisk_frame(h: Seq<u8>, initrd_addr: u32, initrd_size: u32, o2: int, n2: nat)
    requires
        h.len() == 4096,
        0 <= o2,
        o2 + n2 <= 0x218 || 0x220 <= o2,
        o2 + n2 <= 4096,
    ensures
        le_value(put_le(put_le(h, 0x218, initrd_addr as nat, 4), 0x21c, initrd_size as nat, 4), o2, n2)
            == le_value(h, o2, n2),
{
    lemma_field_after_put(h, 0x218, initrd_addr as nat, 4, o2, n2);
    lemma_field_after_put(put_le(h, 0x218, initrd_addr as nat, 4), 0x21c, initrd_size as nat, 4, o2, n2);
}

/// The ramdisk fields leave the memory map alone.
proof fn lemma_ramdisk_e820_frame(h: Seq<u8>, initrd_addr: u32, initrd_size: u32, mem_size: u64)
    requires
        h.len() == 4096,
        e820_table_is(h, mem_size),
    ensures
        e820_table_is(
            put_le(put_le(h, 0x218, initrd_addr as nat, 4), 0x21c, initrd_size as nat, 4),
            mem_size,
        ),
{
    reveal_with_fuel(le_value, 2);
    let zp = put_le(put_le(h, 0x218, initrd_addr as nat, 4), 0x21c, initrd_size as nat, 4);
    crate::bytes::lemma_put_le(h, 0x218, initrd_addr as nat, 4);
    crate::bytes::lemma_put_le(put_le(h, 0x218, initrd_addr as nat, 4), 0x21c, initrd_size as nat, 4);
    lemma_ramdisk_frame(h, initrd_addr, initrd_size, 0x1e8, 1);
    lemma_ramdisk_frame(h, initrd_addr, initrd_size, 0x2d0, 8);
    lemma_ramdisk_frame(h, initrd_addr, initrd_size, 0x2d8, 8);
    lemma_ramdisk_frame(h, initrd_addr, initrd_size, 0x2e0, 4);
    lemma_ramdisk_frame(h, initrd_addr, initrd_size, 0x2e4, 8);
    lemma_ramdisk_frame(h, initrd_addr, initrd_size, 0x2ec, 8);
    lemma_ramdisk_frame(h, initrd_addr, initrd_size, 0x2f4, 4);
    lemma_ramdisk_frame(h, initrd_addr, initrd_size, 0x2f8, 8);
    lemma_ramdisk_frame(h, initrd_addr, initrd_size, 0x300, 8);
    lemma_ramdisk_frame(h, initrd_addr, initrd_size, 0x308, 4);
    assert(le_value(zp, 0x1e8, 1) == zp[0x1e8] as nat);
    assert(le_value(h, 0x1e8, 1) == h[0x1e8] as nat);
}

/// The loader's fields on top of a bzImage header, and the memory map,
/// read back.
proof fn lemma_bz_header_fields(b: Seq<u8>, kernel: Seq<u8>, cmdline_len: nat, mem_size: u64)
    requires
        b.len() == 4096,
        kernel.len() >= 0x26c,
        cmdline_len < u32::MAX,
        e820_table_is(b, mem_size),
    ensures
        ({
            let h = bz_header_applied(b, kernel, cmdline_len);
            &&& h.len() == 4096
            &&& le_value(h, 0x228, 4) == CMDLINE_ADDR
            &&& le_value(h, 0x238, 4) == cmdline_len + 1
            &&& h[0x210] == KERNEL_TYPE_OF_LOADER
            &&& le_value(h, 0x214, 4) == HIMEM_START
            &&& h[0x211] == kernel[0x211] | 0xc1
            &&& le_value(h, 0x1fa, 2) == NORMAL_VGA_MODE
            &&& le_value(h, 0x224, 2) == LINUX_HEAP_END_PTR
            &&& e820_table_is(h, mem_size)
        }),
{
    vstd::arithmetic::div_mod::lemma_small_mod((cmdline_len + 1) as nat, 0x1_0000_0000);
    vstd::arithmetic::power2::lemma2_to64();
    let h = b.subrange(0, 0x1f1) + kernel.subrange(0x1f1, 0x26c) + b.subrange(0x26c, 4096);
    assert(h.len() == 4096);
    assert forall|j: int| 0x26c <= j < 4096 || 0 <= j < 0x1f1 implies #[trigger] h[j] == b[j] by {}
    assert(h[0x211] == kernel[0x211]);
    let h1 = put_le(h, 0x1fa, NORMAL_VGA_MODE as nat, 2);
    let h2 = h1.update(0x210, 0xff);
    let h3 = h2.update(0x211, h2[0x211] | 0xc1);
    let h4 = put_le(h3, 0x224, LINUX_HEAP_END_PTR as nat, 2);
    let h5 = put_le(h4, 0x228, CMDLINE_ADDR as nat, 4);
    let h6 = put_le(h5, 0x238, ((cmdline_len + 1) % 0x1_0000_0000) as nat, 4);
    let h7 = put_le(h6, 0x214, HIMEM_START as nat, 4);
    crate::bytes::lemma_put_le(h, 0x1fa, NORMAL_VGA_MODE as nat, 2);
    crate::bytes::lemma_put_le(h3, 0x224, LINUX_HEAP_END_PTR as nat, 2);
    crate::bytes::lemma_put_le(h4, 0x228, CMDLINE_ADDR as nat, 4);
    crate::bytes::lemma_put_le(h5, 0x238, ((cmdline_len + 1) % 0x1_0000_0000) as nat, 4);
    crate::bytes::lemma_put_le(h6, 0x214, HIMEM_START as nat, 4);
    lemma_field_put(h, 0x1fa, NORMAL_VGA_MODE as nat, 2);
    lemma_field_put(h3, 0x224, LINUX_HEAP_END_PTR as nat, 2);
    lemma_field_put(h4, 0x228, CMDLINE_ADDR as nat, 4);
    lemma_field_put(h5, 0x238, ((cmdline_len + 1) % 0x1_0000_0000) as nat, 4);
    lemma_field_put(h6, 0x214, HIMEM_START as nat, 4);
    // 0x1fa survives
    lemma_field_after_update(h1, 0x210, 0xff, 0x1fa, 2);
    lemma_field_after_update(h2, 0x211, h2[0x211] | 0xc1, 0x1fa, 2);
    lemma_field_after_put(h3, 0x224, LINUX_HEAP_END_PTR as nat, 2, 0x1fa, 2);
    lemma_field_after_put(h4, 0x228, CMDLINE_ADDR as nat, 4, 0x1fa, 2);
    lemma_field_after_put(h5, 0x238, ((cmdline_len + 1) % 0x1_0000_0000) as nat, 4, 0x1fa, 2);
    lemma_field_after_put(h6, 0x214, HIMEM_START as nat, 4, 0x1fa, 2);
    // 0x224 survives
    lemma_field_after_put(h4, 0x228, CMDLINE_ADDR as nat, 4, 0x224, 2);
    lemma_field_after_put(h5, 0x238, ((cmdline_len + 1) % 0x1_0000_0000) as nat, 4, 0x224, 2);
    lemma_field_after_put(h6, 0x214, HIMEM_START as nat, 4, 0x224, 2);
    // 0x228, 0x238 survive
    lemma_field_after_put(h5, 0x238, ((cmdline_len + 1) % 0x1_0000_0000) as nat, 4, 0x228, 4);
    lemma_field_after_put(h6, 0x214, HIMEM_START as nat, 4, 0x228, 4);
    lemma_field_after_put(h6, 0x214, HIMEM_START as nat, 4, 0x238, 4);
    // the memory map survives the header copy and the loader fields
    assert forall|o2: int, n2: nat| 0x2d0 <= o2 && o2 + n2 <= 4096 implies le_value(h7, o2, n2)
        == le_value(b, o2, n2) by {
        assert forall|j: int| o2 <= j < o2 + n2 implies h7[j] == b[j] by {
            assert(h[j] == b[j]);
        }
        crate::bytes::lemma_le_value_frame(h7, b, o2, n2);
    }
    assert(h7[0x1e8] == b[0x1e8]);
    assert(le_value(h7, 0x2d0, 8) == le_value(b, 0x2d0, 8));
    assert(le_value(h7, 0x2d8, 8) == le_value(b, 0x2d8, 8));
    assert(le_value(h7, 0x2e0, 4) == le_value(b, 0x2e0, 4));
    assert(le_value(h7, 0x2e4, 8) == le_value(b, 0x2e4, 8));
    assert(le_value(h7, 0x2ec, 8) == le_value(b, 0x2ec, 8));
    assert(le_value(h7, 0x2f4, 4) == le_value(b, 0x2f4, 4));
    assert(le_value(h7, 0x2f8, 8) == le_value(b, 0x2f8, 8));
    assert(le_value(h7, 0x300, 8) == le_value(b, 0x300, 8));
    assert(le_value(h7, 0x308, 4) == le_value(b, 0x308, 4));
}

/// Build the zero page and place it at `ZERO_PAGE_START`.
pub fn setup_boot_params(
    mem: &dyn GuestRam,
    image_format: KernelImageFormat,
    kernel_data: &[u8],
    cmdline_len: usize,
    initrd_addr: u32,
    initrd_size: u32,
    mem_size: u64,
) -> (r: Result<(), BootError>)
    requires
        mem_size >= HIMEM_START,
        cmdline_len < usize::MAX,
    ensures
        image_format == KernelImageFormat::BzImage && kernel_data@.len() < 0x26c <==> r == Err::<
            (),
            BootError,
        >(BootError::SetupHeaderTruncated),
        r is Err && !(image_format == KernelImageFormat::BzImage && kernel_data@.len() < 0x26c) ==> (
        r->Err_0 matches BootError::Memory { stage, .. } && stage == BootStage::BootParams),
{
    let mut ram = RamLog::new(mem);
    setup_boot_params_logged(&mut ram, image_format, kernel_data, cmdline_len, initrd_addr, initrd_size, mem_size)
}

/// [`setup_boot_params`] over a record of its guest-memory accesses: on
/// success the zero page of [`spec_boot_params`] was written at
/// `ZERO_PAGE_START`.
pub fn setup_boot_params_logged(
    ram: &mut RamLog,
    image_format: KernelImageFormat,
    kernel_data: &[u8],
    cmdline_len: usize,
    initrd_addr: u32,
    initrd_size: u32,
    mem_size: u64,
) -> (r: Result<(), BootError>)
    requires
        mem_size >= HIMEM_START,
        cmdline_len < usize::MAX,
    ensures
        image_format == KernelImageFormat::BzImage && kernel_data@.len() < 0x26c <==> r == Err::<
            (),
            BootError,
        >(BootError::SetupHeaderTruncated),
        r is Err && !(image_format == KernelImageFormat::BzImage && kernel_data@.len() < 0x26c) ==> (
        r->Err_0 matches BootError::Memory { stage, .. } && stage == BootStage::BootParams),
        r is Ok ==> write_seen(
            final(ram).events(),
            ZERO_PAGE_START,
            spec_boot_params(image_format, kernel_data@, cmdline_len as nat, initrd_addr, initrd_size, mem_size),
        ),
        extends(old(ram).events(), final(ram).events()),
{
    let ghost ev0 = ram.events();
    proof { lemma_extends(ev0, ev0, ev0, RamEvent { write: false, gpa: 0, len: 0, data: Seq::empty(), ok: false }); }
    let zp = build_boot_params(image_format, kernel_data, cmdline_len, initrd_addr, initrd_size, mem_size)?;
    let stored = ram.write_at(ZERO_PAGE_START, zp.as_slice());
    proof {
        lemma_extends(ev0, ev0, ev0, ram.events().last());
        assert(ram.events() =~= ev0.push(ram.events().last()));
        assert(ram.events()[ev0.len() as int].write && ram.events()[ev0.len() as int].gpa == ZERO_PAGE_START
            && ram.events()[ev0.len() as int].data == zp@);
    }
    match stored {
        Ok(()) => Ok(()),
        Err(msg) => Err(BootError::Memory { stage: BootStage::BootParams, msg }),
    }
}

// ---- ELF64 kernels -----------------------------------------------------------

/// Where and how much of a loadable segment goes into guest memory.
#[derive(Debug, Clone, Copy, PartialEq, Eq, Structural)]
pub struct LoadOp {
    /// Guest-physical load address.
    pub load_addr: u64,
    /// Offset of the segment's file data.
    pub file_offset: u64,
    /// Bytes taken from the file.
    pub filesz: u64,
    /// Bytes occupied in memory; past `filesz` they are zero (`.bss`).
    pub memsz: u64,
}

/// A segment is loaded at its physical address, but never below
/// `himem_start`.
pub open spec fn spec_load_addr(p: Elf64Phdr, himem_start: u64) -> u64 {
    if p.p_paddr >= himem_start {
        p.p_paddr
    } else {
        himem_start
    }
}

/// The placement of one program header: none for a non-loadable segment,
/// refused when the segment does not fit in guest memory.
pub fn plan_segment(p: &Elf64Phdr, himem_start: u64, mem_size: u64) -> (r: Result<Option<LoadOp>, BootError>)
    ensures
        p.p_type != 1 ==> r == Ok::<Option<LoadOp>, BootError>(None),
        p.p_type == 1 && spec_load_addr(*p, himem_start) + p.p_memsz > mem_size ==> r == Err::<
            Option<LoadOp>,
            BootError,
        >(BootError::SegmentTooLarge),
        p.p_type == 1 && spec_load_addr(*p, himem_start) + p.p_memsz <= mem_size ==> r == Ok::<
            Option<LoadOp>,
            BootError,
        >(
            Some(
                LoadOp {
                    load_addr: spec_load_addr(*p, himem_start),
                    file_offset: p.p_offset,
                    filesz: p.p_filesz,
                    memsz: p.p_memsz,
                },
            ),
        ),
{
    if !p.is_load() {
        return Ok(None);
    }
    let load_addr = if p.p_paddr >= himem_start {
        p.p_paddr
    } else {
        himem_start
    };
    match load_addr.checked_add(p.p_memsz) {
        None => Err(BootError::SegmentTooLarge),
        Some(end_addr) => {
            if end_addr > mem_size {
                Err(BootError::SegmentTooLarge)
            } else {
                Ok(Some(LoadOp { load_addr, file_offset: p.p_offset, filesz: p.p_filesz, memsz: p.p_memsz }))
            }
        },
    }
}

/// The segment's file bytes lie past the end of the image.
pub open spec fn segment_truncated(op: LoadOp, len: nat) -> bool {
    op.filesz > 0 && op.file_offset + op.filesz > len
}

/// The errors of loading ELF segments.
pub open spec fn segment_error(e: BootError) -> bool {
    ||| e == BootError::ElfTruncated
    ||| e == BootError::SegmentTooLarge
    ||| (e matches BootError::Memory { stage, .. } && (stage == BootStage::ElfSegment || stage
        == BootStage::ElfBss))
}

/// Copy a planned segment into guest memory: its file bytes, then zeros up
/// to its memory size.
pub fn load_segment(mem: &dyn GuestRam, kernel_data: &[u8], op: LoadOp) -> (r: Result<(), BootError>)
    ensures
        segment_truncated(op, kernel_data@.len()) <==> r == Err::<(), BootError>(BootError::ElfTruncated),
        r == Err::<(), BootError>(BootError::SegmentTooLarge) ==> op.memsz > op.filesz && op.memsz
            - op.filesz > usize::MAX,
        r is Err ==> segment_error(r->Err_0),
        r is Err && r->Err_0 is Memory ==> (r->Err_0->Memory_stage == BootStage::ElfSegment ==> op.filesz > 0)
            && (r->Err_0->Memory_stage == BootStage::ElfBss ==> op.memsz > op.filesz),
{
    let mut ram = RamLog::new(mem);
    load_segment_logged(&mut ram, kernel_data, op)
}

/// The segment's file bytes were written at its load address, and zeros
/// from there up to its memory size.
pub open spec fn segment_written(ev: Seq<RamEvent>, kernel: Seq<u8>, op: LoadOp) -> bool {
    &&& op.filesz > 0 ==> write_seen(
        ev,
        op.load_addr,
        kernel.subrange(op.file_offset as int, op.file_offset + op.filesz),
    )
    &&& op.memsz > op.filesz ==> write_seen(
        ev,
        vstd::wrapping::u64_specs::wrapping_add(op.load_addr, op.filesz),
        Seq::new((op.memsz - op.filesz) as nat, |i: int| 0u8),
    )
}

/// [`load_segment`] over a record of its guest-memory accesses: on
/// success the segment was written ([`segment_written`]).
pub fn load_segment_logged(ram: &mut RamLog, kernel_data: &[u8], op: LoadOp) -> (r: Result<(), BootError>)
    ensures
        segment_truncated(op, kernel_data@.len()) <==> r == Err::<(), BootError>(BootError::ElfTruncated),
        r == Err::<(), BootError>(BootError::SegmentTooLarge) ==> op.memsz > op.filesz && op.memsz
            - op.filesz > usize::MAX,
        r is Err ==> segment_error(r->Err_0),
        r is Err && r->Err_0 is Memory ==> (r->Err_0->Memory_stage == BootStage::ElfSegment ==> op.filesz > 0)
            && (r->Err_0->Memory_stage == BootStage::ElfBss ==> op.memsz > op.filesz),
        r is Ok ==> segment_written(final(ram).events(), kernel_data@, op),
        final(ram).events().len() >= old(ram).events().len(),
        final(ram).events().subrange(0, old(ram).events().len() as int) == old(ram).events(),
{
    let ghost ev0 = ram.events();
    if op.filesz > 0 {
        let len = kernel_data.len() as u64;
        if op.file_offset > len || op.filesz > len - op.file_offset {
            return Err(BootError::ElfTruncated);
        }
        let start = op.file_offset as usize;
        let end = (op.file_offset + op.filesz) as usize;
        let segment = &kernel_data[start..end];
        let ghost ev1 = ram.events();
        if let Err(msg) = ram.write_at(op.load_addr, segment) {
            assert(ram.events().subrange(0, ev0.len() as int) =~= ev0);
            return Err(BootError::Memory { stage: BootStage::ElfSegment, msg });
        }
        assert(ram.events()[ev1.len() as int].write && ram.events()[ev1.len() as int].gpa == op.load_addr
            && ram.events()[ev1.len() as int].data == segment@);
        assert(segment@ =~= kernel_data@.subrange(op.file_offset as int, op.file_offset + op.filesz));
        assert(write_seen(ram.events(), op.load_addr, kernel_data@.subrange(op.file_offset as int, op.file_offset + op.filesz)));
    }
    assert(ram.events().subrange(0, ev0.len() as int) =~= ev0);
    if op.memsz > op.filesz {
        let bss_len = op.memsz - op.filesz;
        if bss_len > usize::MAX as u64 {
            return Err(BootError::SegmentTooLarge);
        }
        let zeros = vec![0u8; bss_len as usize];
        let ghost ev2 = ram.events();
        if let Err(msg) = ram.write_at(op.load_addr.wrapping_add(op.filesz), zeros.as_slice()) {
            assert(ram.events().subrange(0, ev0.len() as int) =~= ev0);
            return Err(BootError::Memory { stage: BootStage::ElfBss, msg });
        }
        assert(zeros@ =~= Seq::new((op.memsz - op.filesz) as nat, |i: int| 0u8));
        assert(ram.events()[ev2.len() as int].write && ram.events()[ev2.len() as int].gpa
            == vstd::wrapping::u64_specs::wrapping_add(op.load_addr, op.filesz)
            && ram.events()[ev2.len() as int].data == zeros@);
        proof {
            assert(ram.events().subrange(0, ev2.len() as int) =~= ev2);
            lemma_seen_grows(ev2, ram.events());
            assert(ram.events().subrange(0, ev0.len() as int) =~= ev0);
        }
    }
    Ok(())
}


/// The ELF header of a kernel image, checked: long enough, ELF magic,
/// 64-bit class.
pub fn check_elf_header(kernel_data: &[u8]) -> (r: Result<Elf64Header, BootError>)
    ensures
        kernel_data@.len() < ELF64_HEADER_SIZE ==> r == Err::<Elf64Header, BootError>(
            BootError::ElfTruncated,
        ),
        kernel_data@.len() >= ELF64_HEADER_SIZE && kernel_data@.subrange(0, 4) != seq![0x7fu8, 0x45, 0x4c, 0x46] ==> r
            == Err::<Elf64Header, BootError>(BootError::BadElfMagic),
        kernel_data@.len() >= ELF64_HEADER_SIZE && kernel_data@.subrange(0, 4) == seq![0x7fu8, 0x45, 0x4c, 0x46]
            && kernel_data@[4] != 2 ==> r == Err::<Elf64Header, BootError>(BootError::NotElf64),
        r matches Ok(h) ==> header_fields_match(h, kernel_data@) && kernel_data@.len() >= ELF64_HEADER_SIZE
            && kernel_data@.subrange(0, 4) == seq![0x7fu8, 0x45, 0x4c, 0x46] && kernel_data@[4] == 2,
        kernel_data@.len() >= ELF64_HEADER_SIZE && kernel_data@.subrange(0, 4) == seq![0x7fu8, 0x45, 0x4c, 0x46]
            && kernel_data@[4] == 2 ==> r is Ok,
{
    if kernel_data.len() < ELF64_HEADER_SIZE {
        return Err(BootError::ElfTruncated);
    }
    let ehdr = Elf64Header::parse(kernel_data);
    let magic_ok = ehdr.e_ident_magic[0] == 0x7f && ehdr.e_ident_magic[1] == 0x45
        && ehdr.e_ident_magic[2] == 0x4c && ehdr.e_ident_magic[3] == 0x46;
    if !magic_ok {
        assert(kernel_data@.subrange(0, 4) != seq![0x7fu8, 0x45, 0x4c, 0x46]) by {
            if kernel_data@.subrange(0, 4) == seq![0x7fu8, 0x45, 0x4c, 0x46] {
                assert(ehdr.e_ident_magic@ =~= kernel_data@.subrange(0, 4));
                assert(ehdr.e_ident_magic@[0] == 0x7f);
            }
        }
        return Err(BootError::BadElfMagic);
    }
    assert(kernel_data@.subrange(0, 4) =~= seq![0x7fu8, 0x45, 0x4c, 0x46]) by {
        assert(ehdr.e_ident_magic@[0] == ehdr.e_ident_magic[0]);
    }
    if ehdr.e_ident_class != 2 {
        return Err(BootError::NotElf64);
    }
    Ok(ehdr)
}

/// Where program header `k` of the image `b` starts: `e_phoff` plus `k`
/// entries of `e_phentsize` bytes, modulo 2^64.
pub open spec fn spec_phdr_offset(b: Seq<u8>, k: int) -> u64 {
    vstd::wrapping::u64_specs::wrapping_add(le_value(b, 32, 8) as u64, (k * le_value(b, 54, 2)) as u64)
}

/// Program header `k` lies inside the image, and when it is a loadable
/// segment with file data, that data lies inside the image too.
pub open spec fn phdr_in_image(b: Seq<u8>, k: int) -> bool {
    let o = spec_phdr_offset(b, k) as int;
    &&& o + ELF64_PHDR_SIZE <= b.len()
    &&& le_value(b, o, 4) == 1 && le_value(b, o + 32, 8) > 0 ==> le_value(b, o + 8, 8) + le_value(
        b,
        o + 32,
        8,
    ) <= b.len()
}

/// The placement program header `k` of the image `b` asks for: its file
/// data, and its physical address raised to at least `himem_start`.
pub open spec fn spec_phdr_op(b: Seq<u8>, k: int, himem_start: u64) -> LoadOp {
    let o = spec_phdr_offset(b, k) as int;
    let paddr = le_value(b, o + 24, 8) as u64;
    LoadOp {
        load_addr: if paddr >= himem_start {
            paddr
        } else {
            himem_start
        },
        file_offset: le_value(b, o + 8, 8) as u64,
        filesz: le_value(b, o + 32, 8) as u64,
        memsz: le_value(b, o + 40, 8) as u64,
    }
}

/// Program header `k` was taken in: it lies in the image, and if it is a
/// loadable segment, the segment was written where it asks.
pub open spec fn phdr_loaded(ev: Seq<RamEvent>, b: Seq<u8>, k: int, himem_start: u64) -> bool {
    &&& phdr_in_image(b, k)
    &&& le_value(b, spec_phdr_offset(b, k) as int, 4) == 1 ==> segment_written(ev, b, spec_phdr_op(b, k, himem_start))
}

/// What was loaded stays loaded once more accesses follow.
proof fn lemma_loaded_grows(ev1: Seq<RamEvent>, ev2: Seq<RamEvent>, b: Seq<u8>, himem_start: u64, n: int)
    requires
        ev1.len() <= ev2.len(),
        ev2.subrange(0, ev1.len() as int) == ev1,
    ensures
        forall|k: int| 0 <= k < n && #[trigger] phdr_loaded(ev1, b, k, himem_start) ==> phdr_loaded(ev2, b, k, himem_start),
{
    lemma_seen_grows(ev1, ev2);
    assert forall|k: int| 0 <= k < n && #[trigger] phdr_loaded(ev1, b, k, himem_start) implies phdr_loaded(ev2, b, k, himem_start) by {
        let op = spec_phdr_op(b, k, himem_start);
        if le_value(b, spec_phdr_offset(b, k) as int, 4) == 1 {
            if op.filesz > 0 {
                assert(write_seen(ev1, op.load_addr, b.subrange(op.file_offset as int, op.file_offset + op.filesz)));
            }
            if op.memsz > op.filesz {
                assert(write_seen(
                    ev1,
                    vstd::wrapping::u64_specs::wrapping_add(op.load_addr, op.filesz),
                    Seq::new((op.memsz - op.filesz) as nat, |i: int| 0u8),
                ));
            }
        }
    }
}

/// Load an ELF64 kernel: every loadable segment at its physical address
/// (at least `himem_start`), with its `.bss` zeroed. Returns the entry
/// point. Success means every one of the `e_phnum` program headers was
/// taken in: each lies in the image, and so does each loadable segment's
/// file data.
pub fn load_elf_kernel(mem: &dyn GuestRam, kernel_data: &[u8], himem_start: u64) -> (r: Result<u64, BootError>)
    ensures
        kernel_data@.len() < ELF64_HEADER_SIZE ==> r == Err::<u64, BootError>(BootError::ElfTruncated),
        kernel_data@.len() >= ELF64_HEADER_SIZE && kernel_data@.subrange(0, 4) != seq![0x7fu8, 0x45, 0x4c, 0x46] <==> r
            == Err::<u64, BootError>(BootError::BadElfMagic),
        kernel_data@.len() >= ELF64_HEADER_SIZE && kernel_data@.subrange(0, 4) == seq![0x7fu8, 0x45, 0x4c, 0x46]
            && kernel_data@[4] != 2 <==> r == Err::<u64, BootError>(BootError::NotElf64),
        r is Err ==> r == Err::<u64, BootError>(BootError::BadElfMagic) || r == Err::<u64, BootError>(
            BootError::NotElf64,
        ) || segment_error(r->Err_0),
        r matches Ok(entry) ==> kernel_data@.len() >= ELF64_HEADER_SIZE && entry == le_value(kernel_data@, 24, 8),
        r is Ok ==> forall|k: int| 0 <= k < le_value(kernel_data@, 56, 2) ==> #[trigger] phdr_in_image(kernel_data@, k),
{
    let mut ram = RamLog::new(mem);
    let r = load_elf_kernel_logged(&mut ram, kernel_data, himem_start);
    proof {
        if r is Ok {
            assert forall|k: int| 0 <= k < le_value(kernel_data@, 56, 2) implies #[trigger] phdr_in_image(kernel_data@, k) by {
                assert(phdr_loaded(ram.events(), kernel_data@, k, himem_start));
            }
        }
    }
    r
}

/// [`load_elf_kernel`] over a record of its guest-memory accesses: on
/// success every program header was taken in, each loadable segment
/// written where it asks ([`phdr_loaded`]).
#[verifier::rlimit(40)]
pub fn load_elf_kernel_logged(ram: &mut RamLog, kernel_data: &[u8], himem_start: u64) -> (r: Result<u64, BootError>)
    ensures
        kernel_data@.len() < ELF64_HEADER_SIZE ==> r == Err::<u64, BootError>(BootError::ElfTruncated),
        kernel_data@.len() >= ELF64_HEADER_SIZE && kernel_data@.subrange(0, 4) != seq![0x7fu8, 0x45, 0x4c, 0x46] <==> r
            == Err::<u64, BootError>(BootError::BadElfMagic),
        kernel_data@.len() >= ELF64_HEADER_SIZE && kernel_data@.subrange(0, 4) == seq![0x7fu8, 0x45, 0x4c, 0x46]
            && kernel_data@[4] != 2 <==> r == Err::<u64, BootError>(BootError::NotElf64),
        r is Err ==> r == Err::<u64, BootError>(BootError::BadElfMagic) || r == Err::<u64, BootError>(
            BootError::NotElf64,
        ) || segment_error(r->Err_0),
        r matches Ok(entry) ==> kernel_data@.len() >= ELF64_HEADER_SIZE && entry == le_value(kernel_data@, 24, 8),
        r is Ok ==> forall|k: int| 0 <= k < le_value(kernel_data@, 56, 2) ==> #[trigger] phdr_in_image(kernel_data@, k),
        r is Ok ==> forall|k: int| 0 <= k < le_value(kernel_data@, 56, 2) ==> #[trigger] phdr_loaded(final(ram).events(), kernel_data@, k, himem_start),
        final(ram).events().len() >= old(ram).events().len(),
        final(ram).events().subrange(0, old(ram).events().len() as int) == old(ram).events(),
{
    let ehdr = match check_elf_header(kernel_data) {
        Ok(h) => h,
        Err(e) => {
            assert(ram.events().subrange(0, ram.events().len() as int) =~= ram.events());
            return Err(e);
        },
    };
    let mem_size = ram.size();
    let ghost ev0 = ram.events();
    let mut i: u16 = 0;
    while i < ehdr.e_phnum
        invariant
            header_fields_match(ehdr, kernel_data@),
            kernel_data@.len() >= ELF64_HEADER_SIZE,
            kernel_data@.subrange(0, 4) == seq![0x7fu8, 0x45, 0x4c, 0x46],
            kernel_data@[4] == 2,
            i <= ehdr.e_phnum,
            forall|k: int| 0 <= k < i ==> #[trigger] phdr_loaded(ram.events(), kernel_data@, k, himem_start),
            ram.events().len() >= ev0.len(),
            ram.events().subrange(0, ev0.len() as int) == ev0,
            ev0 == old(ram).events(),
        decreases ehdr.e_phnum - i,
    {
        let a = i as u64;
        let b = ehdr.e_phentsize as u64;
        assert(a * b < 0x1_0000_0000) by (nonlinear_arith)
            requires
                a < 0x1_0000,
                b < 0x1_0000,
        ;
        let phdr_offset = ehdr.e_phoff.wrapping_add(a * b);
        let len = kernel_data.len() as u64;
        if phdr_offset > len || (ELF64_PHDR_SIZE as u64) > len - phdr_offset {
            return Err(BootError::ElfTruncated);
        }
        let phdr = Elf64Phdr::parse(kernel_data, phdr_offset as usize);
        assert(phdr_offset == spec_phdr_offset(kernel_data@, i as int));
        let ghost ev_i = ram.events();
        match plan_segment(&phdr, himem_start, mem_size)? {
            None => {},
            Some(op) => {
                assert(op == spec_phdr_op(kernel_data@, i as int, himem_start));
                let loaded = load_segment_logged(ram, kernel_data, op);
                if let Err(e) = loaded {
                    assert(ram.events().subrange(0, ev0.len() as int) =~= ev0);
                    return Err(e);
                }
            },
        }
        proof {
            assert(ram.events().subrange(0, ev_i.len() as int) =~= ev_i);
            lemma_loaded_grows(ev_i, ram.events(), kernel_data@, himem_start, i as int);
            assert(ram.events().subrange(0, ev0.len() as int) =~= ev0);
        }
        assert(phdr_loaded(ram.events(), kernel_data@, i as int, himem_start));
        assert forall|k: int| 0 <= k < i + 1 implies #[trigger] phdr_loaded(ram.events(), kernel_data@, k, himem_start) by {
            if k < i {
                assert(phdr_loaded(ev_i, kernel_data@, k, himem_start));
            }
        }
        i = i + 1;
    }
    proof {
        assert forall|k: int| 0 <= k < le_value(kernel_data@, 56, 2) implies #[trigger] phdr_in_image(kernel_data@, k) by {
            assert(phdr_loaded(ram.events(), kernel_data@, k, himem_start));
        }
    }
    Ok(ehdr.e_entry)
}

// ---- initial ramdisk and the whole load -------------------------------------

/// Place the initial ramdisk (if any) at `INITRAMFS_ADDR`; returns its
/// address and size for the boot protocol, `(0, 0)` without one.
pub fn load_initrd(mem: &dyn GuestRam, initrd: Option<&[u8]>) -> (r: Result<(u32, u32), BootError>)
    ensures
        initrd is None ==> r == Ok::<(u32, u32), BootError>((0, 0)),
        (initrd matches Some(d) && d@.len() > u32::MAX) <==> r == Err::<(u32, u32), BootError>(
            BootError::InitrdTooLarge,
        ),
        initrd matches Some(d) ==> (r matches Ok(v) ==> v == (INITRAMFS_ADDR as u32, d@.len() as u32)),
        r is Err && r != Err::<(u32, u32), BootError>(BootError::InitrdTooLarge) ==> (r->Err_0 matches BootError::Memory {
            stage,
            ..
        } && stage == BootStage::Initrd),
{
    let mut ram = RamLog::new(mem);
    load_initrd_logged(&mut ram, initrd)
}

/// [`load_initrd`] over a record of its guest-memory accesses: on success
/// the ramdisk, if any, was written at `INITRAMFS_ADDR`.
pub fn load_initrd_logged(ram: &mut RamLog, initrd: Option<&[u8]>) -> (r: Result<(u32, u32), BootError>)
    ensures
        initrd is None ==> r == Ok::<(u32, u32), BootError>((0, 0)),
        (initrd matches Some(d) && d@.len() > u32::MAX) <==> r == Err::<(u32, u32), BootError>(
            BootError::InitrdTooLarge,
        ),
        initrd matches Some(d) ==> (r matches Ok(v) ==> v == (INITRAMFS_ADDR as u32, d@.len() as u32)),
        r is Err && r != Err::<(u32, u32), BootError>(BootError::InitrdTooLarge) ==> (r->Err_0 matches BootError::Memory {
            stage,
            ..
        } && stage == BootStage::Initrd),
        r is Ok && initrd is Some ==> write_seen(final(ram).events(), INITRAMFS_ADDR, initrd->Some_0@),
        extends(old(ram).events(), final(ram).events()),
{
    let ghost ev0 = ram.events();
    proof { lemma_extends(ev0, ev0, ev0, RamEvent { write: false, gpa: 0, len: 0, data: Seq::empty(), ok: false }); }
    match initrd {
        None => Ok((0, 0)),
        Some(content) => {
            if content.len() as u64 > u32::MAX as u64 {
                return Err(BootError::InitrdTooLarge);
            }
            let initrd_size = content.len() as u32;
            let stored = ram.write_at(INITRAMFS_ADDR, content);
            proof {
                lemma_extends(ev0, ev0, ev0, ram.events().last());
                assert(ram.events() =~= ev0.push(ram.events().last()));
                assert(ram.events()[ev0.len() as int].write && ram.events()[ev0.len() as int].gpa == INITRAMFS_ADDR
                    && ram.events()[ev0.len() as int].data == content@);
            }
            match stored {
                Ok(()) => Ok((INITRAMFS_ADDR as u32, initrd_size)),
                Err(msg) => Err(BootError::Memory { stage: BootStage::Initrd, msg }),
            }
        },
    }
}

/// Load a kernel image and prepare the vCPU to enter it: detect the format,
/// place the bzImage payload at 1 MiB or the ELF segments, the initial
/// ramdisk, the zero page and the command line, then set the general
/// registers and protected mode (bzImage) or long mode (ELF).
pub fn load_kernel(
    mem: &dyn GuestRam,
    vcpu: &dyn Vcpu,
    kernel_data: &[u8],
    cmdline: &[u8],
    initrd: Option<&[u8]>,
) -> (r: Result<(), BootError>)
    requires
        spec_is_elf64(kernel_data@) || kernel_data@.len() >= 0x208,
        cmdline@.len() < usize::MAX,
    ensures
        !spec_is_elf64(kernel_data@) && !spec_is_bzimage(kernel_data@) ==> r == Err::<(), BootError>(
            BootError::UnsupportedFormat,
        ),
        !spec_is_elf64(kernel_data@) && spec_is_bzimage(kernel_data@) && spec_payload_offset(kernel_data@)
            >= kernel_data@.len() ==> r == Err::<(), BootError>(
            BootError::PayloadOffset {
                offset: spec_payload_offset(kernel_data@) as usize,
                size: kernel_data@.len() as usize,
            },
        ),
        r == Err::<(), BootError>(BootError::UnsupportedFormat) ==> !spec_is_elf64(kernel_data@)
            && !spec_is_bzimage(kernel_data@),
        r matches Err(BootError::PayloadOffset { .. }) ==> !spec_is_elf64(kernel_data@) && spec_is_bzimage(
            kernel_data@,
        ) && spec_payload_offset(kernel_data@) >= kernel_data@.len(),
        r is Err ==> r != Err::<(), BootError>(BootError::BadElfMagic) && r != Err::<(), BootError>(
            BootError::NotElf64,
        ),
        r == Err::<(), BootError>(BootError::ElfTruncated) || r == Err::<(), BootError>(
            BootError::SegmentTooLarge,
        ) ==> spec_is_elf64(kernel_data@),
        r == Err::<(), BootError>(BootError::InitrdTooLarge) ==> (initrd matches Some(d) && d@.len()
            > u32::MAX),
        (initrd matches Some(d) && d@.len() > u32::MAX) ==> r is Err,
        r == Err::<(), BootError>(BootError::SetupHeaderTruncated) ==> !spec_is_elf64(kernel_data@)
            && kernel_data@.len() < 0x26c,
        r matches Err(BootError::CmdlineTooLong { len }) ==> cmdline@.len() + 1 > CMDLINE_MAX && len
            == cmdline@.len() + 1,
        cmdline@.len() + 1 > CMDLINE_MAX ==> r is Err,
        r matches Err(BootError::Memory { stage, .. }) ==> (stage == BootStage::KernelPayload
            ==> !spec_is_elf64(kernel_data@)) && (stage == BootStage::ElfSegment || stage
            == BootStage::ElfBss || stage == BootStage::GdtEntry || stage == BootStage::Pml4 || stage
            == BootStage::Pdpte || stage == BootStage::PdEntry ==> spec_is_elf64(kernel_data@)),
        r matches Err(BootError::Vcpu { stage, .. }) ==> stage == BootStage::GetRegs || stage
            == BootStage::SetRegs || stage == BootStage::GetSregs || stage == BootStage::SetSregs,
{
    let mut ram = RamLog::new(mem);
    let mut log = VcpuLog::new(vcpu);
    load_kernel_logged(&mut ram, &mut log, kernel_data, cmdline, initrd)
}

/// The format a loadable image is taken as: ELF64 when it has the ELF64
/// header, a bzImage otherwise.
pub open spec fn spec_image_format(kernel: Seq<u8>) -> KernelImageFormat {
    if spec_is_elf64(kernel) {
        KernelImageFormat::Elf64
    } else {
        KernelImageFormat::BzImage
    }
}

/// The address and size of the initial ramdisk as the zero page reports
/// them.
pub open spec fn spec_initrd_place(initrd: Option<&[u8]>) -> (u32, u32) {
    match initrd {
        None => (0, 0),
        Some(d) => (INITRAMFS_ADDR as u32, d@.len() as u32),
    }
}

/// What a successful load leaves in guest memory and on the vCPU, as the
/// records `ev` (guest memory) and `vev` (vCPU calls, from position `o`)
/// show: the kernel (the bzImage payload at `HIMEM_START`, or every ELF
/// program header taken in and the long-mode tables), the ramdisk, the
/// zero page, the command line; then the general registers set for the
/// kernel's entry point and the special registers converted for the mode.
pub open spec fn kernel_loaded(
    ev: Seq<RamEvent>,
    vev: Seq<VcpuEvent>,
    o: int,
    kernel: Seq<u8>,
    cmdline: Seq<u8>,
    initrd: Option<&[u8]>,
) -> bool {
    let elf = spec_is_elf64(kernel);
    let format = spec_image_format(kernel);
    let (ia, is) = spec_initrd_place(initrd);
    &&& write_seen(ev, CMDLINE_ADDR, cmdline.push(0))
    &&& initrd is Some ==> write_seen(ev, INITRAMFS_ADDR, initrd->Some_0@)
    &&& exists|ms: u64|
        ms >= HIMEM_START && #[trigger] write_seen(
            ev,
            ZERO_PAGE_START,
            spec_boot_params(format, kernel, cmdline.len(), ia, is, ms),
        )
    &&& vev.len() == o + 4
    &&& elf ==> (forall|k: int| 0 <= k < le_value(kernel, 56, 2) ==> #[trigger] phdr_loaded(ev, kernel, k, HIMEM_START))
        && tables_written(ev) && regs_set_for_entry(vev, o, le_value(kernel, 24, 8) as u64) && sregs_converted(
        vev,
        o + 2,
        true,
    )
    &&& !elf ==> write_seen(ev, HIMEM_START, kernel.subrange(spec_payload_offset(kernel), kernel.len() as int))
        && regs_set_for_entry(vev, o, HIMEM_START) && sregs_converted(vev, o + 2, false)
}

/// [`load_kernel`] over records of its guest-memory accesses and vCPU
/// calls: on success everything was placed and set as [`kernel_loaded`]
/// says.
#[verifier::rlimit(40)]
pub fn load_kernel_logged(
    ram: &mut RamLog,
    vcpu: &mut VcpuLog,
    kernel_data: &[u8],
    cmdline: &[u8],
    initrd: Option<&[u8]>,
) -> (r: Result<(), BootError>)
    requires
        spec_is_elf64(kernel_data@) || kernel_data@.len() >= 0x208,
        cmdline@.len() < usize::MAX,
    ensures
        !spec_is_elf64(kernel_data@) && !spec_is_bzimage(kernel_data@) ==> r == Err::<(), BootError>(
            BootError::UnsupportedFormat,
        ),
        !spec_is_elf64(kernel_data@) && spec_is_bzimage(kernel_data@) && spec_payload_offset(kernel_data@)
            >= kernel_data@.len() ==> r == Err::<(), BootError>(
            BootError::PayloadOffset {
                offset: spec_payload_offset(kernel_data@) as usize,
                size: kernel_data@.len() as usize,
            },
        ),
        r == Err::<(), BootError>(BootError::UnsupportedFormat) ==> !spec_is_elf64(kernel_data@)
            && !spec_is_bzimage(kernel_data@),
        r matches Err(BootError::PayloadOffset { .. }) ==> !spec_is_elf64(kernel_data@) && spec_is_bzimage(
            kernel_data@,
        ) && spec_payload_offset(kernel_data@) >= kernel_data@.len(),
        r is Err ==> r != Err::<(), BootError>(BootError::BadElfMagic) && r != Err::<(), BootError>(
            BootError::NotElf64,
        ),
        r == Err::<(), BootError>(BootError::ElfTruncated) || r == Err::<(), BootError>(
            BootError::SegmentTooLarge,
        ) ==> spec_is_elf64(kernel_data@),
        r == Err::<(), BootError>(BootError::InitrdTooLarge) ==> (initrd matches Some(d) && d@.len()
            > u32::MAX),
        (initrd matches Some(d) && d@.len() > u32::MAX) ==> r is Err,
        r == Err::<(), BootError>(BootError::SetupHeaderTruncated) ==> !spec_is_elf64(kernel_data@)
            && kernel_data@.len() < 0x26c,
        r matches Err(BootError::CmdlineTooLong { len }) ==> cmdline@.len() + 1 > CMDLINE_MAX && len
            == cmdline@.len() + 1,
        cmdline@.len() + 1 > CMDLINE_MAX ==> r is Err,
        r matches Err(BootError::Memory { stage, .. }) ==> (stage == BootStage::KernelPayload
            ==> !spec_is_elf64(kernel_data@)) && (stage == BootStage::ElfSegment || stage
            == BootStage::ElfBss || stage == BootStage::GdtEntry || stage == BootStage::Pml4 || stage
            == BootStage::Pdpte || stage == BootStage::PdEntry ==> spec_is_elf64(kernel_data@)),
        r matches Err(BootError::Vcpu { stage, .. }) ==> stage == BootStage::GetRegs || stage
            == BootStage::SetRegs || stage == BootStage::GetSregs || stage == BootStage::SetSregs,
        r is Ok ==> kernel_loaded(
            final(ram).events(),
            final(vcpu).events(),
            old(vcpu).events().len() as int,
            kernel_data@,
            cmdline@,
            initrd,
        ),
        extends(old(ram).events(), final(ram).events()),
        extends(old(vcpu).events(), final(vcpu).events()),
{
    let ghost ev0 = ram.events();
    let ghost vev0 = vcpu.events();
    proof {
        lemma_extends(ev0, ev0, ev0, RamEvent { write: false, gpa: 0, len: 0, data: Seq::empty(), ok: false });
        lemma_extends(vev0, vev0, vev0, VcpuEvent::GetRegs(None));
    }
    let kernel_format = detect_kernel_image_format(kernel_data)?;
    let kernel_entry = match kernel_format {
        KernelImageFormat::BzImage => {
            let payload_offset = bzimage_payload_offset(kernel_data)?;
            let payload = &kernel_data[payload_offset..kernel_data.len()];
            let stored = ram.write_at(HIMEM_START, payload);
            proof {
                lemma_extends(ev0, ev0, ev0, ram.events().last());
                assert(ram.events() =~= ev0.push(ram.events().last()));
                assert(ram.events()[ev0.len() as int].write && ram.events()[ev0.len() as int].gpa == HIMEM_START
                    && ram.events()[ev0.len() as int].data == payload@);
                assert(payload@ =~= kernel_data@.subrange(spec_payload_offset(kernel_data@), kernel_data@.len() as int));
            }
            if let Err(msg) = stored {
                return Err(BootError::Memory { stage: BootStage::KernelPayload, msg });
            }
            HIMEM_START
        },
        KernelImageFormat::Elf64 => {
            assert(kernel_data@.subrange(0, 4) =~= seq![0x7fu8, 0x45, 0x4c, 0x46]);
            load_elf_kernel_logged(ram, kernel_data, HIMEM_START)?
        },
    };
    let ghost ev1 = ram.events();
    proof {
        lemma_extends(ev0, ev1, ev1, RamEvent { write: false, gpa: 0, len: 0, data: Seq::empty(), ok: false });
        lemma_extends(ev1, ev1, ev1, RamEvent { write: false, gpa: 0, len: 0, data: Seq::empty(), ok: false });
    }
    let placed_initrd = load_initrd_logged(ram, initrd);
    let ghost ev2 = ram.events();
    let (initrd_addr, initrd_size) = match placed_initrd {
        Ok(v) => v,
        Err(e) => {
            proof { lemma_extends(ev0, ev1, ev2, RamEvent { write: false, gpa: 0, len: 0, data: Seq::empty(), ok: false }); }
            return Err(e);
        },
    };
    let mem_size = ram.size();
    if mem_size < HIMEM_START {
        proof { lemma_extends(ev0, ev1, ev2, RamEvent { write: false, gpa: 0, len: 0, data: Seq::empty(), ok: false }); }
        return Err(BootError::MemoryTooSmall);
    }
    let setup = setup_boot_params_logged(ram, kernel_format, kernel_data, cmdline.len(), initrd_addr, initrd_size, mem_size);
    let ghost ev3 = ram.events();
    proof {
        lemma_extends(ev0, ev1, ev2, RamEvent { write: false, gpa: 0, len: 0, data: Seq::empty(), ok: false });
        lemma_extends(ev0, ev2, ev3, RamEvent { write: false, gpa: 0, len: 0, data: Seq::empty(), ok: false });
    }
    if let Err(e) = setup {
        return Err(e);
    }
    let placed = setup_cmdline_logged(ram, cmdline);
    let ghost ev4 = ram.events();
    proof {
        lemma_extends(ev0, ev3, ev4, RamEvent { write: false, gpa: 0, len: 0, data: Seq::empty(), ok: false });
    }
    if let Err(e) = placed {
        return Err(e);
    }
    let regs = setup_general_registers_logged(vcpu, kernel_entry);
    let ghost vev1 = vcpu.events();
    if let Err(e) = regs {
        return Err(e);
    }
    let r = match kernel_format {
        KernelImageFormat::BzImage => setup_protected_mode_logged(vcpu),
        KernelImageFormat::Elf64 => setup_long_mode_logged(vcpu, ram),
    };
    let ghost ev5 = ram.events();
    let ghost vev2 = vcpu.events();
    proof {
        lemma_extends(ev0, ev4, ev5, RamEvent { write: false, gpa: 0, len: 0, data: Seq::empty(), ok: false });
        lemma_extends(vev0, vev1, vev2, VcpuEvent::GetRegs(None));
        lemma_extends(ev4, ev4, ev4, RamEvent { write: false, gpa: 0, len: 0, data: Seq::empty(), ok: false });
        if r is Ok {
            // Each earlier piece stays in the records that followed it.
            lemma_extends(ev1, ev2, ev3, RamEvent { write: false, gpa: 0, len: 0, data: Seq::empty(), ok: false });
            lemma_extends(ev1, ev3, ev4, RamEvent { write: false, gpa: 0, len: 0, data: Seq::empty(), ok: false });
            lemma_extends(ev1, ev4, ev5, RamEvent { write: false, gpa: 0, len: 0, data: Seq::empty(), ok: false });
            lemma_extends(ev2, ev3, ev4, RamEvent { write: false, gpa: 0, len: 0, data: Seq::empty(), ok: false });
            lemma_extends(ev2, ev4, ev5, RamEvent { write: false, gpa: 0, len: 0, data: Seq::empty(), ok: false });
            lemma_extends(ev3, ev4, ev5, RamEvent { write: false, gpa: 0, len: 0, data: Seq::empty(), ok: false });
            lemma_seen_grows(ev1, ev5);
            lemma_seen_grows(ev2, ev5);
            lemma_seen_grows(ev3, ev5);
            lemma_seen_grows(ev4, ev5);
            lemma_extends_index(vev1, vev2);
            let (ia, is) = spec_initrd_place(initrd);
            assert(ia == initrd_addr && is == initrd_size);
            assert(write_seen(ev3, ZERO_PAGE_START, spec_boot_params(kernel_format, kernel_data@, cmdline@.len(), ia, is, mem_size)));
            assert(write_seen(ev5, ZERO_PAGE_START, spec_boot_params(kernel_format, kernel_data@, cmdline@.len(), ia, is, mem_size)));
            if initrd is Some {
                assert(write_seen(ev2, INITRAMFS_ADDR, initrd->Some_0@));
            }
            assert(write_seen(ev4, CMDLINE_ADDR, cmdline@.push(0)));
            assert(regs_set_for_entry(vev1, vev0.len() as int, kernel_entry));
            assert(vev2[vev0.len() as int] == vev1[vev0.len() as int]);
            assert(vev2[vev0.len() as int + 1] == vev1[vev0.len() as int + 1]);
            if spec_is_elf64(kernel_data@) {
                lemma_loaded_grows(ev1, ev5, kernel_data@, HIMEM_START, le_value(kernel_data@, 56, 2) as int);
                assert forall|k: int| 0 <= k < le_value(kernel_data@, 56, 2) implies #[trigger] phdr_loaded(ev5, kernel_data@, k, HIMEM_START) by {
                    assert(phdr_loaded(ev1, kernel_data@, k, HIMEM_START));
                }
            } else {
                assert(write_seen(ev0.push(ev1.last()), HIMEM_START, kernel_data@.subrange(spec_payload_offset(kernel_data@), kernel_data@.len() as int)));
            }
            let format = spec_image_format(kernel_data@);
            assert(format == kernel_format);
            assert(write_seen(ev5, CMDLINE_ADDR, cmdline@.push(0)));
            assert(initrd is Some ==> write_seen(ev5, INITRAMFS_ADDR, initrd->Some_0@));
            assert(mem_size >= HIMEM_START);
            assert(exists|ms: u64|
                ms >= HIMEM_START && #[trigger] write_seen(
                    ev5,
                    ZERO_PAGE_START,
                    spec_boot_params(format, kernel_data@, cmdline@.len(), ia, is, ms),
                ));
            assert(vev2.len() == vev0.len() + 4);
            if spec_is_elf64(kernel_data@) {
                assert(tables_written(ev5));
                assert(regs_set_for_entry(vev2, vev0.len() as int, le_value(kernel_data@, 24, 8) as u64));
                assert(sregs_converted(vev2, vev0.len() as int + 2, true));
            } else {
                assert(write_seen(ev5, HIMEM_START, kernel_data@.subrange(spec_payload_offset(kernel_data@), kernel_data@.len() as int)));
                assert(regs_set_for_entry(vev2, vev0.len() as int, HIMEM_START));
                assert(sregs_converted(vev2, vev0.len() as int + 2, false));
            }
            assert(kernel_loaded(ev5, vev2, vev0.len() as int, kernel_data@, cmdline@, initrd));
        }
    }
    r
}

} // verus!
