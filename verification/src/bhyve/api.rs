//! The bhyve (illumos vmm) ABI as exit handling and register access read
//! it: register names, segment descriptors, exit records, request numbers.
use vstd::prelude::*;

use crate::traits::{Dtable, Segment, VcpuSregs};

verus! {

pub const VMM_CURRENT_INTERFACE_VERSION: i32 = 18;

/// Request number bases: `('V' << 16) | ('M' << 8)` and so on.
pub const VMMCTL_IOC_BASE: u32 = 0x0056_4d00;
pub const VMM_IOC_BASE: u32 = 0x0076_6d00;
pub const VMM_LOCK_IOC_BASE: u32 = 0x0076_6c00;
pub const VMM_CPU_IOC_BASE: u32 = 0x0076_7000;

/// The request bases spell their two ASCII letters.
pub proof fn lemma_ioc_bases()
    ensures
        VMMCTL_IOC_BASE == ((('V' as u32) << 16u32) | (('M' as u32) << 8u32)),
        VMM_IOC_BASE == ((('v' as u32) << 16u32) | (('m' as u32) << 8u32)),
        VMM_LOCK_IOC_BASE == ((('v' as u32) << 16u32) | (('l' as u32) << 8u32)),
        VMM_CPU_IOC_BASE == ((('v' as u32) << 16u32) | (('p' as u32) << 8u32)),
{
    assert(('V' as u32) == 0x56 && ('M' as u32) == 0x4d && ('v' as u32) == 0x76 && ('m' as u32)
        == 0x6d && ('l' as u32) == 0x6c && ('p' as u32) == 0x70);
    assert(0x0056_4d00u32 == ((0x56u32 << 16u32) | (0x4du32 << 8u32)) && 0x0076_6d00u32 == ((0x76u32
        << 16u32) | (0x6du32 << 8u32)) && 0x0076_6c00u32 == ((0x76u32 << 16u32) | (0x6cu32 << 8u32))
        && 0x0076_7000u32 == ((0x76u32 << 16u32) | (0x70u32 << 8u32))) by (bit_vector);
}

// Operations on the vmmctl device.
pub const VMM_CREATE_VM: u32 = VMMCTL_IOC_BASE | 0x01;
pub const VMM_DESTROY_VM: u32 = VMMCTL_IOC_BASE | 0x02;
pub const VMM_VM_SUPPORTED: u32 = VMMCTL_IOC_BASE | 0x03;
pub const VMM_INTERFACE_VERSION: u32 = VMMCTL_IOC_BASE | 0x04;
pub const VMM_CHECK_IOMMU: u32 = VMMCTL_IOC_BASE | 0x05;
pub const VMM_RESV_QUERY: u32 = VMMCTL_IOC_BASE | 0x10;
pub const VMM_RESV_SET_TARGET: u32 = VMMCTL_IOC_BASE | 0x11;

// Operations in the context of a vCPU.
pub const VM_RUN: u32 = VMM_CPU_IOC_BASE | 0x01;
pub const VM_SET_REGISTER: u32 = VMM_CPU_IOC_BASE | 0x02;
pub const VM_GET_REGISTER: u32 = VMM_CPU_IOC_BASE | 0x03;
pub const VM_SET_SEGMENT_DESCRIPTOR: u32 = VMM_CPU_IOC_BASE | 0x04;
pub const VM_GET_SEGMENT_DESCRIPTOR: u32 = VMM_CPU_IOC_BASE | 0x05;
pub const VM_SET_REGISTER_SET: u32 = VMM_CPU_IOC_BASE | 0x06;
pub const VM_GET_REGISTER_SET: u32 = VMM_CPU_IOC_BASE | 0x07;
pub const VM_INJECT_EXCEPTION: u32 = VMM_CPU_IOC_BASE | 0x08;
pub const VM_SET_CAPABILITY: u32 = VMM_CPU_IOC_BASE | 0x09;
pub const VM_GET_CAPABILITY: u32 = VMM_CPU_IOC_BASE | 0x0a;
pub const VM_GLA2GPA: u32 = VMM_CPU_IOC_BASE | 0x0e;
pub const VM_GLA2GPA_NOFAULT: u32 = VMM_CPU_IOC_BASE | 0x0f;
pub const VM_ACTIVATE_CPU: u32 = VMM_CPU_IOC_BASE | 0x10;
pub const VM_RESET_CPU: u32 = VMM_CPU_IOC_BASE | 0x16;
pub const VM_GET_RUN_STATE: u32 = VMM_CPU_IOC_BASE | 0x17;
pub const VM_SET_RUN_STATE: u32 = VMM_CPU_IOC_BASE | 0x18;

// Operations write-locking the VM.
pub const VM_ALLOC_MEMSEG: u32 = VMM_LOCK_IOC_BASE | 0x05;
pub const VM_MMAP_MEMSEG: u32 = VMM_LOCK_IOC_BASE | 0x06;

// Other operations.
pub const VM_ISA_ASSERT_IRQ: u32 = VMM_IOC_BASE | 0x0a;
pub const VM_ISA_DEASSERT_IRQ: u32 = VMM_IOC_BASE | 0x0b;
pub const VM_ISA_PULSE_IRQ: u32 = VMM_IOC_BASE | 0x0c;

pub const VM_MAX_NAMELEN: usize = 128;
pub const VM_MAX_SEG_NAMELEN: usize = 128;

/// The NUL-terminated name field of a create or destroy request: the name
/// cut to `VM_MAX_NAMELEN - 1` bytes, the rest zero.
pub open spec fn spec_vm_name_field(name: Seq<u8>) -> Seq<u8> {
    Seq::new(
        VM_MAX_NAMELEN as nat,
        |i: int|
            if i < name.len() && i < VM_MAX_NAMELEN - 1 {
                name[i]
            } else {
                0u8
            },
    )
}

pub fn vm_name_field(name: &[u8]) -> (r: Vec<u8>)
    ensures
        r@ == spec_vm_name_field(name@),
{
    let mut r: Vec<u8> = Vec::new();
    let mut i: usize = 0;
    while i < VM_MAX_NAMELEN
        invariant
            i <= VM_MAX_NAMELEN,
            r@ == spec_vm_name_field(name@).subrange(0, i as int),
        decreases VM_MAX_NAMELEN - i,
    {
        if i < name.len() && i < VM_MAX_NAMELEN - 1 {
            r.push(name[i]);
        } else {
            r.push(0);
        }
        i = i + 1;
        assert(r@ =~= spec_vm_name_field(name@).subrange(0, i as int));
    }
    assert(r@ =~= spec_vm_name_field(name@));
    r
}

/// Register names of the vCPU register requests.
#[derive(Clone, Copy, Debug, PartialEq, Eq, Structural)]
pub enum VmRegName {
    Rax,
    Rbx,
    Rcx,
    Rdx,
    Rsi,
    Rdi,
    Rbp,
    R8,
    R9,
    R10,
    R11,
    R12,
    R13,
    R14,
    R15,
    Cr0,
    Cr3,
    Cr4,
    Dr7,
    Rsp,
    Rip,
    Rflags,
    Es,
    Cs,
    Ss,
    Ds,
    Fs,
    Gs,
    Ldtr,
    Tr,
    Idtr,
    Gdtr,
    Efer,
    Cr2,
    Pdpte0,
    Pdpte1,
    Pdpte2,
    Pdpte3,
    IntrShadow,
    Dr0,
    Dr1,
    Dr2,
    Dr3,
    Dr6,
    EntryInstLength,
    Xcr0,
    Last,
}

impl VmRegName {
    pub open spec fn spec_code(self) -> i32 {
        match self {
            VmRegName::Rax => 0,
            VmRegName::Rbx => 1,
            VmRegName::Rcx => 2,
            VmRegName::Rdx => 3,
            VmRegName::Rsi => 4,
            VmRegName::Rdi => 5,
            VmRegName::Rbp => 6,
            VmRegName::R8 => 7,
            VmRegName::R9 => 8,
            VmRegName::R10 => 9,
            VmRegName::R11 => 10,
            VmRegName::R12 => 11,
            VmRegName::R13 => 12,
            VmRegName::R14 => 13,
            VmRegName::R15 => 14,
            VmRegName::Cr0 => 15,
            VmRegName::Cr3 => 16,
            VmRegName::Cr4 => 17,
            VmRegName::Dr7 => 18,
            VmRegName::Rsp => 19,
            VmRegName::Rip => 20,
            VmRegName::Rflags => 21,
            VmRegName::Es => 22,
            VmRegName::Cs => 23,
            VmRegName::Ss => 24,
            VmRegName::Ds => 25,
            VmRegName::Fs => 26,
            VmRegName::Gs => 27,
            VmRegName::Ldtr => 28,
            VmRegName::Tr => 29,
            VmRegName::Idtr => 30,
            VmRegName::Gdtr => 31,
            VmRegName::Efer => 32,
            VmRegName::Cr2 => 33,
            VmRegName::Pdpte0 => 34,
            VmRegName::Pdpte1 => 35,
            VmRegName::Pdpte2 => 36,
            VmRegName::Pdpte3 => 37,
            VmRegName::IntrShadow => 38,
            VmRegName::Dr0 => 39,
            VmRegName::Dr1 => 40,
            VmRegName::Dr2 => 41,
            VmRegName::Dr3 => 42,
            VmRegName::Dr6 => 43,
            VmRegName::EntryInstLength => 44,
            VmRegName::Xcr0 => 45,
            VmRegName::Last => 46,
        }
    }

    /// The numeric code of this value in the bhyve ABI.
    pub fn code(self) -> (r: i32)
        ensures
            r == self.spec_code(),
    {
        match self {
            VmRegName::Rax => 0,
            VmRegName::Rbx => 1,
            VmRegName::Rcx => 2,
            VmRegName::Rdx => 3,
            VmRegName::Rsi => 4,
            VmRegName::Rdi => 5,
            VmRegName::Rbp => 6,
            VmRegName::R8 => 7,
            VmRegName::R9 => 8,
            VmRegName::R10 => 9,
            VmRegName::R11 => 10,
            VmRegName::R12 => 11,
            VmRegName::R13 => 12,
            VmRegName::R14 => 13,
            VmRegName::R15 => 14,
            VmRegName::Cr0 => 15,
            VmRegName::Cr3 => 16,
            VmRegName::Cr4 => 17,
            VmRegName::Dr7 => 18,
            VmRegName::Rsp => 19,
            VmRegName::Rip => 20,
            VmRegName::Rflags => 21,
            VmRegName::Es => 22,
            VmRegName::Cs => 23,
            VmRegName::Ss => 24,
            VmRegName::Ds => 25,
            VmRegName::Fs => 26,
            VmRegName::Gs => 27,
            VmRegName::Ldtr => 28,
            VmRegName::Tr => 29,
            VmRegName::Idtr => 30,
            VmRegName::Gdtr => 31,
            VmRegName::Efer => 32,
            VmRegName::Cr2 => 33,
            VmRegName::Pdpte0 => 34,
            VmRegName::Pdpte1 => 35,
            VmRegName::Pdpte2 => 36,
            VmRegName::Pdpte3 => 37,
            VmRegName::IntrShadow => 38,
            VmRegName::Dr0 => 39,
            VmRegName::Dr1 => 40,
            VmRegName::Dr2 => 41,
            VmRegName::Dr3 => 42,
            VmRegName::Dr6 => 43,
            VmRegName::EntryInstLength => 44,
            VmRegName::Xcr0 => 45,
            VmRegName::Last => 46,
        }
    }
}

/// A segment descriptor as bhyve exchanges it: base, limit and the
/// packed access rights.
#[derive(Clone, Copy, Debug, Default, PartialEq, Eq, Structural)]
pub struct SegDesc {
    pub base: u64,
    pub limit: u32,
    pub access: u32,
}

/// The access rights word of a segment: type (bits 0-3), S (4), DPL
/// (5-6), P (7), AVL (12), L (13), D/B (14), G (15), unusable (16).
pub open spec fn spec_seg_access(seg: Segment) -> u32 {
    (seg.type_ as u32 & 0x000f) | ((seg.s as u32 & 0x1) << 4u32) | ((seg.dpl as u32 & 0x3) << 5u32) | ((
    seg.present as u32 & 0x1) << 7u32) | ((seg.avl as u32 & 0x1) << 12u32) | ((seg.l as u32 & 0x1)
        << 13u32) | ((seg.db as u32 & 0x1) << 14u32) | ((seg.g as u32 & 0x1) << 15u32) | ((
    seg.unusable as u32 & 0x1) << 16u32)
}

/// The descriptor of a segment.
pub open spec fn spec_seg_desc(seg: Segment) -> SegDesc {
    SegDesc { base: seg.base, limit: seg.limit, access: spec_seg_access(seg) }
}

/// The segment a descriptor describes (selector left 0).
pub open spec fn spec_segment_of(desc: SegDesc) -> Segment {
    Segment {
        base: desc.base,
        limit: desc.limit,
        selector: 0,
        type_: (desc.access & 0x000f) as u8,
        s: ((desc.access >> 4u32) & 0x1) as u8,
        dpl: ((desc.access >> 5u32) & 0x3) as u8,
        present: ((desc.access >> 7u32) & 0x1) as u8,
        avl: ((desc.access >> 12u32) & 0x1) as u8,
        l: ((desc.access >> 13u32) & 0x1) as u8,
        db: ((desc.access >> 14u32) & 0x1) as u8,
        g: ((desc.access >> 15u32) & 0x1) as u8,
        unusable: ((desc.access >> 16u32) & 0x1) as u8,
        padding: 0,
    }
}

impl From<&Segment> for SegDesc {
    fn from(seg: &Segment) -> (r: Self) {
        let access = (seg.type_ as u32 & 0x000f) | ((seg.s as u32 & 0x1) << 4u32) | ((seg.dpl as u32
            & 0x3) << 5u32) | ((seg.present as u32 & 0x1) << 7u32) | ((seg.avl as u32 & 0x1) << 12u32)
            | ((seg.l as u32 & 0x1) << 13u32) | ((seg.db as u32 & 0x1) << 14u32) | ((seg.g as u32 & 0x1)
            << 15u32) | ((seg.unusable as u32 & 0x1) << 16u32);
        SegDesc { base: seg.base, limit: seg.limit, access }
    }
}

impl vstd::std_specs::convert::FromSpecImpl<&Segment> for SegDesc {
    open spec fn obeys_from_spec() -> bool {
        true
    }

    open spec fn from_spec(seg: &Segment) -> Self {
        spec_seg_desc(*seg)
    }
}

impl From<&SegDesc> for Segment {
    fn from(desc: &SegDesc) -> (r: Self) {
        Segment {
            base: desc.base,
            limit: desc.limit,
            selector: 0,
            type_: (desc.access & 0x000f) as u8,
            s: ((desc.access >> 4u32) & 0x1) as u8,
            dpl: ((desc.access >> 5u32) & 0x3) as u8,
            present: ((desc.access >> 7u32) & 0x1) as u8,
            avl: ((desc.access >> 12u32) & 0x1) as u8,
            l: ((desc.access >> 13u32) & 0x1) as u8,
            db: ((desc.access >> 14u32) & 0x1) as u8,
            g: ((desc.access >> 15u32) & 0x1) as u8,
            unusable: ((desc.access >> 16u32) & 0x1) as u8,
            padding: 0,
        }
    }
}

impl vstd::std_specs::convert::FromSpecImpl<&SegDesc> for Segment {
    open spec fn obeys_from_spec() -> bool {
        true
    }

    open spec fn from_spec(desc: &SegDesc) -> Self {
        spec_segment_of(*desc)
    }
}

/// The descriptor of a descriptor-table register: base and limit, no
/// access rights.
pub open spec fn spec_dtable_desc(dt: Dtable) -> SegDesc {
    SegDesc { base: dt.base, limit: dt.limit as u32, access: 0 }
}

impl From<&Dtable> for SegDesc {
    fn from(dt: &Dtable) -> (r: Self) {
        SegDesc { base: dt.base, limit: dt.limit as u32, access: 0 }
    }
}

impl vstd::std_specs::convert::FromSpecImpl<&Dtable> for SegDesc {
    open spec fn obeys_from_spec() -> bool {
        true
    }

    open spec fn from_spec(dt: &Dtable) -> Self {
        spec_dtable_desc(*dt)
    }
}

/// The descriptor-table register a descriptor describes (limit cut to 16
/// bits).
pub open spec fn spec_dtable_of(desc: SegDesc) -> Dtable {
    Dtable { base: desc.base, limit: desc.limit as u16, padding: [0u16, 0u16, 0u16] }
}

impl From<&SegDesc> for Dtable {
    fn from(desc: &SegDesc) -> (r: Self) {
        Dtable { base: desc.base, limit: desc.limit as u16, padding: [0u16, 0u16, 0u16] }
    }
}

impl vstd::std_specs::convert::FromSpecImpl<&SegDesc> for Dtable {
    open spec fn obeys_from_spec() -> bool {
        true
    }

    open spec fn from_spec(desc: &SegDesc) -> Self {
        spec_dtable_of(*desc)
    }
}

/// A segment whose attribute fields are within their widths survives a
/// round trip through its descriptor, but for the selector, which the
/// descriptor does not carry.
pub proof fn lemma_seg_desc_roundtrip(seg: Segment)
    requires
        seg.type_ < 16,
        seg.s < 2,
        seg.dpl < 4,
        seg.present < 2,
        seg.avl < 2,
        seg.l < 2,
        seg.db < 2,
        seg.g < 2,
        seg.unusable < 2,
        seg.padding == 0,
    ensures
        spec_segment_of(spec_seg_desc(seg)) == (Segment { selector: 0, ..seg }),
{
    let (t, s, dpl, p, avl, l, db, g, u) = (
        seg.type_,
        seg.s,
        seg.dpl,
        seg.present,
        seg.avl,
        seg.l,
        seg.db,
        seg.g,
        seg.unusable,
    );
    let a = spec_seg_access(seg);
    assert(a == (t as u32 & 0x000f) | ((s as u32 & 0x1) << 4u32) | ((dpl as u32 & 0x3) << 5u32) | ((
    p as u32 & 0x1) << 7u32) | ((avl as u32 & 0x1) << 12u32) | ((l as u32 & 0x1) << 13u32) | ((
    db as u32 & 0x1) << 14u32) | ((g as u32 & 0x1) << 15u32) | ((u as u32 & 0x1) << 16u32));
    assert({
        &&& (a & 0x000f) as u8 == t
        &&& ((a >> 4u32) & 0x1) as u8 == s
        &&& ((a >> 5u32) & 0x3) as u8 == dpl
        &&& ((a >> 7u32) & 0x1) as u8 == p
        &&& ((a >> 12u32) & 0x1) as u8 == avl
        &&& ((a >> 13u32) & 0x1) as u8 == l
        &&& ((a >> 14u32) & 0x1) as u8 == db
        &&& ((a >> 15u32) & 0x1) as u8 == g
        &&& ((a >> 16u32) & 0x1) as u8 == u
    }) by (bit_vector)
        requires
            a == (t as u32 & 0x000f) | ((s as u32 & 0x1) << 4u32) | ((dpl as u32 & 0x3) << 5u32) | ((
            p as u32 & 0x1) << 7u32) | ((avl as u32 & 0x1) << 12u32) | ((l as u32 & 0x1) << 13u32)
                | ((db as u32 & 0x1) << 14u32) | ((g as u32 & 0x1) << 15u32) | ((u as u32 & 0x1)
                << 16u32),
            t < 16,
            s < 2,
            dpl < 4,
            p < 2,
            avl < 2,
            l < 2,
            db < 2,
            g < 2,
            u < 2,
    ;
}

pub const VRS_HALT: u32 = 0;
pub const VRS_INIT: u32 = 0x1;
pub const VRS_RUN: u32 = 0x2;

pub const VRK_RESET: u32 = 0;
pub const VRK_INIT: u32 = 1;

/// Why the vCPU left guest mode.
#[derive(Clone, Copy, Debug, PartialEq, Eq, Structural)]
pub enum VmExitCode {
    Inout,
    Vmx,
    Bogus,
    Rdmsr,
    Wrmsr,
    Hlt,
    Mtrap,
    Pause,
    Paging,
    InstEmul,
    RunState,
    MmioEmul,
    Deprecated,
    IoapicEoi,
    Suspended,
    Mmio,
    TaskSwitch,
    Monitor,
    Mwait,
    Svm,
    Deprecated2,
    Debug,
    Vminsn,
    Bpt,
    Ht,
    Max,
}

impl VmExitCode {
    pub open spec fn spec_code(self) -> u32 {
        match self {
            VmExitCode::Inout => 0,
            VmExitCode::Vmx => 1,
            VmExitCode::Bogus => 2,
            VmExitCode::Rdmsr => 3,
            VmExitCode::Wrmsr => 4,
            VmExitCode::Hlt => 5,
            VmExitCode::Mtrap => 6,
            VmExitCode::Pause => 7,
            VmExitCode::Paging => 8,
            VmExitCode::InstEmul => 9,
            VmExitCode::RunState => 10,
            VmExitCode::MmioEmul => 11,
            VmExitCode::Deprecated => 12,
            VmExitCode::IoapicEoi => 13,
            VmExitCode::Suspended => 14,
            VmExitCode::Mmio => 15,
            VmExitCode::TaskSwitch => 16,
            VmExitCode::Monitor => 17,
            VmExitCode::Mwait => 18,
            VmExitCode::Svm => 19,
            VmExitCode::Deprecated2 => 20,
            VmExitCode::Debug => 21,
            VmExitCode::Vminsn => 22,
            VmExitCode::Bpt => 23,
            VmExitCode::Ht => 24,
            VmExitCode::Max => 25,
        }
    }

    /// The numeric code of this value in the bhyve ABI.
    pub fn code(self) -> (r: u32)
        ensures
            r == self.spec_code(),
    {
        match self {
            VmExitCode::Inout => 0,
            VmExitCode::Vmx => 1,
            VmExitCode::Bogus => 2,
            VmExitCode::Rdmsr => 3,
            VmExitCode::Wrmsr => 4,
            VmExitCode::Hlt => 5,
            VmExitCode::Mtrap => 6,
            VmExitCode::Pause => 7,
            VmExitCode::Paging => 8,
            VmExitCode::InstEmul => 9,
            VmExitCode::RunState => 10,
            VmExitCode::MmioEmul => 11,
            VmExitCode::Deprecated => 12,
            VmExitCode::IoapicEoi => 13,
            VmExitCode::Suspended => 14,
            VmExitCode::Mmio => 15,
            VmExitCode::TaskSwitch => 16,
            VmExitCode::Monitor => 17,
            VmExitCode::Mwait => 18,
            VmExitCode::Svm => 19,
            VmExitCode::Deprecated2 => 20,
            VmExitCode::Debug => 21,
            VmExitCode::Vminsn => 22,
            VmExitCode::Bpt => 23,
            VmExitCode::Ht => 24,
            VmExitCode::Max => 25,
        }
    }

    /// The exit code for a numeric code, if any.
    pub fn from_code(val: u32) -> (r: Option<VmExitCode>)
        ensures
            r == Self::spec_from_code(val),
    {
        match val {
            0 => Some(VmExitCode::Inout),
            1 => Some(VmExitCode::Vmx),
            2 => Some(VmExitCode::Bogus),
            3 => Some(VmExitCode::Rdmsr),
            4 => Some(VmExitCode::Wrmsr),
            5 => Some(VmExitCode::Hlt),
            6 => Some(VmExitCode::Mtrap),
            7 => Some(VmExitCode::Pause),
            8 => Some(VmExitCode::Paging),
            9 => Some(VmExitCode::InstEmul),
            10 => Some(VmExitCode::RunState),
            11 => Some(VmExitCode::MmioEmul),
            12 => Some(VmExitCode::Deprecated),
            13 => Some(VmExitCode::IoapicEoi),
            14 => Some(VmExitCode::Suspended),
            15 => Some(VmExitCode::Mmio),
            16 => Some(VmExitCode::TaskSwitch),
            17 => Some(VmExitCode::Monitor),
            18 => Some(VmExitCode::Mwait),
            19 => Some(VmExitCode::Svm),
            20 => Some(VmExitCode::Deprecated2),
            21 => Some(VmExitCode::Debug),
            22 => Some(VmExitCode::Vminsn),
            23 => Some(VmExitCode::Bpt),
            24 => Some(VmExitCode::Ht),
            25 => Some(VmExitCode::Max),
            _ => None,
        }
    }

    /// The exit code for a numeric code, if any.
    pub open spec fn spec_from_code(val: u32) -> Option<VmExitCode> {
        if val == 0 {
            Some(VmExitCode::Inout)
        } else if val == 1 {
            Some(VmExitCode::Vmx)
        } else if val == 2 {
            Some(VmExitCode::Bogus)
        } else if val == 3 {
            Some(VmExitCode::Rdmsr)
        } else if val == 4 {
            Some(VmExitCode::Wrmsr)
        } else if val == 5 {
            Some(VmExitCode::Hlt)
        } else if val == 6 {
            Some(VmExitCode::Mtrap)
        } else if val == 7 {
            Some(VmExitCode::Pause)
        } else if val == 8 {
            Some(VmExitCode::Paging)
        } else if val == 9 {
            Some(VmExitCode::InstEmul)
        } else if val == 10 {
            Some(VmExitCode::RunState)
        } else if val == 11 {
            Some(VmExitCode::MmioEmul)
        } else if val == 12 {
            Some(VmExitCode::Deprecated)
        } else if val == 13 {
            Some(VmExitCode::IoapicEoi)
        } else if val == 14 {
            Some(VmExitCode::Suspended)
        } else if val == 15 {
            Some(VmExitCode::Mmio)
        } else if val == 16 {
            Some(VmExitCode::TaskSwitch)
        } else if val == 17 {
            Some(VmExitCode::Monitor)
        } else if val == 18 {
            Some(VmExitCode::Mwait)
        } else if val == 19 {
            Some(VmExitCode::Svm)
        } else if val == 20 {
            Some(VmExitCode::Deprecated2)
        } else if val == 21 {
            Some(VmExitCode::Debug)
        } else if val == 22 {
            Some(VmExitCode::Vminsn)
        } else if val == 23 {
            Some(VmExitCode::Bpt)
        } else if val == 24 {
            Some(VmExitCode::Ht)
        } else if val == 25 {
            Some(VmExitCode::Max)
        } else {
            None
        }
    }
}

/// Exit codes and their numbers correspond one to one: every code's
/// number decodes back to it, and exactly the numbers below 26 decode.
pub proof fn lemma_exit_code_roundtrip(code: VmExitCode, val: u32)
    ensures
        VmExitCode::spec_from_code(code.spec_code()) == Some(code),
        val < 26 <==> VmExitCode::spec_from_code(val) is Some,
        VmExitCode::spec_from_code(val) matches Some(c) ==> c.spec_code() == val,
{
}

/// A port I/O exit: `bytes` bytes at `port`, data in the low bytes of
/// `eax`.
#[derive(Clone, Copy, Debug, Default, PartialEq, Eq, Structural)]
pub struct VmInout {
    pub eax: u32,
    pub port: u16,
    pub bytes: u8,
    pub flags: u8,
    pub addrsize: u8,
    pub segment: u8,
}

/// `VmInout::flags`: the access is a read (IN).
pub const INOUT_IN: u8 = 0x1;

/// An MMIO exit: `bytes` bytes at `gpa`, data in the low bytes of `data`.
#[derive(Clone, Copy, Debug, Default)]
pub struct VmMmio {
    pub bytes: u8,
    pub read: u8,
    pub _pad: [u16; 3],
    pub gpa: u64,
    pub data: u64,
}

/// The CPU mode of a guest-linear address translation.
#[derive(Clone, Copy, Debug, PartialEq, Eq, Structural)]
pub enum VmCpuMode {
    Real,
    Protected,
    Compatibility,
    SixtyFourBit,
}

/// The paging mode of a guest-linear address translation.
#[derive(Clone, Copy, Debug, PartialEq, Eq, Structural)]
pub enum VmPagingMode {
    Flat,
    ThirtyTwo,
    Pae,
    SixtyFour,
}

impl VmCpuMode {
    pub open spec fn spec_code(self) -> i32 {
        match self {
            VmCpuMode::Real => 0,
            VmCpuMode::Protected => 1,
            VmCpuMode::Compatibility => 2,
            VmCpuMode::SixtyFourBit => 3,
        }
    }

    /// The numeric code of this value in the bhyve ABI.
    pub fn code(self) -> (r: i32)
        ensures
            r == self.spec_code(),
    {
        match self {
            VmCpuMode::Real => 0,
            VmCpuMode::Protected => 1,
            VmCpuMode::Compatibility => 2,
            VmCpuMode::SixtyFourBit => 3,
        }
    }
}

impl VmPagingMode {
    pub open spec fn spec_code(self) -> i32 {
        match self {
            VmPagingMode::Flat => 0,
            VmPagingMode::ThirtyTwo => 1,
            VmPagingMode::Pae => 2,
            VmPagingMode::SixtyFour => 3,
        }
    }

    /// The numeric code of this value in the bhyve ABI.
    pub fn code(self) -> (r: i32)
        ensures
            r == self.spec_code(),
    {
        match self {
            VmPagingMode::Flat => 0,
            VmPagingMode::ThirtyTwo => 1,
            VmPagingMode::Pae => 2,
            VmPagingMode::SixtyFour => 3,
        }
    }
}

/// The CPU mode the special registers put the vCPU in: long mode (64-bit
/// or compatibility by `CS.L`) when EFER.LMA is set, else protected when
/// CR0.PE is set, else real.
pub open spec fn spec_cpu_mode(s: VcpuSregs) -> VmCpuMode {
    if s.efer & 0x400 != 0 {
        if s.cs.l != 0 {
            VmCpuMode::SixtyFourBit
        } else {
            VmCpuMode::Compatibility
        }
    } else if s.cr0 & 1 != 0 {
        VmCpuMode::Protected
    } else {
        VmCpuMode::Real
    }
}

pub fn cpu_mode(s: &VcpuSregs) -> (r: VmCpuMode)
    ensures
        r == spec_cpu_mode(*s),
{
    if s.efer & 0x400 != 0 {
        if s.cs.l != 0 {
            VmCpuMode::SixtyFourBit
        } else {
            VmCpuMode::Compatibility
        }
    } else if s.cr0 & 1 != 0 {
        VmCpuMode::Protected
    } else {
        VmCpuMode::Real
    }
}

/// The paging mode of the special registers: flat without CR0.PG, 32-bit
/// without CR4.PAE, 4-level with EFER.LME, PAE otherwise.
pub open spec fn spec_paging_mode(s: VcpuSregs) -> VmPagingMode {
    if s.cr0 & 0x8000_0000 == 0 {
        VmPagingMode::Flat
    } else if s.cr4 & 0x20 == 0 {
        VmPagingMode::ThirtyTwo
    } else if s.efer & 0x100 != 0 {
        VmPagingMode::SixtyFour
    } else {
        VmPagingMode::Pae
    }
}

pub fn paging_mode(s: &VcpuSregs) -> (r: VmPagingMode)
    ensures
        r == spec_paging_mode(*s),
{
    if s.cr0 & 0x8000_0000 == 0 {
        VmPagingMode::Flat
    } else if s.cr4 & 0x20 == 0 {
        VmPagingMode::ThirtyTwo
    } else if s.efer & 0x100 != 0 {
        VmPagingMode::SixtyFour
    } else {
        VmPagingMode::Pae
    }
}

#[derive(Clone, Copy, Debug, Default)]
pub struct VmExitInstEmul {
    pub inst: [u8; 15],
    pub num_valid: u8,
}

#[derive(Clone, Copy, Debug, Default)]
pub struct VmExitVmx {
    pub status: i32,
    pub exit_reason: u32,
    pub exit_qualification: u64,
    pub inst_type: i32,
    pub inst_error: i32,
}

#[derive(Clone, Copy, Debug, Default)]
pub struct VmExitSvm {
    pub exitcode: u64,
    pub exitinfo1: u64,
    pub exitinfo2: u64,
}

#[derive(Clone, Copy, Debug, Default)]
pub struct VmExitMsr {
    pub code: u32,
    pub wval: u64,
}

#[derive(Clone, Copy, Debug, Default)]
pub struct VmExitHlt {
    pub rflags: u64,
}

#[derive(Clone, Copy, Debug, Default)]
pub struct VmExitSuspended {
    pub how: i32,
    pub source: i32,
    pub when: u64,
}

/// The exit record: which view of it is meaningful depends on the exit
/// code.
#[derive(Clone, Copy, Debug)]
pub enum VmExitUnion {
    Inout(VmInout),
    Mmio(VmMmio),
    Vmx(VmExitVmx),
    Svm(VmExitSvm),
    Msr(VmExitMsr),
    Hlt(VmExitHlt),
    InstEmul(VmExitInstEmul),
    Suspended(VmExitSuspended),
    /// A record not read here.
    Other,
}

/// A VM exit as `VM_RUN` reports it.
#[derive(Clone, Copy, Debug)]
pub struct VmExit {
    pub exitcode: VmExitCode,
    pub inst_length: i32,
    pub rip: u64,
    pub u: VmExitUnion,
}

/// What the next `VM_RUN` hands back to the kernel: the completed access
/// of the previous exit, if any.
#[derive(Clone, Copy, Debug)]
pub enum VmEntryUnion {
    Nothing,
    Inout(VmInout),
    Mmio(VmMmio),
}

/// `VM_RUN` entry commands.
pub const VEC_DEFAULT: u32 = 0;
pub const VEC_FULFILL_MMIO: u32 = 2;
pub const VEC_FULFILL_INOUT: u32 = 3;

/// vCPU capabilities.
#[derive(Clone, Copy, Debug, PartialEq, Eq, Structural)]
pub enum VmCapType {
    HaltExit,
    MtrapExit,
    PauseExit,
    EnableInvpcid,
    BptExit,
    Max,
}

impl VmCapType {
    pub open spec fn spec_code(self) -> i32 {
        match self {
            VmCapType::HaltExit => 0,
            VmCapType::MtrapExit => 1,
            VmCapType::PauseExit => 2,
            VmCapType::EnableInvpcid => 3,
            VmCapType::BptExit => 4,
            VmCapType::Max => 5,
        }
    }

    /// The numeric code of this value in the bhyve ABI.
    pub fn code(self) -> (r: i32)
        ensures
            r == self.spec_code(),
    {
        match self {
            VmCapType::HaltExit => 0,
            VmCapType::MtrapExit => 1,
            VmCapType::PauseExit => 2,
            VmCapType::EnableInvpcid => 3,
            VmCapType::BptExit => 4,
            VmCapType::Max => 5,
        }
    }
}

} // verus!
