//! Conversions between the backend-neutral register state and KVM's.
use vstd::prelude::*;

use super::api::{KvmDtable, KvmRegs, KvmSegment, KvmSregs};
use crate::traits::{Dtable, Segment, VcpuRegs, VcpuSregs};

verus! {

/// The KVM form of a segment register.
pub open spec fn spec_kvm_segment(seg: Segment) -> KvmSegment {
    KvmSegment { base: seg.base, limit: seg.limit, selector: seg.selector, type_: seg.type_, present: seg.present, dpl: seg.dpl, db: seg.db, s: seg.s, l: seg.l, g: seg.g, avl: seg.avl, unusable: seg.unusable, padding: seg.padding }
}

/// The backend-neutral form of a KVM segment register.
pub open spec fn spec_segment(seg: KvmSegment) -> Segment {
    Segment { base: seg.base, limit: seg.limit, selector: seg.selector, type_: seg.type_, present: seg.present, dpl: seg.dpl, db: seg.db, s: seg.s, l: seg.l, g: seg.g, avl: seg.avl, unusable: seg.unusable, padding: seg.padding }
}

/// Descriptor tables carry base and limit; the padding is cleared.
pub open spec fn spec_kvm_dtable(dt: Dtable) -> KvmDtable {
    KvmDtable { base: dt.base, limit: dt.limit, padding: [0u16, 0u16, 0u16] }
}

pub open spec fn spec_dtable(dt: KvmDtable) -> Dtable {
    Dtable { base: dt.base, limit: dt.limit, padding: [0u16, 0u16, 0u16] }
}

impl From<&Segment> for KvmSegment {
    fn from(seg: &Segment) -> (r: Self) {
        KvmSegment { base: seg.base, limit: seg.limit, selector: seg.selector, type_: seg.type_, present: seg.present, dpl: seg.dpl, db: seg.db, s: seg.s, l: seg.l, g: seg.g, avl: seg.avl, unusable: seg.unusable, padding: seg.padding }
    }
}

impl vstd::std_specs::convert::FromSpecImpl<&Segment> for KvmSegment {
    open spec fn obeys_from_spec() -> bool {
        true
    }

    open spec fn from_spec(seg: &Segment) -> Self {
        spec_kvm_segment(*seg)
    }
}

impl From<&KvmSegment> for Segment {
    fn from(seg: &KvmSegment) -> (r: Self) {
        Segment { base: seg.base, limit: seg.limit, selector: seg.selector, type_: seg.type_, present: seg.present, dpl: seg.dpl, db: seg.db, s: seg.s, l: seg.l, g: seg.g, avl: seg.avl, unusable: seg.unusable, padding: seg.padding }
    }
}

impl vstd::std_specs::convert::FromSpecImpl<&KvmSegment> for Segment {
    open spec fn obeys_from_spec() -> bool {
        true
    }

    open spec fn from_spec(seg: &KvmSegment) -> Self {
        spec_segment(*seg)
    }
}

impl From<&KvmDtable> for Dtable {
    fn from(dtable: &KvmDtable) -> (r: Self) {
        Dtable { base: dtable.base, limit: dtable.limit, padding: [0u16, 0u16, 0u16] }
    }
}

impl vstd::std_specs::convert::FromSpecImpl<&KvmDtable> for Dtable {
    open spec fn obeys_from_spec() -> bool {
        true
    }

    open spec fn from_spec(dtable: &KvmDtable) -> Self {
        spec_dtable(*dtable)
    }
}

impl From<&Dtable> for KvmDtable {
    fn from(dtable: &Dtable) -> (r: Self) {
        KvmDtable { base: dtable.base, limit: dtable.limit, padding: [0u16, 0u16, 0u16] }
    }
}

impl vstd::std_specs::convert::FromSpecImpl<&Dtable> for KvmDtable {
    open spec fn obeys_from_spec() -> bool {
        true
    }

    open spec fn from_spec(dtable: &Dtable) -> Self {
        spec_kvm_dtable(*dtable)
    }
}

/// The KVM form of the general registers.
pub open spec fn spec_kvm_regs(regs: VcpuRegs) -> KvmRegs {
    KvmRegs { rax: regs.rax, rbx: regs.rbx, rcx: regs.rcx, rdx: regs.rdx, rsi: regs.rsi, rdi: regs.rdi, rsp: regs.rsp, rbp: regs.rbp, r8: regs.r8, r9: regs.r9, r10: regs.r10, r11: regs.r11, r12: regs.r12, r13: regs.r13, r14: regs.r14, r15: regs.r15, rip: regs.rip, rflags: regs.rflags }
}

pub fn kvm_regs(regs: &VcpuRegs) -> (r: KvmRegs)
    ensures
        r == spec_kvm_regs(*regs),
{
    KvmRegs { rax: regs.rax, rbx: regs.rbx, rcx: regs.rcx, rdx: regs.rdx, rsi: regs.rsi, rdi: regs.rdi, rsp: regs.rsp, rbp: regs.rbp, r8: regs.r8, r9: regs.r9, r10: regs.r10, r11: regs.r11, r12: regs.r12, r13: regs.r13, r14: regs.r14, r15: regs.r15, rip: regs.rip, rflags: regs.rflags }
}

/// The backend-neutral form of KVM's general registers.
pub open spec fn spec_vcpu_regs(regs: KvmRegs) -> VcpuRegs {
    VcpuRegs { rax: regs.rax, rbx: regs.rbx, rcx: regs.rcx, rdx: regs.rdx, rsi: regs.rsi, rdi: regs.rdi, rsp: regs.rsp, rbp: regs.rbp, r8: regs.r8, r9: regs.r9, r10: regs.r10, r11: regs.r11, r12: regs.r12, r13: regs.r13, r14: regs.r14, r15: regs.r15, rip: regs.rip, rflags: regs.rflags }
}

pub fn vcpu_regs(regs: &KvmRegs) -> (r: VcpuRegs)
    ensures
        r == spec_vcpu_regs(*regs),
{
    VcpuRegs { rax: regs.rax, rbx: regs.rbx, rcx: regs.rcx, rdx: regs.rdx, rsi: regs.rsi, rdi: regs.rdi, rsp: regs.rsp, rbp: regs.rbp, r8: regs.r8, r9: regs.r9, r10: regs.r10, r11: regs.r11, r12: regs.r12, r13: regs.r13, r14: regs.r14, r15: regs.r15, rip: regs.rip, rflags: regs.rflags }
}

/// The KVM form of the special registers.
pub open spec fn spec_kvm_sregs(s: VcpuSregs) -> KvmSregs {
    KvmSregs {
        cs: spec_kvm_segment(s.cs),
        ds: spec_kvm_segment(s.ds),
        es: spec_kvm_segment(s.es),
        fs: spec_kvm_segment(s.fs),
        gs: spec_kvm_segment(s.gs),
        ss: spec_kvm_segment(s.ss),
        tr: spec_kvm_segment(s.tr),
        ldt: spec_kvm_segment(s.ldt),
        gdt: spec_kvm_dtable(s.gdt),
        idt: spec_kvm_dtable(s.idt),
        cr0: s.cr0,
        cr2: s.cr2,
        cr3: s.cr3,
        cr4: s.cr4,
        cr8: s.cr8,
        efer: s.efer,
        apic_base: s.apic_base,
        interrupt_bitmap: s.interrupt_bitmap,
    }
}

pub fn kvm_sregs(s: &VcpuSregs) -> (r: KvmSregs)
    ensures
        r == spec_kvm_sregs(*s),
{
    KvmSregs {
        cs: KvmSegment::from(&s.cs),
        ds: KvmSegment::from(&s.ds),
        es: KvmSegment::from(&s.es),
        fs: KvmSegment::from(&s.fs),
        gs: KvmSegment::from(&s.gs),
        ss: KvmSegment::from(&s.ss),
        tr: KvmSegment::from(&s.tr),
        ldt: KvmSegment::from(&s.ldt),
        gdt: KvmDtable::from(&s.gdt),
        idt: KvmDtable::from(&s.idt),
        cr0: s.cr0,
        cr2: s.cr2,
        cr3: s.cr3,
        cr4: s.cr4,
        cr8: s.cr8,
        efer: s.efer,
        apic_base: s.apic_base,
        interrupt_bitmap: s.interrupt_bitmap,
    }
}

/// The backend-neutral form of KVM's special registers.
pub open spec fn spec_vcpu_sregs(s: KvmSregs) -> VcpuSregs {
    VcpuSregs {
        cs: spec_segment(s.cs),
        ds: spec_segment(s.ds),
        es: spec_segment(s.es),
        fs: spec_segment(s.fs),
        gs: spec_segment(s.gs),
        ss: spec_segment(s.ss),
        tr: spec_segment(s.tr),
        ldt: spec_segment(s.ldt),
        gdt: spec_dtable(s.gdt),
        idt: spec_dtable(s.idt),
        cr0: s.cr0,
        cr2: s.cr2,
        cr3: s.cr3,
        cr4: s.cr4,
        cr8: s.cr8,
        efer: s.efer,
        apic_base: s.apic_base,
        interrupt_bitmap: s.interrupt_bitmap,
    }
}

pub fn vcpu_sregs(s: &KvmSregs) -> (r: VcpuSregs)
    ensures
        r == spec_vcpu_sregs(*s),
{
    VcpuSregs {
        cs: Segment::from(&s.cs),
        ds: Segment::from(&s.ds),
        es: Segment::from(&s.es),
        fs: Segment::from(&s.fs),
        gs: Segment::from(&s.gs),
        ss: Segment::from(&s.ss),
        tr: Segment::from(&s.tr),
        ldt: Segment::from(&s.ldt),
        gdt: Dtable::from(&s.gdt),
        idt: Dtable::from(&s.idt),
        cr0: s.cr0,
        cr2: s.cr2,
        cr3: s.cr3,
        cr4: s.cr4,
        cr8: s.cr8,
        efer: s.efer,
        apic_base: s.apic_base,
        interrupt_bitmap: s.interrupt_bitmap,
    }
}

/// Register state survives a round trip through KVM's form, but for the
/// descriptor-table padding, which KVM's form does not carry back.
pub proof fn lemma_regs_roundtrip(regs: VcpuRegs, s: VcpuSregs)
    ensures
        spec_vcpu_regs(spec_kvm_regs(regs)) == regs,
        spec_vcpu_sregs(spec_kvm_sregs(s)) == (VcpuSregs {
            gdt: Dtable { padding: [0u16, 0u16, 0u16], ..s.gdt },
            idt: Dtable { padding: [0u16, 0u16, 0u16], ..s.idt },
            ..s
        }),
{
}

} // verus!
