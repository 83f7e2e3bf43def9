//! The register state of a virtual CPU as the hypervisor backends exchange
//! it, and the interface a backend's vCPU offers to boot setup.
use vstd::prelude::*;

use crate::serial::IrqSink;

verus! {

/// General-purpose registers.
#[derive(Debug, Default, Clone, Copy)]
pub struct VcpuRegs {
    pub rax: u64,
    pub rbx: u64,
    pub rcx: u64,
    pub rdx: u64,
    pub rsi: u64,
    pub rdi: u64,
    pub rsp: u64,
    pub rbp: u64,
    pub r8: u64,
    pub r9: u64,
    pub r10: u64,
    pub r11: u64,
    pub r12: u64,
    pub r13: u64,
    pub r14: u64,
    pub r15: u64,
    pub rip: u64,
    pub rflags: u64,
}

/// Segment register (for GDT, LDT, TR, etc.).
#[derive(Clone, Copy, Debug, Default)]
pub struct Segment {
    pub base: u64,
    pub limit: u32,
    pub selector: u16,
    pub type_: u8,
    pub present: u8,
    pub dpl: u8,
    pub db: u8,
    pub s: u8,
    pub l: u8,
    pub g: u8,
    pub avl: u8,
    pub unusable: u8,
    pub padding: u8,
}

/// Descriptor table register (for GDT, IDT).
#[derive(Clone, Copy, Debug, Default)]
pub struct Dtable {
    pub base: u64,
    pub limit: u16,
    pub padding: [u16; 3],
}

/// Special registers: segments, descriptor tables, control registers.
#[derive(Debug, Default, Clone, Copy)]
pub struct VcpuSregs {
    pub cs: Segment,
    pub ds: Segment,
    pub es: Segment,
    pub fs: Segment,
    pub gs: Segment,
    pub ss: Segment,
    pub tr: Segment,
    pub ldt: Segment,
    pub gdt: Dtable,
    pub idt: Dtable,
    pub cr0: u64,
    pub cr2: u64,
    pub cr3: u64,
    pub cr4: u64,
    pub cr8: u64,
    pub efer: u64,
    pub apic_base: u64,
    pub interrupt_bitmap: [u64; 4],
}

/// A virtual CPU of some hypervisor backend, as boot setup drives it.
/// Backends implement it; their errors come back as text.
pub trait Vcpu {
    /// Backend-specific preparation (CPUID, capabilities).
    fn setup(&self) -> Result<(), String>;

    fn set_regs(&self, regs: &VcpuRegs) -> Result<(), String>;

    fn get_regs(&self) -> Result<VcpuRegs, String>;

    fn set_sregs(&self, sregs: &VcpuSregs) -> Result<(), String>;

    fn get_sregs(&self) -> Result<VcpuSregs, String>;
}

/// One call made through a [`VcpuLog`], with what it gave: the registers
/// read (`None` when the read was refused), or the registers handed over
/// and whether they were accepted.
pub enum VcpuEvent {
    GetRegs(Option<VcpuRegs>),
    SetRegs(VcpuRegs, bool),
    GetSregs(Option<VcpuSregs>),
    SetSregs(VcpuSregs, bool),
}

/// A vCPU with a record of the register reads and writes made through it,
/// in order.
pub struct VcpuLog<'a> {
    vcpu: &'a dyn Vcpu,
    events: Ghost<Seq<VcpuEvent>>,
}

impl<'a> VcpuLog<'a> {
    /// The calls made so far, oldest first.
    pub closed spec fn events(&self) -> Seq<VcpuEvent> {
        self.events@
    }

    /// A record of calls on `vcpu`, empty.
    pub fn new(vcpu: &'a dyn Vcpu) -> (r: Self)
        ensures
            r.events() == Seq::<VcpuEvent>::empty(),
    {
        VcpuLog { vcpu, events: Ghost(Seq::empty()) }
    }

    pub fn get_regs(&mut self) -> (r: Result<VcpuRegs, String>)
        ensures
            final(self).events() == old(self).events().push(
                VcpuEvent::GetRegs(
                    match r {
                        Ok(v) => Some(v),
                        Err(_) => None,
                    },
                ),
            ),
    {
        let r = self.vcpu.get_regs();
        self.events = Ghost(
            old(self).events@.push(
                VcpuEvent::GetRegs(
                    match r {
                        Ok(v) => Some(v),
                        Err(_) => None,
                    },
                ),
            ),
        );
        r
    }

    pub fn set_regs(&mut self, regs: &VcpuRegs) -> (r: Result<(), String>)
        ensures
            final(self).events() == old(self).events().push(VcpuEvent::SetRegs(*regs, r is Ok)),
    {
        let r = self.vcpu.set_regs(regs);
        self.events = Ghost(old(self).events@.push(VcpuEvent::SetRegs(*regs, r is Ok)));
        r
    }

    pub fn get_sregs(&mut self) -> (r: Result<VcpuSregs, String>)
        ensures
            final(self).events() == old(self).events().push(
                VcpuEvent::GetSregs(
                    match r {
                        Ok(v) => Some(v),
                        Err(_) => None,
                    },
                ),
            ),
    {
        let r = self.vcpu.get_sregs();
        self.events = Ghost(
            old(self).events@.push(
                VcpuEvent::GetSregs(
                    match r {
                        Ok(v) => Some(v),
                        Err(_) => None,
                    },
                ),
            ),
        );
        r
    }

    pub fn set_sregs(&mut self, sregs: &VcpuSregs) -> (r: Result<(), String>)
        ensures
            final(self).events() == old(self).events().push(VcpuEvent::SetSregs(*sregs, r is Ok)),
    {
        let r = self.vcpu.set_sregs(sregs);
        self.events = Ghost(old(self).events@.push(VcpuEvent::SetSregs(*sregs, r is Ok)));
        r
    }
}

/// A virtual machine of some hypervisor backend.
pub trait Vm {
    /// Backend-specific preparation (interrupt controllers, timers).
    fn setup(&self) -> Result<(), String>;

    /// A new vCPU with index `id`.
    fn create_vcpu<'a>(&'a self, id: u32) -> Result<Box<dyn Vcpu + 'a>, String>;

    /// Map `size` bytes of host memory at `hpa` as guest-physical `gpa`.
    fn register_memory_region(&self, gpa: u64, size: u64, hpa: u64) -> Result<(), String>;

    /// A sink that drives guest interrupt line `irq`.
    fn register_irq(&self, irq: u32) -> Result<Box<dyn IrqSink>, String>;
}

/// A hypervisor backend.
pub trait Hypervisor {
    fn create_vm<'a>(&'a self, name: &str) -> Result<Box<dyn Vm + 'a>, String>;
}

} // verus!
