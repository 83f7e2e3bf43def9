//! The KVM userspace ABI as the exit handling reads it: register state,
//! the exit record of `kvm_run`, exit reasons and request numbers.
use vstd::prelude::*;

use super::ioctl::{IOC_NONE, IOC_READ, IOC_WRITE, spec_ioc};

verus! {

#[derive(Clone, Copy, Debug, Default)]
pub struct KvmIrqLevel {
    pub irq: u32,
    pub level: u32,
}

/// KVM segment register (for GDT, LDT, TR, etc.).
#[derive(Clone, Copy, Debug, Default)]
pub struct KvmSegment {
    pub base: u64,
    pub limit: u32,
    pub selector: u16,
    pub type_: u8,
    pub present: u8,
    pub dpl: u8,
    pub db: u8,
    pub s: u8,
    pub l: u8,
    pub g: u8,
    pub avl: u8,
    pub unusable: u8,
    pub padding: u8,
}

/// Descriptor table register (for GDT, IDT).
#[derive(Clone, Copy, Debug, Default)]
pub struct KvmDtable {
    pub base: u64,
    pub limit: u16,
    pub padding: [u16; 3],
}

/// KVM special registers.
#[derive(Clone, Copy, Debug, Default)]
pub struct KvmSregs {
    pub cs: KvmSegment,
    pub ds: KvmSegment,
    pub es: KvmSegment,
    pub fs: KvmSegment,
    pub gs: KvmSegment,
    pub ss: KvmSegment,
    pub tr: KvmSegment,
    pub ldt: KvmSegment,
    pub gdt: KvmDtable,
    pub idt: KvmDtable,
    pub cr0: u64,
    pub cr2: u64,
    pub cr3: u64,
    pub cr4: u64,
    pub cr8: u64,
    pub efer: u64,
    pub apic_base: u64,
    pub interrupt_bitmap: [u64; 4],
}

/// KVM general-purpose registers.
#[derive(Clone, Copy, Debug, Default)]
pub struct KvmRegs {
    pub rax: u64,
    pub rbx: u64,
    pub rcx: u64,
    pub rdx: u64,
    pub rsi: u64,
    pub rdi: u64,
    pub rsp: u64,
    pub rbp: u64,
    pub r8: u64,
    pub r9: u64,
    pub r10: u64,
    pub r11: u64,
    pub r12: u64,
    pub r13: u64,
    pub r14: u64,
    pub r15: u64,
    pub rip: u64,
    pub rflags: u64,
}

/// A guest memory slot.
#[derive(Clone, Copy, Debug, Default)]
pub struct KvmUserspaceMemoryRegion {
    pub slot: u32,
    pub flags: u32,
    pub guest_phys_addr: u64,
    pub memory_size: u64,
    pub userspace_addr: u64,
}

pub const KVM_PIT_SPEAKER_DUMMY: u32 = 1;

/// PIT (programmable interval timer) configuration.
#[derive(Clone, Copy, Debug, Default)]
pub struct KvmPitConfig {
    pub flags: u32,
    pub pad: [u32; 15],
}

#[derive(Clone, Copy, Debug, Default)]
pub struct KvmExitUnknown {
    pub hardware_exit_reason: u64,
}

/// Why the vCPU failed to enter guest mode.
#[derive(Clone, Copy, Debug, Default)]
pub struct KvmExitFailEntry {
    /// VMX/SVM hardware error code: for VMX the VM-instruction error field
    /// of the VMCS, for SVM the error code of the VMCB.
    pub hardware_entry_failure_reason: u64,
    /// CPU index that failed.
    pub cpu: u32,
}

#[derive(Clone, Copy, Debug, Default)]
pub struct KvmExitException {
    pub exception: u32,
    pub error_code: u32,
}

pub const KVM_EXIT_IO_IN: u8 = 0;
pub const KVM_EXIT_IO_OUT: u8 = 1;

/// A port I/O exit: `count` accesses of `size` bytes at `port`, their data
/// at `data_offset` in the `kvm_run` page.
#[derive(Clone, Copy, Debug, Default)]
pub struct KvmExitIo {
    /// `KVM_EXIT_IO_IN` or `KVM_EXIT_IO_OUT`.
    pub direction: u8,
    pub size: u8,
    pub port: u16,
    pub count: u32,
    /// Relative to the start of `kvm_run`.
    pub data_offset: u64,
}

#[derive(Clone, Copy, Debug, Default)]
pub struct KvmDebugExitArch {
    pub exception: u32,
    pub pad: u32,
    pub pc: u64,
    pub dr6: u64,
    pub dr7: u64,
}

#[derive(Clone, Copy, Debug, Default)]
pub struct KvmExitDebug {
    pub arch: KvmDebugExitArch,
}

/// An MMIO exit: an access of `len` bytes at `phys_addr`, its data inline.
#[derive(Clone, Copy, Debug, Default)]
pub struct KvmExitMmio {
    pub phys_addr: u64,
    pub data: [u8; 8],
    pub len: u32,
    pub is_write: u8,
}

#[derive(Clone, Copy, Debug, Default)]
pub struct KvmCpuidEntry2 {
    pub function: u32,
    pub index: u32,
    pub flags: u32,
    pub eax: u32,
    pub ebx: u32,
    pub ecx: u32,
    pub edx: u32,
    pub padding: [u32; 3],
}

#[derive(Clone, Copy, Debug)]
pub struct KvmCpuid2 {
    pub nent: u32,
    pub padding: u32,
    pub entries: [KvmCpuidEntry2; 256],
}

#[derive(Clone, Copy, Debug, Default)]
pub struct KvmCpuid2Empty {
    pub nent: u32,
    pub padding: u32,
}

/// The exit record of `kvm_run`: which view of it is meaningful depends on
/// the exit reason.
#[derive(Clone, Copy, Debug)]
pub enum KvmRunExit {
    Hw(KvmExitUnknown),
    FailEntry(KvmExitFailEntry),
    Ex(KvmExitException),
    Io(KvmExitIo),
    Debug(KvmExitDebug),
    Mmio(KvmExitMmio),
    /// An exit whose record is not read here.
    Other,
}

/// The shared `kvm_run` area of a vCPU, as far as exit handling reads it.
#[derive(Clone, Copy, Debug)]
pub struct KvmRun {
    pub request_interrupt_window: u8,
    pub immediate_exit: u8,
    pub padding1: [u8; 6],
    pub exit_reason: u32,
    pub ready_for_interrupt_injection: u8,
    pub if_flag: u8,
    pub flags: u16,
    pub cr8: u64,
    pub apic_base: u64,
    pub exit: KvmRunExit,
}

/// VM exit reason.
#[derive(Debug, Clone, Copy, PartialEq, Eq, Structural)]
pub enum VmExitReason {
    Unknown,
    Exception,
    Io,
    Hypercall,
    Debug,
    Hlt,
    MmIo,
    IrqWindowOpen,
    Shutdown,
    FailEntry,
    Intr,
    SetTpr,
    TprAccess,
    S390Sieic,
    S390Reset,
    Dcr,
    Nmi,
    InternalError,
    Osi,
    PaprHcall,
    S390Ucontrol,
    Watchdog,
    S390Tsch,
    Epr,
    SystemEvent,
    S390Stsi,
    IoapicEoi,
    Hyperv,
    ArmNisv,
    X86Rdmsr,
    X86Wrmsr,
    DirtyRingFull,
    ApResetHold,
    X86BusLock,
    Xen,
    RiscvSbi,
    RiscvCsr,
    Notify,
    LoongarchIocsr,
    MemoryFault,
    Tdx,
    ArmSea,
}

impl VmExitReason {
    /// The `KVM_EXIT_*` code of this reason.
    pub open spec fn spec_code(self) -> u32 {
        match self {
            VmExitReason::Unknown => 0,
            VmExitReason::Exception => 1,
            VmExitReason::Io => 2,
            VmExitReason::Hypercall => 3,
            VmExitReason::Debug => 4,
            VmExitReason::Hlt => 5,
            VmExitReason::MmIo => 6,
            VmExitReason::IrqWindowOpen => 7,
            VmExitReason::Shutdown => 8,
            VmExitReason::FailEntry => 9,
            VmExitReason::Intr => 10,
            VmExitReason::SetTpr => 11,
            VmExitReason::TprAccess => 12,
            VmExitReason::S390Sieic => 13,
            VmExitReason::S390Reset => 14,
            VmExitReason::Dcr => 15,
            VmExitReason::Nmi => 16,
            VmExitReason::InternalError => 17,
            VmExitReason::Osi => 18,
            VmExitReason::PaprHcall => 19,
            VmExitReason::S390Ucontrol => 20,
            VmExitReason::Watchdog => 21,
            VmExitReason::S390Tsch => 22,
            VmExitReason::Epr => 23,
            VmExitReason::SystemEvent => 24,
            VmExitReason::S390Stsi => 25,
            VmExitReason::IoapicEoi => 26,
            VmExitReason::Hyperv => 27,
            VmExitReason::ArmNisv => 28,
            VmExitReason::X86Rdmsr => 29,
            VmExitReason::X86Wrmsr => 30,
            VmExitReason::DirtyRingFull => 31,
            VmExitReason::ApResetHold => 32,
            VmExitReason::X86BusLock => 33,
            VmExitReason::Xen => 34,
            VmExitReason::RiscvSbi => 35,
            VmExitReason::RiscvCsr => 36,
            VmExitReason::Notify => 37,
            VmExitReason::LoongarchIocsr => 38,
            VmExitReason::MemoryFault => 39,
            VmExitReason::Tdx => 40,
            VmExitReason::ArmSea => 41,
        }
    }

    /// The reason with `KVM_EXIT_*` code `val`, if any.
    pub open spec fn spec_from_code(val: u32) -> Option<VmExitReason> {
        if val == 0 {
            Some(VmExitReason::Unknown)
        } else if val == 1 {
            Some(VmExitReason::Exception)
        } else if val == 2 {
            Some(VmExitReason::Io)
        } else if val == 3 {
            Some(VmExitReason::Hypercall)
        } else if val == 4 {
            Some(VmExitReason::Debug)
        } else if val == 5 {
            Some(VmExitReason::Hlt)
        } else if val == 6 {
            Some(VmExitReason::MmIo)
        } else if val == 7 {
            Some(VmExitReason::IrqWindowOpen)
        } else if val == 8 {
            Some(VmExitReason::Shutdown)
        } else if val == 9 {
            Some(VmExitReason::FailEntry)
        } else if val == 10 {
            Some(VmExitReason::Intr)
        } else if val == 11 {
            Some(VmExitReason::SetTpr)
        } else if val == 12 {
            Some(VmExitReason::TprAccess)
        } else if val == 13 {
            Some(VmExitReason::S390Sieic)
        } else if val == 14 {
            Some(VmExitReason::S390Reset)
        } else if val == 15 {
            Some(VmExitReason::Dcr)
        } else if val == 16 {
            Some(VmExitReason::Nmi)
        } else if val == 17 {
            Some(VmExitReason::InternalError)
        } else if val == 18 {
            Some(VmExitReason::Osi)
        } else if val == 19 {
            Some(VmExitReason::PaprHcall)
        } else if val == 20 {
            Some(VmExitReason::S390Ucontrol)
        } else if val == 21 {
            Some(VmExitReason::Watchdog)
        } else if val == 22 {
            Some(VmExitReason::S390Tsch)
        } else if val == 23 {
            Some(VmExitReason::Epr)
        } else if val == 24 {
            Some(VmExitReason::SystemEvent)
        } else if val == 25 {
            Some(VmExitReason::S390Stsi)
        } else if val == 26 {
            Some(VmExitReason::IoapicEoi)
        } else if val == 27 {
            Some(VmExitReason::Hyperv)
        } else if val == 28 {
            Some(VmExitReason::ArmNisv)
        } else if val == 29 {
            Some(VmExitReason::X86Rdmsr)
        } else if val == 30 {
            Some(VmExitReason::X86Wrmsr)
        } else if val == 31 {
            Some(VmExitReason::DirtyRingFull)
        } else if val == 32 {
            Some(VmExitReason::ApResetHold)
        } else if val == 33 {
            Some(VmExitReason::X86BusLock)
        } else if val == 34 {
            Some(VmExitReason::Xen)
        } else if val == 35 {
            Some(VmExitReason::RiscvSbi)
        } else if val == 36 {
            Some(VmExitReason::RiscvCsr)
        } else if val == 37 {
            Some(VmExitReason::Notify)
        } else if val == 38 {
            Some(VmExitReason::LoongarchIocsr)
        } else if val == 39 {
            Some(VmExitReason::MemoryFault)
        } else if val == 40 {
            Some(VmExitReason::Tdx)
        } else if val == 41 {
            Some(VmExitReason::ArmSea)
        } else {
            None
        }
    }

    /// The `KVM_EXIT_*` code of this reason.
    pub fn code(self) -> (r: u32)
        ensures
            r == self.spec_code(),
    {
        match self {
            VmExitReason::Unknown => 0,
            VmExitReason::Exception => 1,
            VmExitReason::Io => 2,
            VmExitReason::Hypercall => 3,
            VmExitReason::Debug => 4,
            VmExitReason::Hlt => 5,
            VmExitReason::MmIo => 6,
            VmExitReason::IrqWindowOpen => 7,
            VmExitReason::Shutdown => 8,
            VmExitReason::FailEntry => 9,
            VmExitReason::Intr => 10,
            VmExitReason::SetTpr => 11,
            VmExitReason::TprAccess => 12,
            VmExitReason::S390Sieic => 13,
            VmExitReason::S390Reset => 14,
            VmExitReason::Dcr => 15,
            VmExitReason::Nmi => 16,
            VmExitReason::InternalError => 17,
            VmExitReason::Osi => 18,
            VmExitReason::PaprHcall => 19,
            VmExitReason::S390Ucontrol => 20,
            VmExitReason::Watchdog => 21,
            VmExitReason::S390Tsch => 22,
            VmExitReason::Epr => 23,
            VmExitReason::SystemEvent => 24,
            VmExitReason::S390Stsi => 25,
            VmExitReason::IoapicEoi => 26,
            VmExitReason::Hyperv => 27,
            VmExitReason::ArmNisv => 28,
            VmExitReason::X86Rdmsr => 29,
            VmExitReason::X86Wrmsr => 30,
            VmExitReason::DirtyRingFull => 31,
            VmExitReason::ApResetHold => 32,
            VmExitReason::X86BusLock => 33,
            VmExitReason::Xen => 34,
            VmExitReason::RiscvSbi => 35,
            VmExitReason::RiscvCsr => 36,
            VmExitReason::Notify => 37,
            VmExitReason::LoongarchIocsr => 38,
            VmExitReason::MemoryFault => 39,
            VmExitReason::Tdx => 40,
            VmExitReason::ArmSea => 41,
        }
    }

    /// The reason for an exit code; unknown codes are handed back.
    pub fn try_from(val: u32) -> (r: Result<Self, u32>)
        ensures
            match Self::spec_from_code(val) {
                Some(reason) => r == Ok::<VmExitReason, u32>(reason),
                None => r == Err::<VmExitReason, u32>(val),
            },
    {
        match val {
            0 => Ok(VmExitReason::Unknown),
            1 => Ok(VmExitReason::Exception),
            2 => Ok(VmExitReason::Io),
            3 => Ok(VmExitReason::Hypercall),
            4 => Ok(VmExitReason::Debug),
            5 => Ok(VmExitReason::Hlt),
            6 => Ok(VmExitReason::MmIo),
            7 => Ok(VmExitReason::IrqWindowOpen),
            8 => Ok(VmExitReason::Shutdown),
            9 => Ok(VmExitReason::FailEntry),
            10 => Ok(VmExitReason::Intr),
            11 => Ok(VmExitReason::SetTpr),
            12 => Ok(VmExitReason::TprAccess),
            13 => Ok(VmExitReason::S390Sieic),
            14 => Ok(VmExitReason::S390Reset),
            15 => Ok(VmExitReason::Dcr),
            16 => Ok(VmExitReason::Nmi),
            17 => Ok(VmExitReason::InternalError),
            18 => Ok(VmExitReason::Osi),
            19 => Ok(VmExitReason::PaprHcall),
            20 => Ok(VmExitReason::S390Ucontrol),
            21 => Ok(VmExitReason::Watchdog),
            22 => Ok(VmExitReason::S390Tsch),
            23 => Ok(VmExitReason::Epr),
            24 => Ok(VmExitReason::SystemEvent),
            25 => Ok(VmExitReason::S390Stsi),
            26 => Ok(VmExitReason::IoapicEoi),
            27 => Ok(VmExitReason::Hyperv),
            28 => Ok(VmExitReason::ArmNisv),
            29 => Ok(VmExitReason::X86Rdmsr),
            30 => Ok(VmExitReason::X86Wrmsr),
            31 => Ok(VmExitReason::DirtyRingFull),
            32 => Ok(VmExitReason::ApResetHold),
            33 => Ok(VmExitReason::X86BusLock),
            34 => Ok(VmExitReason::Xen),
            35 => Ok(VmExitReason::RiscvSbi),
            36 => Ok(VmExitReason::RiscvCsr),
            37 => Ok(VmExitReason::Notify),
            38 => Ok(VmExitReason::LoongarchIocsr),
            39 => Ok(VmExitReason::MemoryFault),
            40 => Ok(VmExitReason::Tdx),
            41 => Ok(VmExitReason::ArmSea),
            _ => Err(val),
        }
    }

    /// A human-readable name.
    pub open spec fn spec_name(self) -> &'static str {
        match self {
            VmExitReason::Unknown => "Unknown",
            VmExitReason::Exception => "Exception",
            VmExitReason::Io => "IO",
            VmExitReason::Hypercall => "Hypercall",
            VmExitReason::Debug => "Debug",
            VmExitReason::Hlt => "Hlt",
            VmExitReason::MmIo => "MMIO",
            VmExitReason::IrqWindowOpen => "IRQ Window Open",
            VmExitReason::Shutdown => "Shutdown",
            VmExitReason::FailEntry => "Fail Entry",
            VmExitReason::Intr => "Interrupt",
            VmExitReason::SetTpr => "Set TPR",
            VmExitReason::TprAccess => "TPR Access",
            VmExitReason::S390Sieic => "S390 Sieic",
            VmExitReason::S390Reset => "S390 Reset",
            VmExitReason::Dcr => "DCR",
            VmExitReason::Nmi => "NMI",
            VmExitReason::InternalError => "Internal Error",
            VmExitReason::Osi => "OSI",
            VmExitReason::PaprHcall => "PAPR Hypercall",
            VmExitReason::S390Ucontrol => "S390 Ucontrol",
            VmExitReason::Watchdog => "Watchdog",
            VmExitReason::S390Tsch => "S390 Tsch",
            VmExitReason::Epr => "EPR",
            VmExitReason::SystemEvent => "System Event",
            VmExitReason::S390Stsi => "S390 Stsi",
            VmExitReason::IoapicEoi => "IOAPIC EOI",
            VmExitReason::Hyperv => "Hyper-V",
            VmExitReason::ArmNisv => "ARM NISV",
            VmExitReason::X86Rdmsr => "x86 RDMSR",
            VmExitReason::X86Wrmsr => "x86 WRMSR",
            VmExitReason::DirtyRingFull => "Dirty Ring Full",
            VmExitReason::ApResetHold => "AP Reset Hold",
            VmExitReason::X86BusLock => "x86 Bus Lock",
            VmExitReason::Xen => "Xen",
            VmExitReason::RiscvSbi => "RISC-V SBI",
            VmExitReason::RiscvCsr => "RISC-V CSR",
            VmExitReason::Notify => "Notify",
            VmExitReason::LoongarchIocsr => "LoongArch IOCSR",
            VmExitReason::MemoryFault => "Memory Fault",
            VmExitReason::Tdx => "TDX",
            VmExitReason::ArmSea => "ARM SEA",
        }
    }

    /// A human-readable name.
    pub fn name(&self) -> (r: &'static str)
        ensures
            r == self.spec_name(),
    {
        match self {
            VmExitReason::Unknown => "Unknown",
            VmExitReason::Exception => "Exception",
            VmExitReason::Io => "IO",
            VmExitReason::Hypercall => "Hypercall",
            VmExitReason::Debug => "Debug",
            VmExitReason::Hlt => "Hlt",
            VmExitReason::MmIo => "MMIO",
            VmExitReason::IrqWindowOpen => "IRQ Window Open",
            VmExitReason::Shutdown => "Shutdown",
            VmExitReason::FailEntry => "Fail Entry",
            VmExitReason::Intr => "Interrupt",
            VmExitReason::SetTpr => "Set TPR",
            VmExitReason::TprAccess => "TPR Access",
            VmExitReason::S390Sieic => "S390 Sieic",
            VmExitReason::S390Reset => "S390 Reset",
            VmExitReason::Dcr => "DCR",
            VmExitReason::Nmi => "NMI",
            VmExitReason::InternalError => "Internal Error",
            VmExitReason::Osi => "OSI",
            VmExitReason::PaprHcall => "PAPR Hypercall",
            VmExitReason::S390Ucontrol => "S390 Ucontrol",
            VmExitReason::Watchdog => "Watchdog",
            VmExitReason::S390Tsch => "S390 Tsch",
            VmExitReason::Epr => "EPR",
            VmExitReason::SystemEvent => "System Event",
            VmExitReason::S390Stsi => "S390 Stsi",
            VmExitReason::IoapicEoi => "IOAPIC EOI",
            VmExitReason::Hyperv => "Hyper-V",
            VmExitReason::ArmNisv => "ARM NISV",
            VmExitReason::X86Rdmsr => "x86 RDMSR",
            VmExitReason::X86Wrmsr => "x86 WRMSR",
            VmExitReason::DirtyRingFull => "Dirty Ring Full",
            VmExitReason::ApResetHold => "AP Reset Hold",
            VmExitReason::X86BusLock => "x86 Bus Lock",
            VmExitReason::Xen => "Xen",
            VmExitReason::RiscvSbi => "RISC-V SBI",
            VmExitReason::RiscvCsr => "RISC-V CSR",
            VmExitReason::Notify => "Notify",
            VmExitReason::LoongarchIocsr => "LoongArch IOCSR",
            VmExitReason::MemoryFault => "Memory Fault",
            VmExitReason::Tdx => "TDX",
            VmExitReason::ArmSea => "ARM SEA",
        }
    }
}

/// Decoding a reason's code gives the reason back, and every code below
/// 42 names a reason.
pub proof fn lemma_exit_reason_code_roundtrip(reason: VmExitReason, val: u32)
    ensures
        VmExitReason::spec_from_code(reason.spec_code()) == Some(reason),
        val < 42 <==> VmExitReason::spec_from_code(val) is Some,
        VmExitReason::spec_from_code(val) matches Some(r) ==> r.spec_code() == val,
{
}

pub const KVM_API_VERSION: i32 = 12;
pub const KVM_TSS_ADDRESS: usize = 0xfffb_d000;

/// The KVM ioctl type.
pub const KVMIO: u32 = 0xae;

// System ioctls (on /dev/kvm).
pub const KVM_GET_API_VERSION: u64 = 0xae00;
pub const KVM_CREATE_VM: u64 = 0xae01;
pub const KVM_GET_VCPU_MMAP_SIZE: u64 = 0xae04;
pub const KVM_GET_SUPPORTED_CPUID: u64 = 0xc008_ae05;

// VM ioctls.
pub const KVM_CREATE_VCPU: u64 = 0xae41;
pub const KVM_SET_USER_MEMORY_REGION: u64 = 0x4020_ae46;
pub const KVM_SET_TSS_ADDR: u64 = 0xae47;
pub const KVM_CREATE_IRQCHIP: u64 = 0xae60;
pub const KVM_CREATE_PIT2: u64 = 0x4040_ae77;
pub const KVM_IRQ_LINE: u64 = 0x4008_ae61;

// vCPU ioctls.
pub const KVM_RUN: u64 = 0xae80;
pub const KVM_GET_REGS: u64 = 0x8090_ae81;
pub const KVM_SET_REGS: u64 = 0x4090_ae82;
pub const KVM_GET_SREGS: u64 = 0x8138_ae83;
pub const KVM_SET_SREGS: u64 = 0x4138_ae84;
pub const KVM_SET_CPUID2: u64 = 0x4008_ae90;

/// Each request number is the ioctl encoding of its direction, the KVM
/// type, its number and the size of its argument in the Linux ABI
/// (`kvm_cpuid2` header 8, `kvm_userspace_memory_region` 32,
/// `kvm_pit_config` 64, `kvm_irq_level` 8, `kvm_regs` 144, `kvm_sregs`
/// 312 bytes).
pub proof fn lemma_kvm_request_numbers()
    ensures
        KVM_GET_API_VERSION == spec_ioc(IOC_NONE, KVMIO, 0x00, 0),
        KVM_CREATE_VM == spec_ioc(IOC_NONE, KVMIO, 0x01, 0),
        KVM_GET_VCPU_MMAP_SIZE == spec_ioc(IOC_NONE, KVMIO, 0x04, 0),
        KVM_GET_SUPPORTED_CPUID == spec_ioc(IOC_READ | IOC_WRITE, KVMIO, 0x05, 8),
        KVM_CREATE_VCPU == spec_ioc(IOC_NONE, KVMIO, 0x41, 0),
        KVM_SET_USER_MEMORY_REGION == spec_ioc(IOC_WRITE, KVMIO, 0x46, 32),
        KVM_SET_TSS_ADDR == spec_ioc(IOC_NONE, KVMIO, 0x47, 0),
        KVM_CREATE_IRQCHIP == spec_ioc(IOC_NONE, KVMIO, 0x60, 0),
        KVM_CREATE_PIT2 == spec_ioc(IOC_WRITE, KVMIO, 0x77, 64),
        KVM_IRQ_LINE == spec_ioc(IOC_WRITE, KVMIO, 0x61, 8),
        KVM_RUN == spec_ioc(IOC_NONE, KVMIO, 0x80, 0),
        KVM_GET_REGS == spec_ioc(IOC_READ, KVMIO, 0x81, 144),
        KVM_SET_REGS == spec_ioc(IOC_WRITE, KVMIO, 0x82, 144),
        KVM_GET_SREGS == spec_ioc(IOC_READ, KVMIO, 0x83, 312),
        KVM_SET_SREGS == spec_ioc(IOC_WRITE, KVMIO, 0x84, 312),
        KVM_SET_CPUID2 == spec_ioc(IOC_WRITE, KVMIO, 0x90, 8),
{
    assert({
        &&& IOC_READ | IOC_WRITE == 3
        &&& KVM_GET_API_VERSION == spec_ioc(0, 0xae, 0x00, 0)
        &&& KVM_CREATE_VM == spec_ioc(0, 0xae, 0x01, 0)
        &&& KVM_GET_VCPU_MMAP_SIZE == spec_ioc(0, 0xae, 0x04, 0)
        &&& KVM_GET_SUPPORTED_CPUID == spec_ioc(3, 0xae, 0x05, 8)
        &&& KVM_CREATE_VCPU == spec_ioc(0, 0xae, 0x41, 0)
        &&& KVM_SET_USER_MEMORY_REGION == spec_ioc(1, 0xae, 0x46, 32)
        &&& KVM_SET_TSS_ADDR == spec_ioc(0, 0xae, 0x47, 0)
        &&& KVM_CREATE_IRQCHIP == spec_ioc(0, 0xae, 0x60, 0)
        &&& KVM_CREATE_PIT2 == spec_ioc(1, 0xae, 0x77, 64)
        &&& KVM_IRQ_LINE == spec_ioc(1, 0xae, 0x61, 8)
        &&& KVM_RUN == spec_ioc(0, 0xae, 0x80, 0)
        &&& KVM_GET_REGS == spec_ioc(2, 0xae, 0x81, 144)
        &&& KVM_SET_REGS == spec_ioc(1, 0xae, 0x82, 144)
        &&& KVM_GET_SREGS == spec_ioc(2, 0xae, 0x83, 312)
        &&& KVM_SET_SREGS == spec_ioc(1, 0xae, 0x84, 312)
        &&& KVM_SET_CPUID2 == spec_ioc(1, 0xae, 0x90, 8)
    }) by (bit_vector);
}

impl KvmRun {
    /// The exit reason; unknown codes are handed back.
    pub fn exit_reason_enum(&self) -> (r: Result<VmExitReason, u32>)
        ensures
            match VmExitReason::spec_from_code(self.exit_reason) {
                Some(reason) => r == Ok::<VmExitReason, u32>(reason),
                None => r == Err::<VmExitReason, u32>(self.exit_reason),
            },
    {
        VmExitReason::try_from(self.exit_reason)
    }

    /// The port I/O record, for a port I/O exit.
    pub fn io_exit(&self) -> (r: Option<KvmExitIo>)
        ensures
            self.exit_reason != 2 ==> r is None,
            self.exit_reason == 2 ==> r == (match self.exit {
                KvmRunExit::Io(io) => Some(io),
                _ => None,
            }),
    {
        if self.exit_reason != 2 {
            return None;
        }
        match self.exit {
            KvmRunExit::Io(io) => Some(io),
            _ => None,
        }
    }
}

} // verus!
