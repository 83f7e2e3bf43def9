//! Handling of bhyve VM exits: port and MMIO accesses go to the buses and
//! are completed on the next entry; the rest decides whether the vCPU
//! keeps running. Instruction bytes of an unexpected exit are decoded for
//! the report.
use vstd::prelude::*;

use super::api::{
    INOUT_IN, VEC_DEFAULT, VEC_FULFILL_INOUT, VEC_FULFILL_MMIO, VmEntryUnion, VmExit, VmExitCode,
    VmExitUnion, VmInout, VmMmio,
};
use crate::bus::{Bus, BusDevice};
use crate::bytes::le_value;
use crate::config::Config;
use crate::kvm::exithandler::counted;
use crate::stats::ExitStats;
use crate::traits::{Vcpu, VcpuRegs, VcpuSregs};
use crate::virtio::pci::{get_le, le_byte_at, put_le};

verus! {

/// What an exit amounted to, for the caller to report.
#[derive(Debug, Clone, Copy, PartialEq, Eq, Structural)]
pub enum BhyveExitReport {
    /// Handled, nothing to report.
    Handled,
    /// The guest suspended (shut down or rebooted).
    Suspended { how: i32, source: i32 },
    /// A VMX exit the kernel passed up.
    Vmx { status: i32, exit_reason: u32, qualification: u64, rip: u64 },
    /// A read of a model-specific register.
    Rdmsr { code: u32, rip: u64 },
    /// A write of a model-specific register, with the value from EDX:EAX.
    Wrmsr { code: u32, value: u64, rip: u64 },
    /// An unexpected exit (not in debug mode).
    Bogus,
    /// An unexpected exit in debug mode; the registers could not be read.
    BogusNoRegs,
    /// An unexpected exit in debug mode; the special registers could not
    /// be read.
    BogusNoSregs,
    /// An unexpected exit in debug mode, with the state to dump and the
    /// code size to decode the instruction at `rip` with.
    BogusDump { rip: u64, cr0: u64, cr4: u64, inst_length: i32, exit_rip: u64, bitness: u32 },
    /// An exit this VMM does not handle.
    Unhandled { code: u32, rip: u64, inst_length: i32 },
}

/// The value `eax` after a port access `io`: its low `bytes` bytes are the
/// data of the access, the rest are kept; an unclaimed read gives all ones.
pub open spec fn inout_data(io: VmInout, eax: u32, unclaimed: bool) -> bool {
    exists|d: Seq<u8>|
        #![trigger le_value(d, 0, 4)]
        d.len() == 4 && eax == le_value(d, 0, 4) && (forall|j: int|
            io.bytes <= j < 4 ==> d[j] == le_byte_at(io.eax as u64, j)) && (io.flags & INOUT_IN != 0
            && io.bytes > 0 && unclaimed ==> forall|j: int| 0 <= j < io.bytes ==> d[j] == 0xffu8)
}

/// The data word after an MMIO access `m`, as [`inout_data`] for eight
/// bytes.
pub open spec fn mmio_data(m: VmMmio, data: u64, unclaimed: bool) -> bool {
    exists|d: Seq<u8>|
        #![trigger le_value(d, 0, 8)]
        d.len() == 8 && data == le_value(d, 0, 8) && (forall|j: int|
            m.bytes <= j < 8 ==> d[j] == le_byte_at(m.data, j)) && (m.read != 0 && m.bytes > 0 && unclaimed
            ==> forall|j: int| 0 <= j < m.bytes ==> d[j] == 0xffu8)
}

/// A port I/O exit: the low `bytes` bytes of `eax` are the data; a read
/// replaces them from the bus, a write sends them.
pub fn handle_io_exit<D: BusDevice>(inout: &mut VmInout, stats: &mut ExitStats, bus: &mut Bus<D>)
    requires
        old(inout).bytes <= 4,
        old(stats).io_exits < u64::MAX,
        old(bus).wf(),
    ensures
        *final(stats) == counted(*old(stats), 1, 0, 0, 0, 0),
        final(bus).wf(),
        final(bus).ranges() == old(bus).ranges(),
        old(inout).flags & INOUT_IN == 0 ==> *final(inout) == *old(inout),
        *final(inout) == (VmInout { eax: final(inout).eax, ..*old(inout) }),
        inout_data(
            *old(inout),
            final(inout).eax,
            old(bus).spec_route(old(inout).port as u64, old(inout).bytes as u64) is None,
        ),
{
    stats.io_exits = stats.io_exits + 1;
    let port = inout.port as u64;
    let size = inout.bytes as usize;
    let mut data = vec![0u8; 4];
    put_le(data.as_mut_slice(), inout.eax as u64);
    let ghost d0 = data@;
    let mut chunk: Vec<u8> = Vec::new();
    let mut k: usize = 0;
    while k < size
        invariant
            k <= size <= 4,
            data@.len() == 4,
            chunk@ == data@.subrange(0, k as int),
        decreases size - k,
    {
        chunk.push(data[k]);
        k = k + 1;
        assert(chunk@ =~= data@.subrange(0, k as int));
    }
    if inout.flags & INOUT_IN != 0 {
        let claimed = bus.read(port, chunk.as_mut_slice());
        let mut k: usize = 0;
        while k < size
            invariant
                k <= size <= 4,
                chunk@.len() == size,
                data@.len() == 4,
                forall|j: int| size <= j < 4 ==> data@[j] == d0[j],
                forall|j: int| 0 <= j < k ==> data@[j] == chunk@[j],
            decreases size - k,
        {
            data.set(k, chunk[k]);
            k = k + 1;
        }
        assert forall|j: int| 0 <= j < size && !claimed implies data@[j] == 0xffu8 by {
            assert(data@[j] == chunk@[j]);
        }
        let v = get_le(data.as_slice());
        proof {
            crate::bytes::lemma_le_value_widths(data@, 0);
        }
        inout.eax = v as u32;
        assert(inout.eax == le_value(data@, 0, 4));
    } else {
        bus.write(port, chunk.as_slice());
        proof {
            crate::bytes::lemma_le_value_widths(d0, 0);
            crate::virtio::pci::lemma_le_bytes_value(d0, inout.eax as u64, 0, 4);
            assert(crate::virtio::pci::pow256(0) == 1);
            assert(crate::virtio::pci::pow256(4) == 0x1_0000_0000) by {
                reveal_with_fuel(crate::virtio::pci::pow256, 5);
            }
            vstd::arithmetic::div_mod::lemma_small_mod(inout.eax as nat, 0x1_0000_0000);
            let e = inout.eax as u64 as nat;
            vstd::arithmetic::div_mod::lemma_div_basics(e as int);
            assert(e / 1 == e);
            assert(le_value(d0, 0, 4) == (e / crate::virtio::pci::pow256(0)) % crate::virtio::pci::pow256(4));
            assert(inout.eax == le_value(d0, 0, 4));
        }
    }
}

/// An MMIO exit: the low `bytes` bytes of `data` are the access; a read
/// replaces them from the bus, a write sends them.
pub fn handle_mmio_exit<D: BusDevice>(mmio: &mut VmMmio, stats: &mut ExitStats, bus: &mut Bus<D>)
    requires
        old(mmio).bytes <= 8,
        old(stats).mmio_exits < u64::MAX,
        old(bus).wf(),
    ensures
        *final(stats) == counted(*old(stats), 0, 1, 0, 0, 0),
        final(bus).wf(),
        final(bus).ranges() == old(bus).ranges(),
        old(mmio).read == 0 ==> final(mmio).data == old(mmio).data,
        *final(mmio) == (VmMmio { data: final(mmio).data, ..*old(mmio) }),
        mmio_data(*old(mmio), final(mmio).data, old(bus).spec_route(old(mmio).gpa, old(mmio).bytes as u64) is None),
{
    stats.mmio_exits = stats.mmio_exits + 1;
    let addr = mmio.gpa;
    let size = mmio.bytes as usize;
    let mut data = vec![0u8; 8];
    put_le(data.as_mut_slice(), mmio.data);
    let ghost d0 = data@;
    let mut chunk: Vec<u8> = Vec::new();
    let mut k: usize = 0;
    while k < size
        invariant
            k <= size <= 8,
            data@.len() == 8,
            chunk@ == data@.subrange(0, k as int),
        decreases size - k,
    {
        chunk.push(data[k]);
        k = k + 1;
        assert(chunk@ =~= data@.subrange(0, k as int));
    }
    if mmio.read != 0 {
        let claimed = bus.read(addr, chunk.as_mut_slice());
        let mut k: usize = 0;
        while k < size
            invariant
                k <= size <= 8,
                chunk@.len() == size,
                data@.len() == 8,
                forall|j: int| size <= j < 8 ==> data@[j] == d0[j],
                forall|j: int| 0 <= j < k ==> data@[j] == chunk@[j],
            decreases size - k,
        {
            data.set(k, chunk[k]);
            k = k + 1;
        }
        assert forall|j: int| 0 <= j < size && !claimed implies data@[j] == 0xffu8 by {
            assert(data@[j] == chunk@[j]);
        }
        mmio.data = get_le(data.as_slice());
    } else {
        bus.write(addr, chunk.as_slice());
        proof {
            crate::virtio::pci::lemma_le_bytes_value(d0, mmio.data, 0, 8);
            assert(crate::virtio::pci::pow256(0) == 1);
            crate::virtio::pci::lemma_pow256_le_2_64(8);
            assert(crate::virtio::pci::pow256(8) == 0x1_0000_0000_0000_0000) by {
                reveal_with_fuel(crate::virtio::pci::pow256, 9);
            }
            vstd::arithmetic::div_mod::lemma_small_mod(mmio.data as nat, 0x1_0000_0000_0000_0000);
            let e = mmio.data as nat;
            vstd::arithmetic::div_mod::lemma_div_basics(e as int);
            assert(e / 1 == e);
            assert(le_value(d0, 0, 8) == (e / crate::virtio::pci::pow256(0)) % crate::virtio::pci::pow256(8));
            assert(mmio.data == le_value(d0, 0, 8));
        }
    }
}

/// The value a WRMSR writes: EDX:EAX, the low halves of RDX and RAX.
pub open spec fn spec_msr_write_value(rax: u64, rdx: u64) -> u64 {
    ((rdx & 0xffff_ffff) << 32u64) | (rax & 0xffff_ffff)
}

/// The value of a WRMSR from the registers at the exit.
pub fn msr_write_value(regs: &VcpuRegs) -> (r: u64)
    ensures
        r == spec_msr_write_value(regs.rax, regs.rdx),
{
    ((regs.rdx & 0xffff_ffff) << 32u64) | (regs.rax & 0xffff_ffff)
}

/// The code size of the guest: 64 in long mode with `CS.L`, 32 in
/// compatibility or protected mode, 16 in real mode.
pub open spec fn spec_bitness(s: VcpuSregs) -> u32 {
    if s.efer & 0x400 != 0 {
        if s.cs.l != 0 {
            64
        } else {
            32
        }
    } else if s.cr0 & 1 != 0 {
        32
    } else {
        16
    }
}

pub fn bitness(s: &VcpuSregs) -> (r: u32)
    ensures
        r == spec_bitness(*s),
        r == 16 || r == 32 || r == 64,
{
    if s.efer & 0x400 != 0 {
        if s.cs.l != 0 {
            64
        } else {
            32
        }
    } else if s.cr0 & 1 != 0 {
        32
    } else {
        16
    }
}

/// The report of a suspend exit: how and by whom, from its record.
pub open spec fn suspended_report(u: VmExitUnion) -> BhyveExitReport {
    match u {
        VmExitUnion::Suspended(s) => BhyveExitReport::Suspended { how: s.how, source: s.source },
        _ => BhyveExitReport::Suspended { how: 0, source: 0 },
    }
}

/// The report of a VMX exit, from its record.
pub open spec fn vmx_report(u: VmExitUnion, rip: u64) -> BhyveExitReport {
    match u {
        VmExitUnion::Vmx(v) => BhyveExitReport::Vmx {
            status: v.status,
            exit_reason: v.exit_reason,
            qualification: v.exit_qualification,
            rip,
        },
        _ => BhyveExitReport::Vmx { status: 0, exit_reason: 0, qualification: 0, rip },
    }
}

/// The register number of an MSR exit, from its record.
pub open spec fn msr_code(u: VmExitUnion) -> u32 {
    match u {
        VmExitUnion::Msr(m) => m.code,
        _ => 0,
    }
}

/// `done` completes the port access `io`: only `eax` may differ, and only
/// for a read.
pub open spec fn inout_completed(io: VmInout, done: VmInout) -> bool {
    &&& done == (VmInout { eax: done.eax, ..io })
    &&& io.flags & INOUT_IN == 0 ==> done == io
}

/// `done` completes the MMIO access `m`: only `data` may differ, and only
/// for a read.
pub open spec fn mmio_completed(m: VmMmio, done: VmMmio) -> bool {
    &&& done == (VmMmio { data: done.data, ..m })
    &&& m.read == 0 ==> done == m
}

/// Handle one VM exit. Returns whether the vCPU keeps running, the entry
/// command and access completion for the next run, and what to report.
pub fn handle_exit<D: BusDevice>(
    vm_exit: &VmExit,
    stats: &mut ExitStats,
    vcpu: &dyn Vcpu,
    pio_bus: &mut Bus<D>,
    mmio_bus: &mut Bus<D>,
    config: &Config,
) -> (r: (bool, u32, VmEntryUnion, BhyveExitReport))
    requires
        old(stats).can_count(),
        old(pio_bus).wf(),
        old(mmio_bus).wf(),
        vm_exit.exitcode == VmExitCode::Inout ==> (vm_exit.u matches VmExitUnion::Inout(io) && io.bytes
            <= 4),
        vm_exit.exitcode == VmExitCode::Mmio ==> (vm_exit.u matches VmExitUnion::Mmio(m) && m.bytes
            <= 8),
    ensures
        final(pio_bus).wf(),
        final(mmio_bus).wf(),
        vm_exit.exitcode == VmExitCode::Inout ==> r.0 && r.1 == VEC_FULFILL_INOUT && r.3
            == BhyveExitReport::Handled && *final(stats) == counted(*old(stats), 1, 0, 0, 0, 0) && (
        vm_exit.u matches VmExitUnion::Inout(io) && r.2 matches VmEntryUnion::Inout(done)
            && inout_completed(io, done) && inout_data(
            io,
            done.eax,
            old(pio_bus).spec_route(io.port as u64, io.bytes as u64) is None,
        )),
        vm_exit.exitcode == VmExitCode::Mmio ==> r.0 && r.1 == VEC_FULFILL_MMIO && r.3
            == BhyveExitReport::Handled && *final(stats) == counted(*old(stats), 0, 1, 0, 0, 0) && (
        vm_exit.u matches VmExitUnion::Mmio(m) && r.2 matches VmEntryUnion::Mmio(done)
            && mmio_completed(m, done) && mmio_data(
            m,
            done.data,
            old(mmio_bus).spec_route(m.gpa, m.bytes as u64) is None,
        )),
        vm_exit.exitcode == VmExitCode::Hlt ==> r.0 && r.1 == VEC_DEFAULT && r.2 is Nothing && r.3
            == BhyveExitReport::Handled && *final(stats) == counted(*old(stats), 0, 0, 1, 0, 0),
        vm_exit.exitcode == VmExitCode::Suspended ==> !r.0 && r.1 == VEC_DEFAULT && r.2 is Nothing
            && r.3 == suspended_report(vm_exit.u) && *final(stats) == counted(*old(stats), 0, 0, 0, 1, 0),
        vm_exit.exitcode == VmExitCode::Vmx ==> r.0 && r.1 == VEC_DEFAULT && r.2 is Nothing && r.3
            == vmx_report(vm_exit.u, vm_exit.rip) && *final(stats) == counted(*old(stats), 0, 0, 0, 0, 1),
        vm_exit.exitcode == VmExitCode::Rdmsr ==> r.0 && r.1 == VEC_DEFAULT && r.2 is Nothing && r.3
            == (BhyveExitReport::Rdmsr { code: msr_code(vm_exit.u), rip: vm_exit.rip }) && *final(stats)
            == *old(stats),
        vm_exit.exitcode == VmExitCode::Wrmsr ==> r.0 && r.1 == VEC_DEFAULT && r.2 is Nothing && (
        r.3 matches BhyveExitReport::Wrmsr { code, rip, .. } && code == msr_code(vm_exit.u) && rip
            == vm_exit.rip) && *final(stats) == *old(stats),
        vm_exit.exitcode == VmExitCode::Bogus ==> r.0 && r.1 == VEC_DEFAULT && r.2 is Nothing && (!config.debug
            ==> r.3 == BhyveExitReport::Bogus) && (config.debug ==> r.3 is BogusNoRegs || r.3 is BogusNoSregs
            || (r.3 matches BhyveExitReport::BogusDump { inst_length, exit_rip, bitness, .. }
            && inst_length == vm_exit.inst_length && exit_rip == vm_exit.rip && (bitness == 16 || bitness
            == 32 || bitness == 64))) && *final(stats) == counted(*old(stats), 0, 0, 0, 0, 1),
        !(vm_exit.exitcode == VmExitCode::Inout || vm_exit.exitcode == VmExitCode::Mmio || vm_exit.exitcode
            == VmExitCode::Hlt || vm_exit.exitcode == VmExitCode::Suspended || vm_exit.exitcode
            == VmExitCode::Vmx || vm_exit.exitcode == VmExitCode::Rdmsr || vm_exit.exitcode == VmExitCode::Wrmsr
            || vm_exit.exitcode == VmExitCode::Bogus) ==> r.0 && r.1 == VEC_DEFAULT && r.2 is Nothing && r.3
            == (BhyveExitReport::Unhandled {
            code: vm_exit.exitcode.spec_code(),
            rip: vm_exit.rip,
            inst_length: vm_exit.inst_length,
        }) && *final(stats) == counted(*old(stats), 0, 0, 0, 0, 1),
{
    match vm_exit.exitcode {
        VmExitCode::Inout => {
            match vm_exit.u {
                VmExitUnion::Inout(io) => {
                    let mut inout = io;
                    handle_io_exit(&mut inout, stats, pio_bus);
                    (true, VEC_FULFILL_INOUT, VmEntryUnion::Inout(inout), BhyveExitReport::Handled)
                },
                _ => (true, VEC_FULFILL_INOUT, VmEntryUnion::Nothing, BhyveExitReport::Handled),
            }
        },
        VmExitCode::Mmio => {
            match vm_exit.u {
                VmExitUnion::Mmio(m) => {
                    let mut mmio = m;
                    handle_mmio_exit(&mut mmio, stats, mmio_bus);
                    (true, VEC_FULFILL_MMIO, VmEntryUnion::Mmio(mmio), BhyveExitReport::Handled)
                },
                _ => (true, VEC_FULFILL_MMIO, VmEntryUnion::Nothing, BhyveExitReport::Handled),
            }
        },
        VmExitCode::Hlt => {
            stats.hlt_exits = stats.hlt_exits + 1;
            (true, VEC_DEFAULT, VmEntryUnion::Nothing, BhyveExitReport::Handled)
        },
        VmExitCode::Suspended => {
            let (how, source) = match vm_exit.u {
                VmExitUnion::Suspended(s) => (s.how, s.source),
                _ => (0, 0),
            };
            stats.shutdown_exits = stats.shutdown_exits + 1;
            (false, VEC_DEFAULT, VmEntryUnion::Nothing, BhyveExitReport::Suspended { how, source })
        },
        VmExitCode::Vmx => {
            let report = match vm_exit.u {
                VmExitUnion::Vmx(v) => BhyveExitReport::Vmx {
                    status: v.status,
                    exit_reason: v.exit_reason,
                    qualification: v.exit_qualification,
                    rip: vm_exit.rip,
                },
                _ => BhyveExitReport::Vmx { status: 0, exit_reason: 0, qualification: 0, rip: vm_exit.rip },
            };
            stats.other_exits = stats.other_exits + 1;
            (true, VEC_DEFAULT, VmEntryUnion::Nothing, report)
        },
        VmExitCode::Rdmsr => {
            let code = match vm_exit.u {
                VmExitUnion::Msr(m) => m.code,
                _ => 0,
            };
            (true, VEC_DEFAULT, VmEntryUnion::Nothing, BhyveExitReport::Rdmsr { code, rip: vm_exit.rip })
        },
        VmExitCode::Wrmsr => {
            let code = match vm_exit.u {
                VmExitUnion::Msr(m) => m.code,
                _ => 0,
            };
            let value = match vcpu.get_regs() {
                Ok(regs) => msr_write_value(&regs),
                Err(_) => 0,
            };
            (true, VEC_DEFAULT, VmEntryUnion::Nothing, BhyveExitReport::Wrmsr { code, value, rip: vm_exit.rip })
        },
        VmExitCode::Bogus => {
            stats.other_exits = stats.other_exits + 1;
            if !config.debug {
                return (true, VEC_DEFAULT, VmEntryUnion::Nothing, BhyveExitReport::Bogus);
            }
            let regs = match vcpu.get_regs() {
                Ok(r) => r,
                Err(_) => return (true, VEC_DEFAULT, VmEntryUnion::Nothing, BhyveExitReport::BogusNoRegs),
            };
            let sregs = match vcpu.get_sregs() {
                Ok(s) => s,
                Err(_) => return (true, VEC_DEFAULT, VmEntryUnion::Nothing, BhyveExitReport::BogusNoSregs),
            };
            let report = BhyveExitReport::BogusDump {
                rip: regs.rip,
                cr0: sregs.cr0,
                cr4: sregs.cr4,
                inst_length: vm_exit.inst_length,
                exit_rip: vm_exit.rip,
                bitness: bitness(&sregs),
            };
            (true, VEC_DEFAULT, VmEntryUnion::Nothing, report)
        },
        _ => {
            stats.other_exits = stats.other_exits + 1;
            (
                true,
                VEC_DEFAULT,
                VmEntryUnion::Nothing,
                BhyveExitReport::Unhandled {
                    code: vm_exit.exitcode.code(),
                    rip: vm_exit.rip,
                    inst_length: vm_exit.inst_length,
                },
            )
        },
    }
}

// ---- instruction dump of unexpected exits ----------------------------------

/// The Intel-syntax text iced-x86 gives the first instruction decoded from
/// `bytes` at instruction pointer `ip` in `bitness`-bit code, if any.
pub uninterp spec fn iced_intel_text(bitness: u32, bytes: Seq<u8>, ip: u64) -> Option<Seq<char>>;

/// Decodes the first instruction of `bytes` with iced-x86
/// (`Decoder::with_ip` with no options, one step of `Decoder::iter`) and
/// formats it with `IntelFormatter` (`Formatter::format`). Claimed: an
/// instruction comes back exactly when `bytes` is not empty (the decoder's
/// iterator yields while input is left), and its text is a function of the
/// arguments. `with_ip` panics on any other bitness than 16, 32 or 64,
/// hence the precondition; it also refuses a slice that ends within 16
/// bytes of the top of the address space, where no allocation lies. What
/// the text says is not stated.
#[verifier::external_body]
fn decode_first_instruction(bitness: u32, bytes: &[u8], ip: u64) -> (r: Option<String>)
    requires
        bitness == 16 || bitness == 32 || bitness == 64,
    ensures
        r is Some <==> bytes@.len() > 0,
        match r {
            Some(text) => iced_intel_text(bitness, bytes@, ip) == Some(text@),
            None => iced_intel_text(bitness, bytes@, ip) is None,
        },
{
    let mut decoder = iced_x86::Decoder::with_ip(bitness, bytes, ip, iced_x86::DecoderOptions::NONE);
    let mut formatter = iced_x86::IntelFormatter::new();
    let mut output = String::new();
    match decoder.iter().next() {
        Some(instruction) => {
            iced_x86::Formatter::format(&mut formatter, &instruction, &mut output);
            Some(output)
        },
        None => None,
    }
}

/// Lower-case hex digit of a nibble, in ASCII.
pub open spec fn hex_digit(n: int) -> u8 {
    if n < 10 {
        (0x30 + n) as u8
    } else {
        (0x61 + n - 10) as u8
    }
}

/// The bytes as two lower-case hex digits each, separated by spaces
/// (ASCII).
pub open spec fn spec_hex_text(bytes: Seq<u8>) -> Seq<u8> {
    if bytes.len() == 0 {
        Seq::empty()
    } else {
        Seq::new(
            (3 * bytes.len() - 1) as nat,
            |i: int|
                if i % 3 == 0 {
                    hex_digit(bytes[i / 3] as int / 16)
                } else if i % 3 == 1 {
                    hex_digit(bytes[i / 3] as int % 16)
                } else {
                    0x20u8
                },
        )
    }
}

fn hex_digit_of(n: u8) -> (r: u8)
    requires
        n < 16,
    ensures
        r == hex_digit(n as int),
{
    if n < 10 {
        0x30 + n
    } else {
        0x61 + n - 10
    }
}

/// The hex text of `bytes`, as the dump prints undecodable instructions.
pub fn hex_text(bytes: &[u8]) -> (r: Vec<u8>)
    ensures
        r@ == spec_hex_text(bytes@),
{
    let mut r: Vec<u8> = Vec::new();
    let n = bytes.len();
    if n == 0 {
        assert(r@ =~= spec_hex_text(bytes@));
        return r;
    }
    let ghost full = spec_hex_text(bytes@);
    let mut k: usize = 0;
    while k < n
        invariant
            n == bytes@.len(),
            n > 0,
            k <= n,
            full == spec_hex_text(bytes@),
            r@.len() == if k == 0 { 0 } else { 3 * k - 1 },
            forall|i: int| 0 <= i < r@.len() ==> r@[i] == full[i],
        decreases n - k,
    {
        if k > 0 {
            r.push(0x20);
        }
        let b = bytes[k];
        r.push(hex_digit_of(b / 16));
        r.push(hex_digit_of(b % 16));
        proof {
            assert forall|i: int| 0 <= i < r@.len() implies r@[i] == full[i] by {
                if i >= 3 * k - 1 && k > 0 {
                    assert(i == 3 * k - 1 || i == 3 * k || i == 3 * k + 1);
                    if i == 3 * k - 1 {
                        assert(i % 3 == 2);
                    } else if i == 3 * k {
                        assert(i % 3 == 0 && i / 3 == k);
                    } else {
                        assert(i % 3 == 1 && i / 3 == k);
                    }
                } else if k == 0 {
                    assert(i == 0 || i == 1);
                    assert(i / 3 == 0);
                }
            }
        }
        k = k + 1;
    }
    assert(r@ =~= full);
    r
}

/// How an unexpected instruction is shown: decoded, or as hex bytes when
/// nothing decodes.
#[derive(Debug, Clone, PartialEq, Eq)]
pub enum InstructionText {
    Decoded(String),
    Bytes(Vec<u8>),
}

/// How many instruction bytes to decode: the exit's instruction length
/// when known, else the longest x86 instruction (15), and never more than
/// were read.
pub open spec fn spec_window_len(inst_length: i32, available: nat) -> nat {
    let len: int = if inst_length > 0 {
        inst_length as int
    } else {
        15
    };
    if len < available {
        len as nat
    } else {
        available
    }
}

/// The report text for the decoder's answer on `bytes`.
pub fn instruction_text(decoded: Option<String>, bytes: &[u8]) -> (r: InstructionText)
    ensures
        decoded matches Some(t) ==> r == InstructionText::Decoded(t),
        decoded is None ==> (r matches InstructionText::Bytes(b) && b@ == spec_hex_text(bytes@)),
{
    match decoded {
        Some(t) => InstructionText::Decoded(t),
        None => InstructionText::Bytes(hex_text(bytes)),
    }
}

/// Decode the instruction at `ip` from the bytes read there, for the dump
/// of an unexpected exit.
pub fn describe_instruction(bitness: u32, instr: &[u8], inst_length: i32, ip: u64) -> (r: InstructionText)
    requires
        bitness == 16 || bitness == 32 || bitness == 64,
    ensures
        ({
            let window = instr@.subrange(0, spec_window_len(inst_length, instr@.len()) as int);
            &&& window.len() > 0 ==> (r matches InstructionText::Decoded(t) && iced_intel_text(
                bitness,
                window,
                ip,
            ) == Some(t@))
            &&& window.len() == 0 ==> (r matches InstructionText::Bytes(b) && b@ == Seq::<u8>::empty())
        }),
{
    let len: usize = if inst_length > 0 {
        inst_length as usize
    } else {
        15
    };
    let n = if len < instr.len() {
        len
    } else {
        instr.len()
    };
    let window = &instr[0..n];
    let decoded = decode_first_instruction(bitness, window, ip);
    instruction_text(decoded, window)
}

} // verus!
