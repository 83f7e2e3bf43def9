//! Handling of KVM VM exits: port and MMIO accesses go to the buses, the
//! rest decides whether the vCPU keeps running. Every handled exit is
//! counted once.
use vstd::prelude::*;

use super::api::{KVM_EXIT_IO_IN, KVM_EXIT_IO_OUT, KvmExitIo, KvmExitMmio, KvmRun, KvmRunExit, VmExitReason};
use crate::bus::{Bus, BusDevice};
use crate::stats::ExitStats;

verus! {

/// What an exit amounted to, for the caller to report.
#[derive(Debug, Clone, Copy, PartialEq, Eq, Structural)]
pub enum ExitReport {
    /// Handled, nothing to report.
    Handled,
    /// The exit code names no known reason.
    UnknownCode(u32),
    /// The guest shut down.
    Shutdown,
    /// The vCPU failed to enter guest mode; `vmx_error` is the VMX
    /// instruction error (low 32 bits of the hardware code).
    FailEntry { hardware_error: u64, cpu: u32, vmx_error: u32 },
    /// KVM reported an internal error.
    InternalError,
    /// A known reason this VMM does not handle.
    Unhandled(VmExitReason),
}

/// `s` with one more exit of each kind given.
pub open spec fn counted(s: ExitStats, io: int, mmio: int, hlt: int, shutdown: int, other: int) -> ExitStats {
    ExitStats {
        io_exits: (s.io_exits + io) as u64,
        mmio_exits: (s.mmio_exits + mmio) as u64,
        hlt_exits: (s.hlt_exits + hlt) as u64,
        shutdown_exits: (s.shutdown_exits + shutdown) as u64,
        other_exits: (s.other_exits + other) as u64,
    }
}

/// The VMX instruction error names of the Intel SDM (Vol. 3C, 30.4).
pub open spec fn spec_vmx_error_str(error: u32) -> &'static str {
    if error == 0 {
        "No error (unexpected)"
    } else if error == 1 {
        "VMCALL executed in VMX root operation"
    } else if error == 2 {
        "VMCLEAR with invalid physical address"
    } else if error == 3 {
        "VMCLEAR with VMXON pointer"
    } else if error == 4 {
        "VMLAUNCH with non-clear VMCS"
    } else if error == 5 {
        "VMRESUME with non-launched VMCS"
    } else if error == 6 {
        "VMRESUME after VMXOFF"
    } else if error == 7 {
        "VM entry with invalid control field(s)"
    } else if error == 8 {
        "VM entry with invalid host-state field(s)"
    } else if error == 9 {
        "VMPTRLD with invalid physical address"
    } else if error == 10 {
        "VMPTRLD with VMXON pointer"
    } else if error == 11 {
        "VMPTRLD with incorrect VMCS revision identifier"
    } else if error == 12 {
        "VMREAD/VMWRITE from/to unsupported VMCS component"
    } else if error == 13 {
        "VMWRITE to read-only VMCS component"
    } else if error == 15 {
        "VMXON executed in VMX root operation"
    } else if error == 16 {
        "VM entry with invalid executive-VMCS pointer"
    } else if error == 17 {
        "VM entry with non-launched executive VMCS"
    } else if error == 18 {
        "VM entry with executive-VMCS pointer not VMXON pointer"
    } else if error == 19 {
        "VMCALL with non-clear VMCS"
    } else if error == 20 {
        "VMCALL with invalid VM-exit control fields"
    } else if error == 22 {
        "VMCALL with incorrect MSEG revision identifier"
    } else if error == 23 {
        "VMXOFF under dual-monitor treatment of SMIs and SMM"
    } else if error == 24 {
        "VMCALL with invalid SMM-monitor features"
    } else if error == 25 {
        "VM entry with invalid VM-execution control fields in executive VMCS"
    } else if error == 26 {
        "VM entry with events blocked by MOV SS"
    } else if error == 28 {
        "Invalid operand to INVEPT/INVVPID"
    } else {
        "Unknown VMX error"
    }
}

/// VMX instruction error code to text.
pub fn vmx_instruction_error_str(error: u32) -> (r: &'static str)
    ensures
        r == spec_vmx_error_str(error),
{
    match error {
        0 => "No error (unexpected)",
        1 => "VMCALL executed in VMX root operation",
        2 => "VMCLEAR with invalid physical address",
        3 => "VMCLEAR with VMXON pointer",
        4 => "VMLAUNCH with non-clear VMCS",
        5 => "VMRESUME with non-launched VMCS",
        6 => "VMRESUME after VMXOFF",
        7 => "VM entry with invalid control field(s)",
        8 => "VM entry with invalid host-state field(s)",
        9 => "VMPTRLD with invalid physical address",
        10 => "VMPTRLD with VMXON pointer",
        11 => "VMPTRLD with incorrect VMCS revision identifier",
        12 => "VMREAD/VMWRITE from/to unsupported VMCS component",
        13 => "VMWRITE to read-only VMCS component",
        15 => "VMXON executed in VMX root operation",
        16 => "VM entry with invalid executive-VMCS pointer",
        17 => "VM entry with non-launched executive VMCS",
        18 => "VM entry with executive-VMCS pointer not VMXON pointer",
        19 => "VMCALL with non-clear VMCS",
        20 => "VMCALL with invalid VM-exit control fields",
        22 => "VMCALL with incorrect MSEG revision identifier",
        23 => "VMXOFF under dual-monitor treatment of SMIs and SMM",
        24 => "VMCALL with invalid SMM-monitor features",
        25 => "VM entry with invalid VM-execution control fields in executive VMCS",
        26 => "VM entry with events blocked by MOV SS",
        28 => "Invalid operand to INVEPT/INVVPID",
        _ => "Unknown VMX error",
    }
}

/// Count a HLT exit (the guest waits for an interrupt; it is resumed).
pub fn handle_hlt_exit(stats: &mut ExitStats)
    requires
        old(stats).hlt_exits < u64::MAX,
    ensures
        *final(stats) == counted(*old(stats), 0, 0, 1, 0, 0),
{
    stats.hlt_exits = stats.hlt_exits + 1;
}

/// Copy `len` bytes of `data` starting at `from` into a new buffer.
fn copy_out(data: &Vec<u8>, from: usize, len: usize) -> (r: Vec<u8>)
    requires
        from + len <= data@.len(),
    ensures
        r@ == data@.subrange(from as int, from + len),
{
    let mut r: Vec<u8> = Vec::new();
    let mut k: usize = 0;
    let dlen = data.len();
    while k < len
        invariant
            k <= len,
            from + len <= data@.len(),
            dlen == data@.len(),
            r@ == data@.subrange(from as int, from + k),
        decreases len - k,
    {
        r.push(data[from + k]);
        k = k + 1;
        assert(r@ =~= data@.subrange(from as int, from + k));
    }
    r
}

/// Copy `chunk` into `data` at `from`.
fn copy_in(data: &mut Vec<u8>, from: usize, chunk: &Vec<u8>)
    requires
        from + chunk@.len() <= old(data)@.len(),
    ensures
        final(data)@.len() == old(data)@.len(),
        forall|j: int|
            0 <= j < final(data)@.len() ==> #[trigger] final(data)@[j] == (if from <= j < from + chunk@.len() {
                chunk@[j - from]
            } else {
                old(data)@[j]
            }),
{
    let mut k: usize = 0;
    let dlen = data.len();
    while k < chunk.len()
        invariant
            k <= chunk@.len(),
            from + chunk@.len() <= data@.len(),
            dlen == data@.len(),
            data@.len() == old(data)@.len(),
            forall|j: int|
                0 <= j < data@.len() ==> #[trigger] data@[j] == (if from <= j < from + k {
                    chunk@[j - from]
                } else {
                    old(data)@[j]
                }),
        decreases chunk@.len() - k,
    {
        data.set(from + k, chunk[k]);
        k = k + 1;
    }
}

/// Port I/O: `count` accesses of `size` bytes at `io.port`, their data
/// packed in `data`; reads fill it from the bus, writes send it.
pub fn handle_io_exit<D: BusDevice>(
    io: KvmExitIo,
    data: &mut Vec<u8>,
    stats: &mut ExitStats,
    bus: &mut Bus<D>,
)
    requires
        old(data)@.len() == io.count as int * io.size as int,
        old(stats).io_exits < u64::MAX,
        old(bus).wf(),
    ensures
        *final(stats) == counted(*old(stats), 1, 0, 0, 0, 0),
        final(data)@.len() == old(data)@.len(),
        final(bus).wf(),
        final(bus).ranges() == old(bus).ranges(),
        io.direction != KVM_EXIT_IO_IN ==> final(data)@ == old(data)@,
        io.direction != KVM_EXIT_IO_IN && io.direction != KVM_EXIT_IO_OUT ==> final(bus).devices()
            == old(bus).devices(),
        io.direction == KVM_EXIT_IO_IN && io.size > 0 && old(bus).spec_route(io.port as u64, io.size as u64)
            is None ==> forall|j: int| 0 <= j < final(data)@.len() ==> final(data)@[j] == 0xffu8,
{
    stats.io_exits = stats.io_exits + 1;
    let port = io.port as u64;
    let size = io.size as usize;
    let count = io.count as usize;
    let mut i: usize = 0;
    let dlen = data.len();
    while i < count
        invariant
            dlen == data@.len(),
            data@.len() == old(data)@.len(),
            old(data)@.len() == count as int * size as int,
            i <= count,
            bus.wf(),
            bus.ranges() == old(bus).ranges(),
            io.direction != KVM_EXIT_IO_IN ==> data@ == old(data)@,
            io.direction != KVM_EXIT_IO_IN && io.direction != KVM_EXIT_IO_OUT ==> bus.devices()
                == old(bus).devices(),
            io.direction == KVM_EXIT_IO_IN && size > 0 && old(bus).spec_route(port, size as u64) is None
                ==> forall|j: int| 0 <= j < i * size ==> data@[j] == 0xffu8,
        decreases count - i,
    {
        assert((i as int) * (size as int) + size as int <= count as int * size as int) by (nonlinear_arith)
            requires
                i < count,
        ;
        assert((i + 1) * size == i * size + size) by (nonlinear_arith);
        let from = i * size;
        if io.direction == KVM_EXIT_IO_IN {
            let mut chunk = copy_out(data, from, size);
            bus.read(port, chunk.as_mut_slice());
            copy_in(data, from, &chunk);
        } else if io.direction == KVM_EXIT_IO_OUT {
            let chunk = copy_out(data, from, size);
            bus.write(port, chunk.as_slice());
        }
        i = i + 1;
    }
    assert(count * size == old(data)@.len());
}

/// The bytes of an MMIO record that take part in the access.
pub open spec fn mmio_width(m: KvmExitMmio) -> int {
    if m.len < 8 {
        m.len as int
    } else {
        8
    }
}

/// `d` completes the MMIO access `m`: only the data bytes of the access
/// may differ, and only for a read.
pub open spec fn kvm_mmio_completed(m: KvmExitMmio, d: KvmExitMmio) -> bool {
    &&& d.phys_addr == m.phys_addr
    &&& d.len == m.len
    &&& d.is_write == m.is_write
    &&& m.is_write != 0 ==> d.data == m.data
    &&& forall|j: int| mmio_width(m) <= j < 8 ==> d.data@[j] == m.data@[j]
}

/// MMIO: an access of up to 8 bytes at `mmio.phys_addr`; a read fills the
/// record's data from the bus, a write sends it.
pub fn handle_mmio_exit<D: BusDevice>(mmio: &mut KvmExitMmio, stats: &mut ExitStats, bus: &mut Bus<D>)
    requires
        old(stats).mmio_exits < u64::MAX,
        old(bus).wf(),
    ensures
        *final(stats) == counted(*old(stats), 0, 1, 0, 0, 0),
        final(bus).wf(),
        final(bus).ranges() == old(bus).ranges(),
        final(mmio).phys_addr == old(mmio).phys_addr,
        final(mmio).len == old(mmio).len,
        final(mmio).is_write == old(mmio).is_write,
        kvm_mmio_completed(*old(mmio), *final(mmio)),
        old(mmio).is_write == 0 && old(mmio).len > 0 && old(bus).spec_route(
            old(mmio).phys_addr,
            mmio_width(*old(mmio)) as u64,
        ) is None ==> forall|j: int| 0 <= j < mmio_width(*old(mmio)) ==> final(mmio).data@[j] == 0xffu8,
{
    stats.mmio_exits = stats.mmio_exits + 1;
    let addr = mmio.phys_addr;
    let len: usize = if mmio.len < 8 {
        mmio.len as usize
    } else {
        8
    };
    let mut buf: Vec<u8> = Vec::new();
    let mut k: usize = 0;
    while k < len
        invariant
            k <= len <= 8,
            buf@ == mmio.data@.subrange(0, k as int),
        decreases len - k,
    {
        buf.push(mmio.data[k]);
        k = k + 1;
        assert(buf@ =~= mmio.data@.subrange(0, k as int));
    }
    if mmio.is_write != 0 {
        bus.write(addr, buf.as_slice());
    } else {
        let ghost route = bus.spec_route(addr, len as u64);
        let claimed = bus.read(addr, buf.as_mut_slice());
        assert(len > 0 ==> (claimed <==> route is Some));
        let mut k: usize = 0;
        while k < len
            invariant
                k <= len <= 8,
                buf@.len() == len,
                mmio.phys_addr == old(mmio).phys_addr,
                mmio.len == old(mmio).len,
                mmio.is_write == old(mmio).is_write,
                forall|j: int| len <= j < 8 ==> mmio.data@[j] == old(mmio).data@[j],
                forall|j: int| 0 <= j < k ==> mmio.data@[j] == buf@[j],
                len > 0 && !claimed ==> forall|j: int| 0 <= j < len ==> buf@[j] == 0xffu8,
            decreases len - k,
        {
            mmio.data[k] = buf[k];
            k = k + 1;
        }
        assert(k == len);
        assert forall|j: int| 0 <= j < len && len > 0 && !claimed implies mmio.data@[j] == 0xffu8 by {
            assert(mmio.data@[j] == buf@[j]);
            assert(buf@[j] == 0xffu8);
        }
    }
}

/// What the exit record yields for a failed entry: the hardware code and
/// CPU, or zeros when the record is of another kind.
pub open spec fn fail_entry_report(run: KvmRun) -> ExitReport {
    match run.exit {
        KvmRunExit::FailEntry(f) => ExitReport::FailEntry {
            hardware_error: f.hardware_entry_failure_reason,
            cpu: f.cpu,
            vmx_error: (f.hardware_entry_failure_reason & 0xffff_ffff) as u32,
        },
        _ => ExitReport::FailEntry { hardware_error: 0, cpu: 0, vmx_error: 0 },
    }
}

/// Handle one VM exit. Returns whether the vCPU keeps running and what to
/// report; port I/O data is in `io_data` (`count * size` bytes), MMIO data
/// in the exit record. Every exit is counted once, under its kind.
pub fn handle_exit<D: BusDevice>(
    kvm_run: &mut KvmRun,
    io_data: &mut Vec<u8>,
    stats: &mut ExitStats,
    pio_bus: &mut Bus<D>,
    mmio_bus: &mut Bus<D>,
) -> (r: Result<(bool, ExitReport), String>)
    requires
        old(stats).can_count(),
        old(pio_bus).wf(),
        old(mmio_bus).wf(),
        old(kvm_run).exit matches KvmRunExit::Io(io) ==> old(io_data)@.len() == io.count as int
            * io.size as int,
    ensures
        final(pio_bus).wf(),
        final(mmio_bus).wf(),
        final(kvm_run).exit_reason == old(kvm_run).exit_reason,
        VmExitReason::spec_from_code(old(kvm_run).exit_reason) != Some(VmExitReason::MmIo) ==> *final(kvm_run)
            == *old(kvm_run),
        VmExitReason::spec_from_code(old(kvm_run).exit_reason) == Some(VmExitReason::MmIo) ==> *final(kvm_run)
            == (KvmRun { exit: final(kvm_run).exit, ..*old(kvm_run) }) && match old(kvm_run).exit {
            KvmRunExit::Mmio(m) => final(kvm_run).exit matches KvmRunExit::Mmio(d) && kvm_mmio_completed(m, d)
                && (m.is_write == 0 && m.len > 0 && old(mmio_bus).spec_route(m.phys_addr, mmio_width(m) as u64)
                is None ==> forall|j: int| 0 <= j < mmio_width(m) ==> d.data@[j] == 0xffu8),
            _ => final(kvm_run).exit == old(kvm_run).exit,
        },
        final(io_data)@.len() == old(io_data)@.len(),
        VmExitReason::spec_from_code(old(kvm_run).exit_reason) != Some(VmExitReason::Io) ==> final(io_data)@
            == old(io_data)@,
        old(kvm_run).exit matches KvmRunExit::Io(io) && io.direction != KVM_EXIT_IO_IN ==> final(io_data)@
            == old(io_data)@,
        VmExitReason::spec_from_code(old(kvm_run).exit_reason) == Some(VmExitReason::Io) ==> (old(
            kvm_run,
        ).exit matches KvmRunExit::Io(io) && io.direction == KVM_EXIT_IO_IN && io.size > 0 && old(
            pio_bus,
        ).spec_route(io.port as u64, io.size as u64) is None ==> forall|j: int|
            0 <= j < final(io_data)@.len() ==> final(io_data)@[j] == 0xffu8),
        match VmExitReason::spec_from_code(old(kvm_run).exit_reason) {
            None => r == Ok::<(bool, ExitReport), String>(
                (true, ExitReport::UnknownCode(old(kvm_run).exit_reason)),
            ) && *final(stats) == counted(*old(stats), 0, 0, 0, 0, 1),
            Some(VmExitReason::Io) => (old(kvm_run).exit is Io ==> r == Ok::<(bool, ExitReport), String>(
                (true, ExitReport::Handled),
            ) && *final(stats) == counted(*old(stats), 1, 0, 0, 0, 0)) && (!(old(kvm_run).exit is Io)
                ==> r is Err && *final(stats) == *old(stats)),
            Some(VmExitReason::MmIo) => r == Ok::<(bool, ExitReport), String>((true, ExitReport::Handled))
                && *final(stats) == counted(*old(stats), 0, 1, 0, 0, 0),
            Some(VmExitReason::Hlt) => r == Ok::<(bool, ExitReport), String>((true, ExitReport::Handled))
                && *final(stats) == counted(*old(stats), 0, 0, 1, 0, 0),
            Some(VmExitReason::Shutdown) => r == Ok::<(bool, ExitReport), String>(
                (false, ExitReport::Shutdown),
            ) && *final(stats) == counted(*old(stats), 0, 0, 0, 1, 0),
            Some(VmExitReason::FailEntry) => r == Ok::<(bool, ExitReport), String>(
                (false, fail_entry_report(*old(kvm_run))),
            ) && *final(stats) == counted(*old(stats), 0, 0, 0, 0, 1),
            Some(VmExitReason::InternalError) => r == Ok::<(bool, ExitReport), String>(
                (false, ExitReport::InternalError),
            ) && *final(stats) == counted(*old(stats), 0, 0, 0, 0, 1),
            Some(reason) => r == Ok::<(bool, ExitReport), String>(
                (true, ExitReport::Unhandled(reason)),
            ) && *final(stats) == counted(*old(stats), 0, 0, 0, 0, 1),
        },
{
    let exit_reason = match kvm_run.exit_reason_enum() {
        Ok(reason) => reason,
        Err(code) => {
            stats.other_exits = stats.other_exits + 1;
            return Ok((true, ExitReport::UnknownCode(code)));
        },
    };
    match exit_reason {
        VmExitReason::Io => {
            let io = match kvm_run.io_exit() {
                Some(io) => io,
                None => return Err("Failed to parse IO exit".to_owned()),
            };
            handle_io_exit(io, io_data, stats, pio_bus);
            Ok((true, ExitReport::Handled))
        },
        VmExitReason::MmIo => {
            match &mut kvm_run.exit {
                KvmRunExit::Mmio(mmio) => {
                    handle_mmio_exit(mmio, stats, mmio_bus);
                },
                _ => {
                    stats.mmio_exits = stats.mmio_exits + 1;
                },
            }
            Ok((true, ExitReport::Handled))
        },
        VmExitReason::Hlt => {
            handle_hlt_exit(stats);
            Ok((true, ExitReport::Handled))
        },
        VmExitReason::Shutdown => {
            stats.shutdown_exits = stats.shutdown_exits + 1;
            Ok((false, ExitReport::Shutdown))
        },
        VmExitReason::FailEntry => {
            let report = match kvm_run.exit {
                KvmRunExit::FailEntry(f) => ExitReport::FailEntry {
                    hardware_error: f.hardware_entry_failure_reason,
                    cpu: f.cpu,
                    vmx_error: (f.hardware_entry_failure_reason & 0xffff_ffff) as u32,
                },
                _ => ExitReport::FailEntry { hardware_error: 0, cpu: 0, vmx_error: 0 },
            };
            stats.other_exits = stats.other_exits + 1;
            Ok((false, report))
        },
        VmExitReason::InternalError => {
            stats.other_exits = stats.other_exits + 1;
            Ok((false, ExitReport::InternalError))
        },
        _ => {
            stats.other_exits = stats.other_exits + 1;
            Ok((true, ExitReport::Unhandled(exit_reason)))
        },
    }
}

/// Every exit that is handled is counted exactly once: the total grows by
/// one.
pub proof fn lemma_handled_exit_counted_once(s: ExitStats, t: ExitStats, io: int, mmio: int, hlt: int, shutdown: int, other: int)
    requires
        s.can_count(),
        t == counted(s, io, mmio, hlt, shutdown, other),
        0 <= io && 0 <= mmio && 0 <= hlt && 0 <= shutdown && 0 <= other,
        io + mmio + hlt + shutdown + other == 1,
    ensures
        t.spec_total() == s.spec_total() + 1,
{
}

} // verus!
