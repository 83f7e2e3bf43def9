use std::sync::{Arc, Mutex};

use ferrvm::bus::{Bus, BusDevice};
use ferrvm::kvm::api::{
    KVM_CREATE_VM, KVM_GET_REGS, KVM_GET_SREGS, KVM_RUN, KVM_SET_USER_MEMORY_REGION, KVMIO,
    KvmDtable, KvmExitFailEntry, KvmExitIo, KvmExitMmio, KvmRegs, KvmRun, KvmRunExit, KvmSegment,
    VmExitReason,
};
use ferrvm::kvm::convert::{kvm_regs, kvm_sregs, vcpu_regs, vcpu_sregs};
use ferrvm::kvm::exithandler::{
    ExitReport, handle_exit, handle_hlt_exit, handle_io_exit, handle_mmio_exit, vmx_instruction_error_str,
};
use ferrvm::kvm::ioctl::{io, ior, iow, iowr};
use ferrvm::stats::ExitStats;
use ferrvm::traits::{Dtable, Segment, VcpuRegs, VcpuSregs};

#[derive(Clone)]
struct Port(Arc<Mutex<Vec<(u64, Vec<u8>)>>>);

impl BusDevice for Port {
    fn read(&mut self, offset: u64, data: &mut [u8]) {
        for (i, b) in data.iter_mut().enumerate() {
            *b = 0x40 + offset as u8 + i as u8;
        }
    }
    fn write(&mut self, offset: u64, data: &[u8]) {
        self.0.lock().unwrap().push((offset, data.to_vec()));
    }
}

fn run(exit_reason: u32, exit: KvmRunExit) -> KvmRun {
    KvmRun {
        request_interrupt_window: 0,
        immediate_exit: 0,
        padding1: [0; 6],
        exit_reason,
        ready_for_interrupt_injection: 0,
        if_flag: 0,
        flags: 0,
        cr8: 0,
        apic_base: 0,
        exit,
    }
}

fn buses() -> (Bus<Port>, Bus<Port>, Port) {
    let port = Port(Arc::new(Mutex::new(Vec::new())));
    let mut pio = Bus::new();
    pio.register(0x3f8, 8, port.clone()).unwrap();
    let mut mmio = Bus::new();
    mmio.register(0xd000_0000, 0x1000, port.clone()).unwrap();
    (pio, mmio, port)
}

#[test]
fn exit_reasons_decode() {
    assert_eq!(VmExitReason::try_from(2), Ok(VmExitReason::Io));
    assert_eq!(VmExitReason::try_from(41), Ok(VmExitReason::ArmSea));
    assert_eq!(VmExitReason::try_from(42), Err(42));
    assert_eq!(VmExitReason::MmIo.code(), 6);
    assert_eq!(VmExitReason::MmIo.name(), "MMIO");
    assert_eq!(VmExitReason::FailEntry.name(), "Fail Entry");
    let r = run(5, KvmRunExit::Other);
    assert_eq!(r.exit_reason_enum(), Ok(VmExitReason::Hlt));
    assert!(r.io_exit().is_none());
}

#[test]
fn request_numbers() {
    assert_eq!(io(KVMIO, 0x80), KVM_RUN);
    assert_eq!(io(KVMIO, 0x01), KVM_CREATE_VM);
    assert_eq!(ior::<[u8; 144]>(KVMIO, 0x81), KVM_GET_REGS);
    assert_eq!(ior::<[u8; 312]>(KVMIO, 0x83), KVM_GET_SREGS);
    assert_eq!(iow::<[u64; 4]>(KVMIO, 0x46), KVM_SET_USER_MEMORY_REGION);
    assert_eq!(iowr::<u64>(KVMIO, 0x05), 0xc008_ae05);
}

#[test]
fn vmx_error_names() {
    assert_eq!(vmx_instruction_error_str(7), "VM entry with invalid control field(s)");
    assert_eq!(vmx_instruction_error_str(14), "Unknown VMX error");
    assert_eq!(vmx_instruction_error_str(0), "No error (unexpected)");
}

#[test]
fn io_exit_reads_and_writes_ports() {
    let (mut pio, _, port) = buses();
    let mut stats = ExitStats::new();
    let out = KvmExitIo { direction: 1, size: 1, port: 0x3f8, count: 2, data_offset: 0 };
    let mut data = vec![b'h', b'i'];
    handle_io_exit(out, &mut data, &mut stats, &mut pio);
    assert_eq!(*port.0.lock().unwrap(), vec![(0, vec![b'h']), (0, vec![b'i'])]);
    let inn = KvmExitIo { direction: 0, size: 2, port: 0x3fa, count: 1, data_offset: 0 };
    let mut data = vec![0, 0];
    handle_io_exit(inn, &mut data, &mut stats, &mut pio);
    assert_eq!(data, vec![0x42, 0x43]);
    assert_eq!(stats.io_exits, 2);
    assert_eq!(stats.total(), 2);
}

#[test]
fn mmio_exit_reads_and_writes() {
    let (_, mut mmio_bus, port) = buses();
    let mut stats = ExitStats::new();
    let mut rd = KvmExitMmio { phys_addr: 0xd000_0010, data: [0xee; 8], len: 4, is_write: 0 };
    handle_mmio_exit(&mut rd, &mut stats, &mut mmio_bus);
    assert_eq!(rd.data, [0x50, 0x51, 0x52, 0x53, 0xee, 0xee, 0xee, 0xee]);
    let mut wr = KvmExitMmio { phys_addr: 0xd000_0004, data: [1, 2, 3, 4, 5, 6, 7, 8], len: 2, is_write: 1 };
    handle_mmio_exit(&mut wr, &mut stats, &mut mmio_bus);
    assert_eq!(*port.0.lock().unwrap(), vec![(4, vec![1, 2])]);
    assert_eq!(stats.mmio_exits, 2);
}

#[test]
fn handle_exit_decisions() {
    let (mut pio, mut mmio, _) = buses();
    let mut stats = ExitStats::new();
    let mut data = Vec::new();

    let mut r = run(5, KvmRunExit::Other);
    assert_eq!(handle_exit(&mut r, &mut data, &mut stats, &mut pio, &mut mmio), Ok((true, ExitReport::Handled)));
    assert_eq!(stats.hlt_exits, 1);

    let mut r = run(8, KvmRunExit::Other);
    assert_eq!(handle_exit(&mut r, &mut data, &mut stats, &mut pio, &mut mmio), Ok((false, ExitReport::Shutdown)));
    assert_eq!(stats.shutdown_exits, 1);

    let mut r = run(17, KvmRunExit::Other);
    assert_eq!(handle_exit(&mut r, &mut data, &mut stats, &mut pio, &mut mmio), Ok((false, ExitReport::InternalError)));

    let mut r = run(77, KvmRunExit::Other);
    assert_eq!(handle_exit(&mut r, &mut data, &mut stats, &mut pio, &mut mmio), Ok((true, ExitReport::UnknownCode(77))));

    let mut r = run(7, KvmRunExit::Other);
    assert_eq!(
        handle_exit(&mut r, &mut data, &mut stats, &mut pio, &mut mmio),
        Ok((true, ExitReport::Unhandled(VmExitReason::IrqWindowOpen)))
    );

    let fail = KvmExitFailEntry { hardware_entry_failure_reason: 0x1_0000_0007, cpu: 3 };
    let mut r = run(9, KvmRunExit::FailEntry(fail));
    assert_eq!(
        handle_exit(&mut r, &mut data, &mut stats, &mut pio, &mut mmio),
        Ok((false, ExitReport::FailEntry { hardware_error: 0x1_0000_0007, cpu: 3, vmx_error: 7 }))
    );
    assert_eq!(stats.other_exits, 4);

    let mut r = run(2, KvmRunExit::Other);
    assert!(handle_exit(&mut r, &mut data, &mut stats, &mut pio, &mut mmio).is_err());
    assert_eq!(stats.total(), 6);

    let mut r = run(2, KvmRunExit::Io(KvmExitIo { direction: 1, size: 1, port: 0x3f8, count: 1, data_offset: 0 }));
    let mut data = vec![b'x'];
    assert_eq!(handle_exit(&mut r, &mut data, &mut stats, &mut pio, &mut mmio), Ok((true, ExitReport::Handled)));
    assert_eq!(stats.total(), 7);
}

#[test]
fn hlt_is_counted() {
    let mut stats = ExitStats::new();
    handle_hlt_exit(&mut stats);
    assert_eq!((stats.hlt_exits, stats.total()), (1, 1));
}

#[test]
fn register_conversions_round_trip() {
    let regs = VcpuRegs { rax: 1, rip: 0x1000, rflags: 2, r15: 9, ..VcpuRegs::default() };
    let k: KvmRegs = kvm_regs(&regs);
    assert_eq!((k.rax, k.rip, k.rflags, k.r15), (1, 0x1000, 2, 9));
    let back = vcpu_regs(&k);
    assert_eq!((back.rax, back.rip, back.r15), (1, 0x1000, 9));

    let seg = Segment { base: 0x10, limit: 0xffff, selector: 0x8, type_: 0xb, present: 1, s: 1, l: 1, ..Segment::default() };
    let ks = KvmSegment::from(&seg);
    assert_eq!((ks.base, ks.limit, ks.selector, ks.type_, ks.l), (0x10, 0xffff, 0x8, 0xb, 1));
    let s2 = Segment::from(&ks);
    assert_eq!((s2.selector, s2.type_, s2.present), (0x8, 0xb, 1));
    let dt = Dtable { base: 0x500, limit: 23, padding: [1, 2, 3] };
    let kd = KvmDtable::from(&dt);
    assert_eq!((kd.base, kd.limit, kd.padding), (0x500, 23, [0, 0, 0]));

    let mut s = VcpuSregs::default();
    s.cs = seg;
    s.cr3 = 0xa000;
    s.efer = 0x500;
    let ksr = kvm_sregs(&s);
    assert_eq!((ksr.cs.selector, ksr.cr3, ksr.efer), (0x8, 0xa000, 0x500));
    let back = vcpu_sregs(&ksr);
    assert_eq!((back.cs.base, back.cr3), (0x10, 0xa000));
}

#[test]
fn kvm_unclaimed_reads_are_all_ones() {
    let (mut pio, mut mmio_bus, _) = buses();
    let mut stats = ExitStats::new();
    let inn = KvmExitIo { direction: 0, size: 2, port: 0x60, count: 2, data_offset: 0 };
    let mut data = vec![0, 0, 0, 0];
    handle_io_exit(inn, &mut data, &mut stats, &mut pio);
    assert_eq!(data, vec![0xff; 4]);
    let mut rd = KvmExitMmio { phys_addr: 0xfee0_0000, data: [0; 8], len: 4, is_write: 0 };
    handle_mmio_exit(&mut rd, &mut stats, &mut mmio_bus);
    assert_eq!(rd.data, [0xff, 0xff, 0xff, 0xff, 0, 0, 0, 0]);
}
