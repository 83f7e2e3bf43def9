use std::sync::{Arc, Mutex};

use ferrvm::bhyve::api::{
    SegDesc, VM_RUN, VMM_CPU_IOC_BASE, VmCpuMode, VmEntryUnion, VmExit, VmExitCode, VmExitMsr,
    VmExitSuspended, VmExitUnion, VmInout, VmMmio, VmPagingMode, VmRegName, cpu_mode, paging_mode,
    vm_name_field,
};
use ferrvm::bhyve::exithandler::{
    BhyveExitReport, InstructionText, bitness, describe_instruction, handle_exit, hex_text,
    msr_write_value,
};
use ferrvm::bus::{Bus, BusDevice};
use ferrvm::config::Config;
use ferrvm::stats::ExitStats;
use ferrvm::traits::{Dtable, Segment, Vcpu, VcpuRegs, VcpuSregs};

#[derive(Clone)]
struct Port(Arc<Mutex<Vec<(u64, Vec<u8>)>>>);

impl BusDevice for Port {
    fn read(&mut self, offset: u64, data: &mut [u8]) {
        for (i, b) in data.iter_mut().enumerate() {
            *b = 0x10 * (i as u8 + 1) + offset as u8;
        }
    }
    fn write(&mut self, offset: u64, data: &[u8]) {
        self.0.lock().unwrap().push((offset, data.to_vec()));
    }
}

struct Regs(VcpuRegs, VcpuSregs);

impl Vcpu for Regs {
    fn setup(&self) -> Result<(), String> {
        Ok(())
    }
    fn set_regs(&self, _: &VcpuRegs) -> Result<(), String> {
        Ok(())
    }
    fn get_regs(&self) -> Result<VcpuRegs, String> {
        Ok(self.0)
    }
    fn set_sregs(&self, _: &VcpuSregs) -> Result<(), String> {
        Ok(())
    }
    fn get_sregs(&self) -> Result<VcpuSregs, String> {
        Ok(self.1)
    }
}

fn config(debug: bool) -> Config {
    Config { kernel: String::new(), initramfs: None, mem: 1024, cmdline: None, disk: None, debug }
}

fn exit(exitcode: VmExitCode, u: VmExitUnion) -> VmExit {
    VmExit { exitcode, inst_length: 2, rip: 0xfff0, u }
}

fn buses() -> (Bus<Port>, Bus<Port>, Port) {
    let port = Port(Arc::new(Mutex::new(Vec::new())));
    let mut pio = Bus::new();
    pio.register(0x3f8, 8, port.clone()).unwrap();
    let mut mmio = Bus::new();
    mmio.register(0xd000_0000, 0x1000, port.clone()).unwrap();
    (pio, mmio, port)
}

#[test]
fn segment_descriptors_pack_access_rights() {
    let seg = Segment {
        base: 0x1000,
        limit: 0xfffff,
        selector: 0x10,
        type_: 0xb,
        s: 1,
        dpl: 3,
        present: 1,
        avl: 1,
        l: 1,
        db: 0,
        g: 1,
        unusable: 0,
        padding: 0,
    };
    let d = SegDesc::from(&seg);
    assert_eq!(d, SegDesc { base: 0x1000, limit: 0xfffff, access: 0xb | 0x10 | 0x60 | 0x80 | 0x1000 | 0x2000 | 0x8000 });
    let back = Segment::from(&d);
    assert_eq!((back.type_, back.s, back.dpl, back.present, back.avl, back.l, back.db, back.g), (0xb, 1, 3, 1, 1, 1, 0, 1));
    assert_eq!(back.selector, 0);
    let dt = Dtable { base: 0x500, limit: 23, padding: [0; 3] };
    let dd = SegDesc::from(&dt);
    assert_eq!(dd, SegDesc { base: 0x500, limit: 23, access: 0 });
    assert_eq!(Dtable::from(&SegDesc { base: 1, limit: 0x1_0017, access: 5 }).limit, 0x17);
}

#[test]
fn cpu_and_paging_modes() {
    let mut s = VcpuSregs::default();
    assert_eq!((cpu_mode(&s), paging_mode(&s), bitness(&s)), (VmCpuMode::Real, VmPagingMode::Flat, 16));
    s.cr0 = 1;
    assert_eq!((cpu_mode(&s), bitness(&s)), (VmCpuMode::Protected, 32));
    s.cr0 = 0x8000_0001;
    assert_eq!(paging_mode(&s), VmPagingMode::ThirtyTwo);
    s.cr4 = 0x20;
    assert_eq!(paging_mode(&s), VmPagingMode::Pae);
    s.efer = 0x500;
    assert_eq!(paging_mode(&s), VmPagingMode::SixtyFour);
    assert_eq!((cpu_mode(&s), bitness(&s)), (VmCpuMode::Compatibility, 32));
    s.cs.l = 1;
    assert_eq!((cpu_mode(&s), bitness(&s)), (VmCpuMode::SixtyFourBit, 64));
    assert_eq!((VmCpuMode::SixtyFourBit.code(), VmPagingMode::Pae.code()), (3, 2));
}

#[test]
fn codes_and_request_numbers() {
    assert_eq!(VmRegName::Rip.code(), 20);
    assert_eq!(VmRegName::Xcr0.code(), 45);
    assert_eq!(VmExitCode::Mmio.code(), 15);
    assert_eq!(VmExitCode::from_code(15), Some(VmExitCode::Mmio));
    assert_eq!(VmExitCode::from_code(25), Some(VmExitCode::Max));
    assert_eq!(VmExitCode::from_code(26), None);
    assert_eq!(VM_RUN, VMM_CPU_IOC_BASE | 1);
    assert_eq!(VMM_CPU_IOC_BASE, ((b'v' as u32) << 16) | ((b'p' as u32) << 8));
    let name = vm_name_field(b"ferrvm-1");
    assert_eq!(name.len(), 128);
    assert_eq!(&name[..9], b"ferrvm-1\0");
    let long = vec![b'x'; 200];
    let cut = vm_name_field(&long);
    assert_eq!((cut[126], cut[127]), (b'x', 0));
}

#[test]
fn inout_exits_complete_on_the_next_entry() {
    let (mut pio, mut mmio, port) = buses();
    let mut stats = ExitStats::new();
    let vcpu = Regs(VcpuRegs::default(), VcpuSregs::default());
    let cfg = config(false);
    let inn = VmInout { eax: 0xaabb_ccdd, port: 0x3f9, bytes: 1, flags: 1, addrsize: 0, segment: 0 };
    let (run, cmd, entry, report) =
        handle_exit(&exit(VmExitCode::Inout, VmExitUnion::Inout(inn)), &mut stats, &vcpu, &mut pio, &mut mmio, &cfg);
    assert!(run);
    assert_eq!(cmd, 3);
    assert_eq!(report, BhyveExitReport::Handled);
    match entry {
        VmEntryUnion::Inout(io) => assert_eq!(io.eax, 0xaabb_cc11),
        _ => panic!("expected an inout completion"),
    }
    let out = VmInout { eax: 0x4142, port: 0x3f8, bytes: 2, flags: 0, addrsize: 0, segment: 0 };
    handle_exit(&exit(VmExitCode::Inout, VmExitUnion::Inout(out)), &mut stats, &vcpu, &mut pio, &mut mmio, &cfg);
    assert_eq!(*port.0.lock().unwrap(), vec![(0, vec![0x42, 0x41])]);
    assert_eq!(stats.io_exits, 2);
}

#[test]
fn mmio_exits_complete_on_the_next_entry() {
    let (mut pio, mut mmio, _) = buses();
    let mut stats = ExitStats::new();
    let vcpu = Regs(VcpuRegs::default(), VcpuSregs::default());
    let cfg = config(false);
    let m = VmMmio { bytes: 2, read: 1, _pad: [0; 3], gpa: 0xd000_0004, data: u64::MAX };
    let (_, cmd, entry, _) =
        handle_exit(&exit(VmExitCode::Mmio, VmExitUnion::Mmio(m)), &mut stats, &vcpu, &mut pio, &mut mmio, &cfg);
    assert_eq!(cmd, 2);
    match entry {
        VmEntryUnion::Mmio(done) => assert_eq!(done.data, 0xffff_ffff_ffff_2414),
        _ => panic!("expected an mmio completion"),
    }
    assert_eq!(stats.mmio_exits, 1);
}

#[test]
fn other_exits() {
    let (mut pio, mut mmio, _) = buses();
    let mut stats = ExitStats::new();
    let regs = VcpuRegs { rax: 0x1_2222_3333, rdx: 0x4_5555_6666, rip: 0x7777, ..VcpuRegs::default() };
    let vcpu = Regs(regs, VcpuSregs::default());
    let cfg = config(false);
    let r = handle_exit(&exit(VmExitCode::Hlt, VmExitUnion::Other), &mut stats, &vcpu, &mut pio, &mut mmio, &cfg);
    assert_eq!((r.0, r.1, r.3), (true, 0, BhyveExitReport::Handled));
    let susp = VmExitSuspended { how: 1, source: -1, when: 0 };
    let r = handle_exit(&exit(VmExitCode::Suspended, VmExitUnion::Suspended(susp)), &mut stats, &vcpu, &mut pio, &mut mmio, &cfg);
    assert_eq!((r.0, r.3), (false, BhyveExitReport::Suspended { how: 1, source: -1 }));
    let msr = VmExitMsr { code: 0xc000_0080, wval: 0 };
    let r = handle_exit(&exit(VmExitCode::Wrmsr, VmExitUnion::Msr(msr)), &mut stats, &vcpu, &mut pio, &mut mmio, &cfg);
    assert_eq!(r.3, BhyveExitReport::Wrmsr { code: 0xc000_0080, value: 0x5555_6666_2222_3333, rip: 0xfff0 });
    let r = handle_exit(&exit(VmExitCode::Rdmsr, VmExitUnion::Msr(msr)), &mut stats, &vcpu, &mut pio, &mut mmio, &cfg);
    assert_eq!(r.3, BhyveExitReport::Rdmsr { code: 0xc000_0080, rip: 0xfff0 });
    let r = handle_exit(&exit(VmExitCode::Bogus, VmExitUnion::Other), &mut stats, &vcpu, &mut pio, &mut mmio, &cfg);
    assert_eq!(r.3, BhyveExitReport::Bogus);
    let r = handle_exit(&exit(VmExitCode::Bogus, VmExitUnion::Other), &mut stats, &vcpu, &mut pio, &mut mmio, &config(true));
    assert_eq!(r.3, BhyveExitReport::BogusDump { rip: 0x7777, cr0: 0, cr4: 0, inst_length: 2, exit_rip: 0xfff0, bitness: 16 });
    let r = handle_exit(&exit(VmExitCode::Pause, VmExitUnion::Other), &mut stats, &vcpu, &mut pio, &mut mmio, &cfg);
    assert_eq!(r.3, BhyveExitReport::Unhandled { code: 7, rip: 0xfff0, inst_length: 2 });
    // HLT, suspend, two bogus and the unhandled exit are counted; MSR exits are not.
    assert_eq!((stats.hlt_exits, stats.shutdown_exits, stats.other_exits, stats.total()), (1, 1, 3, 5));
}

#[test]
fn instruction_dump() {
    assert_eq!(hex_text(&[0x0f, 0xa2, 0x90]), b"0f a2 90".to_vec());
    assert_eq!(hex_text(&[]), Vec::<u8>::new());
    assert_eq!(describe_instruction(64, &[0x90, 0x90], 1, 0x1000), InstructionText::Decoded("nop".to_string()));
    assert_eq!(describe_instruction(64, &[], 0, 0x1000), InstructionText::Bytes(Vec::new()));
    match describe_instruction(64, &[0x0f, 0xa2, 0xcc], 0, 0) {
        InstructionText::Decoded(t) => assert_eq!(t, "cpuid"),
        other => panic!("unexpected {other:?}"),
    }
}

#[test]
fn bhyve_unclaimed_reads_are_all_ones() {
    let (mut pio, mut mmio, _) = buses();
    let mut stats = ExitStats::new();
    let vcpu = Regs(VcpuRegs::default(), VcpuSregs::default());
    let cfg = config(false);
    let inn = VmInout { eax: 0x1234_5678, port: 0x60, bytes: 2, flags: 1, addrsize: 0, segment: 0 };
    let (_, _, entry, _) =
        handle_exit(&exit(VmExitCode::Inout, VmExitUnion::Inout(inn)), &mut stats, &vcpu, &mut pio, &mut mmio, &cfg);
    match entry {
        VmEntryUnion::Inout(io) => assert_eq!(io.eax, 0x1234_ffff),
        _ => panic!("expected an inout completion"),
    }
    let m = VmMmio { bytes: 1, read: 1, _pad: [0; 3], gpa: 0xfee0_0000, data: 0 };
    let (_, _, entry, _) =
        handle_exit(&exit(VmExitCode::Mmio, VmExitUnion::Mmio(m)), &mut stats, &vcpu, &mut pio, &mut mmio, &cfg);
    match entry {
        VmEntryUnion::Mmio(done) => assert_eq!(done.data, 0xff),
        _ => panic!("expected an mmio completion"),
    }
}

#[test]
fn msr_write_value_joins_edx_eax() {
    let regs = VcpuRegs { rax: 0xdead_beef_1234_5678, rdx: 0xffff_ffff_0000_00c0, ..Default::default() };
    assert_eq!(msr_write_value(&regs), 0x0000_00c0_1234_5678);
    let zero = VcpuRegs::default();
    assert_eq!(msr_write_value(&zero), 0);
}
