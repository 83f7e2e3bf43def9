use std::sync::Mutex;

use ferrvm::boot::{
    BootError, CMDLINE_ADDR, HIMEM_START, KernelImageFormat, ZERO_PAGE_START, boot_gdt, boot_regs,
    build_boot_params, bzimage_payload_offset, cmdline_bytes, detect_kernel_image_format,
    generate_segment, get_setup_sects, is_bzimage, is_elf64, load_elf_kernel, load_initrd,
    load_kernel, long_mode_sregs, long_mode_tables, make_flat32_segment, protected_mode_sregs, segment_gdt_entry,
};
use ferrvm::memory::GuestRam;
use ferrvm::traits::{Segment, Vcpu, VcpuRegs, VcpuSregs};

struct Ram(Mutex<Vec<u8>>);

impl Ram {
    fn new(size: usize) -> Self {
        Ram(Mutex::new(vec![0u8; size]))
    }
    fn get(&self, gpa: u64, len: usize) -> Vec<u8> {
        self.read_at(gpa, len).unwrap()
    }
}

impl GuestRam for Ram {
    fn read_at(&self, gpa: u64, len: usize) -> Result<Vec<u8>, String> {
        let m = self.0.lock().unwrap();
        let start = gpa as usize;
        if start + len > m.len() {
            return Err("out of range".to_string());
        }
        Ok(m[start..start + len].to_vec())
    }
    fn write_at(&self, gpa: u64, data: &[u8]) -> Result<(), String> {
        let mut m = self.0.lock().unwrap();
        let start = gpa as usize;
        if start + data.len() > m.len() {
            return Err("out of range".to_string());
        }
        m[start..start + data.len()].copy_from_slice(data);
        Ok(())
    }
    fn size(&self) -> u64 {
        self.0.lock().unwrap().len() as u64
    }
}

struct FakeVcpu {
    regs: Mutex<VcpuRegs>,
    sregs: Mutex<VcpuSregs>,
}

impl Vcpu for FakeVcpu {
    fn setup(&self) -> Result<(), String> {
        Ok(())
    }
    fn set_regs(&self, regs: &VcpuRegs) -> Result<(), String> {
        *self.regs.lock().unwrap() = *regs;
        Ok(())
    }
    fn get_regs(&self) -> Result<VcpuRegs, String> {
        Ok(*self.regs.lock().unwrap())
    }
    fn set_sregs(&self, sregs: &VcpuSregs) -> Result<(), String> {
        *self.sregs.lock().unwrap() = *sregs;
        Ok(())
    }
    fn get_sregs(&self) -> Result<VcpuSregs, String> {
        Ok(*self.sregs.lock().unwrap())
    }
}

fn fake_vcpu() -> FakeVcpu {
    FakeVcpu { regs: Mutex::new(VcpuRegs::default()), sregs: Mutex::new(VcpuSregs::default()) }
}

/// A bzImage with `setup_sects` setup sectors and a payload of `payload` bytes.
fn bzimage(setup_sects: u8, payload: usize) -> Vec<u8> {
    let sects = if setup_sects == 0 { 4 } else { setup_sects as usize };
    let mut k = vec![0u8; (sects + 1) * 512 + payload];
    k[0x1f1] = setup_sects;
    k[0x1fe] = 0x55;
    k[0x1ff] = 0xaa;
    k[0x202..0x206].copy_from_slice(b"HdrS");
    k[0x206..0x208].copy_from_slice(&0x020fu16.to_le_bytes());
    k[0x211] = 0x02;
    for (i, b) in k[(sects + 1) * 512..].iter_mut().enumerate() {
        *b = (i % 251) as u8;
    }
    k
}

/// A one-segment ELF64 file: `filesz` bytes loaded at `paddr`, `memsz` in memory.
fn elf(entry: u64, paddr: u64, filesz: u64, memsz: u64) -> Vec<u8> {
    let mut f = vec![0u8; 64 + 56];
    f[0..4].copy_from_slice(b"\x7fELF");
    f[4] = 2;
    f[5] = 1;
    f[24..32].copy_from_slice(&entry.to_le_bytes());
    f[32..40].copy_from_slice(&64u64.to_le_bytes());
    f[54..56].copy_from_slice(&56u16.to_le_bytes());
    f[56..58].copy_from_slice(&1u16.to_le_bytes());
    let p = 64;
    f[p..p + 4].copy_from_slice(&1u32.to_le_bytes());
    f[p + 8..p + 16].copy_from_slice(&120u64.to_le_bytes());
    f[p + 24..p + 32].copy_from_slice(&paddr.to_le_bytes());
    f[p + 32..p + 40].copy_from_slice(&filesz.to_le_bytes());
    f[p + 40..p + 48].copy_from_slice(&memsz.to_le_bytes());
    f.extend((0..filesz).map(|i| (i as u8) ^ 0x5a));
    f
}

#[test]
fn detects_image_formats() {
    let e = elf(0x100000, 0x100000, 4, 4);
    assert!(is_elf64(&e));
    assert_eq!(detect_kernel_image_format(&e), Ok(KernelImageFormat::Elf64));
    let b = bzimage(4, 16);
    assert!(is_bzimage(&b));
    assert!(!is_elf64(&b));
    assert_eq!(detect_kernel_image_format(&b), Ok(KernelImageFormat::BzImage));
    let junk = vec![0u8; 0x300];
    assert_eq!(detect_kernel_image_format(&junk), Err(BootError::UnsupportedFormat));
    let mut old_protocol = bzimage(4, 16);
    old_protocol[0x206..0x208].copy_from_slice(&0x01ffu16.to_le_bytes());
    assert!(!is_bzimage(&old_protocol));
}

#[test]
fn setup_sectors_and_payload_offset() {
    let b = bzimage(0, 16);
    assert_eq!(get_setup_sects(&b), 4);
    assert_eq!(bzimage_payload_offset(&b), Ok(5 * 512));
    let b = bzimage(2, 16);
    assert_eq!(get_setup_sects(&b), 2);
    assert_eq!(bzimage_payload_offset(&b), Ok(3 * 512));
    let mut short = bzimage(2, 16);
    short.truncate(3 * 512);
    assert_eq!(bzimage_payload_offset(&short), Err(BootError::PayloadOffset { offset: 1536, size: 1536 }));
}

#[test]
fn command_line_is_nul_terminated_and_bounded() {
    assert_eq!(cmdline_bytes(b"console=ttyS0").unwrap(), b"console=ttyS0\0".to_vec());
    let long = vec![b'a'; 2047];
    assert_eq!(cmdline_bytes(&long).unwrap().len(), 2048);
    let too_long = vec![b'a'; 2048];
    assert_eq!(cmdline_bytes(&too_long), Err(BootError::CmdlineTooLong { len: 2049 }));
}

#[test]
fn gdt_entries_are_the_flat_long_mode_descriptors() {
    let gdt = boot_gdt();
    assert_eq!(gdt, vec![0, 0x00af_9b00_0000_ffff, 0x00af_9300_0000_ffff]);
    let code = generate_segment(1, 0b1011);
    assert_eq!(code.selector, 8);
    assert_eq!(segment_gdt_entry(&code), 0x00af_9b00_0000_ffff);
    let seg = Segment {
        base: 0x1234_5678,
        limit: 0xabcde,
        type_: 0x3,
        present: 1,
        dpl: 3,
        s: 1,
        g: 1,
        db: 1,
        ..Segment::default()
    };
    let e = segment_gdt_entry(&seg);
    assert_eq!(e & 0xffff, 0xbcde);
    assert_eq!((e >> 16) & 0xff_ffff, 0x34_5678);
    assert_eq!(e >> 56, 0x12);
    assert_eq!((e >> 48) & 0xf, 0xa);
    assert_eq!((e >> 40) & 0xff, 0xf3);
    assert_eq!((e >> 52) & 0xf, 0xc);
}

#[test]
fn protected_and_long_mode_registers() {
    let mut s = VcpuSregs::default();
    s.cr0 = 0x8000_0000;
    s.cr4 = 0x20;
    s.efer = 0xd00;
    let p = protected_mode_sregs(s);
    assert_eq!(p.cr0, 1);
    assert_eq!(p.cr4, 0);
    assert_eq!(p.efer, 0);
    assert_eq!((p.cs.limit, p.cs.g, p.cs.db, p.cs.l, p.cs.type_), (0xffff_ffff, 1, 1, 0, 0b1011));
    assert_eq!(p.ss.type_, 0b0011);

    let l = long_mode_sregs(VcpuSregs::default());
    assert_eq!(l.cr0, 0x8000_0001);
    assert_eq!(l.cr3, 0xa000);
    assert_eq!(l.cr4, 0x20);
    assert_eq!(l.efer, 0x500);
    assert_eq!((l.gdt.base, l.gdt.limit), (0x500, 23));
    assert_eq!((l.cs.selector, l.ds.selector, l.cs.l), (8, 16, 1));

    let mut seg = Segment::default();
    seg.selector = 0x18;
    make_flat32_segment(&mut seg, 0b1011);
    assert_eq!((seg.base, seg.limit, seg.selector, seg.type_), (0, 0xffff_ffff, 0x18, 0b1011));
}

#[test]
fn boot_registers() {
    let r = boot_regs(VcpuRegs { rax: 7, ..VcpuRegs::default() }, 0x100000);
    assert_eq!((r.rip, r.rsp, r.rbp, r.rsi, r.rflags, r.rax), (0x100000, 0x8ff0, 0x8ff0, 0x7000, 2, 7));
}

fn u32_at(p: &[u8], o: usize) -> u32 {
    u32::from_le_bytes(p[o..o + 4].try_into().unwrap())
}

fn u64_at(p: &[u8], o: usize) -> u64 {
    u64::from_le_bytes(p[o..o + 8].try_into().unwrap())
}

#[test]
fn zero_page_for_elf_kernel() {
    let zp = build_boot_params(KernelImageFormat::Elf64, &[], 13, 0x800_0000, 4096, 64 << 20).unwrap();
    assert_eq!(zp.len(), 4096);
    assert_eq!(zp[0x210], 0xff);
    assert_eq!(u16::from_le_bytes([zp[0x1fe], zp[0x1ff]]), 0xaa55);
    assert_eq!(u32_at(&zp, 0x202), 0x5372_6448);
    assert_eq!(u32_at(&zp, 0x228), 0x20000);
    assert_eq!(u32_at(&zp, 0x238), 14);
    assert_eq!(u32_at(&zp, 0x230), 0x0100_0000);
    assert_eq!(u32_at(&zp, 0x218), 0x800_0000);
    assert_eq!(u32_at(&zp, 0x21c), 4096);
    assert_eq!(zp[0x1e8], 3);
    assert_eq!((u64_at(&zp, 0x2d0), u64_at(&zp, 0x2d8), u32_at(&zp, 0x2e0)), (0, 0x9fc00, 1));
    assert_eq!((u64_at(&zp, 0x2e4), u64_at(&zp, 0x2ec), u32_at(&zp, 0x2f4)), (0x9fc00, 0x60400, 2));
    assert_eq!((u64_at(&zp, 0x2f8), u64_at(&zp, 0x300), u32_at(&zp, 0x308)), (0x100000, (64 << 20) - 0x100000, 1));
}

#[test]
fn zero_page_for_bzimage_keeps_its_header() {
    let k = bzimage(4, 16);
    let zp = build_boot_params(KernelImageFormat::BzImage, &k, 5, 0, 0, 32 << 20).unwrap();
    assert_eq!(&zp[0x202..0x206], b"HdrS");
    assert_eq!(u16::from_le_bytes([zp[0x206], zp[0x207]]), 0x020f);
    assert_eq!(zp[0x1f1], 4);
    assert_eq!(zp[0x211], 0x02 | 0xc1);
    assert_eq!(u16::from_le_bytes([zp[0x1fa], zp[0x1fb]]), 0xffff);
    assert_eq!(u16::from_le_bytes([zp[0x224], zp[0x225]]), 0xfe00);
    assert_eq!(u32_at(&zp, 0x214), 0x100000);
    assert_eq!(u32_at(&zp, 0x238), 6);
    assert_eq!(u32_at(&zp, 0x228), 0x20000);
    assert_eq!(zp[0x210], 0xff);
    let short = vec![0u8; 0x260];
    assert_eq!(
        build_boot_params(KernelImageFormat::BzImage, &short, 5, 0, 0, 32 << 20),
        Err(BootError::SetupHeaderTruncated)
    );
}

#[test]
fn elf_segments_are_loaded_with_bss() {
    let ram = Ram::new(0x20_0000);
    let e = elf(0x10_0040, 0x10_0000, 8, 16);
    assert_eq!(load_elf_kernel(&ram, &e, HIMEM_START), Ok(0x10_0040));
    let expected: Vec<u8> = (0..8u8).map(|i| i ^ 0x5a).chain(std::iter::repeat(0).take(8)).collect();
    assert_eq!(ram.get(0x10_0000, 16), expected);
    // Segments below 1 MiB are moved up to 1 MiB.
    let ram = Ram::new(0x20_0000);
    let low = elf(0x1000, 0x1000, 4, 4);
    assert_eq!(load_elf_kernel(&ram, &low, HIMEM_START), Ok(0x1000));
    assert_eq!(ram.get(0x10_0000, 4), vec![0x5a, 0x5b, 0x58, 0x59]);
}

#[test]
fn elf_errors() {
    let ram = Ram::new(0x20_0000);
    assert_eq!(load_elf_kernel(&ram, &[0x7f, b'E'], HIMEM_START), Err(BootError::ElfTruncated));
    let mut bad = elf(0, 0x10_0000, 4, 4);
    bad[1] = b'X';
    assert_eq!(load_elf_kernel(&ram, &bad, HIMEM_START), Err(BootError::BadElfMagic));
    let mut class32 = elf(0, 0x10_0000, 4, 4);
    class32[4] = 1;
    assert_eq!(load_elf_kernel(&ram, &class32, HIMEM_START), Err(BootError::NotElf64));
    let big = elf(0, 0x10_0000, 4, 0x20_0000);
    assert_eq!(load_elf_kernel(&ram, &big, HIMEM_START), Err(BootError::SegmentTooLarge));
}

#[test]
fn initrd_placement() {
    let ram = Ram::new(0x900_0000);
    assert_eq!(load_initrd(&ram, None), Ok((0, 0)));
    assert_eq!(load_initrd(&ram, Some(&[1, 2, 3])), Ok((0x800_0000, 3)));
    assert_eq!(ram.get(0x800_0000, 3), vec![1, 2, 3]);
}

#[test]
fn loads_a_bzimage_and_sets_protected_mode() {
    let ram = Ram::new(0x900_0000);
    let vcpu = fake_vcpu();
    let k = bzimage(4, 64);
    load_kernel(&ram, &vcpu, &k, b"console=ttyS0", Some(&[9, 9])).unwrap();
    assert_eq!(ram.get(HIMEM_START, 64), k[5 * 512..].to_vec());
    assert_eq!(ram.get(CMDLINE_ADDR, 14), b"console=ttyS0\0".to_vec());
    let zp = ram.get(ZERO_PAGE_START, 4096);
    assert_eq!(&zp[0x202..0x206], b"HdrS");
    assert_eq!(u32_at(&zp, 0x21c), 2);
    let regs = vcpu.get_regs().unwrap();
    assert_eq!((regs.rip, regs.rsi), (HIMEM_START, ZERO_PAGE_START));
    let sregs = vcpu.get_sregs().unwrap();
    assert_eq!((sregs.cr0 & 1, sregs.cs.limit, sregs.cs.db), (1, 0xffff_ffff, 1));
}

#[test]
fn loads_an_elf_kernel_and_sets_long_mode() {
    let ram = Ram::new(0x200_0000);
    let vcpu = fake_vcpu();
    let e = elf(0x100_0000, 0x100_0000, 32, 32);
    load_kernel(&ram, &vcpu, &e, b"quiet", None).unwrap();
    assert_eq!(vcpu.get_regs().unwrap().rip, 0x100_0000);
    let sregs = vcpu.get_sregs().unwrap();
    assert_eq!((sregs.cr3, sregs.efer & 0x500), (0xa000, 0x500));
    assert_eq!(ram.get(0xa000, 8), 0xb003u64.to_le_bytes().to_vec());
    assert_eq!(ram.get(0xb000, 8), 0xc003u64.to_le_bytes().to_vec());
    assert_eq!(ram.get(0xc000 + 8 * 3, 8), ((3u64 << 21) | 0x83).to_le_bytes().to_vec());
    assert_eq!(ram.get(0x500 + 8, 8), 0x00af_9b00_0000_ffffu64.to_le_bytes().to_vec());
}

#[test]
fn unsupported_image_is_refused() {
    let ram = Ram::new(0x200_0000);
    let vcpu = fake_vcpu();
    assert_eq!(load_kernel(&ram, &vcpu, &vec![0u8; 1024], b"", None), Err(BootError::UnsupportedFormat));
}

#[test]
fn long_mode_tables_plan() {
    let plan = long_mode_tables();
    assert_eq!(plan.len(), 517);
    let gdt = boot_gdt();
    assert_eq!(plan[0], (0x500, gdt[0]));
    assert_eq!(plan[2], (0x510, gdt[2]));
    assert_eq!(plan[3], (0xa000, 0xb003));
    assert_eq!(plan[4], (0xb000, 0xc003));
    assert_eq!(plan[5], (0xc000, 0x83));
    assert_eq!(plan[6], (0xc008, 0x20_0083));
    assert_eq!(plan[516], (0xc000 + 8 * 511, (511u64 << 21) | 0x83));
}

#[test]
fn zero_page_command_line_size_wraps_to_32_bits() {
    let zp = build_boot_params(KernelImageFormat::Elf64, &[], u32::MAX as usize, 0, 0, 64 << 20).unwrap();
    assert_eq!(u32_at(&zp, 0x238), 0);
}
