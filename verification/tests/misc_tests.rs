use ferrvm::config::{DEFAULT_CMDLINE, DEFAULT_MEM_MIB, ram_size_bytes};
use ferrvm::elf::{ElfClass, ElfMachine, Elf64Header, Elf64Phdr, PhFlags, PhType};
use ferrvm::input::{HELP_TEXT, ReaderAction, poll_action, process_input, read_action};
use ferrvm::memory::{AllocError, PAGE_SIZE, RangeError, allocation_size, checked_range, page_aligned_size};
use ferrvm::stats::ExitStats;
use ferrvm::terminal::{CTRL_A, EscapeAction, EscapeState};
use ferrvm::vcpu::{RunAction, StepOutcome, next_run_action};

#[test]
fn escape_sequences() {
    let mut e = EscapeState::new();
    assert_eq!(e.feed(b'a'), EscapeAction::Forward(b'a'));
    assert_eq!(e.feed(CTRL_A), EscapeAction::Swallowed);
    assert_eq!(e.feed(CTRL_A), EscapeAction::Forward(CTRL_A));
    assert_eq!(e.feed(CTRL_A), EscapeAction::Swallowed);
    assert_eq!(e.feed(b'?'), EscapeAction::Help);
    assert_eq!(e.feed(CTRL_A), EscapeAction::Swallowed);
    assert_eq!(e.feed(b'X'), EscapeAction::Quit);
    assert_eq!(e.feed(CTRL_A), EscapeAction::Swallowed);
    assert_eq!(e.feed(b'q'), EscapeAction::Forward(b'q'));
    assert_eq!(e.feed(b'x'), EscapeAction::Forward(b'x'));
}

#[test]
fn input_batches() {
    let mut e = EscapeState::default();
    let b = process_input(&mut e, b"ls\x01\x01\x01?x\r");
    assert_eq!(b.forward, b"ls\x01x\r".to_vec());
    assert!(b.help);
    assert!(!b.quit);
    let b = process_input(&mut e, b"ab\x01xcd");
    assert_eq!(b.forward, b"ab".to_vec());
    assert!(b.quit);
    let mut e = EscapeState::new();
    let b = process_input(&mut e, b"\x01");
    assert!(b.forward.is_empty());
    let b = process_input(&mut e, b"x");
    assert!(b.quit);
    assert!(HELP_TEXT.contains("Ctrl-A x"));
}

#[test]
fn reader_actions() {
    assert_eq!(poll_action(-1, true), ReaderAction::Retry);
    assert_eq!(poll_action(-1, false), ReaderAction::Shutdown);
    assert_eq!(poll_action(0, false), ReaderAction::TickCti);
    assert_eq!(poll_action(1, false), ReaderAction::Read);
    assert_eq!(read_action(-1, true), ReaderAction::Retry);
    assert_eq!(read_action(-1, false), ReaderAction::Shutdown);
    assert_eq!(read_action(0, false), ReaderAction::Shutdown);
    assert_eq!(read_action(12, false), ReaderAction::Process(12));
}

#[test]
fn run_loop_actions() {
    assert_eq!(next_run_action(StepOutcome::Ran(true)), RunAction::Continue);
    assert_eq!(next_run_action(StepOutcome::Ran(false)), RunAction::Stop);
    assert_eq!(next_run_action(StepOutcome::Interrupted), RunAction::Continue);
    assert_eq!(next_run_action(StepOutcome::Failed("boom".to_string())), RunAction::Fail("boom".to_string()));
}

#[test]
fn exit_stats_total() {
    let mut s = ExitStats::new();
    assert_eq!(s.total(), 0);
    s.io_exits = 3;
    s.other_exits = 4;
    s.hlt_exits = 1;
    assert_eq!(s.total(), 8);
    assert_eq!(ExitStats::default().total(), 0);
}

#[test]
fn guest_memory_ranges() {
    assert_eq!(page_aligned_size(100), 4096);
    assert_eq!(page_aligned_size(4096), 4096);
    assert_eq!(page_aligned_size(4097), 8192);
    assert_eq!(PAGE_SIZE, 4096);
    assert_eq!(checked_range(0x100, 11, 4096), Ok(0x100));
    assert_eq!(checked_range(4096, 1, 4096), Err(RangeError::OutOfBounds));
    assert_eq!(checked_range(4090, 7, 4096), Err(RangeError::OutOfBounds));
    assert_eq!(checked_range(4000, usize::MAX - 4000 + 1, 4096), Err(RangeError::Overflow));
    assert_eq!(checked_range(4096 - 11, 11, 4096), Ok(4085));
}

#[test]
fn config_defaults() {
    assert_eq!(DEFAULT_MEM_MIB, 1024);
    assert_eq!(ram_size_bytes(1024), Some(1 << 30));
    assert_eq!(ram_size_bytes(usize::MAX), None);
    assert!(DEFAULT_CMDLINE.starts_with("console=ttyS0"));
}

#[test]
fn elf_headers_parse() {
    let mut f = vec![0u8; 64 + 56];
    f[0..4].copy_from_slice(b"\x7fELF");
    f[4] = 2;
    f[5] = 1;
    f[16..18].copy_from_slice(&2u16.to_le_bytes());
    f[18..20].copy_from_slice(&62u16.to_le_bytes());
    f[24..32].copy_from_slice(&0x1234u64.to_le_bytes());
    f[56..58].copy_from_slice(&1u16.to_le_bytes());
    f[64..68].copy_from_slice(&1u32.to_le_bytes());
    f[68..72].copy_from_slice(&5u32.to_le_bytes());
    f[88..96].copy_from_slice(&0x20_0000u64.to_le_bytes());
    let h = Elf64Header::parse(&f);
    assert_eq!(h.e_ident_magic, *b"\x7fELF");
    assert_eq!(h.e_ident_class, ElfClass::Elf64.code());
    assert_eq!(h.e_machine, ElfMachine::X86_64.code());
    assert_eq!((h.e_entry, h.e_phnum), (0x1234, 1));
    let p = Elf64Phdr::parse(&f, 64);
    assert!(p.is_load());
    assert_eq!(p.p_type, PhType::Load.code());
    assert_eq!(p.p_paddr, 0x20_0000);
    assert!(p.p_flags.contains(PhFlags::from_bits_retain(PhFlags::EXECUTE | PhFlags::READ)));
    assert!(!p.p_flags.contains_bits(PhFlags::WRITE));
    assert_eq!(PhType::GnuStack.code(), 0x6474_e551);
}

#[test]
fn test_allocate() {
    assert_eq!(allocation_size(4096), Ok(4096));
}

#[test]
fn test_allocate_alignment() {
    assert_eq!(allocation_size(100), Ok(4096));
    assert_eq!(allocation_size(8192), Ok(8192));
}

#[test]
fn test_allocate_zero() {
    assert_eq!(allocation_size(0), Err(AllocError::ZeroSize));
}

#[test]
fn test_out_of_bounds() {
    // Just past the end
    assert!(checked_range(4096, 1, 4096).is_err());
    // Starts in bounds, ends out of bounds
    assert!(checked_range(4090, 7, 4096).is_err());
    // Large length that would overflow if not checked
    assert!(checked_range(4000, usize::MAX - 4000 + 1, 4096).is_err());
    // Huge GPA
    assert!(checked_range(u64::MAX, 1, 4096).is_err());
}
