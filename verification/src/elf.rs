//! ELF64 file and program headers, as the kernel loader reads them.
use vstd::prelude::*;

use crate::bytes::{le_value, read_u16, read_u32, read_u64};

verus! {

/// ELF class (32-bit or 64-bit).
#[derive(Debug, Clone, Copy, PartialEq, Eq, Structural)]
pub enum ElfClass {
    /// `ELFCLASSNONE`: invalid class.
    Invalid,
    Elf32,
    Elf64,
}

impl ElfClass {
    pub open spec fn spec_code(self) -> u8 {
        match self {
            ElfClass::Invalid => 0,
            ElfClass::Elf32 => 1,
            ElfClass::Elf64 => 2,
        }
    }

    /// The `EI_CLASS` byte of this class.
    pub fn code(self) -> (r: u8)
        ensures
            r == self.spec_code(),
    {
        match self {
            ElfClass::Invalid => 0,
            ElfClass::Elf32 => 1,
            ElfClass::Elf64 => 2,
        }
    }
}

/// Data encoding (endianness).
#[derive(Debug, Clone, Copy, PartialEq, Eq, Structural)]
pub enum ElfData {
    /// `ELFDATANONE`: invalid encoding.
    Invalid,
    /// Little-endian.
    Lsb,
    /// Big-endian.
    Msb,
}

impl ElfData {
    pub open spec fn spec_code(self) -> u8 {
        match self {
            ElfData::Invalid => 0,
            ElfData::Lsb => 1,
            ElfData::Msb => 2,
        }
    }

    /// The `EI_DATA` byte of this encoding.
    pub fn code(self) -> (r: u8)
        ensures
            r == self.spec_code(),
    {
        match self {
            ElfData::Invalid => 0,
            ElfData::Lsb => 1,
            ElfData::Msb => 2,
        }
    }
}

/// OS/ABI identification.
#[derive(Debug, Clone, Copy, PartialEq, Eq, Structural)]
pub enum OsAbi {
    /// `ELFOSABI_NONE`, also known as System V.
    SystemV,
    HpUx,
    NetBsd,
    Linux,
    Solaris,
    Aix,
    FreeBsd,
    OpenBsd,
}

impl OsAbi {
    pub open spec fn spec_code(self) -> u8 {
        match self {
            OsAbi::SystemV => 0,
            OsAbi::HpUx => 1,
            OsAbi::NetBsd => 2,
            OsAbi::Linux => 3,
            OsAbi::Solaris => 6,
            OsAbi::Aix => 7,
            OsAbi::FreeBsd => 9,
            OsAbi::OpenBsd => 12,
        }
    }

    /// The `EI_OSABI` byte of this ABI.
    pub fn code(self) -> (r: u8)
        ensures
            r == self.spec_code(),
    {
        match self {
            OsAbi::SystemV => 0,
            OsAbi::HpUx => 1,
            OsAbi::NetBsd => 2,
            OsAbi::Linux => 3,
            OsAbi::Solaris => 6,
            OsAbi::Aix => 7,
            OsAbi::FreeBsd => 9,
            OsAbi::OpenBsd => 12,
        }
    }
}

/// Object file type.
#[derive(Debug, Clone, Copy, PartialEq, Eq, Structural)]
pub enum ElfType {
    /// `ET_NONE`: no file type.
    NoType,
    /// Relocatable.
    Rel,
    /// Executable.
    Exec,
    /// Shared object.
    Dyn,
    /// Core dump.
    Core,
}

impl ElfType {
    pub open spec fn spec_code(self) -> u16 {
        match self {
            ElfType::NoType => 0,
            ElfType::Rel => 1,
            ElfType::Exec => 2,
            ElfType::Dyn => 3,
            ElfType::Core => 4,
        }
    }

    /// The `e_type` value of this file type.
    pub fn code(self) -> (r: u16)
        ensures
            r == self.spec_code(),
    {
        match self {
            ElfType::NoType => 0,
            ElfType::Rel => 1,
            ElfType::Exec => 2,
            ElfType::Dyn => 3,
            ElfType::Core => 4,
        }
    }
}

/// Machine architecture.
#[derive(Debug, Clone, Copy, PartialEq, Eq, Structural)]
pub enum ElfMachine {
    /// `EM_NONE`: no machine.
    NoMachine,
    Sparc,
    X86,
    Mips,
    PowerPc,
    Arm,
    X86_64,
    AArch64,
    RiscV,
}

impl ElfMachine {
    pub open spec fn spec_code(self) -> u16 {
        match self {
            ElfMachine::NoMachine => 0,
            ElfMachine::Sparc => 2,
            ElfMachine::X86 => 3,
            ElfMachine::Mips => 8,
            ElfMachine::PowerPc => 20,
            ElfMachine::Arm => 40,
            ElfMachine::X86_64 => 62,
            ElfMachine::AArch64 => 183,
            ElfMachine::RiscV => 243,
        }
    }

    /// The `e_machine` value of this architecture.
    pub fn code(self) -> (r: u16)
        ensures
            r == self.spec_code(),
    {
        match self {
            ElfMachine::NoMachine => 0,
            ElfMachine::Sparc => 2,
            ElfMachine::X86 => 3,
            ElfMachine::Mips => 8,
            ElfMachine::PowerPc => 20,
            ElfMachine::Arm => 40,
            ElfMachine::X86_64 => 62,
            ElfMachine::AArch64 => 183,
            ElfMachine::RiscV => 243,
        }
    }
}

/// Size in bytes of an ELF64 file header.
pub const ELF64_HEADER_SIZE: usize = 64;

/// Size in bytes of an ELF64 program header.
pub const ELF64_PHDR_SIZE: usize = 56;

/// The ELF64 file header.
#[derive(Debug, Clone, Copy)]
pub struct Elf64Header {
    pub e_ident_magic: [u8; 4],
    /// An `ElfClass` code.
    pub e_ident_class: u8,
    /// An `ElfData` code.
    pub e_ident_data: u8,
    pub e_ident_version: u8,
    /// An `OsAbi` code.
    pub e_ident_osabi: u8,
    pub e_ident_abiversion: u8,
    pub e_ident_pad: [u8; 7],
    /// An `ElfType` code.
    pub e_type: u16,
    /// An `ElfMachine` code.
    pub e_machine: u16,
    pub e_version: u32,
    pub e_entry: u64,
    pub e_phoff: u64,
    pub e_shoff: u64,
    pub e_flags: u32,
    pub e_ehsize: u16,
    pub e_phentsize: u16,
    pub e_phnum: u16,
    pub e_shentsize: u16,
    pub e_shnum: u16,
    pub e_shstrndx: u16,
}

/// The header the first 64 bytes of `b` encode (little-endian layout).
pub open spec fn header_fields_match(h: Elf64Header, b: Seq<u8>) -> bool {
    &&& h.e_ident_magic@ == b.subrange(0, 4)
    &&& h.e_ident_class == b[4]
    &&& h.e_ident_data == b[5]
    &&& h.e_ident_version == b[6]
    &&& h.e_ident_osabi == b[7]
    &&& h.e_ident_abiversion == b[8]
    &&& h.e_ident_pad@ == b.subrange(9, 16)
    &&& h.e_type == le_value(b, 16, 2)
    &&& h.e_machine == le_value(b, 18, 2)
    &&& h.e_version == le_value(b, 20, 4)
    &&& h.e_entry == le_value(b, 24, 8)
    &&& h.e_phoff == le_value(b, 32, 8)
    &&& h.e_shoff == le_value(b, 40, 8)
    &&& h.e_flags == le_value(b, 48, 4)
    &&& h.e_ehsize == le_value(b, 52, 2)
    &&& h.e_phentsize == le_value(b, 54, 2)
    &&& h.e_phnum == le_value(b, 56, 2)
    &&& h.e_shentsize == le_value(b, 58, 2)
    &&& h.e_shnum == le_value(b, 60, 2)
    &&& h.e_shstrndx == le_value(b, 62, 2)
}

impl Elf64Header {
    /// Decode the header from the first 64 bytes of `b`.
    pub fn parse(b: &[u8]) -> (h: Self)
        requires
            b@.len() >= ELF64_HEADER_SIZE,
        ensures
            header_fields_match(h, b@),
    {
        let h = Elf64Header {
            e_ident_magic: [b[0], b[1], b[2], b[3]],
            e_ident_class: b[4],
            e_ident_data: b[5],
            e_ident_version: b[6],
            e_ident_osabi: b[7],
            e_ident_abiversion: b[8],
            e_ident_pad: [b[9], b[10], b[11], b[12], b[13], b[14], b[15]],
            e_type: read_u16(b, 16),
            e_machine: read_u16(b, 18),
            e_version: read_u32(b, 20),
            e_entry: read_u64(b, 24),
            e_phoff: read_u64(b, 32),
            e_shoff: read_u64(b, 40),
            e_flags: read_u32(b, 48),
            e_ehsize: read_u16(b, 52),
            e_phentsize: read_u16(b, 54),
            e_phnum: read_u16(b, 56),
            e_shentsize: read_u16(b, 58),
            e_shnum: read_u16(b, 60),
            e_shstrndx: read_u16(b, 62),
        };
        assert(h.e_ident_magic@ =~= b@.subrange(0, 4));
        assert(h.e_ident_pad@ =~= b@.subrange(9, 16));
        h
    }
}

/// Program header segment type.
#[derive(Debug, Clone, Copy, PartialEq, Eq, Structural)]
pub enum PhType {
    /// Unused entry.
    Null,
    /// Loadable segment.
    Load,
    /// Dynamic linking info.
    Dynamic,
    /// Path to interpreter.
    Interp,
    /// Auxiliary information.
    Note,
    /// Reserved.
    Shlib,
    /// Program header table.
    Phdr,
    /// Thread-local storage.
    Tls,
    GnuEhFrame,
    GnuStack,
    GnuRelro,
}

impl PhType {
    pub open spec fn spec_code(self) -> u32 {
        match self {
            PhType::Null => 0,
            PhType::Load => 1,
            PhType::Dynamic => 2,
            PhType::Interp => 3,
            PhType::Note => 4,
            PhType::Shlib => 5,
            PhType::Phdr => 6,
            PhType::Tls => 7,
            PhType::GnuEhFrame => 0x6474_e550,
            PhType::GnuStack => 0x6474_e551,
            PhType::GnuRelro => 0x6474_e552,
        }
    }

    /// The `p_type` value of this segment type.
    pub fn code(self) -> (r: u32)
        ensures
            r == self.spec_code(),
    {
        match self {
            PhType::Null => 0,
            PhType::Load => 1,
            PhType::Dynamic => 2,
            PhType::Interp => 3,
            PhType::Note => 4,
            PhType::Shlib => 5,
            PhType::Phdr => 6,
            PhType::Tls => 7,
            PhType::GnuEhFrame => 0x6474_e550,
            PhType::GnuStack => 0x6474_e551,
            PhType::GnuRelro => 0x6474_e552,
        }
    }
}

/// Segment permission flags.
#[derive(Debug, Clone, Copy, PartialEq, Eq, Structural)]
pub struct PhFlags {
    pub bits: u32,
}

impl PhFlags {
    pub const EXECUTE: u32 = 0x1;
    pub const WRITE: u32 = 0x2;
    pub const READ: u32 = 0x4;

    /// The flags with exactly the given bits.
    pub fn from_bits_retain(bits: u32) -> (r: Self)
        ensures
            r.bits == bits,
    {
        PhFlags { bits }
    }

    /// The raw bits.
    pub fn bits(&self) -> (r: u32)
        ensures
            r == self.bits,
    {
        self.bits
    }

    /// Whether every flag of `other` is set here.
    pub fn contains(&self, other: PhFlags) -> (r: bool)
        ensures
            r == (self.bits & other.bits == other.bits),
    {
        self.bits & other.bits == other.bits
    }

    /// Whether the given flag bits are all set.
    pub fn contains_bits(&self, bits: u32) -> (r: bool)
        ensures
            r == (self.bits & bits == bits),
    {
        self.bits & bits == bits
    }
}

/// An ELF64 program header.
#[derive(Debug, Clone, Copy)]
pub struct Elf64Phdr {
    /// A `PhType` code.
    pub p_type: u32,
    pub p_flags: PhFlags,
    pub p_offset: u64,
    pub p_vaddr: u64,
    pub p_paddr: u64,
    pub p_filesz: u64,
    pub p_memsz: u64,
    pub p_align: u64,
}

/// The program header the 56 bytes of `b` at `o` encode.
pub open spec fn phdr_fields_match(p: Elf64Phdr, b: Seq<u8>, o: int) -> bool {
    &&& p.p_type == le_value(b, o, 4)
    &&& p.p_flags.bits == le_value(b, o + 4, 4)
    &&& p.p_offset == le_value(b, o + 8, 8)
    &&& p.p_vaddr == le_value(b, o + 16, 8)
    &&& p.p_paddr == le_value(b, o + 24, 8)
    &&& p.p_filesz == le_value(b, o + 32, 8)
    &&& p.p_memsz == le_value(b, o + 40, 8)
    &&& p.p_align == le_value(b, o + 48, 8)
}

impl Elf64Phdr {
    /// Decode a program header from the 56 bytes of `b` at `o`.
    pub fn parse(b: &[u8], o: usize) -> (p: Self)
        requires
            o + ELF64_PHDR_SIZE <= b@.len(),
        ensures
            phdr_fields_match(p, b@, o as int),
    {
        let blen = b.len();
        assert(o + 56 <= blen);
        Elf64Phdr {
            p_type: read_u32(b, o),
            p_flags: PhFlags { bits: read_u32(b, o + 4) },
            p_offset: read_u64(b, o + 8),
            p_vaddr: read_u64(b, o + 16),
            p_paddr: read_u64(b, o + 24),
            p_filesz: read_u64(b, o + 32),
            p_memsz: read_u64(b, o + 40),
            p_align: read_u64(b, o + 48),
        }
    }

    /// Returns true if this is a loadable segment.
    pub fn is_load(&self) -> (r: bool)
        ensures
            r == (self.p_type == PhType::Load.spec_code()),
    {
        self.p_type == 1
    }
}

} // verus!
