//! Structures and definitions of the ELF format, as the format manual gives
//! them: the headers field by field, and the numbers that their fields hold.

#![allow(non_camel_case_types)]

use vstd::prelude::*;

verus! {

/// An unsigned program address.
pub type Elf32_Addr = u32;

/// An unsigned medium integer.
pub type Elf32_Half = u16;

/// An unsigned file offset.
pub type Elf32_Off = u32;

/// A signed large integer.
pub type Elf32_Sword = i32;

/// An unsigned large integer.
pub type Elf32_Word = u32;

/// The four bytes that every ELF file starts with.
pub open spec fn elfmag() -> Seq<u8> {
    seq![0x7fu8, 0x45u8, 0x4cu8, 0x46u8]
}

/// The ELF file header.
#[derive(Copy, Clone, Debug, PartialEq, Eq)]
pub struct Elf32_Ehdr {
    /// The identification bytes.
    pub e_ident: [u8; 16],
    /// The object file type.
    pub e_type: Elf32_Half,
    /// The required architecture.
    pub e_machine: Elf32_Half,
    /// The object file version.
    pub e_version: Elf32_Word,
    /// The entry point, or zero.
    pub e_entry: Elf32_Addr,
    /// The file offset of the program header table.
    pub e_phoff: Elf32_Off,
    /// The file offset of the section header table.
    pub e_shoff: Elf32_Off,
    /// Processor-specific flags.
    pub e_flags: Elf32_Word,
    /// The size of this header.
    pub e_ehsize: Elf32_Half,
    /// The size of a program header table entry.
    pub e_phentsize: Elf32_Half,
    /// The number of program header table entries.
    pub e_phnum: Elf32_Half,
    /// The size of a section header.
    pub e_shentsize: Elf32_Half,
    /// The number of section headers.
    pub e_shnum: Elf32_Half,
    /// The index of the section name string table.
    pub e_shstrndx: Elf32_Half,
}

/// A section header.
#[derive(Copy, Clone, Debug, PartialEq, Eq)]
pub struct Elf32_Shdr {
    /// The name, as an index into the section name string table.
    pub sh_name: Elf32_Word,
    /// The section type.
    pub sh_type: Elf32_Word,
    /// Attribute flags.
    pub sh_flags: Elf32_Word,
    /// The address in memory, or zero.
    pub sh_addr: Elf32_Addr,
    /// The file offset of the contents.
    pub sh_offset: Elf32_Off,
    /// The size of the contents.
    pub sh_size: Elf32_Word,
    /// A section index, by type.
    pub sh_link: Elf32_Word,
    /// Extra information, by type.
    pub sh_info: Elf32_Word,
    /// The alignment.
    pub sh_addralign: Elf32_Word,
    /// The size of an entry, for tables.
    pub sh_entsize: Elf32_Word,
}

/// A symbol table entry.
#[derive(Copy, Clone, Debug, PartialEq, Eq)]
pub struct Elf32_Sym {
    /// The name, as an index into the symbol string table.
    pub st_name: Elf32_Word,
    /// The value.
    pub st_value: Elf32_Addr,
    /// The size.
    pub st_size: Elf32_Word,
    /// Binding and type.
    pub st_info: u8,
    /// Unused.
    pub st_other: u8,
    /// The index of the section that the symbol is defined in.
    pub st_shndx: Elf32_Half,
}

/// A relocation entry without addend.
#[derive(Copy, Clone, Debug, PartialEq, Eq)]
pub struct Elf32_Rel {
    /// Where to relocate.
    pub r_offset: Elf32_Addr,
    /// Symbol index and relocation type.
    pub r_info: Elf32_Word,
}

/// A relocation entry with addend.
#[derive(Copy, Clone, Debug, PartialEq, Eq)]
pub struct Elf32_Rela {
    /// Where to relocate.
    pub r_offset: Elf32_Addr,
    /// Symbol index and relocation type.
    pub r_info: Elf32_Word,
    /// The addend.
    pub r_addend: Elf32_Sword,
}

/// A program header table entry.
#[derive(Copy, Clone, Debug, PartialEq, Eq)]
pub struct Elf32_Phdr {
    /// The segment type.
    pub p_type: Elf32_Word,
    /// The file offset of the segment.
    pub p_offset: Elf32_Off,
    /// The virtual address.
    pub p_vaddr: Elf32_Addr,
    /// The physical address.
    pub p_paddr: Elf32_Addr,
    /// The size in the file.
    pub p_filesz: Elf32_Word,
    /// The size in memory.
    pub p_memsz: Elf32_Word,
    /// Flags.
    pub p_flags: Elf32_Word,
    /// The alignment.
    pub p_align: Elf32_Word,
}

/// File types, as the `e_type` field of the file header holds them.
#[derive(Copy, Clone, Debug, PartialEq, Eq, Structural)]
pub enum ET {
    /// No file type.
    ET_NONE,
    /// Relocatable file.
    ET_REL,
    /// Executable file.
    ET_EXEC,
    /// Shared object file.
    ET_DYN,
    /// Core file.
    ET_CORE,
}

impl ET {
    /// The number that stands for this variant in a file.
    pub open spec fn value_spec(self) -> u16 {
        match self {
            ET::ET_NONE => 0x0,
            ET::ET_REL => 0x1,
            ET::ET_EXEC => 0x2,
            ET::ET_DYN => 0x3,
            ET::ET_CORE => 0x4,
        }
    }

    /// The number that stands for this variant in a file.
    pub fn value(self) -> (r: u16)
        ensures
            r == self.value_spec(),
    {
        match self {
            ET::ET_NONE => 0x0,
            ET::ET_REL => 0x1,
            ET::ET_EXEC => 0x2,
            ET::ET_DYN => 0x3,
            ET::ET_CORE => 0x4,
        }
    }

    /// The variant that `v` stands for, if there is one.
    pub fn from_u16(v: u16) -> (r: Option<ET>)
        ensures
            r matches Some(x) ==> x.value_spec() == v,
            r.is_none() ==> forall|x: ET| x.value_spec() != v,
    {
        if v == 0x0 {
            Some(ET::ET_NONE)
        } else if v == 0x1 {
            Some(ET::ET_REL)
        } else if v == 0x2 {
            Some(ET::ET_EXEC)
        } else if v == 0x3 {
            Some(ET::ET_DYN)
        } else if v == 0x4 {
            Some(ET::ET_CORE)
        } else {
            None
        }
    }
}

/// Machine architectures, as the `e_machine` field holds them.
#[derive(Copy, Clone, Debug, PartialEq, Eq, Structural)]
pub enum EM {
    /// No machine.
    EM_NONE,
    /// AT&T WE 32100.
    EM_M32,
    /// SPARC.
    EM_SPARC,
    /// Intel 80386.
    EM_386,
    /// Motorola 68000.
    EM_68K,
    /// Motorola 88000.
    EM_88K,
    /// Intel 80860.
    EM_860,
    /// MIPS RS3000.
    EM_MIPS,
}

impl EM {
    /// The number that stands for this variant in a file.
    pub open spec fn value_spec(self) -> u16 {
        match self {
            EM::EM_NONE => 0x0,
            EM::EM_M32 => 0x1,
            EM::EM_SPARC => 0x2,
            EM::EM_386 => 0x3,
            EM::EM_68K => 0x4,
            EM::EM_88K => 0x5,
            EM::EM_860 => 0x7,
            EM::EM_MIPS => 0x8,
        }
    }

    /// The number that stands for this variant in a file.
    pub fn value(self) -> (r: u16)
        ensures
            r == self.value_spec(),
    {
        match self {
            EM::EM_NONE => 0x0,
            EM::EM_M32 => 0x1,
            EM::EM_SPARC => 0x2,
            EM::EM_386 => 0x3,
            EM::EM_68K => 0x4,
            EM::EM_88K => 0x5,
            EM::EM_860 => 0x7,
            EM::EM_MIPS => 0x8,
        }
    }

    /// The variant that `v` stands for, if there is one.
    pub fn from_u16(v: u16) -> (r: Option<EM>)
        ensures
            r matches Some(x) ==> x.value_spec() == v,
            r.is_none() ==> forall|x: EM| x.value_spec() != v,
    {
        if v == 0x0 {
            Some(EM::EM_NONE)
        } else if v == 0x1 {
            Some(EM::EM_M32)
        } else if v == 0x2 {
            Some(EM::EM_SPARC)
        } else if v == 0x3 {
            Some(EM::EM_386)
        } else if v == 0x4 {
            Some(EM::EM_68K)
        } else if v == 0x5 {
            Some(EM::EM_88K)
        } else if v == 0x7 {
            Some(EM::EM_860)
        } else if v == 0x8 {
            Some(EM::EM_MIPS)
        } else {
            None
        }
    }
}

/// Object file versions.
#[derive(Copy, Clone, Debug, PartialEq, Eq, Structural)]
pub enum EV {
    /// Invalid version.
    EV_NONE,
    /// Current version.
    EV_CURRENT,
}

impl EV {
    /// The number that stands for this variant in a file.
    pub open spec fn value_spec(self) -> u32 {
        match self {
            EV::EV_NONE => 0x0,
            EV::EV_CURRENT => 0x1,
        }
    }

    /// The number that stands for this variant in a file.
    pub fn value(self) -> (r: u32)
        ensures
            r == self.value_spec(),
    {
        match self {
            EV::EV_NONE => 0x0,
            EV::EV_CURRENT => 0x1,
        }
    }

    /// The variant that `v` stands for, if there is one.
    pub fn from_u32(v: u32) -> (r: Option<EV>)
        ensures
            r matches Some(x) ==> x.value_spec() == v,
            r.is_none() ==> forall|x: EV| x.value_spec() != v,
    {
        if v == 0x0 {
            Some(EV::EV_NONE)
        } else if v == 0x1 {
            Some(EV::EV_CURRENT)
        } else {
            None
        }
    }
}

/// Indices into the identification bytes `e_ident`.
#[derive(Copy, Clone, Debug, PartialEq, Eq, Structural)]
pub enum EI {
    /// File identification.
    EI_MAG0,
    /// File identification.
    EI_MAG1,
    /// File identification.
    EI_MAG2,
    /// File identification.
    EI_MAG3,
    /// File class.
    EI_CLASS,
    /// Data encoding.
    EI_DATA,
    /// File version.
    EI_VERSION,
    /// Start of padding bytes.
    EI_PAD,
    /// Size of `e_ident`.
    EI_NIDENT,
}

impl EI {
    /// The number that stands for this variant in a file.
    pub open spec fn value_spec(self) -> u8 {
        match self {
            EI::EI_MAG0 => 0x0,
            EI::EI_MAG1 => 0x1,
            EI::EI_MAG2 => 0x2,
            EI::EI_MAG3 => 0x3,
            EI::EI_CLASS => 0x4,
            EI::EI_DATA => 0x5,
            EI::EI_VERSION => 0x6,
            EI::EI_PAD => 0x7,
            EI::EI_NIDENT => 0x10,
        }
    }

    /// The number that stands for this variant in a file.
    pub fn value(self) -> (r: u8)
        ensures
            r == self.value_spec(),
    {
        match self {
            EI::EI_MAG0 => 0x0,
            EI::EI_MAG1 => 0x1,
            EI::EI_MAG2 => 0x2,
            EI::EI_MAG3 => 0x3,
            EI::EI_CLASS => 0x4,
            EI::EI_DATA => 0x5,
            EI::EI_VERSION => 0x6,
            EI::EI_PAD => 0x7,
            EI::EI_NIDENT => 0x10,
        }
    }

    /// The variant that `v` stands for, if there is one.
    pub fn from_u8(v: u8) -> (r: Option<EI>)
        ensures
            r matches Some(x) ==> x.value_spec() == v,
            r.is_none() ==> forall|x: EI| x.value_spec() != v,
    {
        if v == 0x0 {
            Some(EI::EI_MAG0)
        } else if v == 0x1 {
            Some(EI::EI_MAG1)
        } else if v == 0x2 {
            Some(EI::EI_MAG2)
        } else if v == 0x3 {
            Some(EI::EI_MAG3)
        } else if v == 0x4 {
            Some(EI::EI_CLASS)
        } else if v == 0x5 {
            Some(EI::EI_DATA)
        } else if v == 0x6 {
            Some(EI::EI_VERSION)
        } else if v == 0x7 {
            Some(EI::EI_PAD)
        } else if v == 0x10 {
            Some(EI::EI_NIDENT)
        } else {
            None
        }
    }
}

/// File classes, as `e_ident[EI_CLASS]` holds them.
#[derive(Copy, Clone, Debug, PartialEq, Eq, Structural)]
pub enum ELFCLASS {
    /// Invalid class.
    ELFCLASSNONE,
    /// 32-bit objects.
    ELFCLASS32,
    /// 64-bit objects.
    ELFCLASS64,
}

impl ELFCLASS {
    /// The number that stands for this variant in a file.
    pub open spec fn value_spec(self) -> u8 {
        match self {
            ELFCLASS::ELFCLASSNONE => 0x0,
            ELFCLASS::ELFCLASS32 => 0x1,
            ELFCLASS::ELFCLASS64 => 0x2,
        }
    }

    /// The number that stands for this variant in a file.
    pub fn value(self) -> (r: u8)
        ensures
            r == self.value_spec(),
    {
        match self {
            ELFCLASS::ELFCLASSNONE => 0x0,
            ELFCLASS::ELFCLASS32 => 0x1,
            ELFCLASS::ELFCLASS64 => 0x2,
        }
    }

    /// The variant that `v` stands for, if there is one.
    pub fn from_u8(v: u8) -> (r: Option<ELFCLASS>)
        ensures
            r matches Some(x) ==> x.value_spec() == v,
            r.is_none() ==> forall|x: ELFCLASS| x.value_spec() != v,
    {
        if v == 0x0 {
            Some(ELFCLASS::ELFCLASSNONE)
        } else if v == 0x1 {
            Some(ELFCLASS::ELFCLASS32)
        } else if v == 0x2 {
            Some(ELFCLASS::ELFCLASS64)
        } else {
            None
        }
    }
}

/// Data encodings, as `e_ident[EI_DATA]` holds them.
#[derive(Copy, Clone, Debug, PartialEq, Eq, Structural)]
pub enum ELFDATA {
    /// Invalid data encoding.
    ELFDATANONE,
    /// Little-endian.
    ELFDATA2LSB,
    /// Big-endian.
    ELFDATA2MSB,
}

impl ELFDATA {
    /// The number that stands for this variant in a file.
    pub open spec fn value_spec(self) -> u8 {
        match self {
            ELFDATA::ELFDATANONE => 0x0,
            ELFDATA::ELFDATA2LSB => 0x1,
            ELFDATA::ELFDATA2MSB => 0x2,
        }
    }

    /// The number that stands for this variant in a file.
    pub fn value(self) -> (r: u8)
        ensures
            r == self.value_spec(),
    {
        match self {
            ELFDATA::ELFDATANONE => 0x0,
            ELFDATA::ELFDATA2LSB => 0x1,
            ELFDATA::ELFDATA2MSB => 0x2,
        }
    }

    /// The variant that `v` stands for, if there is one.
    pub fn from_u8(v: u8) -> (r: Option<ELFDATA>)
        ensures
            r matches Some(x) ==> x.value_spec() == v,
            r.is_none() ==> forall|x: ELFDATA| x.value_spec() != v,
    {
        if v == 0x0 {
            Some(ELFDATA::ELFDATANONE)
        } else if v == 0x1 {
            Some(ELFDATA::ELFDATA2LSB)
        } else if v == 0x2 {
            Some(ELFDATA::ELFDATA2MSB)
        } else {
            None
        }
    }
}

/// Special section indices.
#[derive(Copy, Clone, Debug, PartialEq, Eq, Structural)]
pub enum SHN {
    /// Undefined section.
    SHN_UNDEF,
    /// Lower bound of the reserved indices.
    SHN_LORESERVE,
    /// Upper bound of the processor-specific indices.
    SHN_HIPROC,
    /// Absolute values.
    SHN_ABS,
    /// Common symbols.
    SHN_COMMON,
    /// Upper bound of the reserved indices.
    SHN_HIRESERVE,
}

impl SHN {
    /// The number that stands for this variant in a file.
    pub open spec fn value_spec(self) -> u16 {
        match self {
            SHN::SHN_UNDEF => 0x0,
            SHN::SHN_LORESERVE => 0xff00,
            SHN::SHN_HIPROC => 0xff1f,
            SHN::SHN_ABS => 0xfff1,
            SHN::SHN_COMMON => 0xfff2,
            SHN::SHN_HIRESERVE => 0xffff,
        }
    }

    /// The number that stands for this variant in a file.
    pub fn value(self) -> (r: u16)
        ensures
            r == self.value_spec(),
    {
        match self {
            SHN::SHN_UNDEF => 0x0,
            SHN::SHN_LORESERVE => 0xff00,
            SHN::SHN_HIPROC => 0xff1f,
            SHN::SHN_ABS => 0xfff1,
            SHN::SHN_COMMON => 0xfff2,
            SHN::SHN_HIRESERVE => 0xffff,
        }
    }

    /// The variant that `v` stands for, if there is one.
    pub fn from_u16(v: u16) -> (r: Option<SHN>)
        ensures
            r matches Some(x) ==> x.value_spec() == v,
            r.is_none() ==> forall|x: SHN| x.value_spec() != v,
    {
        if v == 0x0 {
            Some(SHN::SHN_UNDEF)
        } else if v == 0xff00 {
            Some(SHN::SHN_LORESERVE)
        } else if v == 0xff1f {
            Some(SHN::SHN_HIPROC)
        } else if v == 0xfff1 {
            Some(SHN::SHN_ABS)
        } else if v == 0xfff2 {
            Some(SHN::SHN_COMMON)
        } else if v == 0xffff {
            Some(SHN::SHN_HIRESERVE)
        } else {
            None
        }
    }
}

/// Section types, as the `sh_type` field holds them.
#[derive(Copy, Clone, Debug, PartialEq, Eq, Structural)]
pub enum SHT {
    /// Inactive header.
    SHT_NULL,
    /// Program-defined contents.
    SHT_PROGBITS,
    /// Symbol table.
    SHT_SYMTAB,
    /// String table.
    SHT_STRTAB,
    /// Relocations with addends.
    SHT_RELA,
    /// Symbol hash table.
    SHT_HASH,
    /// Dynamic linking information.
    SHT_DYNAMIC,
    /// Notes.
    SHT_NOTE,
    /// Occupies no file space.
    SHT_NOBITS,
    /// Relocations without addends.
    SHT_REL,
    /// Reserved.
    SHT_SHLIB,
    /// Dynamic linking symbols.
    SHT_DYNSYM,
    /// Lower bound of the processor-specific types.
    SHT_LOPROC,
    /// Upper bound of the processor-specific types.
    SHT_HIPROC,
    /// Lower bound of the application types.
    SHT_LOUSER,
    /// Upper bound of the application types.
    SHT_HIUSER,
}

impl SHT {
    /// The number that stands for this variant in a file.
    pub open spec fn value_spec(self) -> u32 {
        match self {
            SHT::SHT_NULL => 0x0,
            SHT::SHT_PROGBITS => 0x1,
            SHT::SHT_SYMTAB => 0x2,
            SHT::SHT_STRTAB => 0x3,
            SHT::SHT_RELA => 0x4,
            SHT::SHT_HASH => 0x5,
            SHT::SHT_DYNAMIC => 0x6,
            SHT::SHT_NOTE => 0x7,
            SHT::SHT_NOBITS => 0x8,
            SHT::SHT_REL => 0x9,
            SHT::SHT_SHLIB => 0xa,
            SHT::SHT_DYNSYM => 0xb,
            SHT::SHT_LOPROC => 0x70000000,
            SHT::SHT_HIPROC => 0x7fffffff,
            SHT::SHT_LOUSER => 0x80000000,
            SHT::SHT_HIUSER => 0x8fffffff,
        }
    }

    /// The number that stands for this variant in a file.
    pub fn value(self) -> (r: u32)
        ensures
            r == self.value_spec(),
    {
        match self {
            SHT::SHT_NULL => 0x0,
            SHT::SHT_PROGBITS => 0x1,
            SHT::SHT_SYMTAB => 0x2,
            SHT::SHT_STRTAB => 0x3,
            SHT::SHT_RELA => 0x4,
            SHT::SHT_HASH => 0x5,
            SHT::SHT_DYNAMIC => 0x6,
            SHT::SHT_NOTE => 0x7,
            SHT::SHT_NOBITS => 0x8,
            SHT::SHT_REL => 0x9,
            SHT::SHT_SHLIB => 0xa,
            SHT::SHT_DYNSYM => 0xb,
            SHT::SHT_LOPROC => 0x70000000,
            SHT::SHT_HIPROC => 0x7fffffff,
            SHT::SHT_LOUSER => 0x80000000,
            SHT::SHT_HIUSER => 0x8fffffff,
        }
    }

    /// The variant that `v` stands for, if there is one.
    pub fn from_u32(v: u32) -> (r: Option<SHT>)
        ensures
            r matches Some(x) ==> x.value_spec() == v,
            r.is_none() ==> forall|x: SHT| x.value_spec() != v,
    {
        if v == 0x0 {
            Some(SHT::SHT_NULL)
        } else if v == 0x1 {
            Some(SHT::SHT_PROGBITS)
        } else if v == 0x2 {
            Some(SHT::SHT_SYMTAB)
        } else if v == 0x3 {
            Some(SHT::SHT_STRTAB)
        } else if v == 0x4 {
            Some(SHT::SHT_RELA)
        } else if v == 0x5 {
            Some(SHT::SHT_HASH)
        } else if v == 0x6 {
            Some(SHT::SHT_DYNAMIC)
        } else if v == 0x7 {
            Some(SHT::SHT_NOTE)
        } else if v == 0x8 {
            Some(SHT::SHT_NOBITS)
        } else if v == 0x9 {
            Some(SHT::SHT_REL)
        } else if v == 0xa {
            Some(SHT::SHT_SHLIB)
        } else if v == 0xb {
            Some(SHT::SHT_DYNSYM)
        } else if v == 0x70000000 {
            Some(SHT::SHT_LOPROC)
        } else if v == 0x7fffffff {
            Some(SHT::SHT_HIPROC)
        } else if v == 0x80000000 {
            Some(SHT::SHT_LOUSER)
        } else if v == 0x8fffffff {
            Some(SHT::SHT_HIUSER)
        } else {
            None
        }
    }
}

/// Section attribute flags.
#[derive(Copy, Clone, Debug, PartialEq, Eq, Structural)]
pub enum SHF {
    /// Writable during execution.
    SHF_WRITE,
    /// Occupies memory during execution.
    SHF_ALLOC,
    /// Executable instructions.
    SHF_EXECINSTR,
    /// Processor-specific bits.
    SHF_MASKPROC,
}

impl SHF {
    /// The number that stands for this variant in a file.
    pub open spec fn value_spec(self) -> u32 {
        match self {
            SHF::SHF_WRITE => 0x1,
            SHF::SHF_ALLOC => 0x2,
            SHF::SHF_EXECINSTR => 0x4,
            SHF::SHF_MASKPROC => 0xf0000000,
        }
    }

    /// The number that stands for this variant in a file.
    pub fn value(self) -> (r: u32)
        ensures
            r == self.value_spec(),
    {
        match self {
            SHF::SHF_WRITE => 0x1,
            SHF::SHF_ALLOC => 0x2,
            SHF::SHF_EXECINSTR => 0x4,
            SHF::SHF_MASKPROC => 0xf0000000,
        }
    }

    /// The variant that `v` stands for, if there is one.
    pub fn from_u32(v: u32) -> (r: Option<SHF>)
        ensures
            r matches Some(x) ==> x.value_spec() == v,
            r.is_none() ==> forall|x: SHF| x.value_spec() != v,
    {
        if v == 0x1 {
            Some(SHF::SHF_WRITE)
        } else if v == 0x2 {
            Some(SHF::SHF_ALLOC)
        } else if v == 0x4 {
            Some(SHF::SHF_EXECINSTR)
        } else if v == 0xf0000000 {
            Some(SHF::SHF_MASKPROC)
        } else {
            None
        }
    }
}

/// Symbol bindings.
#[derive(Copy, Clone, Debug, PartialEq, Eq, Structural)]
pub enum STB {
    /// Local symbol.
    STB_LOCAL,
    /// Global symbol.
    STB_GLOBAL,
    /// Weak symbol.
    STB_WEAK,
    /// Lower bound of the processor-specific bindings.
    STB_LOPROC,
    /// Upper bound of the processor-specific bindings.
    STB_HIPROC,
}

impl STB {
    /// The number that stands for this variant in a file.
    pub open spec fn value_spec(self) -> u8 {
        match self {
            STB::STB_LOCAL => 0x0,
            STB::STB_GLOBAL => 0x1,
            STB::STB_WEAK => 0x2,
            STB::STB_LOPROC => 0xd,
            STB::STB_HIPROC => 0xf,
        }
    }

    /// The number that stands for this variant in a file.
    pub fn value(self) -> (r: u8)
        ensures
            r == self.value_spec(),
    {
        match self {
            STB::STB_LOCAL => 0x0,
            STB::STB_GLOBAL => 0x1,
            STB::STB_WEAK => 0x2,
            STB::STB_LOPROC => 0xd,
            STB::STB_HIPROC => 0xf,
        }
    }

    /// The variant that `v` stands for, if there is one.
    pub fn from_u8(v: u8) -> (r: Option<STB>)
        ensures
            r matches Some(x) ==> x.value_spec() == v,
            r.is_none() ==> forall|x: STB| x.value_spec() != v,
    {
        if v == 0x0 {
            Some(STB::STB_LOCAL)
        } else if v == 0x1 {
            Some(STB::STB_GLOBAL)
        } else if v == 0x2 {
            Some(STB::STB_WEAK)
        } else if v == 0xd {
            Some(STB::STB_LOPROC)
        } else if v == 0xf {
            Some(STB::STB_HIPROC)
        } else {
            None
        }
    }
}

/// Symbol types.
#[derive(Copy, Clone, Debug, PartialEq, Eq, Structural)]
pub enum STT {
    /// Unspecified type.
    STT_NOTYPE,
    /// Data object.
    STT_OBJECT,
    /// Function.
    STT_FUNC,
    /// Section.
    STT_SECTION,
    /// Source file.
    STT_FILE,
    /// Lower bound of the processor-specific types.
    STT_LOPROC,
    /// Upper bound of the processor-specific types.
    STT_HIPROC,
}

impl STT {
    /// The number that stands for this variant in a file.
    pub open spec fn value_spec(self) -> u8 {
        match self {
            STT::STT_NOTYPE => 0x0,
            STT::STT_OBJECT => 0x1,
            STT::STT_FUNC => 0x2,
            STT::STT_SECTION => 0x3,
            STT::STT_FILE => 0x4,
            STT::STT_LOPROC => 0xd,
            STT::STT_HIPROC => 0xf,
        }
    }

    /// The number that stands for this variant in a file.
    pub fn value(self) -> (r: u8)
        ensures
            r == self.value_spec(),
    {
        match self {
            STT::STT_NOTYPE => 0x0,
            STT::STT_OBJECT => 0x1,
            STT::STT_FUNC => 0x2,
            STT::STT_SECTION => 0x3,
            STT::STT_FILE => 0x4,
            STT::STT_LOPROC => 0xd,
            STT::STT_HIPROC => 0xf,
        }
    }

    /// The variant that `v` stands for, if there is one.
    pub fn from_u8(v: u8) -> (r: Option<STT>)
        ensures
            r matches Some(x) ==> x.value_spec() == v,
            r.is_none() ==> forall|x: STT| x.value_spec() != v,
    {
        if v == 0x0 {
            Some(STT::STT_NOTYPE)
        } else if v == 0x1 {
            Some(STT::STT_OBJECT)
        } else if v == 0x2 {
            Some(STT::STT_FUNC)
        } else if v == 0x3 {
            Some(STT::STT_SECTION)
        } else if v == 0x4 {
            Some(STT::STT_FILE)
        } else if v == 0xd {
            Some(STT::STT_LOPROC)
        } else if v == 0xf {
            Some(STT::STT_HIPROC)
        } else {
            None
        }
    }
}

/// Segment types, as the `p_type` field holds them.
#[derive(Copy, Clone, Debug, PartialEq, Eq, Structural)]
pub enum PT {
    /// Unused entry.
    PT_NULL,
    /// Loadable segment.
    PT_LOAD,
    /// Dynamic linking information.
    PT_DYNAMIC,
    /// Interpreter path.
    PT_INTERP,
    /// Auxiliary information.
    PT_NOTE,
    /// Reserved.
    PT_SHLIB,
    /// The program header table itself.
    PT_PHDR,
    /// Lower bound of the processor-specific types.
    PT_LOPROC,
    /// Upper bound of the processor-specific types.
    PT_HIPROC,
}

impl PT {
    /// The number that stands for this variant in a file.
    pub open spec fn value_spec(self) -> u32 {
        match self {
            PT::PT_NULL => 0x0,
            PT::PT_LOAD => 0x1,
            PT::PT_DYNAMIC => 0x2,
            PT::PT_INTERP => 0x3,
            PT::PT_NOTE => 0x4,
            PT::PT_SHLIB => 0x5,
            PT::PT_PHDR => 0x6,
            PT::PT_LOPROC => 0x70000000,
            PT::PT_HIPROC => 0x7fffffff,
        }
    }

    /// The number that stands for this variant in a file.
    pub fn value(self) -> (r: u32)
        ensures
            r == self.value_spec(),
    {
        match self {
            PT::PT_NULL => 0x0,
            PT::PT_LOAD => 0x1,
            PT::PT_DYNAMIC => 0x2,
            PT::PT_INTERP => 0x3,
            PT::PT_NOTE => 0x4,
            PT::PT_SHLIB => 0x5,
            PT::PT_PHDR => 0x6,
            PT::PT_LOPROC => 0x70000000,
            PT::PT_HIPROC => 0x7fffffff,
        }
    }

    /// The variant that `v` stands for, if there is one.
    pub fn from_u32(v: u32) -> (r: Option<PT>)
        ensures
            r matches Some(x) ==> x.value_spec() == v,
            r.is_none() ==> forall|x: PT| x.value_spec() != v,
    {
        if v == 0x0 {
            Some(PT::PT_NULL)
        } else if v == 0x1 {
            Some(PT::PT_LOAD)
        } else if v == 0x2 {
            Some(PT::PT_DYNAMIC)
        } else if v == 0x3 {
            Some(PT::PT_INTERP)
        } else if v == 0x4 {
            Some(PT::PT_NOTE)
        } else if v == 0x5 {
            Some(PT::PT_SHLIB)
        } else if v == 0x6 {
            Some(PT::PT_PHDR)
        } else if v == 0x70000000 {
            Some(PT::PT_LOPROC)
        } else if v == 0x7fffffff {
            Some(PT::PT_HIPROC)
        } else {
            None
        }
    }
}

} // verus!
