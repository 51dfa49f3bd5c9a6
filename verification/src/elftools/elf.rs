//! A logical view of an ELF file, and its loading from a reader.

use vstd::prelude::*;
use crate::elftools::format::{Elf32_Ehdr, EM, ET};
use crate::elftools::reader::{is_ehdr, ElfError, ElfReader};

verus! {

/// An ELF file.
#[derive(Debug)]
pub struct File<'a> {
    /// The type of the file.
    pub typ: FileType,
    /// The data format (endianness).
    pub datafmt: DataFormat,
    /// The machine that the file targets.
    pub mach: Machine,
    /// The entry point address, if there is one.
    pub entry: Option<u32>,
    /// The sections of the file with their names; no name occurs twice.
    pub sects: Vec<(&'a str, Box<Section<'a>>)>,
}

/// The types that an ELF file can have.
#[derive(Copy, Clone, Debug, PartialEq, Eq, Structural)]
pub enum FileType {
    /// The file has no type.
    NoType,
    /// A relocatable file.
    Relocatable,
    /// An executable file.
    Executable,
    /// A shared object file.
    SharedObject,
    /// A core dump.
    Core,
    /// An unknown type, with the number that the file holds for it.
    Unknown(u16),
}

/// The data format (endianness) of a file.
#[derive(Copy, Clone, Debug, PartialEq, Eq, Structural)]
pub enum DataFormat {
    LittleEndian,
    BigEndian,
}

/// The architecture that a file targets.
#[derive(Copy, Clone, Debug, PartialEq, Eq, Structural)]
pub enum Machine {
    /// No machine type specified.
    NoMachine,
    /// AT&T WE 32100.
    WE32100,
    /// SPARC.
    SPARC,
    /// Intel 80386.
    I80386,
    /// Motorola 68000.
    M68000,
    /// Motorola 88000.
    M88000,
    /// Intel 80860.
    I80860,
    /// MIPS RS3000.
    RS3000,
    /// An unknown machine, with the number that the file holds for it.
    Unknown(u16),
}

/// A section of a file.
#[derive(Debug)]
pub struct Section<'a> {
    /// The name of the section, if known: a string of the string table.
    pub name: Option<&'a String>,
    /// The type of the section, with the contents that the type gives it.
    pub typ: SectionType<'a>,
    /// The address of the section, if it is to appear in memory.
    pub addr: Option<u32>,
}

/// The type of a section, with the contents of the section in the form of its type.
#[derive(Debug)]
pub enum SectionType<'a> {
    /// Information whose meaning only the program determines.
    ProgBits(Vec<u8>),
    /// Like `ProgBits`, but without data in the file.
    NoBits,
    /// A string table.
    StrTab(Vec<String>),
    /// A symbol table.
    SymTab(Vec<Symbol<'a>>),
    /// A minimal set of dynamic linking symbols.
    DynSym(Vec<Symbol<'a>>),
    /// Relocation entries with explicit addends.
    Rela(Vec<Relocation>),
    /// Relocation entries without explicit addends.
    Rel(Vec<Relocation>),
    /// An unknown type, with the number that the file holds for it.
    Unknown(u16),
}

/// The section that a symbol is defined in, or one of the special meanings
/// that the format gives to some section indices.
#[derive(Debug)]
pub enum SectionRef<'a> {
    /// An undefined or meaningless section.
    Undefined,
    /// A section of the file.
    Section(&'a Section<'a>),
    /// The symbol has an absolute value.
    Absolute,
    /// The symbol is a common symbol.
    Common,
    /// An invalid reference, with the number that the file holds for it.
    Unknown(u16),
}

/// A symbol.
#[derive(Debug)]
pub struct Symbol<'a> {
    pub name: Option<&'a String>,
    pub value: u32,
    pub size: u32,
    pub info: u8,
    pub sec: SectionRef<'a>,
}

/// A relocation.
#[derive(Copy, Clone, Debug, PartialEq, Eq, Structural)]
pub struct Relocation {
    pub offset: u32,
    pub info: u32,
    pub addend: Option<i32>,
}

/// The file type that the number `t` of a file header stands for.
pub open spec fn file_type_spec(t: u16) -> FileType {
    if t == 0 {
        FileType::NoType
    } else if t == 1 {
        FileType::Relocatable
    } else if t == 2 {
        FileType::Executable
    } else if t == 3 {
        FileType::SharedObject
    } else if t == 4 {
        FileType::Core
    } else {
        FileType::Unknown(t)
    }
}

/// The machine that the number `m` of a file header stands for.
pub open spec fn machine_spec(m: u16) -> Machine {
    if m == 0 {
        Machine::NoMachine
    } else if m == 1 {
        Machine::WE32100
    } else if m == 2 {
        Machine::SPARC
    } else if m == 3 {
        Machine::I80386
    } else if m == 4 {
        Machine::M68000
    } else if m == 5 {
        Machine::M88000
    } else if m == 7 {
        Machine::I80860
    } else if m == 8 {
        Machine::RS3000
    } else {
        Machine::Unknown(m)
    }
}

/// The data format that the identification byte `b` stands for, if any.
pub open spec fn data_format_spec(b: u8) -> Option<DataFormat> {
    if b == 1 {
        Some(DataFormat::LittleEndian)
    } else if b == 2 {
        Some(DataFormat::BigEndian)
    } else {
        None
    }
}

/// The logical view of the file with header `h`: type, data format, machine
/// and entry point as the header gives them, and no sections; or the reason
/// why the header is not accepted.
pub open spec fn describes(h: Elf32_Ehdr, f: File) -> bool {
    &&& f.typ == file_type_spec(h.e_type)
    &&& Some(f.datafmt) == data_format_spec(h.e_ident[5])
    &&& f.mach == machine_spec(h.e_machine)
    &&& f.entry == if h.e_entry == 0 {
        None
    } else {
        Some(h.e_entry)
    }
    &&& f.sects@.len() == 0
}

/// Makes the logical view of a file from its header.
pub fn from_header<'a>(ehdr: &Elf32_Ehdr) -> (r: Result<File<'a>, ElfError>)
    ensures
        data_format_spec(ehdr.e_ident[5]).is_some() ==> r.is_ok() && describes(*ehdr, r.unwrap()),
        data_format_spec(ehdr.e_ident[5]).is_none() ==> r.is_err() && r.unwrap_err()
            == ElfError::UnknownDataFormat,
{
    let typ = match ET::from_u16(ehdr.e_type) {
        Some(ET::ET_NONE) => FileType::NoType,
        Some(ET::ET_REL) => FileType::Relocatable,
        Some(ET::ET_EXEC) => FileType::Executable,
        Some(ET::ET_DYN) => FileType::SharedObject,
        Some(ET::ET_CORE) => FileType::Core,
        None => {
            proof {
                let t = ehdr.e_type;
                assert(ET::ET_NONE.value_spec() != t && ET::ET_REL.value_spec() != t
                    && ET::ET_EXEC.value_spec() != t && ET::ET_DYN.value_spec() != t
                    && ET::ET_CORE.value_spec() != t);
            }
            FileType::Unknown(ehdr.e_type)
        },
    };
    let datafmt = if ehdr.e_ident[5] == 1 {
        DataFormat::LittleEndian
    } else if ehdr.e_ident[5] == 2 {
        DataFormat::BigEndian
    } else {
        return Err(ElfError::UnknownDataFormat);
    };
    let mach = match EM::from_u16(ehdr.e_machine) {
        Some(EM::EM_NONE) => Machine::NoMachine,
        Some(EM::EM_M32) => Machine::WE32100,
        Some(EM::EM_SPARC) => Machine::SPARC,
        Some(EM::EM_386) => Machine::I80386,
        Some(EM::EM_68K) => Machine::M68000,
        Some(EM::EM_88K) => Machine::M88000,
        Some(EM::EM_860) => Machine::I80860,
        Some(EM::EM_MIPS) => Machine::RS3000,
        None => {
            proof {
                let m = ehdr.e_machine;
                assert(EM::EM_NONE.value_spec() != m && EM::EM_M32.value_spec() != m
                    && EM::EM_SPARC.value_spec() != m && EM::EM_386.value_spec() != m
                    && EM::EM_68K.value_spec() != m && EM::EM_88K.value_spec() != m
                    && EM::EM_860.value_spec() != m && EM::EM_MIPS.value_spec() != m);
            }
            Machine::Unknown(ehdr.e_machine)
        },
    };
    let entry = if ehdr.e_entry == 0 {
        None
    } else {
        Some(ehdr.e_entry)
    };
    Ok(File { typ: typ, datafmt: datafmt, mach: mach, entry: entry, sects: Vec::new() })
}

impl<'a> File<'a> {
    /// Loads the logical view of the file behind the reader: its header is
    /// read, and type, data format, machine and entry point are taken from it.
    pub fn load(r: &mut ElfReader) -> (res: Result<File<'a>, ElfError>)
        ensures
            final(r).data() == old(r).data(),
            final(r).big() == old(r).big(),
            old(r).data().len() < 52 ==> res.is_err() && res.unwrap_err() == ElfError::EndOfFile,
            old(r).data().len() >= 52 && data_format_spec(old(r).data()[5]).is_none()
                ==> res.is_err() && res.unwrap_err() == ElfError::UnknownDataFormat,
            old(r).data().len() >= 52 && data_format_spec(old(r).data()[5]).is_some()
                ==> res.is_ok() && exists|h: Elf32_Ehdr|
                is_ehdr(h, old(r).data(), 0, old(r).big()) && describes(h, res.unwrap()),
    {
        let ehdr = match r.ehdr() {
            Ok(h) => h,
            Err(e) => {
                return Err(e);
            },
        };
        assert(ehdr.e_ident@[5] == old(r).data().subrange(0, 16)[5]);
        from_header(&ehdr)
    }
}

} // verus!
