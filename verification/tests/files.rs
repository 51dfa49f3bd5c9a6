use cray::asm68k::parser::{whitespace, Input, Parser};
use cray::elftools::elf::{from_header, DataFormat, File, FileType, Machine};
use cray::elftools::format::{
    Elf32_Ehdr, EI, ELFCLASS, ELFDATA, EM, ET, EV, PT, SHF, SHN, SHT, STB, STT,
};
use cray::elftools::reader::{ElfError, ElfReader, EndianReader, Source};

fn header(data: u8) -> Vec<u8> {
    let mut b = vec![0x7f, b'E', b'L', b'F', 1, data, 1, 0, 0, 0, 0, 0, 0, 0, 0, 0];
    let half = |b: &mut Vec<u8>, x: u16| {
        if data == 2 {
            b.extend_from_slice(&x.to_be_bytes());
        } else {
            b.extend_from_slice(&x.to_le_bytes());
        }
    };
    let word = |b: &mut Vec<u8>, x: u32| {
        if data == 2 {
            b.extend_from_slice(&x.to_be_bytes());
        } else {
            b.extend_from_slice(&x.to_le_bytes());
        }
    };
    half(&mut b, 2); // e_type: executable
    half(&mut b, 4); // e_machine: 68000
    word(&mut b, 1); // e_version
    word(&mut b, 0x8000_1234); // e_entry
    word(&mut b, 52); // e_phoff
    word(&mut b, 0x1000); // e_shoff
    word(&mut b, 0); // e_flags
    half(&mut b, 52); // e_ehsize
    half(&mut b, 32); // e_phentsize
    half(&mut b, 1); // e_phnum
    half(&mut b, 40); // e_shentsize
    half(&mut b, 3); // e_shnum
    half(&mut b, 2); // e_shstrndx
    b
}

fn source(data: Vec<u8>) -> Source {
    Source { data: data, pos: 0 }
}

#[test]
fn reader_checks_identification() {
    assert!(ElfReader::new(source(header(1))).is_ok());
    assert!(ElfReader::new(source(header(2))).is_ok());
    assert_eq!(ElfReader::new(source(vec![0x7f, b'E', b'L'])).unwrap_err(), ElfError::EndOfFile);
    let mut bad = header(1);
    bad[1] = b'F';
    assert_eq!(ElfReader::new(source(bad)).unwrap_err(), ElfError::MissingMagic);
    let mut wide = header(1);
    wide[4] = 2;
    assert_eq!(ElfReader::new(source(wide)).unwrap_err(), ElfError::Not32Bit);
    let mut old = header(1);
    old[6] = 0;
    assert_eq!(ElfReader::new(source(old)).unwrap_err(), ElfError::VersionMismatch);
    assert_eq!(ElfReader::new(source(header(0))).unwrap_err(), ElfError::UnknownDataFormat);
    assert_eq!(ElfReader::new(source(header(3))).unwrap_err(), ElfError::UnknownDataFormat);
}

#[test]
fn reader_picks_byte_order_from_identification() {
    match ElfReader::new(source(header(1))).unwrap().back {
        EndianReader::LE(s) => assert_eq!(s.pos, 16),
        _ => panic!("little-endian expected"),
    }
    match ElfReader::new(source(header(2))).unwrap().back {
        EndianReader::BE(_) => {}
        _ => panic!("big-endian expected"),
    }
}

#[test]
fn file_header_is_decoded_in_both_byte_orders() {
    for data in [1u8, 2u8].iter() {
        let mut r = ElfReader::new(source(header(*data))).unwrap();
        let h = r.ehdr().unwrap();
        assert_eq!(&h.e_ident[..7], &[0x7f, b'E', b'L', b'F', 1, *data, 1]);
        assert_eq!(h.e_type, 2);
        assert_eq!(h.e_machine, 4);
        assert_eq!(h.e_version, 1);
        assert_eq!(h.e_entry, 0x8000_1234);
        assert_eq!(h.e_phoff, 52);
        assert_eq!(h.e_shoff, 0x1000);
        assert_eq!(h.e_flags, 0);
        assert_eq!(h.e_ehsize, 52);
        assert_eq!(h.e_phentsize, 32);
        assert_eq!(h.e_phnum, 1);
        assert_eq!(h.e_shentsize, 40);
        assert_eq!(h.e_shnum, 3);
        assert_eq!(h.e_shstrndx, 2);
    }
}

#[test]
fn short_file_has_no_header() {
    let mut bytes = header(1);
    bytes.truncate(51);
    let mut r = ElfReader::new(source(bytes)).unwrap();
    assert_eq!(r.ehdr().unwrap_err(), ElfError::EndOfFile);
    assert_eq!(File::load(&mut r).unwrap_err(), ElfError::EndOfFile);
}

#[test]
fn tables_are_decoded_at_their_offsets() {
    let mut bytes = header(2);
    // a section header at 52
    for x in [1u32, 3, 2, 0x4000, 0x200, 0x30, 0, 0, 4, 0].iter() {
        bytes.extend_from_slice(&x.to_be_bytes());
    }
    // a symbol at 92
    for x in [7u32, 0x4010, 8].iter() {
        bytes.extend_from_slice(&x.to_be_bytes());
    }
    bytes.extend_from_slice(&[0x12, 0, 0xff, 0xf1]);
    // a relocation with addend at 108
    bytes.extend_from_slice(&0x4020u32.to_be_bytes());
    bytes.extend_from_slice(&0x0000_0501u32.to_be_bytes());
    bytes.extend_from_slice(&(-8i32).to_be_bytes());
    // a program header at 120
    for x in [1u32, 0, 0x4000, 0x4000, 0x100, 0x180, 5, 0x1000].iter() {
        bytes.extend_from_slice(&x.to_be_bytes());
    }
    let mut r = ElfReader::new(source(bytes)).unwrap();
    let s = r.shdr(52).unwrap();
    assert_eq!((s.sh_name, s.sh_type, s.sh_flags, s.sh_addr), (1, 3, 2, 0x4000));
    assert_eq!((s.sh_offset, s.sh_size, s.sh_link, s.sh_info), (0x200, 0x30, 0, 0));
    assert_eq!((s.sh_addralign, s.sh_entsize), (4, 0));
    let y = r.sym(92).unwrap();
    assert_eq!((y.st_name, y.st_value, y.st_size), (7, 0x4010, 8));
    assert_eq!((y.st_info, y.st_other, y.st_shndx), (0x12, 0, 0xfff1));
    let a = r.rela(108).unwrap();
    assert_eq!((a.r_offset, a.r_info, a.r_addend), (0x4020, 0x501, -8));
    let e = r.rel(108).unwrap();
    assert_eq!((e.r_offset, e.r_info), (0x4020, 0x501));
    let p = r.phdr(120).unwrap();
    assert_eq!((p.p_type, p.p_offset, p.p_vaddr, p.p_paddr), (1, 0, 0x4000, 0x4000));
    assert_eq!((p.p_filesz, p.p_memsz, p.p_flags, p.p_align), (0x100, 0x180, 5, 0x1000));
    assert_eq!(r.phdr(121).unwrap_err(), ElfError::EndOfFile);
    assert_eq!(r.shdr(-1).unwrap_err(), ElfError::InvalidSeek);
    assert_eq!(r.sym(1 << 40).unwrap_err(), ElfError::EndOfFile);
}

#[test]
fn numbers_are_read_in_the_order_of_the_reader() {
    let bytes = vec![0x12, 0x34, 0x56, 0x78, 0xff, 0xfe, 0x80];
    let mut be = EndianReader::BE(source(bytes.clone()));
    assert_eq!(be.read_u32().unwrap(), 0x1234_5678);
    assert_eq!(be.read_i16().unwrap(), -2);
    assert_eq!(be.read_i8().unwrap(), -128);
    assert_eq!(be.read_u8().unwrap_err(), ElfError::EndOfFile);
    let mut le = EndianReader::LE(source(bytes));
    assert_eq!(le.read_u16().unwrap(), 0x3412);
    assert_eq!(le.read_u16().unwrap(), 0x7856);
    assert_eq!(le.read_u32().unwrap_err(), ElfError::EndOfFile);
    assert_eq!(le.read_u16().unwrap(), 0xfeff);
    assert!(le.seek(0).is_ok());
    assert_eq!(le.read_i32().unwrap(), 0x7856_3412);
    assert_eq!(le.seek(-3).unwrap_err(), ElfError::InvalidSeek);
    assert_eq!(le.read_u8().unwrap(), 0xff);
}

#[test]
fn source_reads_bytes() {
    let mut s = source(vec![1, 2, 3, 4, 5]);
    assert_eq!(s.read_u8().unwrap(), 1);
    assert!(s.has(4));
    assert!(!s.has(5));
    assert_eq!(s.read_exact(3).unwrap(), vec![2, 3, 4]);
    assert_eq!(s.read_exact(2).unwrap_err(), ElfError::EndOfFile);
    assert_eq!(s.pos, 4);
    assert_eq!(s.read_exact(0).unwrap(), Vec::<u8>::new());
    assert!(s.seek(9).is_ok());
    assert!(!s.has(0));
    assert_eq!(s.read_u8().unwrap_err(), ElfError::EndOfFile);
}

#[test]
fn file_is_described_by_its_header() {
    let mut r = ElfReader::new(source(header(2))).unwrap();
    let f = File::load(&mut r).unwrap();
    assert_eq!(f.typ, FileType::Executable);
    assert_eq!(f.datafmt, DataFormat::BigEndian);
    assert_eq!(f.mach, Machine::M68000);
    assert_eq!(f.entry, Some(0x8000_1234));
    assert!(f.sects.is_empty());
}

#[test]
fn header_fields_map_to_logical_view() {
    let mut h = Elf32_Ehdr {
        e_ident: [0x7f, b'E', b'L', b'F', 1, 1, 1, 0, 0, 0, 0, 0, 0, 0, 0, 0],
        e_type: 0,
        e_machine: 0,
        e_version: 1,
        e_entry: 0,
        e_phoff: 0,
        e_shoff: 0,
        e_flags: 0,
        e_ehsize: 52,
        e_phentsize: 0,
        e_phnum: 0,
        e_shentsize: 0,
        e_shnum: 0,
        e_shstrndx: 0,
    };
    let f = from_header(&h).unwrap();
    assert_eq!((f.typ, f.datafmt, f.mach, f.entry), (FileType::NoType, DataFormat::LittleEndian, Machine::NoMachine, None));
    let types = [
        FileType::NoType,
        FileType::Relocatable,
        FileType::Executable,
        FileType::SharedObject,
        FileType::Core,
        FileType::Unknown(5),
    ];
    for (t, want) in types.iter().enumerate() {
        h.e_type = t as u16;
        assert_eq!(from_header(&h).unwrap().typ, *want);
    }
    let machines = [
        Machine::NoMachine,
        Machine::WE32100,
        Machine::SPARC,
        Machine::I80386,
        Machine::M68000,
        Machine::M88000,
        Machine::Unknown(6),
        Machine::I80860,
        Machine::RS3000,
        Machine::Unknown(9),
    ];
    for (m, want) in machines.iter().enumerate() {
        h.e_machine = m as u16;
        assert_eq!(from_header(&h).unwrap().mach, *want);
    }
    h.e_ident[5] = 7;
    assert_eq!(from_header(&h).unwrap_err(), ElfError::UnknownDataFormat);
}

#[test]
fn format_numbers_round_trip() {
    assert_eq!(ET::from_u16(3), Some(ET::ET_DYN));
    assert_eq!(ET::from_u16(5), None);
    assert_eq!(EM::from_u16(7), Some(EM::EM_860));
    assert_eq!(EM::from_u16(6), None);
    assert_eq!(EV::from_u32(1), Some(EV::EV_CURRENT));
    assert_eq!(EI::from_u8(16), Some(EI::EI_NIDENT));
    assert_eq!(EI::from_u8(8), None);
    assert_eq!(ELFCLASS::from_u8(1), Some(ELFCLASS::ELFCLASS32));
    assert_eq!(ELFDATA::from_u8(2), Some(ELFDATA::ELFDATA2MSB));
    assert_eq!(SHN::from_u16(0xfff1), Some(SHN::SHN_ABS));
    assert_eq!(SHT::from_u32(0x7000_0000), Some(SHT::SHT_LOPROC));
    assert_eq!(SHT::from_u32(12), None);
    assert_eq!(SHF::from_u32(4), Some(SHF::SHF_EXECINSTR));
    assert_eq!(SHF::from_u32(3), None);
    assert_eq!(STB::from_u8(13), Some(STB::STB_LOPROC));
    assert_eq!(STT::from_u8(4), Some(STT::STT_FILE));
    assert_eq!(PT::from_u32(0x7fff_ffff), Some(PT::PT_HIPROC));
    assert_eq!(EI::EI_DATA.value(), 5);
    assert_eq!(SHT::SHT_HIUSER.value(), 0x8fff_ffff);
    for v in 0..=255u8 {
        if let Some(x) = STT::from_u8(v) {
            assert_eq!(x.value(), v);
        }
    }
}

fn tokens(text: &str) -> Vec<String> {
    let mut p = Parser::new(text.chars().collect());
    let mut out = Vec::new();
    while let Some(t) = p.next() {
        out.push(match t {
            Input::Label(s) => format!("label {}", s),
            Input::Directive(s, a) => format!("directive {} {}", s, a.len()),
        });
    }
    out
}

#[test]
fn labels_and_bare_directives_are_read() {
    assert_eq!(tokens("start: ; entry\n"), vec!["label start"]);
    assert_eq!(tokens("  loop :\tnop ;\n"), vec!["label loop", "directive nop 0"]);
    assert_eq!(tokens("rts;done\nend:x"), vec!["directive rts 0", "label end"]);
    assert_eq!(tokens("; only a comment\n\n  ; and another\na:b"), vec!["label a"]);
}

#[test]
fn other_characters_are_read_one_at_a_time() {
    // after a name and whitespace, a character that is neither `:` nor `;`
    // is read alone as a label
    assert_eq!(tokens("add d0 :"), vec!["label d", "label 0"]);
    assert_eq!(tokens("a b c:\n"), vec!["label b", "label c"]);
}

#[test]
fn input_that_ends_early_has_no_token() {
    assert_eq!(tokens(""), Vec::<String>::new());
    assert_eq!(tokens("   \n\t "), Vec::<String>::new());
    assert_eq!(tokens("name"), Vec::<String>::new());
    assert_eq!(tokens("name   "), Vec::<String>::new());
    assert_eq!(tokens("; unfinished comment"), Vec::<String>::new());
}

#[test]
fn whitespace_is_the_unicode_property() {
    for c in [' ', '\t', '\n', '\r', '\u{b}', '\u{c}', '\u{85}', '\u{a0}', '\u{1680}', '\u{2003}', '\u{2028}', '\u{3000}'].iter() {
        assert!(whitespace(*c));
    }
    for c in ['a', ':', ';', '0', '\u{200b}', '\u{feff}', '\u{0}'].iter() {
        assert!(!whitespace(*c));
    }
    for u in 0..0x3100u32 {
        if let Some(c) = char::from_u32(u) {
            assert_eq!(whitespace(c), c.is_whitespace());
        }
    }
}
