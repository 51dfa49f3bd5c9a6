//! Decoding of the structures of the format from the bytes of a file.

use vstd::prelude::*;
use crate::elftools::format::{
    elfmag, Elf32_Ehdr, Elf32_Phdr, Elf32_Rel, Elf32_Rela, Elf32_Shdr, Elf32_Sym,
};

verus! {

/// Why a file could not be read.
#[derive(Copy, Clone, Debug, PartialEq, Eq, Structural)]
pub enum ElfError {
    /// The file ends before the data asked for.
    EndOfFile,
    /// A position before the start of the file was asked for.
    InvalidSeek,
    /// The file does not start with the four identification bytes.
    MissingMagic,
    /// The file is not of the 32-bit class.
    Not32Bit,
    /// The file is not of the current version.
    VersionMismatch,
    /// The data encoding of the file is neither little-endian nor big-endian.
    UnknownDataFormat,
}

/// The bytes of a file and a position in them.
#[derive(Debug)]
pub struct Source {
    pub data: Vec<u8>,
    pub pos: usize,
}

/// A source whose numbers are read most significant byte first (`BE`) or
/// least significant byte first (`LE`).
#[derive(Debug)]
pub enum EndianReader {
    BE(Source),
    LE(Source),
}

/// Reads the structures of an ELF file.
#[derive(Debug)]
pub struct ElfReader {
    pub back: EndianReader,
}

/// The size of the file header.
pub const ELF32_EHDR_SIZE: usize = 52;

/// The size of a section header.
pub const ELF32_SHDR_SIZE: usize = 40;

/// The number that `n` bytes of `d` from offset `at` on write, in the byte order given.
pub open spec fn number_at(d: Seq<u8>, at: int, n: nat, big: bool) -> int
    decreases n,
{
    if n == 0 {
        0
    } else if big {
        256 * number_at(d, at, (n - 1) as nat, big) + d[at + n - 1]
    } else {
        d[at] + 256 * number_at(d, at + 1, (n - 1) as nat, big)
    }
}

/// The number that the bit pattern `x` stands for in two's complement,
/// where `half` is the weight of its sign bit.
pub open spec fn signed(x: int, half: int) -> int {
    if x >= half {
        x - 2 * half
    } else {
        x
    }
}

impl Source {
    /// Moves to the position `pos`, counted from the start of the file.
    pub fn seek(&mut self, pos: i64) -> (r: Result<(), ElfError>)
        ensures
            final(self).data == old(self).data,
            0 <= pos <= usize::MAX ==> r.is_ok() && final(self).pos == pos,
            !(0 <= pos <= usize::MAX) ==> r == Err::<(), ElfError>(ElfError::InvalidSeek)
                && final(self).pos == old(self).pos,
    {
        if pos < 0 || pos as u64 > usize::MAX as u64 {
            return Err(ElfError::InvalidSeek);
        }
        self.pos = pos as usize;
        Ok(())
    }

    /// Whether `n` more bytes can be read.
    pub fn has(&self, n: usize) -> (r: bool)
        ensures
            r == (self.pos + n <= self.data.len()),
    {
        self.pos <= self.data.len() && n <= self.data.len() - self.pos
    }

    /// Reads the next byte.
    pub fn read_u8(&mut self) -> (r: Result<u8, ElfError>)
        ensures
            final(self).data == old(self).data,
            old(self).pos < old(self).data.len() ==> r == Ok::<u8, ElfError>(
                old(self).data[old(self).pos as int],
            ) && final(self).pos == old(self).pos + 1,
            old(self).pos >= old(self).data.len() ==> r == Err::<u8, ElfError>(ElfError::EndOfFile)
                && final(self).pos == old(self).pos,
    {
        if self.pos < self.data.len() {
            let b = self.data[self.pos];
            self.pos = self.pos + 1;
            Ok(b)
        } else {
            Err(ElfError::EndOfFile)
        }
    }

    /// Reads the next `n` bytes.
    pub fn read_exact(&mut self, n: usize) -> (r: Result<Vec<u8>, ElfError>)
        ensures
            final(self).data == old(self).data,
            old(self).pos + n <= old(self).data.len() ==> r.is_ok() && r.unwrap()@ == old(
                self,
            ).data@.subrange(old(self).pos as int, old(self).pos + n) && final(self).pos == old(
                self,
            ).pos + n,
            old(self).pos + n > old(self).data.len() ==> r.is_err() && r.unwrap_err()
                == ElfError::EndOfFile && final(self).pos == old(self).pos,
    {
        if !self.has(n) {
            return Err(ElfError::EndOfFile);
        }
        let mut out: Vec<u8> = Vec::new();
        let start = self.pos;
        let mut k: usize = 0;
        while k < n
            invariant
                k <= n,
                start + n <= self.data.len(),
                self.pos == start,
                self.data == old(self).data,
                out@ == self.data@.subrange(start as int, start + k),
            decreases n - k,
        {
            out.push(self.data[start + k]);
            k = k + 1;
            assert(out@ == self.data@.subrange(start as int, start + k));
        }
        self.pos = start + n;
        Ok(out)
    }

    /// Reads a number of `n` bytes, at most four, in the byte order given.
    fn read_number(&mut self, n: usize, big: bool) -> (r: Result<u32, ElfError>)
        requires
            n <= 4,
        ensures
            final(self).data == old(self).data,
            old(self).pos + n <= old(self).data.len() ==> r.is_ok() && r.unwrap() == number_at(
                old(self).data@,
                old(self).pos as int,
                n as nat,
                big,
            ) && final(self).pos == old(self).pos + n,
            old(self).pos + n > old(self).data.len() ==> r.is_err() && r.unwrap_err()
                == ElfError::EndOfFile && final(self).pos == old(self).pos,
            r.is_ok() ==> r.unwrap() < pow256(n as nat),
    {
        if !self.has(n) {
            return Err(ElfError::EndOfFile);
        }
        let start = self.pos;
        let mut x: u64 = 0;
        let mut k: usize = 0;
        if big {
            while k < n
                invariant
                    k <= n <= 4,
                    start + n <= self.data.len(),
                    self.pos == start,
                    self.data == old(self).data,
                    x == number_at(self.data@, start as int, k as nat, true),
                    x < pow256(k as nat),
                decreases n - k,
            {
                x = x * 256 + self.data[start + k] as u64;
                k = k + 1;
            }
        } else {
            while k < n
                invariant
                    k <= n <= 4,
                    start + n <= self.data.len(),
                    self.pos == start,
                    self.data == old(self).data,
                    x == number_at(self.data@, start + n - k, k as nat, false),
                    x < pow256(k as nat),
                decreases n - k,
            {
                x = x * 256 + self.data[start + n - 1 - k] as u64;
                k = k + 1;
            }
        }
        self.pos = start + n;
        Ok(x as u32)
    }
}

/// 256 to the power `k`, for the lengths of numbers that files hold.
pub open spec fn pow256(k: nat) -> int {
    if k == 0 {
        1
    } else if k == 1 {
        0x100
    } else if k == 2 {
        0x1_0000
    } else if k == 3 {
        0x100_0000
    } else {
        0x1_0000_0000
    }
}

impl EndianReader {
    /// The source behind the reader.
    pub open spec fn source(self) -> Source {
        match self {
            EndianReader::BE(s) => s,
            EndianReader::LE(s) => s,
        }
    }

    /// Whether numbers are read most significant byte first.
    pub open spec fn big(self) -> bool {
        self is BE
    }

    /// The reader over the source `s` with the byte order of this reader.
    pub open spec fn with(self, s: Source) -> EndianReader {
        match self {
            EndianReader::BE(_) => EndianReader::BE(s),
            EndianReader::LE(_) => EndianReader::LE(s),
        }
    }

    /// What a read of `n` bytes owes: the number at the position and the
    /// position moved on, or the end of the file and the reader as it was.
    pub open spec fn reads(self, after: EndianReader, n: nat, r: Result<int, ElfError>) -> bool {
        &&& after.big() == self.big()
        &&& after.source().data == self.source().data
        &&& self.source().pos + n <= self.source().data.len() ==> r == Ok::<int, ElfError>(
            number_at(self.source().data@, self.source().pos as int, n, self.big()),
        ) && after.source().pos == self.source().pos + n
        &&& self.source().pos + n > self.source().data.len() ==> r == Err::<int, ElfError>(
            ElfError::EndOfFile,
        ) && after.source().pos == self.source().pos
    }

    fn back(&mut self) -> (r: &mut Source)
        ensures
            *r == old(self).source(),
            *final(self) == old(self).with(*final(r)),
    {
        match self {
            EndianReader::BE(r) => r,
            EndianReader::LE(r) => r,
        }
    }

    fn is_big(&self) -> (r: bool)
        ensures
            r == self.big(),
    {
        match self {
            EndianReader::BE(_) => true,
            EndianReader::LE(_) => false,
        }
    }

    /// Reads an unsigned number of four bytes.
    pub fn read_u32(&mut self) -> (r: Result<u32, ElfError>)
        ensures
            old(self).reads(*final(self), 4, result_int(r)),
    {
        let big = self.is_big();
        self.back().read_number(4, big)
    }

    /// Reads an unsigned number of two bytes.
    pub fn read_u16(&mut self) -> (r: Result<u16, ElfError>)
        ensures
            old(self).reads(*final(self), 2, result_int(r)),
    {
        let big = self.is_big();
        match self.back().read_number(2, big) {
            Ok(x) => Ok(x as u16),
            Err(e) => Err(e),
        }
    }

    /// Reads an unsigned number of one byte.
    pub fn read_u8(&mut self) -> (r: Result<u8, ElfError>)
        ensures
            old(self).reads(*final(self), 1, result_int(r)),
    {
        let big = self.is_big();
        match self.back().read_number(1, big) {
            Ok(x) => Ok(x as u8),
            Err(e) => Err(e),
        }
    }

    /// Moves to the position `pos`, counted from the start of the file.
    pub fn seek(&mut self, pos: i64) -> (r: Result<(), ElfError>)
        ensures
            final(self).big() == old(self).big(),
            final(self).source().data == old(self).source().data,
            0 <= pos <= usize::MAX ==> r.is_ok() && final(self).source().pos == pos,
            !(0 <= pos <= usize::MAX) ==> r == Err::<(), ElfError>(ElfError::InvalidSeek)
                && final(self).source().pos == old(self).source().pos,
    {
        self.back().seek(pos)
    }
}

/// The number in a result, as an integer.
pub open spec fn result_int<T: vstd::prelude::Integer>(r: Result<T, ElfError>) -> Result<
    int,
    ElfError,
> {
    match r {
        Ok(x) => Ok(x as int),
        Err(e) => Err(e),
    }
}


impl EndianReader {
    /// Reads a signed number of four bytes, in two's complement.
    pub fn read_i32(&mut self) -> (r: Result<i32, ElfError>)
        ensures
            old(self).reads(*final(self), 4, unsigned_of(result_int(r), 0x8000_0000)),
    {
        match self.read_u32() {
            Ok(x) => Ok(
                if x >= 0x8000_0000 {
                    (x as i64 - 0x1_0000_0000) as i32
                } else {
                    x as i32
                },
            ),
            Err(e) => Err(e),
        }
    }

    /// Reads a signed number of two bytes, in two's complement.
    pub fn read_i16(&mut self) -> (r: Result<i16, ElfError>)
        ensures
            old(self).reads(*final(self), 2, unsigned_of(result_int(r), 0x8000)),
    {
        match self.read_u16() {
            Ok(x) => Ok(
                if x >= 0x8000 {
                    (x as i32 - 0x1_0000) as i16
                } else {
                    x as i16
                },
            ),
            Err(e) => Err(e),
        }
    }

    /// Reads a signed number of one byte, in two's complement.
    pub fn read_i8(&mut self) -> (r: Result<i8, ElfError>)
        ensures
            old(self).reads(*final(self), 1, unsigned_of(result_int(r), 0x80)),
    {
        match self.read_u8() {
            Ok(x) => Ok(
                if x >= 0x80 {
                    (x as i16 - 0x100) as i8
                } else {
                    x as i8
                },
            ),
            Err(e) => Err(e),
        }
    }
}

/// The bit pattern, as a non-negative number, of the signed number in a result.
pub open spec fn unsigned_of(r: Result<int, ElfError>, half: int) -> Result<int, ElfError> {
    match r {
        Ok(x) => Ok(
            if x < 0 {
                x + 2 * half
            } else {
                x
            },
        ),
        Err(e) => Err(e),
    }
}

/// What the identification bytes at the start of `d` say of the byte order
/// of the file: `Ok(true)` for most significant byte first, `Ok(false)` for
/// least significant byte first, and otherwise why the file is not accepted.
pub open spec fn check_ident(d: Seq<u8>) -> Result<bool, ElfError> {
    if d.len() < 16 {
        Err(ElfError::EndOfFile)
    } else if d.subrange(0, 4) != elfmag() {
        Err(ElfError::MissingMagic)
    } else if d[4] != 1 {
        Err(ElfError::Not32Bit)
    } else if d[6] != 1 {
        Err(ElfError::VersionMismatch)
    } else if d[5] == 1 {
        Ok(false)
    } else if d[5] == 2 {
        Ok(true)
    } else {
        Err(ElfError::UnknownDataFormat)
    }
}

/// The position `at` is one that a reader can move to.
pub open spec fn seekable(at: i64) -> bool {
    0 <= at <= usize::MAX
}

/// `h` is the structure that the 52 bytes of `d` from offset `at` on write.
pub open spec fn is_ehdr(h: Elf32_Ehdr, d: Seq<u8>, at: int, big: bool) -> bool {
    &&& h.e_ident@ == d.subrange(at, at + 16)
    &&& h.e_type == number_at(d, at + 16, 2, big)
    &&& h.e_machine == number_at(d, at + 18, 2, big)
    &&& h.e_version == number_at(d, at + 20, 4, big)
    &&& h.e_entry == number_at(d, at + 24, 4, big)
    &&& h.e_phoff == number_at(d, at + 28, 4, big)
    &&& h.e_shoff == number_at(d, at + 32, 4, big)
    &&& h.e_flags == number_at(d, at + 36, 4, big)
    &&& h.e_ehsize == number_at(d, at + 40, 2, big)
    &&& h.e_phentsize == number_at(d, at + 42, 2, big)
    &&& h.e_phnum == number_at(d, at + 44, 2, big)
    &&& h.e_shentsize == number_at(d, at + 46, 2, big)
    &&& h.e_shnum == number_at(d, at + 48, 2, big)
    &&& h.e_shstrndx == number_at(d, at + 50, 2, big)
}

/// `h` is the structure that the 40 bytes of `d` from offset `at` on write.
pub open spec fn is_shdr(h: Elf32_Shdr, d: Seq<u8>, at: int, big: bool) -> bool {
    &&& h.sh_name == number_at(d, at + 0, 4, big)
    &&& h.sh_type == number_at(d, at + 4, 4, big)
    &&& h.sh_flags == number_at(d, at + 8, 4, big)
    &&& h.sh_addr == number_at(d, at + 12, 4, big)
    &&& h.sh_offset == number_at(d, at + 16, 4, big)
    &&& h.sh_size == number_at(d, at + 20, 4, big)
    &&& h.sh_link == number_at(d, at + 24, 4, big)
    &&& h.sh_info == number_at(d, at + 28, 4, big)
    &&& h.sh_addralign == number_at(d, at + 32, 4, big)
    &&& h.sh_entsize == number_at(d, at + 36, 4, big)
}

/// `h` is the structure that the 16 bytes of `d` from offset `at` on write.
pub open spec fn is_sym(h: Elf32_Sym, d: Seq<u8>, at: int, big: bool) -> bool {
    &&& h.st_name == number_at(d, at + 0, 4, big)
    &&& h.st_value == number_at(d, at + 4, 4, big)
    &&& h.st_size == number_at(d, at + 8, 4, big)
    &&& h.st_info == number_at(d, at + 12, 1, big)
    &&& h.st_other == number_at(d, at + 13, 1, big)
    &&& h.st_shndx == number_at(d, at + 14, 2, big)
}

/// `h` is the structure that the 8 bytes of `d` from offset `at` on write.
pub open spec fn is_rel(h: Elf32_Rel, d: Seq<u8>, at: int, big: bool) -> bool {
    &&& h.r_offset == number_at(d, at + 0, 4, big)
    &&& h.r_info == number_at(d, at + 4, 4, big)
}

/// `h` is the structure that the 12 bytes of `d` from offset `at` on write.
pub open spec fn is_rela(h: Elf32_Rela, d: Seq<u8>, at: int, big: bool) -> bool {
    &&& h.r_offset == number_at(d, at + 0, 4, big)
    &&& h.r_info == number_at(d, at + 4, 4, big)
    &&& h.r_addend == signed(number_at(d, at + 8, 4, big), 0x8000_0000)
}

/// `h` is the structure that the 32 bytes of `d` from offset `at` on write.
pub open spec fn is_phdr(h: Elf32_Phdr, d: Seq<u8>, at: int, big: bool) -> bool {
    &&& h.p_type == number_at(d, at + 0, 4, big)
    &&& h.p_offset == number_at(d, at + 4, 4, big)
    &&& h.p_vaddr == number_at(d, at + 8, 4, big)
    &&& h.p_paddr == number_at(d, at + 12, 4, big)
    &&& h.p_filesz == number_at(d, at + 16, 4, big)
    &&& h.p_memsz == number_at(d, at + 20, 4, big)
    &&& h.p_flags == number_at(d, at + 24, 4, big)
    &&& h.p_align == number_at(d, at + 28, 4, big)
}

impl ElfReader {
    /// The bytes of the file.
    pub open spec fn data(self) -> Seq<u8> {
        self.back.source().data@
    }

    /// The position in the file.
    pub open spec fn pos(self) -> int {
        self.back.source().pos as int
    }

    /// Whether numbers are read most significant byte first.
    pub open spec fn big(self) -> bool {
        self.back.big()
    }

    fn from(back: EndianReader) -> (r: ElfReader)
        ensures
            r.back == back,
    {
        ElfReader { back: back }
    }

    /// Creates a reader over the bytes of a file. The identification bytes
    /// are checked here, since they give the byte order of everything else.
    pub fn new(back: Source) -> (r: Result<ElfReader, ElfError>)
        ensures
            check_ident(back.data@) matches Ok(big) ==> r.is_ok() && r.unwrap().big() == big
                && r.unwrap().data() == back.data@ && r.unwrap().pos() == 16,
            check_ident(back.data@) matches Err(e) ==> r.is_err() && r.unwrap_err() == e,
    {
        let mut back = back;
        let _ = back.seek(0);
        let ident = match back.read_exact(16) {
            Ok(v) => v,
            Err(e) => {
                return Err(e);
            },
        };
        assert(ident@ == back.data@.subrange(0, 16));
        if ident[0] != 0x7f || ident[1] != 0x45 || ident[2] != 0x4c || ident[3] != 0x46 {
            proof {
                let m = back.data@.subrange(0, 4);
                assert(m[0] == back.data@[0] && m[1] == back.data@[1] && m[2] == back.data@[2]
                    && m[3] == back.data@[3]);
                assert(elfmag()[0] == 0x7f && elfmag()[1] == 0x45 && elfmag()[2] == 0x4c
                    && elfmag()[3] == 0x46);
            }
            return Err(ElfError::MissingMagic);
        }
        assert(back.data@.subrange(0, 4) =~= elfmag());
        if ident[4] != 1 {
            return Err(ElfError::Not32Bit);
        }
        if ident[6] != 1 {
            return Err(ElfError::VersionMismatch);
        }
        if ident[5] == 1 {
            Ok(ElfReader::from(EndianReader::LE(back)))
        } else if ident[5] == 2 {
            Ok(ElfReader::from(EndianReader::BE(back)))
        } else {
            Err(ElfError::UnknownDataFormat)
        }
    }

    /// Reads the file header, which stands at the start of the file.
    pub fn ehdr(&mut self) -> (r: Result<Elf32_Ehdr, ElfError>)
        ensures
            final(self).data() == old(self).data(),
            final(self).big() == old(self).big(),
            true && 0int + 52 <= old(self).data().len() ==> r.is_ok() && is_ehdr(r.unwrap(), old(self).data(), 0int, old(self).big()) && final(self).pos() == 0int + 52,
            true && 0int + 52 > old(self).data().len() ==> r.is_err() && r.unwrap_err() == ElfError::EndOfFile && final(self).pos() == 0int,
    {
        match self.back.seek(0) {
            Ok(_) => {},
            Err(e) => {
                return Err(e);
            },
        }
        if !self.has(52) {
            return Err(ElfError::EndOfFile);
        }
        let mut e_ident: [u8; 16] = [0u8; 16];
        let mut i: usize = 0;
        while i < 16
            invariant
                i <= 16,
                self.data() == old(self).data(),
                self.big() == old(self).big(),
                self.pos() == i,
                self.data().len() >= 52,
                forall|k: int| 0 <= k < i ==> e_ident@[k] == self.data()[k],
            decreases 16 - i,
        {
            e_ident[i] = self.byte();
            i = i + 1;
        }
        assert(e_ident@ =~= self.data().subrange(0, 16));
        let e_type = self.half();
        let e_machine = self.half();
        let e_version = self.word();
        let e_entry = self.word();
        let e_phoff = self.word();
        let e_shoff = self.word();
        let e_flags = self.word();
        let e_ehsize = self.half();
        let e_phentsize = self.half();
        let e_phnum = self.half();
        let e_shentsize = self.half();
        let e_shnum = self.half();
        let e_shstrndx = self.half();
        Ok(Elf32_Ehdr { e_ident: e_ident, e_type: e_type, e_machine: e_machine, e_version: e_version, e_entry: e_entry, e_phoff: e_phoff, e_shoff: e_shoff, e_flags: e_flags, e_ehsize: e_ehsize, e_phentsize: e_phentsize, e_phnum: e_phnum, e_shentsize: e_shentsize, e_shnum: e_shnum, e_shstrndx: e_shstrndx })
    }

    /// Reads a section header from the position `at`.
    pub fn shdr(&mut self, at: i64) -> (r: Result<Elf32_Shdr, ElfError>)
        ensures
            final(self).data() == old(self).data(),
            final(self).big() == old(self).big(),
            !seekable(at) ==> r.is_err() && r.unwrap_err() == ElfError::InvalidSeek && final(self).pos() == old(self).pos(),
            seekable(at) && at as int + 40 <= old(self).data().len() ==> r.is_ok() && is_shdr(r.unwrap(), old(self).data(), at as int, old(self).big()) && final(self).pos() == at as int + 40,
            seekable(at) && at as int + 40 > old(self).data().len() ==> r.is_err() && r.unwrap_err() == ElfError::EndOfFile && final(self).pos() == at as int,
    {
        match self.back.seek(at) {
            Ok(_) => {},
            Err(e) => {
                return Err(e);
            },
        }
        if !self.has(40) {
            return Err(ElfError::EndOfFile);
        }
        let sh_name = self.word();
        let sh_type = self.word();
        let sh_flags = self.word();
        let sh_addr = self.word();
        let sh_offset = self.word();
        let sh_size = self.word();
        let sh_link = self.word();
        let sh_info = self.word();
        let sh_addralign = self.word();
        let sh_entsize = self.word();
        Ok(Elf32_Shdr { sh_name: sh_name, sh_type: sh_type, sh_flags: sh_flags, sh_addr: sh_addr, sh_offset: sh_offset, sh_size: sh_size, sh_link: sh_link, sh_info: sh_info, sh_addralign: sh_addralign, sh_entsize: sh_entsize })
    }

    /// Reads a symbol table entry from the position `at`.
    pub fn sym(&mut self, at: i64) -> (r: Result<Elf32_Sym, ElfError>)
        ensures
            final(self).data() == old(self).data(),
            final(self).big() == old(self).big(),
            !seekable(at) ==> r.is_err() && r.unwrap_err() == ElfError::InvalidSeek && final(self).pos() == old(self).pos(),
            seekable(at) && at as int + 16 <= old(self).data().len() ==> r.is_ok() && is_sym(r.unwrap(), old(self).data(), at as int, old(self).big()) && final(self).pos() == at as int + 16,
            seekable(at) && at as int + 16 > old(self).data().len() ==> r.is_err() && r.unwrap_err() == ElfError::EndOfFile && final(self).pos() == at as int,
    {
        match self.back.seek(at) {
            Ok(_) => {},
            Err(e) => {
                return Err(e);
            },
        }
        if !self.has(16) {
            return Err(ElfError::EndOfFile);
        }
        let st_name = self.word();
        let st_value = self.word();
        let st_size = self.word();
        let st_info = self.byte();
        let st_other = self.byte();
        let st_shndx = self.half();
        Ok(Elf32_Sym { st_name: st_name, st_value: st_value, st_size: st_size, st_info: st_info, st_other: st_other, st_shndx: st_shndx })
    }

    /// Reads a relocation entry without addend from the position `at`.
    pub fn rel(&mut self, at: i64) -> (r: Result<Elf32_Rel, ElfError>)
        ensures
            final(self).data() == old(self).data(),
            final(self).big() == old(self).big(),
            !seekable(at) ==> r.is_err() && r.unwrap_err() == ElfError::InvalidSeek && final(self).pos() == old(self).pos(),
            seekable(at) && at as int + 8 <= old(self).data().len() ==> r.is_ok() && is_rel(r.unwrap(), old(self).data(), at as int, old(self).big()) && final(self).pos() == at as int + 8,
            seekable(at) && at as int + 8 > old(self).data().len() ==> r.is_err() && r.unwrap_err() == ElfError::EndOfFile && final(self).pos() == at as int,
    {
        match self.back.seek(at) {
            Ok(_) => {},
            Err(e) => {
                return Err(e);
            },
        }
        if !self.has(8) {
            return Err(ElfError::EndOfFile);
        }
        let r_offset = self.word();
        let r_info = self.word();
        Ok(Elf32_Rel { r_offset: r_offset, r_info: r_info })
    }

    /// Reads a relocation entry with addend from the position `at`.
    pub fn rela(&mut self, at: i64) -> (r: Result<Elf32_Rela, ElfError>)
        ensures
            final(self).data() == old(self).data(),
            final(self).big() == old(self).big(),
            !seekable(at) ==> r.is_err() && r.unwrap_err() == ElfError::InvalidSeek && final(self).pos() == old(self).pos(),
            seekable(at) && at as int + 12 <= old(self).data().len() ==> r.is_ok() && is_rela(r.unwrap(), old(self).data(), at as int, old(self).big()) && final(self).pos() == at as int + 12,
            seekable(at) && at as int + 12 > old(self).data().len() ==> r.is_err() && r.unwrap_err() == ElfError::EndOfFile && final(self).pos() == at as int,
    {
        match self.back.seek(at) {
            Ok(_) => {},
            Err(e) => {
                return Err(e);
            },
        }
        if !self.has(12) {
            return Err(ElfError::EndOfFile);
        }
        let r_offset = self.word();
        let r_info = self.word();
        let r_addend = self.sword();
        Ok(Elf32_Rela { r_offset: r_offset, r_info: r_info, r_addend: r_addend })
    }

    /// Reads a program header table entry from the position `at`.
    pub fn phdr(&mut self, at: i64) -> (r: Result<Elf32_Phdr, ElfError>)
        ensures
            final(self).data() == old(self).data(),
            final(self).big() == old(self).big(),
            !seekable(at) ==> r.is_err() && r.unwrap_err() == ElfError::InvalidSeek && final(self).pos() == old(self).pos(),
            seekable(at) && at as int + 32 <= old(self).data().len() ==> r.is_ok() && is_phdr(r.unwrap(), old(self).data(), at as int, old(self).big()) && final(self).pos() == at as int + 32,
            seekable(at) && at as int + 32 > old(self).data().len() ==> r.is_err() && r.unwrap_err() == ElfError::EndOfFile && final(self).pos() == at as int,
    {
        match self.back.seek(at) {
            Ok(_) => {},
            Err(e) => {
                return Err(e);
            },
        }
        if !self.has(32) {
            return Err(ElfError::EndOfFile);
        }
        let p_type = self.word();
        let p_offset = self.word();
        let p_vaddr = self.word();
        let p_paddr = self.word();
        let p_filesz = self.word();
        let p_memsz = self.word();
        let p_flags = self.word();
        let p_align = self.word();
        Ok(Elf32_Phdr { p_type: p_type, p_offset: p_offset, p_vaddr: p_vaddr, p_paddr: p_paddr, p_filesz: p_filesz, p_memsz: p_memsz, p_flags: p_flags, p_align: p_align })
    }

    fn has(&self, n: usize) -> (r: bool)
        ensures
            r == (self.pos() + n <= self.data().len()),
    {
        match &self.back {
            EndianReader::BE(s) => s.has(n),
            EndianReader::LE(s) => s.has(n),
        }
    }

    fn byte(&mut self) -> (r: u8)
        requires
            old(self).pos() + 1 <= old(self).data().len(),
        ensures
            final(self).data() == old(self).data(),
            final(self).big() == old(self).big(),
            final(self).pos() == old(self).pos() + 1,
            r == number_at(old(self).data(), old(self).pos(), 1, old(self).big()),
            r == old(self).data()[old(self).pos()],
    {
        proof {
            reveal_with_fuel(number_at, 2);
        }
        match self.back.read_u8() {
            Ok(x) => x,
            Err(_) => 0,
        }
    }

    fn half(&mut self) -> (r: u16)
        requires
            old(self).pos() + 2 <= old(self).data().len(),
        ensures
            final(self).data() == old(self).data(),
            final(self).big() == old(self).big(),
            final(self).pos() == old(self).pos() + 2,
            r == number_at(old(self).data(), old(self).pos(), 2, old(self).big()),
    {
        match self.back.read_u16() {
            Ok(x) => x,
            Err(_) => 0,
        }
    }

    fn word(&mut self) -> (r: u32)
        requires
            old(self).pos() + 4 <= old(self).data().len(),
        ensures
            final(self).data() == old(self).data(),
            final(self).big() == old(self).big(),
            final(self).pos() == old(self).pos() + 4,
            r == number_at(old(self).data(), old(self).pos(), 4, old(self).big()),
    {
        match self.back.read_u32() {
            Ok(x) => x,
            Err(_) => 0,
        }
    }

    fn sword(&mut self) -> (r: i32)
        requires
            old(self).pos() + 4 <= old(self).data().len(),
        ensures
            final(self).data() == old(self).data(),
            final(self).big() == old(self).big(),
            final(self).pos() == old(self).pos() + 4,
            r == signed(
                number_at(old(self).data(), old(self).pos(), 4, old(self).big()),
                0x8000_0000,
            ),
    {
        match self.back.read_i32() {
            Ok(x) => x,
            Err(_) => 0,
        }
    }
}

} // verus!
