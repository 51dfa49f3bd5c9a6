//! Tools for reading ELF files: the structures of the format, a reader that
//! decodes them from bytes, and a logical view of a file.

pub mod assembler;
pub mod elf;
pub mod format;
pub mod reader;
