//! Conversion of NetWare Loadable Modules (NLM) into ELF-32 objects for i386.
//!
//! The crate unpacks compressed NLM images, reads their tables, applies the
//! internal fixups against fixed load addresses and lays the result out as an
//! ELF file.
//!
//! The functions are verified against the contracts they carry. Little-endian
//! words are read and stored with the `byteorder` crate and the ELF file is
//! written with the writer of the `object` crate; what is assumed of these
//! calls is stated in [`endian`] and [`writer`] and not proved. The same
//! holds of the one call of std that [`tables`] makes to decode a name.

pub mod assemble;
pub mod bits;
pub mod elf_format;
pub mod emit;
pub mod endian;
pub mod error;
pub mod fixup;
pub mod header;
pub mod huffman;
pub mod image;
pub mod nlm;
pub mod plan;
pub mod streamer;
pub mod tables;
pub mod unpack;
pub mod writer;
