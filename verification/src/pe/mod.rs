//! Portable Executable parsing, rebuilding and image assembly.

pub mod checksum;
pub mod image;
pub mod pe_file;
pub mod reader;

pub use checksum::update_checksum_in_buffer;
pub use image::SaveParameters;
pub use pe_file::{
    DataDirectory, DosHeader, FileHeader, ImageBits, OptionalHeader, PeFile, SectionHeader,
    TlsDirectory,
};
pub use reader::{align_up, section_name, Buf};
