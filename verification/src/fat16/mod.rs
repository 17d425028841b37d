//! The FAT16 file system.

pub mod bpb;
pub mod device;
pub mod direntry;
pub mod file;
pub mod fs;
pub mod impls;
