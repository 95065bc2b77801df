//! Verified core of a chain loader that boots ELF kernels on x86 PCs.
pub mod mem;
pub mod layout;
pub mod dev;
pub mod ios;
pub mod con;
pub mod init;
pub mod mpm;
pub mod svm;
pub mod heap;
pub mod host;
pub mod efi;
pub mod text;
pub mod fs;
pub mod loader;
