//! Storage: block devices, the GUID partition table and the FAT32 file system.
pub mod blkdev;
pub mod fat32;
pub mod gpt;
