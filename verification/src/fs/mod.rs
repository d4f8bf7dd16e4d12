//! Filesystems: the working directory, the built-in RAM files, the path
//! layer over them, and readers of FAT32, ext2 and ISO 9660 images.

pub mod cwd;
pub mod ramfs;
pub mod vfs;
pub mod fat32;
pub mod isofs;
pub mod ext2;
