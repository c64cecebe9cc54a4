//! The early userspace: finding the disk image by the kernel's command line.

pub mod cmdline;
pub mod handover;
pub mod laws;
pub mod mount;
pub mod target;
