//! The BIOS boot stage.

pub mod ata;
pub mod chainload;
pub mod fs;
pub mod iso;
pub mod kbd;
pub mod laws;
pub mod menu;
pub mod part;
pub mod start;
pub mod vga;
