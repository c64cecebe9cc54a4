//! The UEFI boot stage.

pub mod boot_context;
pub mod boot_kind;
pub mod boot_stage;
pub mod cfg_laws;
pub mod disk;
pub mod fs;
pub mod iso;
pub mod iso9660;
pub mod iso_fs;
pub mod iso_laws;
pub mod iso_source;
pub mod locator;
pub mod medium_laws;
pub mod output;
pub mod patch_laws;
pub mod premount;
pub mod protocol;
pub mod stage_laws;
pub mod strategy;
pub mod virtual_blockio;
