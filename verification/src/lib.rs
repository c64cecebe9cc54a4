//! Choosable: the decisions behind a bootable multi-image USB drive.

pub mod bpb;
pub mod bytes;
pub mod checks;
pub mod cli;
pub mod commands;
pub mod constants;
pub mod digits;
pub mod disk;
pub mod disk_io;
pub mod disk_layout;
pub mod efi;
pub mod error;
pub mod gpt_search;
pub mod gui;
pub mod host_laws;
pub mod init;
pub mod install_flow;
pub mod install_laws;
pub mod installer;
pub mod kernel;
pub mod layout_laws;
pub mod listing;
pub mod partition_update;
pub mod scan;
pub mod text;
pub mod text_laws;
pub mod ui_laws;
pub mod update_laws;
