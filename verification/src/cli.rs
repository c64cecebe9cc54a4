//! The command line.

use vstd::prelude::*;
use crate::error::Result;
use crate::installer;
use crate::installer::FilesystemType;
use crate::text;
use crate::text::{join2, split_lines, split_words, starts_with, str_eq};

verus! {

/// A command line with a command on it.
pub struct Cli {
    pub command: Commands,
}

pub enum Commands {
    Install {
        disk: String,
        force: bool,
        gpt: bool,
        secure_boot: bool,
        no_secure_boot: bool,
        reserve_space: Option<u64>,
        label: String,
        non_destructive: bool,
        filesystem: String,
        yes: bool,
    },
    Update { disk: String, secure_boot: bool, no_secure_boot: bool, yes: bool },
    List { disk: String },
    ListDisks,
}

/// What a command comes to.
pub enum Request {
    Install {
        disk: String,
        gpt: bool,
        secure_boot: bool,
        reserve_space_mb: u64,
        label: String,
        fs_type: FilesystemType,
        force: bool,
        yes: bool,
    },
    NonDestructive {
        disk: String,
        label: String,
        fs_type: FilesystemType,
        secure_boot: bool,
        yes: bool,
    },
    /// Secure boot stays as it is where nothing was said of it.
    Update { disk: String, secure_boot: Option<bool>, yes: bool },
    List { disk: String },
    ListDisks,
}

/// Secure boot is on unless it was switched off, and not on as well.
pub open spec fn install_secure_boot(on: bool, off: bool) -> bool {
    on || !off
}

/// Of an update, switching off goes before switching on.
pub open spec fn update_secure_boot(on: bool, off: bool) -> Option<bool> {
    if off {
        Some(false)
    } else if on {
        Some(true)
    } else {
        None
    }
}

/// What a command comes to; an error where it names no filesystem that there
/// is.
pub fn request(command: Commands) -> (r: Result<Request>)
    ensures
        match command {
            Commands::Install {
                disk,
                force,
                gpt,
                secure_boot,
                no_secure_boot,
                reserve_space,
                label,
                non_destructive,
                filesystem,
                yes,
            } => match installer::fs_named(filesystem@) {
                Err(e) => r matches Err(f) && f@ == e,
                Ok(fs_type) => if non_destructive {
                    r == Ok::<Request, crate::error::ChoosableError>(
                        Request::NonDestructive {
                            disk,
                            label,
                            fs_type,
                            secure_boot: install_secure_boot(secure_boot, no_secure_boot),
                            yes,
                        },
                    )
                } else {
                    r == Ok::<Request, crate::error::ChoosableError>(
                        Request::Install {
                            disk,
                            gpt,
                            secure_boot: install_secure_boot(secure_boot, no_secure_boot),
                            reserve_space_mb: match reserve_space {
                                Some(n) => n,
                                None => 0,
                            },
                            label,
                            fs_type,
                            force,
                            yes,
                        },
                    )
                },
            },
            Commands::Update { disk, secure_boot, no_secure_boot, yes } => r == Ok::<
                Request,
                crate::error::ChoosableError,
            >(
                Request::Update {
                    disk,
                    secure_boot: update_secure_boot(secure_boot, no_secure_boot),
                    yes,
                },
            ),
            Commands::List { disk } => r == Ok::<Request, crate::error::ChoosableError>(
                Request::List { disk },
            ),
            Commands::ListDisks => r == Ok::<Request, crate::error::ChoosableError>(
                Request::ListDisks,
            ),
        },
{
    match command {
        Commands::Install {
            disk,
            force,
            gpt,
            secure_boot,
            no_secure_boot,
            reserve_space,
            label,
            non_destructive,
            filesystem,
            yes,
        } => {
            let secure_boot: bool = secure_boot || !no_secure_boot;
            let fs_type: FilesystemType = match FilesystemType::from_str(&filesystem) {
                Ok(t) => t,
                Err(e) => {
                    return Err(e);
                },
            };
            if non_destructive {
                return Ok(Request::NonDestructive { disk, label, fs_type, secure_boot, yes });
            }
            let reserve_space_mb: u64 = match reserve_space {
                Some(n) => n,
                None => 0,
            };
            Ok(
                Request::Install {
                    disk,
                    gpt,
                    secure_boot,
                    reserve_space_mb,
                    label,
                    fs_type,
                    force,
                    yes,
                },
            )
        },
        Commands::Update { disk, secure_boot, no_secure_boot, yes } => {
            let secure_boot: Option<bool> = if no_secure_boot {
                Some(false)
            } else if secure_boot {
                Some(true)
            } else {
                None
            };
            Ok(Request::Update { disk, secure_boot, yes })
        },
        Commands::List { disk } => Ok(Request::List { disk }),
        Commands::ListDisks => Ok(Request::ListDisks),
    }
}

/// How the program is started.
#[derive(Clone, Copy, PartialEq, Eq, Structural, Debug)]
pub enum LaunchMode {
    /// Without arguments: the graphical interface.
    Gui,
    /// With nothing but a request for help or the version.
    Help,
    Command,
}

pub open spec fn asks_for_help(arg: Seq<char>) -> bool {
    arg == "--help"@ || arg == "-h"@ || arg == "--version"@ || arg == "-V"@
}

/// How the program is started, by its name and arguments.
pub fn launch_mode(args: &[String]) -> (r: LaunchMode)
    ensures
        r == (if args@.len() <= 1 {
            LaunchMode::Gui
        } else if args@.len() == 2 && asks_for_help(args@[1]@) {
            LaunchMode::Help
        } else {
            LaunchMode::Command
        }),
{
    if args.len() <= 1 {
        return LaunchMode::Gui;
    }
    let arg: &str = args[1].as_str();
    if args.len() == 2 && (str_eq(arg, "--help") || str_eq(arg, "-h") || str_eq(arg, "--version")
        || str_eq(arg, "-V")) {
        return LaunchMode::Help;
    }
    LaunchMode::Command
}

/// The user that the first line of a process's status about it tells.
pub open spec fn status_uid(lines: Seq<Seq<char>>, i: int) -> Option<Seq<char>>
    decreases lines.len() - i,
{
    if i < 0 || i >= lines.len() {
        None
    } else if text::starts(lines[i], "Uid:"@) {
        let w = text::words(lines[i]);
        if w.len() > 1 {
            Some(w[1])
        } else {
            None
        }
    } else {
        status_uid(lines, i + 1)
    }
}

pub open spec fn opt_view(s: Option<String>) -> Option<Seq<char>> {
    match s {
        Some(s) => Some(s@),
        None => None,
    }
}

/// The user that a process's status tells.
#[verifier::loop_isolation(false)]
pub fn uid_of_status(status: &str) -> (r: Option<String>)
    ensures
        opt_view(r) == status_uid(text::lines(status@), 0),
{
    let lines: Vec<&str> = split_lines(status);
    let ghost all = text::lines(status@);
    assert(text::str_views(lines@).len() == lines@.len());
    let mut i: usize = 0;
    while i < lines.len()
        invariant
            i <= lines@.len(),
            status_uid(all, 0) == status_uid(all, i as int),
        decreases lines@.len() - i,
    {
        let line: &str = lines[i];
        assert(text::str_views(lines@)[i as int] == line@);
        if starts_with(line, "Uid:") {
            let w: Vec<&str> = split_words(line);
            assert(text::str_views(w@).len() == w@.len());
            if w.len() > 1 {
                assert(text::str_views(w@)[1] == w@[1]@);
                return Some(w[1].to_owned());
            }
            return None;
        }
        i += 1;
    }
    None
}

/// The runtime directory of a user.
pub fn runtime_dir(uid: &str) -> (r: String)
    ensures
        r@ == "/run/user/"@ + uid@,
{
    join2("/run/user/", uid)
}

} // verus!
