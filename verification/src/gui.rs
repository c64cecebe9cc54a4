//! The graphical interface: its state, and what its messages do to it.

use vstd::prelude::*;
use crate::error;
use crate::error::Result;
use crate::installer::FilesystemType;
use crate::text;
use crate::text::{has, join2, join3, number_text, parse_number, push_number, push_str, str_eq};

verus! {

#[derive(Clone, Copy, PartialEq, Eq, Structural, Debug)]
pub enum FsType {
    ExFat,
    Ntfs,
    Fat32,
}

impl FsType {
    /// The name that is shown.
    pub fn label(&self) -> (r: &'static str)
        ensures
            r == (match *self {
                FsType::ExFat => "exFAT",
                FsType::Ntfs => "NTFS",
                FsType::Fat32 => "FAT32",
            }),
    {
        match self {
            FsType::ExFat => "exFAT",
            FsType::Ntfs => "NTFS",
            FsType::Fat32 => "FAT32",
        }
    }
}

pub open spec fn installer_fs(fs: FsType) -> FilesystemType {
    match fs {
        FsType::ExFat => FilesystemType::ExFat,
        FsType::Ntfs => FilesystemType::Ntfs,
        FsType::Fat32 => FilesystemType::Fat32,
    }
}

pub fn fs_type_to_installer(fs: FsType) -> (r: FilesystemType)
    ensures
        r == installer_fs(fs),
{
    match fs {
        FsType::ExFat => FilesystemType::ExFat,
        FsType::Ntfs => FilesystemType::Ntfs,
        FsType::Fat32 => FilesystemType::Fat32,
    }
}

/// A disk to choose.
pub struct DiskEntry {
    pub path: String,
    pub model: String,
    pub size_gb: u64,
    pub is_usb: bool,
    pub removable: bool,
}

/// A disk as it is shown.
pub open spec fn disk_label(d: DiskEntry) -> Seq<char> {
    d.path@ + " ("@ + d.model@ + ", "@ + text::numeral(d.size_gb as nat) + " GiB"@ + if d.is_usb {
        ", USB"@
    } else {
        ""@
    } + ")"@
}

impl DiskEntry {
    pub fn label(&self) -> (r: String)
        ensures
            r@ == disk_label(*self),
    {
        let mut out: String = self.path.clone();
        push_str(&mut out, " (");
        push_str(&mut out, &self.model);
        push_str(&mut out, ", ");
        push_number(&mut out, self.size_gb);
        push_str(&mut out, " GiB");
        let usb: &str = if self.is_usb {
            ", USB"
        } else {
            ""
        };
        push_str(&mut out, usb);
        push_str(&mut out, ")");
        out
    }
}

pub enum Message {
    RefreshDisks,
    DisksLoaded(Vec<DiskEntry>),
    SelectDisk(String),
    ToggleGpt(bool),
    ToggleSecureBoot(bool),
    ToggleForce(bool),
    LabelChanged(String),
    ReserveSpaceChanged(String),
    InstallClicked,
    UpdateClicked,
    ListClicked,
    NonDestructiveToggled(bool),
    FsTypeChanged(FsType),
    StatusMessage(String),
}

/// What is to be done beside the interface.
pub enum Work {
    Nothing,
    RefreshDisks,
    Install {
        disk_path: String,
        gpt: bool,
        secure_boot: bool,
        force: bool,
        label: String,
        fs_type: FsType,
        non_destructive: bool,
        reserve: u64,
    },
    Update { disk_path: String, secure_boot: Option<bool> },
    List { disk_path: String },
}

pub enum WorkView {
    Nothing,
    RefreshDisks,
    Install {
        disk_path: Seq<char>,
        gpt: bool,
        secure_boot: bool,
        force: bool,
        label: Seq<char>,
        fs_type: FsType,
        non_destructive: bool,
        reserve: int,
    },
    Update { disk_path: Seq<char>, secure_boot: Option<bool> },
    List { disk_path: Seq<char> },
}

impl View for Work {
    type V = WorkView;

    open spec fn view(&self) -> WorkView {
        match *self {
            Work::Nothing => WorkView::Nothing,
            Work::RefreshDisks => WorkView::RefreshDisks,
            Work::Install {
                disk_path,
                gpt,
                secure_boot,
                force,
                label,
                fs_type,
                non_destructive,
                reserve,
            } => WorkView::Install {
                disk_path: disk_path@,
                gpt,
                secure_boot,
                force,
                label: label@,
                fs_type,
                non_destructive,
                reserve: reserve as int,
            },
            Work::Update { disk_path, secure_boot } => WorkView::Update {
                disk_path: disk_path@,
                secure_boot,
            },
            Work::List { disk_path } => WorkView::List { disk_path: disk_path@ },
        }
    }
}

/// The state of the interface.
pub struct ChoosableApp {
    pub disks: Vec<DiskEntry>,
    pub selected_disk_index: Option<usize>,
    pub use_gpt: bool,
    pub secure_boot: bool,
    pub force: bool,
    pub label: String,
    pub reserve_space: String,
    pub non_destructive: bool,
    pub fs_type: FsType,
    pub status: String,
    pub loading: bool,
}

pub struct AppView {
    pub disks: Seq<DiskEntry>,
    pub selected: Option<usize>,
    pub use_gpt: bool,
    pub secure_boot: bool,
    pub force: bool,
    pub label: Seq<char>,
    pub reserve_space: Seq<char>,
    pub non_destructive: bool,
    pub fs_type: FsType,
    pub status: Seq<char>,
    pub loading: bool,
}

impl View for ChoosableApp {
    type V = AppView;

    open spec fn view(&self) -> AppView {
        AppView {
            disks: self.disks@,
            selected: self.selected_disk_index,
            use_gpt: self.use_gpt,
            secure_boot: self.secure_boot,
            force: self.force,
            label: self.label@,
            reserve_space: self.reserve_space@,
            non_destructive: self.non_destructive,
            fs_type: self.fs_type,
            status: self.status@,
            loading: self.loading,
        }
    }
}

/// The first disk from `i` on that is shown as `label`.
pub open spec fn labelled(disks: Seq<DiskEntry>, label: Seq<char>, i: int) -> Option<usize>
    decreases disks.len() - i,
{
    if i < 0 || i >= disks.len() {
        None
    } else if disk_label(disks[i]) == label {
        Some(i as usize)
    } else {
        labelled(disks, label, i + 1)
    }
}

/// The selection after other disks were found: it stays where it can, else the
/// first disk is selected.
pub open spec fn kept_selection(selected: Option<usize>, count: int) -> Option<usize> {
    match selected {
        Some(i) if i < count => Some(i),
        _ => if count > 0 {
            Some(0)
        } else {
            None
        },
    }
}

/// The space that is to stay free, as it was typed; nothing where that is no
/// number.
pub open spec fn reserve_of(typed: Seq<char>) -> int {
    match text::number(typed, u64::MAX as int) {
        Some(v) => v,
        None => 0,
    }
}

/// The state after a message, and what is to be done.
pub open spec fn updated(a: AppView, m: Message) -> (AppView, WorkView) {
    match m {
        Message::RefreshDisks => (
            AppView { loading: true, status: "Scanning disks..."@, ..a },
            WorkView::RefreshDisks,
        ),
        Message::DisksLoaded(disks) => (
            AppView {
                disks: disks@,
                loading: false,
                status: text::numeral(disks@.len()) + " disks found."@,
                selected: kept_selection(a.selected, disks@.len() as int),
                ..a
            },
            WorkView::Nothing,
        ),
        Message::SelectDisk(label) => (
            AppView { selected: labelled(a.disks, label@, 0), ..a },
            WorkView::Nothing,
        ),
        Message::ToggleGpt(v) => (AppView { use_gpt: v, ..a }, WorkView::Nothing),
        Message::ToggleSecureBoot(v) => (AppView { secure_boot: v, ..a }, WorkView::Nothing),
        Message::ToggleForce(v) => (AppView { force: v, ..a }, WorkView::Nothing),
        Message::LabelChanged(s) => (AppView { label: s@, ..a }, WorkView::Nothing),
        Message::ReserveSpaceChanged(s) => (AppView { reserve_space: s@, ..a }, WorkView::Nothing),
        Message::NonDestructiveToggled(v) => (AppView { non_destructive: v, ..a }, WorkView::Nothing),
        Message::FsTypeChanged(fs) => (AppView { fs_type: fs, ..a }, WorkView::Nothing),
        Message::InstallClicked => match a.selected {
            Some(i) => (
                AppView { loading: true, status: "Installing..."@, ..a },
                WorkView::Install {
                    disk_path: a.disks[i as int].path@,
                    gpt: a.use_gpt,
                    secure_boot: a.secure_boot,
                    force: a.force,
                    label: a.label,
                    fs_type: a.fs_type,
                    non_destructive: a.non_destructive,
                    reserve: reserve_of(a.reserve_space),
                },
            ),
            None => (AppView { status: "No disk selected."@, ..a }, WorkView::Nothing),
        },
        Message::UpdateClicked => match a.selected {
            Some(i) => (
                AppView { loading: true, status: "Updating..."@, ..a },
                WorkView::Update {
                    disk_path: a.disks[i as int].path@,
                    secure_boot: Some(a.secure_boot),
                },
            ),
            None => (AppView { status: "No disk selected."@, ..a }, WorkView::Nothing),
        },
        Message::ListClicked => match a.selected {
            Some(i) => (
                AppView { loading: true, status: "Reading info..."@, ..a },
                WorkView::List { disk_path: a.disks[i as int].path@ },
            ),
            None => (a, WorkView::Nothing),
        },
        Message::StatusMessage(s) => (AppView { loading: false, status: s@, ..a }, WorkView::Nothing),
    }
}

impl Default for ChoosableApp {
    fn default() -> (r: Self)
        ensures
            r.wf(),
            r@.disks == Seq::<DiskEntry>::empty(),
            r@.selected is None,
            !r@.use_gpt,
            r@.secure_boot,
            !r@.force,
            r@.label == "Choosable"@,
            r@.reserve_space == Seq::<char>::empty(),
            !r@.non_destructive,
            r@.fs_type == FsType::ExFat,
            r@.status == "Press 'Refresh' to list disks."@,
            !r@.loading,
    {
        ChoosableApp {
            disks: Vec::new(),
            selected_disk_index: None,
            use_gpt: false,
            secure_boot: true,
            force: false,
            label: "Choosable".to_owned(),
            reserve_space: String::new(),
            non_destructive: false,
            fs_type: FsType::ExFat,
            status: "Press 'Refresh' to list disks.".to_owned(),
            loading: false,
        }
    }
}

impl ChoosableApp {
    /// Whether the selected disk is there.
    pub open spec fn wf(&self) -> bool {
        self.selected_disk_index matches Some(i) ==> i < self.disks@.len()
    }

    #[verifier::loop_isolation(false)]
    fn find_label(&self, label: &str) -> (r: Option<usize>)
        ensures
            r == labelled(self.disks@, label@, 0),
            r matches Some(i) ==> i < self.disks@.len(),
    {
        let mut i: usize = 0;
        while i < self.disks.len()
            invariant
                i <= self.disks@.len(),
                labelled(self.disks@, label@, 0) == labelled(self.disks@, label@, i as int),
            decreases self.disks@.len() - i,
        {
            let shown: String = self.disks[i].label();
            if str_eq(&shown, label) {
                return Some(i);
            }
            i += 1;
        }
        None
    }

    fn install(&mut self) -> (r: Work)
        requires
            old(self).wf(),
        ensures
            final(self).wf(),
            (final(self)@, r@) == updated(old(self)@, Message::InstallClicked),
    {
        match self.selected_disk_index {
            Some(i) => {
                let disk_path: String = self.disks[i].path.clone();
                let reserve: u64 = match parse_number(&self.reserve_space, u64::MAX) {
                    Some(v) => v,
                    None => 0,
                };
                self.loading = true;
                self.status = "Installing...".to_owned();
                Work::Install {
                    disk_path,
                    gpt: self.use_gpt,
                    secure_boot: self.secure_boot,
                    force: self.force,
                    label: self.label.clone(),
                    fs_type: self.fs_type,
                    non_destructive: self.non_destructive,
                    reserve,
                }
            },
            None => {
                self.status = "No disk selected.".to_owned();
                Work::Nothing
            },
        }
    }

    /// Takes in a message, and tells what is to be done.
    pub fn update(&mut self, message: Message) -> (r: Work)
        requires
            old(self).wf(),
        ensures
            final(self).wf(),
            (final(self)@, r@) == updated(old(self)@, message),
    {
        match message {
            Message::RefreshDisks => {
                self.loading = true;
                self.status = "Scanning disks...".to_owned();
                Work::RefreshDisks
            },
            Message::DisksLoaded(disks) => {
                let n: usize = disks.len();
                self.disks = disks;
                self.loading = false;
                let mut status: String = number_text(n as u64);
                push_str(&mut status, " disks found.");
                self.status = status;
                self.selected_disk_index = match self.selected_disk_index {
                    Some(i) if i < n => Some(i),
                    _ => if n > 0 {
                        Some(0)
                    } else {
                        None
                    },
                };
                Work::Nothing
            },
            Message::SelectDisk(display) => {
                self.selected_disk_index = self.find_label(&display);
                Work::Nothing
            },
            Message::ToggleGpt(val) => {
                self.use_gpt = val;
                Work::Nothing
            },
            Message::ToggleSecureBoot(val) => {
                self.secure_boot = val;
                Work::Nothing
            },
            Message::ToggleForce(val) => {
                self.force = val;
                Work::Nothing
            },
            Message::LabelChanged(s) => {
                self.label = s;
                Work::Nothing
            },
            Message::ReserveSpaceChanged(s) => {
                self.reserve_space = s;
                Work::Nothing
            },
            Message::NonDestructiveToggled(val) => {
                self.non_destructive = val;
                Work::Nothing
            },
            Message::FsTypeChanged(fs) => {
                self.fs_type = fs;
                Work::Nothing
            },
            Message::InstallClicked => self.install(),
            Message::UpdateClicked => match self.selected_disk_index {
                Some(i) => {
                    self.loading = true;
                    self.status = "Updating...".to_owned();
                    Work::Update {
                        disk_path: self.disks[i].path.clone(),
                        secure_boot: Some(self.secure_boot),
                    }
                },
                None => {
                    self.status = "No disk selected.".to_owned();
                    Work::Nothing
                },
            },
            Message::ListClicked => match self.selected_disk_index {
                Some(i) => {
                    self.loading = true;
                    self.status = "Reading info...".to_owned();
                    Work::List { disk_path: self.disks[i].path.clone() }
                },
                None => Work::Nothing,
            },
            Message::StatusMessage(msg) => {
                self.loading = false;
                self.status = msg;
                Work::Nothing
            },
        }
    }

    /// What the interface shows: the disks to choose from, the one that is
    /// chosen, and whether the buttons work.
    #[verifier::loop_isolation(false)]
    pub fn shown(&self) -> (r: Shown)
        ensures
            text::string_views(r.entries@) == labels(self@.disks),
            r.selected == (match self@.selected {
                Some(i) if i < self@.disks.len() => Some(i),
                _ => None::<usize>,
            }),
            r.buttons_work == !self@.loading,
    {
        let mut entries: Vec<String> = Vec::new();
        let ghost all = labels(self.disks@);
        let mut i: usize = 0;
        assert(text::string_views(entries@) =~= all.take(0));
        while i < self.disks.len()
            invariant
                i <= self.disks@.len(),
                text::string_views(entries@) == all.take(i as int),
            decreases self.disks@.len() - i,
        {
            let ghost before = entries@;
            let shown: String = self.disks[i].label();
            let ghost v = shown@;
            assert(v == all[i as int]);
            entries.push(shown);
            assert(text::string_views(entries@) =~= text::string_views(before).push(v));
            assert(all.take(i + 1) =~= all.take(i as int).push(v));
            i += 1;
        }
        assert(all.take(i as int) =~= all);
        let selected: Option<usize> = match self.selected_disk_index {
            Some(i) if i < self.disks.len() => Some(i),
            _ => None,
        };
        Shown { entries, selected, buttons_work: !self.loading }
    }
}

/// What the interface shows.
pub struct Shown {
    pub entries: Vec<String>,
    pub selected: Option<usize>,
    pub buttons_work: bool,
}

pub open spec fn labels(disks: Seq<DiskEntry>) -> Seq<Seq<char>> {
    Seq::new(disks.len(), |i: int| disk_label(disks[i]))
}

/// What is told of an operation that ended.
pub open spec fn operation_text(r: std::result::Result<(), error::ErrorView>, op: Seq<char>) -> Seq<
    char,
> {
    match r {
        Ok(_) => op + " completed successfully!"@,
        Err(e) => {
            let told = op + " failed: "@ + error::error_message(e);
            if text::contains(error::error_message(e), "Permission denied"@) {
                told
                    + "\nHint: Run Choosable with sudo (sudo choosable) to get disk access."@
            } else {
                told
            }
        },
    }
}

pub fn format_result(result: Result<()>, op: &str) -> (r: String)
    ensures
        r@ == operation_text(error::outcome(result), op@),
{
    match result {
        Ok(()) => join2(op, " completed successfully!"),
        Err(e) => {
            let told: String = e.message();
            let mut msg: String = join3(op, " failed: ", &told);
            if has(&told, "Permission denied") {
                push_str(
                    &mut msg,
                    "\nHint: Run Choosable with sudo (sudo choosable) to get disk access.",
                );
            }
            msg
        },
    }
}

/// What is told once a disk was listed.
pub fn list_result(result: Result<()>) -> (r: String)
    ensures
        r@ == (match error::outcome(result) {
            Ok(_) => "Info displayed in terminal (stdout)."@,
            Err(e) => "List failed: "@ + error::error_message(e),
        }),
{
    match result {
        Ok(()) => "Info displayed in terminal (stdout).".to_owned(),
        Err(e) => {
            let told: String = e.message();
            join2("List failed: ", &told)
        },
    }
}

proof fn labelled_from(disks: Seq<DiskEntry>, i: int, j: int)
    requires
        0 <= j <= i < disks.len(),
        disks.len() <= usize::MAX,
    ensures
        labelled(disks, disk_label(disks[i]), j) matches Some(k) && j <= k <= i && disk_label(
            disks[k as int],
        ) == disk_label(disks[i]),
    decreases i - j,
{
    if disk_label(disks[j]) != disk_label(disks[i]) {
        labelled_from(disks, i, j + 1);
    }
}

/// Choosing a disk by how it is shown selects one that is shown so.
pub proof fn shown_disk_is_selected(a: AppView, i: int, shown: String)
    requires
        0 <= i < a.disks.len() <= usize::MAX,
        shown@ == disk_label(a.disks[i]),
    ensures
        updated(a, Message::SelectDisk(shown)).0.selected matches Some(k) && k < a.disks.len()
            && disk_label(a.disks[k as int]) == shown@,
{
    labelled_from(a.disks, i, 0);
}

} // verus!
