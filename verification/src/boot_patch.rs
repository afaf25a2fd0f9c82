//! Pointing a freshly written eMMC image's `uEnv.txt` at the eMMC: which
//! targets need it, which boot files are recognized, what is written, and
//! the report shown afterwards. The caller mounts, reads, writes and
//! unmounts; these functions decide.

use vstd::prelude::*;
use vstd::string::*;

use crate::device::{InstallTarget, TargetKind, TargetView, file_name_of, path_file_name};
use crate::manifest::strs;
use crate::text::{
    contains, has_infix, has_prefix, lower, occurs_at, owned, push_decimal, push_str, starts_with, str_eq,
    to_ascii_lowercase, decimal,
};

verus! {

/// How the boot patch went.
#[derive(Clone, Copy, Debug, PartialEq, Eq, Structural)]
pub enum BootPatchStatus {
    Patched,
    AlreadyConfigured,
    Skipped,
    Warning,
}

/// The outcome of the boot patch: a status, a one-line summary and detail
/// lines.
#[derive(Clone, Debug)]
pub struct BootPatchReport {
    pub status: BootPatchStatus,
    pub summary: String,
    pub details: Vec<String>,
}

/// A report, with strings taken as character sequences.
#[verifier::ext_equal]
pub ghost struct ReportView {
    pub status: BootPatchStatus,
    pub summary: Seq<char>,
    pub details: Seq<Seq<char>>,
}

impl View for BootPatchReport {
    type V = ReportView;

    open spec fn view(&self) -> ReportView {
        ReportView { status: self.status, summary: self.summary@, details: strs(self.details) }
    }
}

/// A report of the given status.
pub open spec fn report_of(status: BootPatchStatus, summary: Seq<char>, details: Seq<Seq<char>>) -> ReportView {
    ReportView { status, summary, details }
}

/// The word the final message uses for a status.
pub open spec fn status_label(s: BootPatchStatus) -> Seq<char> {
    match s {
        BootPatchStatus::Patched => "applied"@,
        BootPatchStatus::AlreadyConfigured => "already configured"@,
        BootPatchStatus::Skipped => "not needed"@,
        BootPatchStatus::Warning => "warning"@,
    }
}

/// The phase line shown while installing.
pub open spec fn phase_message_of(r: ReportView) -> Seq<char> {
    match r.status {
        BootPatchStatus::Patched => "Boot patch complete: "@ + r.summary,
        BootPatchStatus::AlreadyConfigured => "Boot patch already applied: "@ + r.summary,
        BootPatchStatus::Skipped => "Boot patch skipped: "@ + r.summary,
        BootPatchStatus::Warning => "Boot patch warning: "@ + r.summary,
    }
}

/// The detail lines, each on a line of its own, indented by two spaces.
pub open spec fn details_text(d: Seq<Seq<char>>) -> Seq<char>
    decreases d.len(),
{
    if d.len() == 0 {
        Seq::empty()
    } else {
        details_text(d.drop_last()) + "\n  "@ + d.last()
    }
}

/// The message shown when the install ends.
pub open spec fn final_message_of(r: ReportView) -> Seq<char> {
    "Boot patch: "@ + status_label(r.status) + " - "@ + r.summary + details_text(r.details)
}

impl BootPatchReport {
    /// A report of a patch that was written.
    pub fn patched(summary: &str, details: Vec<String>) -> (r: Self)
        ensures
            r@ == report_of(BootPatchStatus::Patched, summary@, strs(details)),
    {
        BootPatchReport { status: BootPatchStatus::Patched, summary: owned(summary), details }
    }

    /// A report of boot files that were already right.
    pub fn already_configured(summary: &str, details: Vec<String>) -> (r: Self)
        ensures
            r@ == report_of(BootPatchStatus::AlreadyConfigured, summary@, strs(details)),
    {
        BootPatchReport { status: BootPatchStatus::AlreadyConfigured, summary: owned(summary), details }
    }

    /// A report of a patch that was not needed.
    pub fn skipped(summary: &str, details: Vec<String>) -> (r: Self)
        ensures
            r@ == report_of(BootPatchStatus::Skipped, summary@, strs(details)),
    {
        BootPatchReport { status: BootPatchStatus::Skipped, summary: owned(summary), details }
    }

    /// A report of a patch that could not be done.
    pub fn warning(summary: &str, details: Vec<String>) -> (r: Self)
        ensures
            r@ == report_of(BootPatchStatus::Warning, summary@, strs(details)),
    {
        BootPatchReport { status: BootPatchStatus::Warning, summary: owned(summary), details }
    }

    /// The phase line shown while installing.
    pub fn phase_message(&self) -> (r: String)
        ensures
            r@ == phase_message_of(self@),
    {
        let mut s = match self.status {
            BootPatchStatus::Patched => owned("Boot patch complete: "),
            BootPatchStatus::AlreadyConfigured => owned("Boot patch already applied: "),
            BootPatchStatus::Skipped => owned("Boot patch skipped: "),
            BootPatchStatus::Warning => owned("Boot patch warning: "),
        };
        push_str(&mut s, self.summary.as_str());
        s
    }

    /// The message shown when the install ends: the status, the summary,
    /// then each detail on an indented line.
    pub fn final_message(&self) -> (r: String)
        ensures
            r@ == final_message_of(self@),
    {
        let mut s = owned("Boot patch: ");
        let label = match self.status {
            BootPatchStatus::Patched => "applied",
            BootPatchStatus::AlreadyConfigured => "already configured",
            BootPatchStatus::Skipped => "not needed",
            BootPatchStatus::Warning => "warning",
        };
        push_str(&mut s, label);
        push_str(&mut s, " - ");
        push_str(&mut s, self.summary.as_str());
        let ghost head = s@;
        let ghost d = strs(self.details);
        let mut i: usize = 0;
        assert(d.take(0) =~= Seq::<Seq<char>>::empty());
        while i < self.details.len()
            invariant
                i <= self.details@.len(),
                d == strs(self.details),
                d.len() == self.details@.len(),
                s@ == head + details_text(d.take(i as int)),
            decreases self.details@.len() - i,
        {
            assert(d.take(i + 1).drop_last() =~= d.take(i as int));
            assert(d[i as int] == self.details@[i as int]@);
            push_str(&mut s, "\n  ");
            push_str(&mut s, self.details[i].as_str());
            assert(s@ =~= head + details_text(d.take(i + 1)));
            i = i + 1;
        }
        assert(d.take(d.len() as int) =~= d);
        s
    }
}

/// What a target kind is called in the boot patch messages.
pub open spec fn boot_kind_label(k: TargetKind) -> Seq<char> {
    match k {
        TargetKind::Emmc => "eMMC"@,
        TargetKind::Sd => "SD"@,
        TargetKind::Usb => "USB/storage"@,
        TargetKind::Nvme => "NVMe"@,
        TargetKind::File => "file target"@,
        TargetKind::Unknown => "block target"@,
    }
}

/// What a target kind is called in the boot patch messages.
pub fn target_kind_label(kind: TargetKind) -> (r: &'static str)
    ensures
        r@ == boot_kind_label(kind),
{
    match kind {
        TargetKind::Emmc => "eMMC",
        TargetKind::Sd => "SD",
        TargetKind::Usb => "USB/storage",
        TargetKind::Nvme => "NVMe",
        TargetKind::File => "file target",
        TargetKind::Unknown => "block target",
    }
}

/// Only images written to eMMC need their boot files pointed at the eMMC.
pub fn target_needs_boot_patch(target: &InstallTarget) -> (r: bool)
    ensures
        r == (target@.kind == TargetKind::Emmc),
{
    target.kind == TargetKind::Emmc
}

/// `Path::with_file_name` on paths given as text: the path with its last
/// component replaced by `name` (or `name` pushed when it has none).
/// Named: the component rules are std's own.
pub uninterp spec fn path_with_file_name(path: Seq<char>, name: Seq<char>) -> Seq<char>;

/// `Path::with_file_name` on a path given as text, the result taken back as
/// text (lossless, as both parts are UTF-8).
#[verifier::external_body]
fn with_file_name_of(path: &str, name: &str) -> (r: String)
    ensures
        r@ == path_with_file_name(path@, name@),
{
    std::path::Path::new(path).with_file_name(name).to_string_lossy().into_owned()
}

/// The suffix the first partition of a device takes: `p1` after names that
/// end in a digit by convention (`mmcblk`, `nvme`, `loop`), else `1`.
pub open spec fn first_partition_suffix(name: Seq<char>) -> Seq<char> {
    if has_prefix(name, "mmcblk"@) || has_prefix(name, "nvme"@) || has_prefix(name, "loop"@) {
        "p1"@
    } else {
        "1"@
    }
}

/// The path of the first partition of the device at `path`.
pub open spec fn first_partition_of(path: Seq<char>) -> Option<Seq<char>> {
    match path_file_name(path) {
        Some(name) => Some(path_with_file_name(path, name + first_partition_suffix(name))),
        None => None,
    }
}

/// The path of the first partition of the device at `path`.
pub fn first_partition_path(path: &str) -> (r: Option<String>)
    ensures
        match r {
            Some(p) => first_partition_of(path@) == Some(p@),
            None => first_partition_of(path@) is None,
        },
{
    let name = match file_name_of(path) {
        Some(n) => n,
        None => {
            return None;
        },
    };
    let mut full = name.clone();
    if starts_with(name.as_str(), "mmcblk") || starts_with(name.as_str(), "nvme") || starts_with(
        name.as_str(),
        "loop",
    ) {
        push_str(&mut full, "p1");
    } else {
        push_str(&mut full, "1");
    }
    Some(with_file_name_of(path, full.as_str()))
}

/// The index of the first partition named `boot` in any letter case.
pub open spec fn boot_named(t: TargetView) -> Option<int> {
    if exists|i: int| 0 <= i < t.partitions.len() && lower(t.partitions[i].name) == "boot"@ {
        Some(
            choose|i: int|
                0 <= i < t.partitions.len() && lower(t.partitions[i].name) == "boot"@ && forall|k: int|
                    0 <= k < i ==> lower(t.partitions[k].name) != "boot"@,
        )
    } else {
        None
    }
}

/// The boot partition of a written target: the partition named `boot`
/// (in any letter case), else the first partition of the device.
pub open spec fn boot_partition_of(t: TargetView) -> Option<Seq<char>> {
    match boot_named(t) {
        Some(i) => Some(t.partitions[i].path),
        None => first_partition_of(t.path),
    }
}

/// The boot partition of a written target (see `boot_partition_of`).
pub fn boot_partition_path(target: &InstallTarget) -> (r: Option<String>)
    ensures
        match r {
            Some(p) => boot_partition_of(target@) == Some(p@),
            None => boot_partition_of(target@) is None,
        },
{
    let ghost t = target@;
    let mut i: usize = 0;
    while i < target.partitions.len()
        invariant
            t == target@,
            i <= target.partitions@.len(),
            t.partitions.len() == target.partitions@.len(),
            forall|k: int| 0 <= k < i ==> lower(#[trigger] t.partitions[k].name) != "boot"@,
        decreases target.partitions@.len() - i,
    {
        assert(t.partitions[i as int] == target.partitions@[i as int]@);
        let lowered = to_ascii_lowercase(target.partitions[i].name.as_str());
        if str_eq(lowered.as_str(), "boot") {
            assert(boot_named(t) == Some(i as int)) by {
                let c = choose|c: int|
                    0 <= c < t.partitions.len() && lower(t.partitions[c].name) == "boot"@ && forall|k: int|
                        0 <= k < c ==> lower(t.partitions[k].name) != "boot"@;
                assert(0 <= i < t.partitions.len() && lower(t.partitions[i as int].name) == "boot"@);
                if c < i {
                } else if c > i {
                }
            }
            return Some(target.partitions[i].path.clone());
        }
        i = i + 1;
    }
    first_partition_path(target.path.as_str())
}

/// Where the boot patch starts for a written target.
#[derive(Debug)]
pub enum BootPatchStart {
    /// Nothing to mount: the report is final.
    Finished(BootPatchReport),
    /// Mount this partition and patch its boot files.
    Patch { partition: String },
}

/// A start, with strings taken as character sequences.
pub ghost enum StartView {
    Finished(ReportView),
    Patch { partition: Seq<char> },
}

impl View for BootPatchStart {
    type V = StartView;

    open spec fn view(&self) -> StartView {
        match self {
            BootPatchStart::Finished(r) => StartView::Finished(r@),
            BootPatchStart::Patch { partition } => StartView::Patch { partition: partition@ },
        }
    }
}

/// Where the boot patch starts: only eMMC targets are patched, only on
/// Linux, and only when their boot partition can be named.
pub open spec fn boot_patch_start_of(t: TargetView, linux: bool) -> StartView {
    if t.kind != TargetKind::Emmc {
        StartView::Finished(
            report_of(
                BootPatchStatus::Skipped,
                boot_kind_label(t.kind) + " installs boot as written"@,
                Seq::empty(),
            ),
        )
    } else if !linux {
        StartView::Finished(
            report_of(
                BootPatchStatus::Warning,
                "post-flash boot patching is only available on Linux"@,
                seq!["Target: "@ + t.path],
            ),
        )
    } else {
        match boot_partition_of(t) {
            None => StartView::Finished(
                report_of(
                    BootPatchStatus::Warning,
                    "could not determine the installed boot partition"@,
                    seq!["Target: "@ + t.path],
                ),
            ),
            Some(p) => StartView::Patch { partition: p },
        }
    }
}

/// Decides how to patch the boot files of a written target (see
/// `boot_patch_start_of`); `linux` tells whether the installer runs on Linux.
pub fn patch_installed_boot_media(target: &InstallTarget, linux: bool) -> (r: BootPatchStart)
    ensures
        r@ == boot_patch_start_of(target@, linux),
{
    if !target_needs_boot_patch(target) {
        let mut s = owned(target_kind_label(target.kind));
        push_str(&mut s, " installs boot as written");
        let details: Vec<String> = Vec::new();
        assert(strs(details) =~= Seq::<Seq<char>>::empty());
        let r = BootPatchReport::skipped(s.as_str(), details);
        return BootPatchStart::Finished(r);
    }
    if !linux {
        let mut line = owned("Target: ");
        push_str(&mut line, target.path.as_str());
        let details = vec![line];
        assert(strs(details) =~= seq!["Target: "@ + target@.path]);
        return BootPatchStart::Finished(
            BootPatchReport::warning("post-flash boot patching is only available on Linux", details),
        );
    }
    match boot_partition_path(target) {
        Some(partition) => BootPatchStart::Patch { partition },
        None => {
            let mut line = owned("Target: ");
            push_str(&mut line, target.path.as_str());
            let details = vec![line];
            assert(strs(details) =~= seq!["Target: "@ + target@.path]);
            BootPatchStart::Finished(
                BootPatchReport::warning("could not determine the installed boot partition", details),
            )
        },
    }
}

/// The steps of the patch that can fail before the boot files are read.
#[derive(Clone, Copy, Debug, PartialEq, Eq, Structural)]
pub enum BootPatchFailure {
    /// The boot partition did not appear after the partition table was reread.
    PartitionMissing,
    /// The mount directory could not be created.
    MountDirUnavailable,
    /// The boot partition could not be mounted.
    MountFailed,
}

/// The warning for a failed step: its summary, the path involved and the
/// error met.
pub open spec fn failure_report_of(f: BootPatchFailure, path: Seq<char>, detail: Seq<char>) -> ReportView {
    match f {
        BootPatchFailure::PartitionMissing => report_of(
            BootPatchStatus::Warning,
            "boot partition did not appear after flashing"@,
            seq!["Partition: "@ + path, "Details: "@ + detail],
        ),
        BootPatchFailure::MountDirUnavailable => report_of(
            BootPatchStatus::Warning,
            "could not create boot patch mount directory"@,
            seq!["Directory: "@ + path, "Details: "@ + detail],
        ),
        BootPatchFailure::MountFailed => report_of(
            BootPatchStatus::Warning,
            "could not mount installed boot partition"@,
            seq!["Partition: "@ + path, "Details: "@ + detail],
        ),
    }
}

/// The warning for a failed step (see `failure_report_of`).
pub fn failure_report(failure: BootPatchFailure, path: &str, detail: &str) -> (r: BootPatchReport)
    ensures
        r@ == failure_report_of(failure, path@, detail@),
{
    let mut first = match failure {
        BootPatchFailure::MountDirUnavailable => owned("Directory: "),
        _ => owned("Partition: "),
    };
    push_str(&mut first, path);
    let mut second = owned("Details: ");
    push_str(&mut second, detail);
    let details = vec![first, second];
    let summary = match failure {
        BootPatchFailure::PartitionMissing => "boot partition did not appear after flashing",
        BootPatchFailure::MountDirUnavailable => "could not create boot patch mount directory",
        BootPatchFailure::MountFailed => "could not mount installed boot partition",
    };
    let r = BootPatchReport::warning(summary, details);
    assert(r@ =~~= failure_report_of(failure, path@, detail@));
    r
}

/// The warning when the boot files could not be read or written: `action`
/// is `read` or `write`.
pub open spec fn uenv_failure_of(partition: Seq<char>, action: Seq<char>, uenv: Seq<char>, error: Seq<char>) -> ReportView {
    report_of(
        BootPatchStatus::Warning,
        "could not update installed boot files"@,
        seq!["Partition: "@ + partition, "Details: failed to "@ + action + " "@ + uenv + ": "@ + error],
    )
}

/// The warning when a boot file (`uEnv.txt` or the extlinux fallback) could
/// not be read (`writing` false) or written (`writing` true).
pub fn uenv_failure_report(partition: &str, writing: bool, uenv_path: &str, error: &str) -> (r: BootPatchReport)
    ensures
        r@ == uenv_failure_of(
            partition@,
            if writing {
                "write"@
            } else {
                "read"@
            },
            uenv_path@,
            error@,
        ),
{
    let mut first = owned("Partition: ");
    push_str(&mut first, partition);
    let mut second = owned("Details: failed to ");
    push_str(&mut second, if writing { "write" } else { "read" });
    push_str(&mut second, " ");
    push_str(&mut second, uenv_path);
    push_str(&mut second, ": ");
    push_str(&mut second, error);
    let details = vec![first, second];
    let r = BootPatchReport::warning("could not update installed boot files", details);
    assert(r@ =~~= uenv_failure_of(
        partition@,
        if writing {
            "write"@
        } else {
            "read"@
        },
        uenv_path@,
        error@,
    ));
    r
}

/// The kinds of boot files the patch recognizes.
#[derive(Clone, Copy, Debug, PartialEq, Eq, Structural)]
pub enum BootPatchStyle {
    ArmbianOrTiDebian,
    TiYocto,
}

/// Which marker files were found on the mounted boot partition.
#[derive(Clone, Copy, Debug)]
pub struct BootFiles {
    /// One of `armbian_marker_names` exists.
    pub armbian_env: bool,
    /// One of `yocto_marker_names` exists.
    pub yocto_marker: bool,
}

/// The files whose presence marks Armbian or TI Debian boot files.
pub fn armbian_marker_names() -> (r: Vec<&'static str>)
    ensures
        r@.len() == 2,
        r@[0]@ == "armbianEnv.txt"@,
        r@[1]@ == "ARMBIANENV.TXT"@,
{
    vec!["armbianEnv.txt", "ARMBIANENV.TXT"]
}

/// The files whose presence marks TI Yocto boot files.
pub fn yocto_marker_names() -> (r: Vec<&'static str>)
    ensures
        r@.len() == 5,
        r@[0]@ == "EFI/BOOT/GRUB.CFG"@,
        r@[1]@ == "EFI/BOOT/grub.cfg"@,
        r@[2]@ == "efi/boot/grub.cfg"@,
        r@[3]@ == "TIBOOT3.BIN"@,
        r@[4]@ == "tiboot3.bin"@,
{
    vec!["EFI/BOOT/GRUB.CFG", "EFI/BOOT/grub.cfg", "efi/boot/grub.cfg", "TIBOOT3.BIN", "tiboot3.bin"]
}

/// Recognizes boot files: Armbian or TI Debian by their environment file or
/// an initrd loaded from `uEnv.txt`; TI Yocto by its GRUB or tiboot3 files
/// or an `mmcdev`/`bootpart` setting.
pub open spec fn boot_style_of(files: BootFiles, uenv: Seq<char>) -> Option<BootPatchStyle> {
    if files.armbian_env || has_infix(uenv, "uInitrd"@) || has_infix(uenv, "get_rd_mmc"@) {
        Some(BootPatchStyle::ArmbianOrTiDebian)
    } else if files.yocto_marker || has_infix(uenv, "mmcdev"@) || has_infix(uenv, "bootpart"@) {
        Some(BootPatchStyle::TiYocto)
    } else {
        None
    }
}

/// Recognizes boot files (see `boot_style_of`).
pub fn detect_boot_patch_style(files: BootFiles, uenv: &str) -> (r: Option<BootPatchStyle>)
    ensures
        r == boot_style_of(files, uenv@),
{
    if files.armbian_env || contains(uenv, "uInitrd") || contains(uenv, "get_rd_mmc") {
        return Some(BootPatchStyle::ArmbianOrTiDebian);
    }
    if files.yocto_marker || contains(uenv, "mmcdev") || contains(uenv, "bootpart") {
        return Some(BootPatchStyle::TiYocto);
    }
    None
}

/// The `uEnv.txt` written for a style.
pub open spec fn plan_content(style: BootPatchStyle) -> Seq<char> {
    match style {
        BootPatchStyle::ArmbianOrTiDebian => "bootpart=0:1\nbootdir=\nfinduuid=part uuid mmc 0:2 uuid\nget_rd_mmc=load mmc ${bootpart} ${rdaddr} uInitrd\nuenvcmd=setenv mmcdev 0;setenv boot mmc;run get_rd_mmc;setenv rd_spec ${rdaddr}:${filesize};setexpr fdtfile sub ti/ti ti;run bootcmd_ti_mmc\n"@,
        BootPatchStyle::TiYocto => "mmcdev=0\nbootpart=0:2\nfinduuid=part uuid mmc ${bootpart} uuid\n"@,
    }
}

/// The summary of a patch of a style.
pub open spec fn plan_summary(style: BootPatchStyle) -> Seq<char> {
    match style {
        BootPatchStyle::ArmbianOrTiDebian => "updated uEnv.txt for eMMC boot on Armbian/TI Debian images"@,
        BootPatchStyle::TiYocto => "updated uEnv.txt for eMMC boot on TI Yocto images"@,
    }
}

/// The detail line of a patch of a style.
pub open spec fn plan_detail(style: BootPatchStyle) -> Seq<char> {
    match style {
        BootPatchStyle::ArmbianOrTiDebian => "Set bootpart=0:1, rootfs lookup=mmc 0:2, and mmcdev=0; added an extlinux eMMC bootflow fallback."@,
        BootPatchStyle::TiYocto => "Set mmcdev=0 and rootfs bootpart=0:2."@,
    }
}

/// What is written for a style, and how it is reported.
#[derive(Clone, Copy, Debug)]
pub struct PatchPlan {
    pub content: &'static str,
    pub summary: &'static str,
    pub detail: &'static str,
}

/// What is written for a style, and how it is reported.
pub fn patch_plan(style: BootPatchStyle) -> (r: PatchPlan)
    ensures
        r.content@ == plan_content(style),
        r.summary@ == plan_summary(style),
        r.detail@ == plan_detail(style),
{
    match style {
        BootPatchStyle::ArmbianOrTiDebian => PatchPlan {
            content: "bootpart=0:1\nbootdir=\nfinduuid=part uuid mmc 0:2 uuid\nget_rd_mmc=load mmc ${bootpart} ${rdaddr} uInitrd\nuenvcmd=setenv mmcdev 0;setenv boot mmc;run get_rd_mmc;setenv rd_spec ${rdaddr}:${filesize};setexpr fdtfile sub ti/ti ti;run bootcmd_ti_mmc\n",
            summary: "updated uEnv.txt for eMMC boot on Armbian/TI Debian images",
            detail: "Set bootpart=0:1, rootfs lookup=mmc 0:2, and mmcdev=0; added an extlinux eMMC bootflow fallback.",
        },
        BootPatchStyle::TiYocto => PatchPlan {
            content: "mmcdev=0\nbootpart=0:2\nfinduuid=part uuid mmc ${bootpart} uuid\n",
            summary: "updated uEnv.txt for eMMC boot on TI Yocto images",
            detail: "Set mmcdev=0 and rootfs bootpart=0:2.",
        },
    }
}

/// The eMMC bootflow fallback written to `extlinux/extlinux.conf` for
/// Armbian-style images, whose built-in U-Boot environment starts on SD:
/// U-Boot's standard bootflow finds it on the eMMC boot partition and boots
/// the kernel from there with the root file system on the eMMC's second
/// partition. TI Yocto images need none.
pub open spec fn plan_extlinux(style: BootPatchStyle) -> Option<Seq<char>> {
    match style {
        BootPatchStyle::ArmbianOrTiDebian => Some(
            "default armbian-emmc\ntimeout 3\n\nlabel armbian-emmc\n    kernel /Image\n    fdtdir /dtb/\n    append root=/dev/mmcblk0p2 rootwait rw\n"@,
        ),
        BootPatchStyle::TiYocto => None,
    }
}

/// The eMMC bootflow fallback written for a style (see `plan_extlinux`).
pub fn extlinux_fallback(style: BootPatchStyle) -> (r: Option<&'static str>)
    ensures
        match r {
            Some(t) => plan_extlinux(style) == Some(t@),
            None => plan_extlinux(style) is None,
        },
{
    match style {
        BootPatchStyle::ArmbianOrTiDebian => Some(
            "default armbian-emmc\ntimeout 3\n\nlabel armbian-emmc\n    kernel /Image\n    fdtdir /dtb/\n    append root=/dev/mmcblk0p2 rootwait rw\n",
        ),
        BootPatchStyle::TiYocto => None,
    }
}

/// What to do with the mounted boot files: the report, the text to write to
/// `uEnv.txt`, and the text to write to `extlinux/extlinux.conf`, each when
/// it must be written.
#[derive(Debug)]
pub struct MountedPatch {
    pub report: BootPatchReport,
    pub write: Option<String>,
    pub extlinux_write: Option<String>,
}

/// Whether the boot files already hold what a style's plan writes:
/// `uEnv.txt` holds `original` and `extlinux/extlinux.conf` holds
/// `extlinux` (both empty where the file is missing).
pub open spec fn already_patched(style: BootPatchStyle, original: Seq<char>, extlinux: Seq<char>) -> bool {
    original == plan_content(style) && match plan_extlinux(style) {
        Some(e) => extlinux == e,
        None => true,
    }
}

/// The report lines naming the files a plan covers, each after `verb`.
pub open spec fn file_lines(style: BootPatchStyle, verb: Seq<char>, uenv_path: Seq<char>, extlinux_path: Seq<char>) -> Seq<
    Seq<char>,
> {
    seq![verb + uenv_path] + match plan_extlinux(style) {
        Some(_) => seq![verb + extlinux_path],
        None => Seq::empty(),
    }
}

/// What to do with boot files whose `uEnv.txt` holds `original` and whose
/// `extlinux/extlinux.conf` holds `extlinux` (empty where a file is
/// missing): skip unrecognized files, leave files already holding the
/// plan's texts, else write the plan's texts.
pub open spec fn mounted_patch_of(
    files: BootFiles,
    original: Seq<char>,
    extlinux: Seq<char>,
    partition: Seq<char>,
    uenv_path: Seq<char>,
    extlinux_path: Seq<char>,
) -> (ReportView, Option<Seq<char>>, Option<Seq<char>>) {
    match boot_style_of(files, original) {
        None => (
            report_of(
                BootPatchStatus::Skipped,
                "installed boot files were not recognized"@,
                seq!["Mounted "@ + partition],
            ),
            None,
            None,
        ),
        Some(style) => if already_patched(style, original, extlinux) {
            (
                report_of(
                    BootPatchStatus::AlreadyConfigured,
                    plan_summary(style),
                    seq!["Mounted "@ + partition] + file_lines(style, "Verified "@, uenv_path, extlinux_path),
                ),
                None,
                None,
            )
        } else {
            (
                report_of(
                    BootPatchStatus::Patched,
                    plan_summary(style),
                    seq!["Mounted "@ + partition] + file_lines(style, "Updated "@, uenv_path, extlinux_path)
                        + seq![plan_detail(style)],
                ),
                Some(plan_content(style)),
                plan_extlinux(style),
            )
        },
    }
}

fn push_file_lines(
    details: &mut Vec<String>,
    style: BootPatchStyle,
    verb: &str,
    uenv_path: &str,
    extlinux_path: &str,
)
    ensures
        strs(*final(details)) == strs(*old(details)) + file_lines(style, verb@, uenv_path@, extlinux_path@),
{
    let ghost before = strs(*details);
    let mut u = owned(verb);
    push_str(&mut u, uenv_path);
    details.push(u);
    assert(strs(*details) =~= before + seq![verb@ + uenv_path@]);
    match extlinux_fallback(style) {
        Some(_) => {
            let ghost mid = strs(*details);
            let mut e = owned(verb);
            push_str(&mut e, extlinux_path);
            details.push(e);
            assert(strs(*details) =~= mid + seq![verb@ + extlinux_path@]);
        },
        None => {},
    }
    assert(strs(*details) =~= before + file_lines(style, verb@, uenv_path@, extlinux_path@));
}

/// Decides what to do with mounted boot files (see `mounted_patch_of`).
pub fn plan_mounted_patch(
    files: BootFiles,
    original: &str,
    extlinux: &str,
    partition: &str,
    uenv_path: &str,
    extlinux_path: &str,
) -> (r: MountedPatch)
    ensures
        (r.report@, match r.write {
            Some(w) => Some(w@),
            None => None,
        }, match r.extlinux_write {
            Some(w) => Some(w@),
            None => None,
        }) == mounted_patch_of(files, original@, extlinux@, partition@, uenv_path@, extlinux_path@),
{
    let mut mounted = owned("Mounted ");
    push_str(&mut mounted, partition);
    let style = match detect_boot_patch_style(files, original) {
        Some(s) => s,
        None => {
            let details = vec![mounted];
            let r = MountedPatch {
                report: BootPatchReport::skipped("installed boot files were not recognized", details),
                write: None,
                extlinux_write: None,
            };
            assert(strs(details) =~= seq!["Mounted "@ + partition@]);
            return r;
        },
    };
    let plan = patch_plan(style);
    let fallback = extlinux_fallback(style);
    let configured = str_eq(original, plan.content) && match fallback {
        Some(e) => str_eq(extlinux, e),
        None => true,
    };
    let mut details = vec![mounted];
    assert(strs(details) =~= seq!["Mounted "@ + partition@]);
    if configured {
        push_file_lines(&mut details, style, "Verified ", uenv_path, extlinux_path);
        return MountedPatch {
            report: BootPatchReport::already_configured(plan.summary, details),
            write: None,
            extlinux_write: None,
        };
    }
    push_file_lines(&mut details, style, "Updated ", uenv_path, extlinux_path);
    let ghost before = strs(details);
    details.push(owned(plan.detail));
    assert(strs(details) =~= before + seq![plan_detail(style)]);
    MountedPatch {
        report: BootPatchReport::patched(plan.summary, details),
        write: Some(owned(plan.content)),
        extlinux_write: match fallback {
            Some(e) => Some(owned(e)),
            None => None,
        },
    }
}

/// The report once the boot partition was unmounted (or not): a successful
/// patch notes the unmount; a failed unmount turns the report into a
/// warning that keeps its details.
pub open spec fn finished_report_of(r: ReportView, unmount: Result<(), Seq<char>>, mount_dir: Seq<char>) -> ReportView {
    match unmount {
        Ok(()) => match r.status {
            BootPatchStatus::Patched | BootPatchStatus::AlreadyConfigured => ReportView {
                details: r.details.push("Unmounted "@ + mount_dir),
                ..r
            },
            _ => r,
        },
        Err(e) => report_of(
            BootPatchStatus::Warning,
            "boot partition may still be mounted"@,
            r.details.push("Unmount failed: "@ + e),
        ),
    }
}

/// The report once the boot partition was unmounted (see
/// `finished_report_of`).
pub fn finish_boot_patch(report: BootPatchReport, unmount: Result<(), String>, mount_dir: &str) -> (r:
    BootPatchReport)
    ensures
        r@ == finished_report_of(
            report@,
            match unmount {
                Ok(()) => Ok(()),
                Err(e) => Err(e@),
            },
            mount_dir@,
        ),
{
    let mut report = report;
    let ghost before = report@;
    match unmount {
        Ok(()) => {
            match report.status {
                BootPatchStatus::Patched | BootPatchStatus::AlreadyConfigured => {
                    let mut line = owned("Unmounted ");
                    push_str(&mut line, mount_dir);
                    report.details.push(line);
                    assert(report@ =~~= ReportView {
                        details: before.details.push("Unmounted "@ + mount_dir@),
                        ..before
                    });
                },
                _ => {},
            }
            report
        },
        Err(e) => {
            let mut line = owned("Unmount failed: ");
            push_str(&mut line, e.as_str());
            let mut details = report.details;
            details.push(line);
            let r = BootPatchReport::warning("boot partition may still be mounted", details);
            assert(r@ =~~= report_of(
                BootPatchStatus::Warning,
                "boot partition may still be mounted"@,
                before.details.push("Unmount failed: "@ + e@),
            ));
            r
        },
    }
}

/// The directory the boot partition is mounted on: under `/run` when it
/// exists, else under `/tmp`, named after the installer's process id.
pub open spec fn mount_dir_of(run_exists: bool, pid: u32) -> Seq<char> {
    (if run_exists {
        "/run"@
    } else {
        "/tmp"@
    }) + "/tobi-installed-boot-"@ + decimal(pid as nat)
}

/// The directory the boot partition is mounted on (see `mount_dir_of`).
pub fn boot_patch_mount_dir(run_exists: bool, pid: u32) -> (r: String)
    ensures
        r@ == mount_dir_of(run_exists, pid),
{
    let mut s = owned(if run_exists { "/run" } else { "/tmp" });
    push_str(&mut s, "/tobi-installed-boot-");
    push_decimal(&mut s, pid as u64);
    s
}

} // verus!
verus! {

/// Whether `c` never occurs in `s` from position `i` on.
pub open spec fn lacks_from(s: Seq<char>, c: char, i: int) -> bool
    decreases s.len() - i,
{
    if i < 0 || i >= s.len() {
        true
    } else {
        s[i] != c && lacks_from(s, c, i + 1)
    }
}

proof fn lemma_lacks(s: Seq<char>, c: char, i: int, j: int)
    requires
        lacks_from(s, c, i),
        0 <= i <= j < s.len(),
    ensures
        s[j] != c,
    decreases j - i,
{
    if i < j {
        lemma_lacks(s, c, i + 1, j);
    }
}

proof fn lemma_absent_char(s: Seq<char>, n: Seq<char>, k: int)
    requires
        0 <= k < n.len(),
        lacks_from(s, n[k], 0),
    ensures
        !has_infix(s, n),
{
    if has_infix(s, n) {
        let i = choose|i: int| occurs_at(s, n, i);
        assert(s.subrange(i, i + n.len())[k] == n[k]);
        lemma_lacks(s, n[k], 0, i + k);
    }
}

/// Patching is idempotent, for every layout it recognizes: the texts
/// written for a style are recognized as that style again, so a second run
/// over the same boot files, after the first run's writes, finds them
/// already configured and writes nothing.
pub proof fn lemma_patch_idempotent(
    files: BootFiles,
    original: Seq<char>,
    extlinux: Seq<char>,
    partition: Seq<char>,
    uenv_path: Seq<char>,
    extlinux_path: Seq<char>,
)
    requires
        boot_style_of(files, original) is Some,
    ensures
        ({
            let style = boot_style_of(files, original).unwrap();
            let first = mounted_patch_of(files, original, extlinux, partition, uenv_path, extlinux_path);
            let uenv_after = match first.1 {
                Some(w) => w,
                None => original,
            };
            let extlinux_after = match first.2 {
                Some(w) => w,
                None => extlinux,
            };
            let again = mounted_patch_of(
                files,
                uenv_after,
                extlinux_after,
                partition,
                uenv_path,
                extlinux_path,
            );
            &&& boot_style_of(files, uenv_after) == Some(style)
            &&& again.0.status == BootPatchStatus::AlreadyConfigured
            &&& again.1 is None
            &&& again.2 is None
        }),
{
    let armbian = plan_content(BootPatchStyle::ArmbianOrTiDebian);
    let yocto = plan_content(BootPatchStyle::TiYocto);
    reveal_strlit(
        "bootpart=0:1\nbootdir=\nfinduuid=part uuid mmc 0:2 uuid\nget_rd_mmc=load mmc ${bootpart} ${rdaddr} uInitrd\nuenvcmd=setenv mmcdev 0;setenv boot mmc;run get_rd_mmc;setenv rd_spec ${rdaddr}:${filesize};setexpr fdtfile sub ti/ti ti;run bootcmd_ti_mmc\n",
    );
    reveal_strlit("mmcdev=0\nbootpart=0:2\nfinduuid=part uuid mmc ${bootpart} uuid\n");
    reveal_strlit("get_rd_mmc");
    reveal_strlit("mmcdev");
    reveal_strlit("uInitrd");
    assert(armbian.subrange(54, 64) =~= "get_rd_mmc"@);
    assert(occurs_at(armbian, "get_rd_mmc"@, 54));
    assert(yocto.subrange(0, 6) =~= "mmcdev"@);
    assert(occurs_at(yocto, "mmcdev"@, 0));
    let spelled: Seq<char> = seq!['m', 'm', 'c', 'd', 'e', 'v', '=', '0', '\n', 'b', 'o', 'o', 't', 'p', 'a', 'r', 't', '=', '0', ':', '2', '\n', 'f', 'i', 'n', 'd', 'u', 'u', 'i', 'd', '=', 'p', 'a', 'r', 't', ' ', 'u', 'u', 'i', 'd', ' ', 'm', 'm', 'c', ' ', '$', '{', 'b', 'o', 'o', 't', 'p', 'a', 'r', 't', '}', ' ', 'u', 'u', 'i', 'd', '\n'];
    assert(yocto =~= spelled);
    assert(lacks_from(spelled, 'I', 0)) by {
        reveal_with_fuel(lacks_from, 64);
    }
    assert(lacks_from(spelled, '_', 0)) by {
        reveal_with_fuel(lacks_from, 64);
    }
    lemma_absent_char(yocto, "uInitrd"@, 1);
    lemma_absent_char(yocto, "get_rd_mmc"@, 3);
}

} // verus!
