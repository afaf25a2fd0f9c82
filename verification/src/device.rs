//! Install targets: their records, how they are classified and listed, and
//! how their sizes are shown.

use vstd::prelude::*;
use vstd::string::*;

use crate::installer::RunMode;
use crate::manifest::{opt_str, spec_is_remote};
use crate::sort::{DisplayOrder, stable_sort, stable_sorted, views};
use crate::text::{
    all_ws, char_order, clone_opt_string, decimal, digit_char, has_infix, has_prefix, lemma_char_order_basics,
    lemma_char_order_trans, owned, push_char, push_decimal, push_str, starts_with, contains, compare_str,
    parse_u64, spec_parse_u64, trim, trimmed, is_blank,
};

verus! {

/// A block device or file that an image can be written to.
#[derive(Clone, Debug)]
pub struct InstallTarget {
    pub id: String,
    pub name: String,
    pub path: String,
    pub size_bytes: Option<u64>,
    pub kind: TargetKind,
    pub removable: bool,
    pub partitions: Vec<TargetPartition>,
    pub warning: Option<String>,
}

/// A partition found on an install target.
#[derive(Clone, Debug)]
pub struct TargetPartition {
    pub name: String,
    pub path: String,
    pub size_bytes: Option<u64>,
}

/// What sort of medium a target is.
#[derive(Clone, Copy, Debug, PartialEq, Eq, Structural)]
pub enum TargetKind {
    Emmc,
    Sd,
    Usb,
    Nvme,
    File,
    Unknown,
}

/// Whether targets are simulated or real.
#[derive(Clone, Copy, Debug, PartialEq, Eq, Structural)]
pub enum DeviceMode {
    Mock,
    Live,
}

/// A partition, with strings taken as character sequences.
#[verifier::ext_equal]
pub ghost struct PartitionView {
    pub name: Seq<char>,
    pub path: Seq<char>,
    pub size_bytes: Option<u64>,
}

/// An install target, with strings taken as character sequences.
#[verifier::ext_equal]
pub ghost struct TargetView {
    pub id: Seq<char>,
    pub name: Seq<char>,
    pub path: Seq<char>,
    pub size_bytes: Option<u64>,
    pub kind: TargetKind,
    pub removable: bool,
    pub partitions: Seq<PartitionView>,
    pub warning: Option<Seq<char>>,
}

impl View for TargetPartition {
    type V = PartitionView;

    open spec fn view(&self) -> PartitionView {
        PartitionView { name: self.name@, path: self.path@, size_bytes: self.size_bytes }
    }
}

/// The views of a list of partitions.
pub open spec fn partitions_view(v: Seq<TargetPartition>) -> Seq<PartitionView> {
    v.map_values(|p: TargetPartition| p@)
}

impl View for InstallTarget {
    type V = TargetView;

    open spec fn view(&self) -> TargetView {
        TargetView {
            id: self.id@,
            name: self.name@,
            path: self.path@,
            size_bytes: self.size_bytes,
            kind: self.kind,
            removable: self.removable,
            partitions: partitions_view(self.partitions@),
            warning: opt_str(self.warning),
        }
    }
}

/// The views of a list of targets.
pub open spec fn targets_view(v: Seq<InstallTarget>) -> Seq<TargetView> {
    v.map_values(|t: InstallTarget| t@)
}

impl TargetPartition {
    /// A field-by-field copy.
    pub fn duplicate(&self) -> (r: Self)
        ensures
            r@ == self@,
    {
        TargetPartition { name: self.name.clone(), path: self.path.clone(), size_bytes: self.size_bytes }
    }
}

impl InstallTarget {
    /// A field-by-field copy.
    pub fn duplicate(&self) -> (r: Self)
        ensures
            r@ == self@,
    {
        let mut partitions: Vec<TargetPartition> = Vec::new();
        let mut i: usize = 0;
        while i < self.partitions.len()
            invariant
                i <= self.partitions@.len(),
                partitions@.len() == i,
                forall|j: int| 0 <= j < i ==> (#[trigger] partitions@[j])@ == self.partitions@[j]@,
            decreases self.partitions@.len() - i,
        {
            partitions.push(self.partitions[i].duplicate());
            i = i + 1;
        }
        assert(partitions_view(partitions@) =~= partitions_view(self.partitions@));
        InstallTarget {
            id: self.id.clone(),
            name: self.name.clone(),
            path: self.path.clone(),
            size_bytes: self.size_bytes,
            kind: self.kind,
            removable: self.removable,
            partitions,
            warning: clone_opt_string(&self.warning),
        }
    }
}

impl DeviceMode {
    /// The device mode that a run mode calls for.
    pub fn from_run_mode(mode: RunMode) -> (r: Self)
        ensures
            r == spec_device_mode(mode),
    {
        match mode {
            RunMode::Mock => DeviceMode::Mock,
            RunMode::Live => DeviceMode::Live,
        }
    }
}

pub open spec fn spec_device_mode(mode: RunMode) -> DeviceMode {
    match mode {
        RunMode::Mock => DeviceMode::Mock,
        RunMode::Live => DeviceMode::Live,
    }
}

/// The short label of a target kind.
pub open spec fn kind_label(k: TargetKind) -> Seq<char> {
    match k {
        TargetKind::Emmc => "eMMC"@,
        TargetKind::Sd => "SD"@,
        TargetKind::Usb => "USB"@,
        TargetKind::Nvme => "NVMe"@,
        TargetKind::File => "file"@,
        TargetKind::Unknown => "storage"@,
    }
}

impl TargetKind {
    /// The short label of the kind.
    pub fn label(self) -> (r: &'static str)
        ensures
            r@ == kind_label(self),
    {
        match self {
            TargetKind::Emmc => "eMMC",
            TargetKind::Sd => "SD",
            TargetKind::Usb => "USB",
            TargetKind::Nvme => "NVMe",
            TargetKind::File => "file",
            TargetKind::Unknown => "storage",
        }
    }
}

pub open spec fn pow1024(u: nat) -> nat
    decreases u,
{
    if u == 0 {
        1
    } else {
        1024 * pow1024((u - 1) as nat)
    }
}

/// The binary unit that a byte count is shown in: the largest of B, KiB,
/// MiB, GiB and TiB that the count reaches.
pub open spec fn size_unit(b: nat) -> nat {
    if b >= pow1024(4) {
        4
    } else if b >= pow1024(3) {
        3
    } else if b >= pow1024(2) {
        2
    } else if b >= pow1024(1) {
        1
    } else {
        0
    }
}

pub open spec fn unit_name(u: nat) -> Seq<char> {
    if u == 0 {
        "B"@
    } else if u == 1 {
        "KiB"@
    } else if u == 2 {
        "MiB"@
    } else if u == 3 {
        "GiB"@
    } else {
        "TiB"@
    }
}

/// `n / d` rounded to the nearest integer, ties to the even one.
pub open spec fn round_half_even(n: nat, d: nat) -> nat
    recommends
        d > 0,
{
    let q = n / d;
    let r = n % d;
    if 2 * r > d {
        q + 1
    } else if 2 * r < d {
        q
    } else if q % 2 == 0 {
        q
    } else {
        q + 1
    }
}

/// A count of tenths written with one decimal place, such as `16.0`.
pub open spec fn one_decimal(tenths: nat) -> Seq<char> {
    decimal(tenths / 10) + seq!['.', digit_char(tenths % 10)]
}

/// A byte count in the largest binary unit it reaches, with one decimal
/// place above plain bytes: `512 B`, `1.5 KiB`, `16.0 GiB`.
pub open spec fn size_text(b: nat) -> Seq<char> {
    let u = size_unit(b);
    if u == 0 {
        decimal(b) + " B"@
    } else {
        one_decimal(round_half_even(b * 10, pow1024(u))) + " "@ + unit_name(u)
    }
}

/// What `format_bytes` shows.
pub open spec fn format_bytes_text(b: Option<u64>) -> Seq<char> {
    match b {
        Some(b) => size_text(b as nat),
        None => "unknown size"@,
    }
}

/// Exec `round_half_even`.
pub fn div_round_half_even(n: u128, d: u128) -> (r: u128)
    requires
        d > 0,
        n / d < u128::MAX,
    ensures
        r as nat == round_half_even(n as nat, d as nat),
{
    let q = n / d;
    let r = n % d;
    if r > d - r {
        q + 1
    } else if r < d - r {
        q
    } else if q % 2 == 0 {
        q
    } else {
        q + 1
    }
}

/// Appends `one_decimal(tenths)`.
pub fn push_one_decimal(s: &mut String, tenths: u128)
    requires
        tenths / 10 <= u64::MAX,
    ensures
        final(s)@ == old(s)@ + one_decimal(tenths as nat),
{
    push_decimal(s, (tenths / 10) as u64);
    push_char(s, '.');
    let d = (tenths % 10) as u64;
    let c = match d {
        0 => '0', 1 => '1', 2 => '2', 3 => '3', 4 => '4', 5 => '5', 6 => '6', 7 => '7',
        8 => '8', _ => '9',
    };
    push_char(s, c);
    assert(old(s)@ + decimal((tenths / 10) as nat) + seq!['.'] + seq![c] =~= old(s)@ + one_decimal(
        tenths as nat,
    ));
}

proof fn lemma_pow1024_values()
    ensures
        pow1024(0) == 1,
        pow1024(1) == 1024,
        pow1024(2) == 1048576,
        pow1024(3) == 1073741824,
        pow1024(4) == 1099511627776,
{
    reveal_with_fuel(pow1024, 5);
}

/// Appends `size_text(b)`.
pub fn push_size_text(s: &mut String, b: u64)
    ensures
        final(s)@ == old(s)@ + size_text(b as nat),
{
    proof {
        lemma_pow1024_values();
    }
    let (div, unit): (u128, &str) = if b >= 1099511627776 {
        (1099511627776, "TiB")
    } else if b >= 1073741824 {
        (1073741824, "GiB")
    } else if b >= 1048576 {
        (1048576, "MiB")
    } else if b >= 1024 {
        (1024, "KiB")
    } else {
        (1, "B")
    };
    if div == 1 {
        push_decimal(s, b);
        push_str(s, " B");
        assert(old(s)@ + decimal(b as nat) + " B"@ =~= old(s)@ + size_text(b as nat));
    } else {
        let tenths = div_round_half_even((b as u128) * 10, div);
        assert(tenths as nat / 10 <= u64::MAX) by {
            assert((b as nat) * 10 / (div as nat) <= (b as nat) * 10 / 1024) by (nonlinear_arith)
                requires
                    div >= 1024,
            ;
        }
        push_one_decimal(s, tenths);
        push_str(s, " ");
        push_str(s, unit);
        assert(old(s)@ + one_decimal(tenths as nat) + " "@ + unit@ =~= old(s)@ + size_text(
            b as nat,
        ));
    }
}

/// A byte count for display, or `unknown size`.
pub fn format_bytes(bytes: Option<u64>) -> (r: String)
    ensures
        r@ == format_bytes_text(bytes),
{
    match bytes {
        Some(b) => {
            let mut s = String::new();
            push_size_text(&mut s, b);
            assert(Seq::<char>::empty() + size_text(b as nat) =~= size_text(b as nat));
            s
        },
        None => owned("unknown size"),
    }
}


/// The last component of a path, as `Path::file_name` gives it (then taken
/// as UTF-8 text). Named: its rules for `.`, `..` and repeated separators
/// are std's own.
pub uninterp spec fn path_file_name(path: Seq<char>) -> Option<Seq<char>>;

/// `Path::file_name` on a path given as text. `Path::new` borrows the text,
/// `file_name` returns the final normal component (or `None` when the path
/// ends in `..` or has no component), and `to_str` is lossless because the
/// path came from a `&str`.
#[verifier::external_body]
pub fn file_name_of(path: &str) -> (r: Option<String>)
    ensures
        opt_str(r) == path_file_name(path@),
{
    match std::path::Path::new(path).file_name() {
        Some(name) => match name.to_str() {
            Some(text) => Some(text.to_string()),
            None => None,
        },
        None => None,
    }
}

/// The kind a device name announces.
pub open spec fn kind_of_name(name: Seq<char>) -> TargetKind {
    if has_prefix(name, "mmcblk"@) {
        TargetKind::Emmc
    } else if has_prefix(name, "sd"@) {
        TargetKind::Usb
    } else if has_prefix(name, "nvme"@) {
        TargetKind::Nvme
    } else {
        TargetKind::Unknown
    }
}

/// The kind of a target named by path (its file name decides).
pub open spec fn spec_infer_kind(path: Seq<char>) -> TargetKind {
    match path_file_name(path) {
        Some(n) => kind_of_name(n),
        None => kind_of_name(Seq::empty()),
    }
}

/// Classifies a target by the file name of its path.
pub fn infer_kind(path: &str) -> (r: TargetKind)
    ensures
        r == spec_infer_kind(path@),
{
    let name = match file_name_of(path) {
        Some(n) => n,
        None => String::new(),
    };
    let n = name.as_str();
    if starts_with(n, "mmcblk") {
        TargetKind::Emmc
    } else if starts_with(n, "sd") {
        TargetKind::Usb
    } else if starts_with(n, "nvme") {
        TargetKind::Nvme
    } else {
        TargetKind::Unknown
    }
}

/// The kind of a Linux block device: MMC devices are SD cards when removable
/// and eMMC otherwise.
pub open spec fn spec_linux_kind(name: Seq<char>, removable: bool) -> TargetKind {
    if has_prefix(name, "mmcblk"@) {
        if removable {
            TargetKind::Sd
        } else {
            TargetKind::Emmc
        }
    } else {
        kind_of_name(name)
    }
}

/// Classifies a Linux block device by name and removability.
pub fn infer_linux_kind(name: &str, removable: bool) -> (r: TargetKind)
    ensures
        r == spec_linux_kind(name@, removable),
{
    if starts_with(name, "mmcblk") {
        if removable {
            TargetKind::Sd
        } else {
            TargetKind::Emmc
        }
    } else if starts_with(name, "sd") {
        TargetKind::Usb
    } else if starts_with(name, "nvme") {
        TargetKind::Nvme
    } else {
        TargetKind::Unknown
    }
}

/// Whether a block device is offered as a target: loop, RAM, MTD, device-mapper
/// and optical devices are not, nor the boot and RPMB areas of an MMC device.
pub open spec fn spec_visible_root(name: Seq<char>) -> bool {
    &&& !has_prefix(name, "loop"@)
    &&& !has_prefix(name, "ram"@)
    &&& !has_prefix(name, "zram"@)
    &&& !has_prefix(name, "mtdblock"@)
    &&& !has_prefix(name, "dm-"@)
    &&& !has_prefix(name, "sr"@)
    &&& !(has_prefix(name, "mmcblk"@) && (has_infix(name, "boot"@) || has_infix(name, "rpmb"@)))
}

/// Whether a block device is offered as an install target.
pub fn is_visible_root_block_device(name: &str) -> (r: bool)
    ensures
        r == spec_visible_root(name@),
{
    if starts_with(name, "loop") || starts_with(name, "ram") || starts_with(name, "zram")
        || starts_with(name, "mtdblock") || starts_with(name, "dm-") || starts_with(name, "sr") {
        return false;
    }
    !(starts_with(name, "mmcblk") && (contains(name, "boot") || contains(name, "rpmb")))
}

/// The order in which target kinds are listed.
pub open spec fn kind_rank(k: TargetKind) -> u8 {
    match k {
        TargetKind::Emmc => 0,
        TargetKind::Sd => 1,
        TargetKind::Usb => 2,
        TargetKind::Nvme => 3,
        TargetKind::File => 4,
        TargetKind::Unknown => 9,
    }
}

/// The order in which target kinds are listed.
pub fn target_kind_rank(kind: TargetKind) -> (r: u8)
    ensures
        r == kind_rank(kind),
{
    match kind {
        TargetKind::Emmc => 0,
        TargetKind::Sd => 1,
        TargetKind::Usb => 2,
        TargetKind::Nvme => 3,
        TargetKind::File => 4,
        TargetKind::Unknown => 9,
    }
}

/// Targets are listed by kind, then name, then id.
pub open spec fn target_le(a: TargetView, b: TargetView) -> bool {
    if kind_rank(a.kind) != kind_rank(b.kind) {
        kind_rank(a.kind) < kind_rank(b.kind)
    } else if a.name != b.name {
        char_order(a.name, b.name) < 0
    } else {
        char_order(a.id, b.id) <= 0
    }
}

impl DisplayOrder for InstallTarget {
    open spec fn spec_le(a: TargetView, b: TargetView) -> bool {
        target_le(a, b)
    }

    fn le(a: &Self, b: &Self) -> (r: bool) {
        let ra = target_kind_rank(a.kind);
        let rb = target_kind_rank(b.kind);
        if ra != rb {
            return ra < rb;
        }
        let c = compare_str(a.name.as_str(), b.name.as_str());
        proof {
            lemma_char_order_basics(a.name@, b.name@);
        }
        if c != 0 {
            return c < 0;
        }
        compare_str(a.id.as_str(), b.id.as_str()) <= 0
    }

    proof fn lemma_total(a: TargetView, b: TargetView) {
        lemma_char_order_basics(a.name, b.name);
        lemma_char_order_basics(a.id, b.id);
    }

    proof fn lemma_trans(a: TargetView, b: TargetView, c: TargetView) {
        lemma_char_order_basics(a.name, b.name);
        lemma_char_order_basics(b.name, c.name);
        lemma_char_order_basics(a.name, c.name);
        lemma_char_order_basics(a.id, b.id);
        lemma_char_order_basics(b.id, c.id);
        lemma_char_order_basics(a.id, c.id);
        if char_order(a.name, b.name) <= 0 && char_order(b.name, c.name) <= 0 {
            lemma_char_order_trans(a.name, b.name, c.name);
        }
        if char_order(a.id, b.id) <= 0 && char_order(b.id, c.id) <= 0 {
            lemma_char_order_trans(a.id, b.id, c.id);
        }
    }
}

/// Partitions are listed by name.
impl DisplayOrder for TargetPartition {
    open spec fn spec_le(a: PartitionView, b: PartitionView) -> bool {
        char_order(a.name, b.name) <= 0
    }

    fn le(a: &Self, b: &Self) -> (r: bool) {
        compare_str(a.name.as_str(), b.name.as_str()) <= 0
    }

    proof fn lemma_total(a: PartitionView, b: PartitionView) {
        lemma_char_order_basics(a.name, b.name);
    }

    proof fn lemma_trans(a: PartitionView, b: PartitionView, c: PartitionView) {
        lemma_char_order_trans(a.name, b.name, c.name);
    }
}

fn partition(name: &str, path: &str, size: u64) -> (r: TargetPartition)
    ensures
        r@ == (PartitionView { name: name@, path: path@, size_bytes: Some(size) }),
{
    TargetPartition { name: owned(name), path: owned(path), size_bytes: Some(size) }
}

/// The simulated targets of mock mode.
pub open spec fn mock_target_views() -> Seq<TargetView> {
    seq![
        TargetView {
            id: "mock-emmc"@,
            name: "SK-AM62P-LP eMMC"@,
            path: "/dev/mmcblk0"@,
            size_bytes: Some(17179869184),
            kind: TargetKind::Emmc,
            removable: false,
            partitions: seq![
                PartitionView { name: "boot"@, path: "/dev/mmcblk0p1"@, size_bytes: Some(134217728) },
                PartitionView {
                    name: "rootfs"@,
                    path: "/dev/mmcblk0p2"@,
                    size_bytes: Some(16106127360),
                },
            ],
            warning: Some("mock target; no data will be written"@),
        },
        TargetView {
            id: "mock-usb"@,
            name: "USB recovery media"@,
            path: "/dev/sda"@,
            size_bytes: Some(34359738368),
            kind: TargetKind::Usb,
            removable: true,
            partitions: Seq::empty(),
            warning: Some("mock target; no data will be written"@),
        },
        TargetView {
            id: "mock-sd"@,
            name: "SD card media"@,
            path: "/dev/mmcblk1"@,
            size_bytes: Some(68719476736),
            kind: TargetKind::Sd,
            removable: true,
            partitions: seq![
                PartitionView { name: "boot"@, path: "/dev/mmcblk1p1"@, size_bytes: Some(268435456) },
            ],
            warning: Some("mock target; no data will be written"@),
        },
    ]
}

/// The simulated targets of mock mode: an eMMC, a USB drive and an SD card.
pub fn mock_targets() -> (r: Vec<InstallTarget>)
    ensures
        targets_view(r@) == mock_target_views(),
{
    let mut emmc_parts: Vec<TargetPartition> = Vec::new();
    emmc_parts.push(partition("boot", "/dev/mmcblk0p1", 134217728));
    emmc_parts.push(partition("rootfs", "/dev/mmcblk0p2", 16106127360));
    let mut sd_parts: Vec<TargetPartition> = Vec::new();
    sd_parts.push(partition("boot", "/dev/mmcblk1p1", 268435456));
    let mut r: Vec<InstallTarget> = Vec::new();
    r.push(
        InstallTarget {
            id: owned("mock-emmc"),
            name: owned("SK-AM62P-LP eMMC"),
            path: owned("/dev/mmcblk0"),
            size_bytes: Some(17179869184),
            kind: TargetKind::Emmc,
            removable: false,
            partitions: emmc_parts,
            warning: Some(owned("mock target; no data will be written")),
        },
    );
    r.push(
        InstallTarget {
            id: owned("mock-usb"),
            name: owned("USB recovery media"),
            path: owned("/dev/sda"),
            size_bytes: Some(34359738368),
            kind: TargetKind::Usb,
            removable: true,
            partitions: Vec::new(),
            warning: Some(owned("mock target; no data will be written")),
        },
    );
    r.push(
        InstallTarget {
            id: owned("mock-sd"),
            name: owned("SD card media"),
            path: owned("/dev/mmcblk1"),
            size_bytes: Some(68719476736),
            kind: TargetKind::Sd,
            removable: true,
            partitions: sd_parts,
            warning: Some(owned("mock target; no data will be written")),
        },
    );
    proof {
        reveal_strlit("mock target; no data will be written");
    }
    assert(targets_view(r@) =~~= mock_target_views());
    r
}

/// What is known of a path named on the command line.
#[derive(Clone, Copy, Debug)]
pub struct PathMetadata {
    pub is_file: bool,
    pub len: u64,
}

/// A partition entry found under a block device in sysfs.
#[derive(Clone, Debug)]
pub struct PartitionInfo {
    pub name: String,
    /// The text of its `size` file, when it could be read.
    pub size: Option<String>,
}

/// What sysfs tells of one block device.
#[derive(Clone, Debug)]
pub struct BlockDeviceInfo {
    pub name: String,
    /// The text of its `removable` file, when it could be read.
    pub removable: Option<String>,
    /// The text of its `size` file (in 512-byte sectors), when it could be read.
    pub size: Option<String>,
    /// The text of its `device/model` file, when it could be read.
    pub model: Option<String>,
    pub partitions: Vec<PartitionInfo>,
}

/// What the caller found out about the machine's storage for live mode.
#[derive(Debug)]
pub enum LiveProbe {
    /// Live scanning is not available on this platform.
    Unsupported,
    /// A target named on the command line, and its metadata or the error met.
    TargetPath { path: String, metadata: Result<PathMetadata, String> },
    /// The block devices listed under `/sys/block`, or the error met.
    SysBlock(Result<Vec<BlockDeviceInfo>, String>),
}

/// Why targets could not be listed.
#[derive(Clone, Debug)]
pub enum DeviceError {
    Unsupported,
    TargetInaccessible { path: String, detail: String },
    SysBlockUnreadable(String),
    NoBlockDevices,
}

pub open spec fn device_error_message(e: DeviceError) -> Seq<char> {
    match e {
        DeviceError::Unsupported => "live block device scanning is only implemented on Linux; pass --target to test with a file"@,
        DeviceError::TargetInaccessible { path, detail } => "target "@ + path@ + " is not accessible: "@ + detail@,
        DeviceError::SysBlockUnreadable(detail) => "failed to read /sys/block: "@ + detail@,
        DeviceError::NoBlockDevices => "no writable block devices were found"@,
    }
}

impl DeviceError {
    /// The message shown for this error.
    pub fn message(&self) -> (r: String)
        ensures
            r@ == device_error_message(*self),
    {
        match self {
            DeviceError::Unsupported => owned(
                "live block device scanning is only implemented on Linux; pass --target to test with a file",
            ),
            DeviceError::TargetInaccessible { path, detail } => {
                let mut s = owned("target ");
                push_str(&mut s, path.as_str());
                push_str(&mut s, " is not accessible: ");
                push_str(&mut s, detail.as_str());
                s
            },
            DeviceError::SysBlockUnreadable(detail) => {
                let mut s = owned("failed to read /sys/block: ");
                push_str(&mut s, detail.as_str());
                s
            },
            DeviceError::NoBlockDevices => owned("no writable block devices were found"),
        }
    }
}

/// The display name of a target given by path.
pub open spec fn path_target_name(k: TargetKind) -> Seq<char> {
    match k {
        TargetKind::File => "File target"@,
        TargetKind::Emmc => "eMMC target"@,
        TargetKind::Sd => "SD target"@,
        TargetKind::Usb => "USB/storage target"@,
        TargetKind::Nvme => "NVMe target"@,
        TargetKind::Unknown => "Block target"@,
    }
}

/// The target for a path named on the command line: a regular file is a file
/// target of its size; anything else is classified by its name.
pub open spec fn path_target_view(path: Seq<char>, meta: PathMetadata) -> TargetView {
    let kind = if meta.is_file {
        TargetKind::File
    } else {
        spec_infer_kind(path)
    };
    TargetView {
        id: path,
        name: path_target_name(kind),
        path: path,
        size_bytes: if meta.is_file {
            Some(meta.len)
        } else {
            None
        },
        kind: kind,
        removable: false,
        partitions: Seq::empty(),
        warning: Some("live target; writing requires --allow-write"@),
    }
}

/// The target for a path named on the command line.
pub fn target_from_path(path: &str, meta: PathMetadata) -> (r: InstallTarget)
    ensures
        r@ == path_target_view(path@, meta),
{
    let kind = if meta.is_file {
        TargetKind::File
    } else {
        infer_kind(path)
    };
    let name = match kind {
        TargetKind::File => owned("File target"),
        TargetKind::Emmc => owned("eMMC target"),
        TargetKind::Sd => owned("SD target"),
        TargetKind::Usb => owned("USB/storage target"),
        TargetKind::Nvme => owned("NVMe target"),
        TargetKind::Unknown => owned("Block target"),
    };
    let r = InstallTarget {
        id: owned(path),
        name,
        path: owned(path),
        size_bytes: if meta.is_file {
            Some(meta.len)
        } else {
            None
        },
        kind,
        removable: false,
        partitions: Vec::new(),
        warning: Some(owned("live target; writing requires --allow-write")),
    };
    proof {
        reveal_strlit("live target; writing requires --allow-write");
    }
    assert(r@ =~~= path_target_view(path@, meta));
    r
}

/// A sysfs size in 512-byte sectors, as bytes (saturating).
pub open spec fn sectors_to_bytes(text: Option<Seq<char>>) -> Option<u64> {
    match text {
        Some(t) => match spec_parse_u64(trimmed(t)) {
            Some(n) => Some(if n * 512 > u64::MAX {
                u64::MAX
            } else {
                (n * 512) as u64
            }),
            None => None,
        },
        None => None,
    }
}

fn sectors_bytes(text: &Option<String>) -> (r: Option<u64>)
    ensures
        r == sectors_to_bytes(opt_str(*text)),
{
    match text {
        Some(t) => {
            let trimmed_text = trim(t.as_str());
            match parse_u64(trimmed_text.as_str()) {
                Some(n) => Some(if n > u64::MAX / 512 { u64::MAX } else { n * 512 }),
                None => None,
            }
        },
        None => None,
    }
}

/// The device path for a sysfs name.
fn dev_path(name: &str) -> (r: String)
    ensures
        r@ == "/dev/"@ + name@,
{
    let mut s = owned("/dev/");
    push_str(&mut s, name);
    s
}

/// A partition as sysfs describes it.
pub open spec fn partition_view_of(p: PartitionInfo) -> PartitionView {
    PartitionView { name: p.name@, path: "/dev/"@ + p.name@, size_bytes: sectors_to_bytes(opt_str(p.size)) }
}

/// Whether sysfs marks a device removable.
pub open spec fn removable_of(text: Option<Seq<char>>) -> bool {
    match text {
        Some(t) => trimmed(t) == "1"@,
        None => false,
    }
}

/// The display name of a block device: its model when sysfs gives a
/// non-blank one, else its name.
pub open spec fn block_name_of(info: BlockDeviceInfo) -> Seq<char> {
    match info.model {
        Some(m) => if trimmed(m@).len() > 0 {
            trimmed(m@)
        } else {
            info.name@
        },
        None => info.name@,
    }
}

/// The target for a block device, before partitions are sorted.
pub open spec fn block_target_view(info: BlockDeviceInfo, partitions: Seq<PartitionView>) -> TargetView {
    let removable = removable_of(opt_str(info.removable));
    TargetView {
        id: info.name@,
        name: block_name_of(info),
        path: "/dev/"@ + info.name@,
        size_bytes: sectors_to_bytes(opt_str(info.size)),
        kind: spec_linux_kind(info.name@, removable),
        removable: removable,
        partitions: partitions,
        warning: Some("live target; writing requires --allow-write"@),
    }
}

/// The partitions of a block device, sorted by name.
pub open spec fn block_partitions_view(info: BlockDeviceInfo) -> Seq<PartitionView> {
    stable_sorted::<TargetPartition>(info.partitions@.map_values(|p: PartitionInfo| partition_view_of(p)))
}

/// The install target that a sysfs block device becomes.
pub open spec fn block_target(info: BlockDeviceInfo) -> TargetView {
    block_target_view(info, block_partitions_view(info))
}

/// The visible block devices, as targets, in the order sysfs listed them.
pub open spec fn visible_block_targets(infos: Seq<BlockDeviceInfo>) -> Seq<TargetView>
    decreases infos.len(),
{
    if infos.len() == 0 {
        Seq::empty()
    } else {
        let rest = visible_block_targets(infos.drop_last());
        if spec_visible_root(infos.last().name@) {
            rest.push(block_target(infos.last()))
        } else {
            rest
        }
    }
}

fn block_target_of(info: &BlockDeviceInfo) -> (r: InstallTarget)
    ensures
        r@ == block_target(*info),
{
    let mut partitions: Vec<TargetPartition> = Vec::new();
    let mut i: usize = 0;
    while i < info.partitions.len()
        invariant
            i <= info.partitions@.len(),
            partitions@.len() == i,
            forall|j: int|
                0 <= j < i ==> (#[trigger] partitions@[j])@ == partition_view_of(info.partitions@[j]),
        decreases info.partitions@.len() - i,
    {
        let p = &info.partitions[i];
        partitions.push(
            TargetPartition {
                name: p.name.clone(),
                path: dev_path(p.name.as_str()),
                size_bytes: sectors_bytes(&p.size),
            },
        );
        i = i + 1;
    }
    assert(views(partitions@) =~= info.partitions@.map_values(|p: PartitionInfo| partition_view_of(p)));
    stable_sort(&mut partitions);
    let removable = match &info.removable {
        Some(t) => {
            let tt = trim(t.as_str());
            let r = crate::text::str_eq(tt.as_str(), "1");
            r
        },
        None => false,
    };
    let name = match &info.model {
        Some(m) => {
            let tm = trim(m.as_str());
            if tm.as_str().unicode_len() > 0 {
                tm
            } else {
                info.name.clone()
            }
        },
        None => info.name.clone(),
    };
    let kind = infer_linux_kind(info.name.as_str(), removable);
    let r = InstallTarget {
        id: info.name.clone(),
        name,
        path: dev_path(info.name.as_str()),
        size_bytes: sectors_bytes(&info.size),
        kind,
        removable,
        partitions,
        warning: Some(owned("live target; writing requires --allow-write")),
    };
    proof {
        reveal_strlit("live target; writing requires --allow-write");
        reveal_strlit("1");
    }
    assert(partitions_view(r.partitions@) == views(r.partitions@));
    assert(r@ =~~= block_target(*info));
    r
}

/// The targets of live mode, from what the caller probed.
pub open spec fn live_listing(probe: LiveProbe) -> Result<Seq<TargetView>, DeviceError> {
    match probe {
        LiveProbe::Unsupported => Err(DeviceError::Unsupported),
        LiveProbe::TargetPath { path, metadata } => match metadata {
            Ok(meta) => Ok(seq![path_target_view(path@, meta)]),
            Err(detail) => Err(DeviceError::TargetInaccessible { path, detail }),
        },
        LiveProbe::SysBlock(listing) => match listing {
            Err(detail) => Err(DeviceError::SysBlockUnreadable(detail)),
            Ok(infos) => {
                let found = visible_block_targets(infos@);
                if found.len() == 0 {
                    Err(DeviceError::NoBlockDevices)
                } else {
                    Ok(stable_sorted::<InstallTarget>(found))
                }
            },
        },
    }
}

/// The listing for a mode: the simulated targets in mock mode, else what the
/// probe found.
pub open spec fn device_listing(mode: DeviceMode, probe: LiveProbe) -> Result<Seq<TargetView>, DeviceError> {
    match mode {
        DeviceMode::Mock => Ok(mock_target_views()),
        DeviceMode::Live => live_listing(probe),
    }
}

/// Lists the install targets for a mode.
pub fn list_devices(mode: DeviceMode, probe: LiveProbe) -> (r: Result<Vec<InstallTarget>, DeviceError>)
    ensures
        match (r, device_listing(mode, probe)) {
            (Ok(v), Ok(w)) => targets_view(v@) == w,
            (Err(e), Err(f)) => e == f,
            _ => false,
        },
{
    match mode {
        DeviceMode::Mock => Ok(mock_targets()),
        DeviceMode::Live => match probe {
            LiveProbe::Unsupported => Err(DeviceError::Unsupported),
            LiveProbe::TargetPath { path, metadata } => match metadata {
                Ok(meta) => {
                    let mut v: Vec<InstallTarget> = Vec::new();
                    v.push(target_from_path(path.as_str(), meta));
                    assert(targets_view(v@) =~= seq![path_target_view(path@, meta)]);
                    Ok(v)
                },
                Err(detail) => Err(DeviceError::TargetInaccessible { path, detail }),
            },
            LiveProbe::SysBlock(listing) => match listing {
                Err(detail) => Err(DeviceError::SysBlockUnreadable(detail)),
                Ok(infos) => {
                    let mut targets: Vec<InstallTarget> = Vec::new();
                    let mut i: usize = 0;
                    while i < infos.len()
                        invariant
                            i <= infos@.len(),
                            targets_view(targets@) == visible_block_targets(infos@.subrange(0, i as int)),
                        decreases infos@.len() - i,
                    {
                        let info = &infos[i];
                        assert(infos@.subrange(0, i + 1).drop_last() =~= infos@.subrange(0, i as int));
                        if is_visible_root_block_device(info.name.as_str()) {
                            targets.push(block_target_of(info));
                        }
                        assert(targets_view(targets@) =~= visible_block_targets(
                            infos@.subrange(0, i + 1),
                        ));
                        i = i + 1;
                    }
                    assert(infos@.subrange(0, infos@.len() as int) =~= infos@);
                    if targets.len() == 0 {
                        return Err(DeviceError::NoBlockDevices);
                    }
                    stable_sort(&mut targets);
                    assert(targets_view(targets@) == views(targets@));
                    Ok(targets)
                },
            },
        },
    }
}


/// Loop, RAM, compressed-RAM, MTD, device-mapper and optical block devices
/// are never judged visible, whatever follows the prefix of their name.
pub proof fn lemma_hidden_devices_not_visible(name: Seq<char>)
    requires
        has_prefix(name, "loop"@) || has_prefix(name, "ram"@) || has_prefix(name, "zram"@)
            || has_prefix(name, "mtdblock"@) || has_prefix(name, "dm-"@) || has_prefix(name, "sr"@),
    ensures
        !spec_visible_root(name),
{
}

/// The boot and RPMB areas of an MMC device are never judged visible, while
/// SCSI/USB disks, NVMe namespaces and the MMC device itself are.
pub proof fn lemma_disk_devices_visible(name: Seq<char>)
    ensures
        has_prefix(name, "mmcblk"@) && (has_infix(name, "boot"@) || has_infix(name, "rpmb"@))
            ==> !spec_visible_root(name),
        (has_prefix(name, "sd"@) || has_prefix(name, "nvme"@)) ==> spec_visible_root(name),
        has_prefix(name, "mmcblk"@) && !has_infix(name, "boot"@) && !has_infix(name, "rpmb"@)
            ==> spec_visible_root(name),
{
    reveal_strlit("loop");
    reveal_strlit("ram");
    reveal_strlit("zram");
    reveal_strlit("mtdblock");
    reveal_strlit("dm-");
    reveal_strlit("sr");
    reveal_strlit("sd");
    reveal_strlit("nvme");
    reveal_strlit("mmcblk");
    if has_prefix(name, "sd"@) || has_prefix(name, "nvme"@) || has_prefix(name, "mmcblk"@) {
        assert(name[0] == name.subrange(0, 2)[0]);
        assert(name[1] == name.subrange(0, 2)[1]);
        if has_prefix(name, "loop"@) {
            assert(name[0] == name.subrange(0, 4)[0]);
        }
        if has_prefix(name, "ram"@) {
            assert(name[0] == name.subrange(0, 3)[0]);
        }
        if has_prefix(name, "zram"@) {
            assert(name[0] == name.subrange(0, 4)[0]);
        }
        if has_prefix(name, "mtdblock"@) {
            assert(name[1] == name.subrange(0, 8)[1]);
        }
        if has_prefix(name, "dm-"@) {
            assert(name[0] == name.subrange(0, 3)[0]);
        }
        if has_prefix(name, "sr"@) {
            assert(name[1] == name.subrange(0, 2)[1]);
        }
        if has_prefix(name, "mmcblk"@) {
            assert(name[0] == name.subrange(0, 6)[0]);
            assert(name[1] == name.subrange(0, 6)[1]);
        }
        if has_prefix(name, "sd"@) {
            assert(name[0] == name.subrange(0, 2)[0]);
            assert(name[1] == name.subrange(0, 2)[1]);
        }
        if has_prefix(name, "nvme"@) {
            assert(name[0] == name.subrange(0, 4)[0]);
        }
    }
}

proof fn lemma_visible_targets_visible(infos: Seq<BlockDeviceInfo>)
    ensures
        forall|i: int|
            0 <= i < visible_block_targets(infos).len() ==> spec_visible_root(
                #[trigger] visible_block_targets(infos)[i].id,
            ),
    decreases infos.len(),
{
    if infos.len() > 0 {
        let rest = infos.drop_last();
        lemma_visible_targets_visible(rest);
        assert forall|i: int| 0 <= i < visible_block_targets(infos).len() implies spec_visible_root(
            #[trigger] visible_block_targets(infos)[i].id,
        ) by {
            if i < visible_block_targets(rest).len() {
                assert(visible_block_targets(infos)[i] == visible_block_targets(rest)[i]);
            }
        }
    }
}

/// No block device that sysfs lists under a loop, RAM, compressed-RAM, MTD,
/// device-mapper or optical name is ever offered as a live target: every
/// listed target is judged visible and carries none of those names.
pub proof fn lemma_listed_targets_not_hidden(infos: Vec<BlockDeviceInfo>)
    ensures
        forall|ts: Seq<TargetView>, i: int|
            device_listing(DeviceMode::Live, LiveProbe::SysBlock(Ok(infos))) == Result::<Seq<TargetView>, DeviceError>::Ok(ts) && 0 <= i
                < ts.len() ==> {
                &&& spec_visible_root(#[trigger] ts[i].id)
                &&& !has_prefix(ts[i].id, "loop"@)
                &&& !has_prefix(ts[i].id, "ram"@)
                &&& !has_prefix(ts[i].id, "zram"@)
                &&& !has_prefix(ts[i].id, "mtdblock"@)
                &&& !has_prefix(ts[i].id, "dm-"@)
                &&& !has_prefix(ts[i].id, "sr"@)
            },
{
    let found = visible_block_targets(infos@);
    lemma_visible_targets_visible(infos@);
    crate::sort::lemma_stable_sorted_permutes::<InstallTarget>(found);
    assert forall|ts: Seq<TargetView>, i: int|
        device_listing(DeviceMode::Live, LiveProbe::SysBlock(Ok(infos))) == Result::<Seq<TargetView>, DeviceError>::Ok(ts) && 0 <= i < ts.len()
            implies {
            &&& spec_visible_root(#[trigger] ts[i].id)
            &&& !has_prefix(ts[i].id, "loop"@)
            &&& !has_prefix(ts[i].id, "ram"@)
            &&& !has_prefix(ts[i].id, "zram"@)
            &&& !has_prefix(ts[i].id, "mtdblock"@)
            &&& !has_prefix(ts[i].id, "dm-"@)
            &&& !has_prefix(ts[i].id, "sr"@)
        } by {
        assert(ts == stable_sorted::<InstallTarget>(found));
        assert(ts.to_multiset().count(ts[i]) > 0) by {
            broadcast use vstd::seq_lib::group_to_multiset_ensures;
            assert(ts.contains(ts[i]));
        }
        assert(found.contains(ts[i])) by {
            broadcast use vstd::seq_lib::group_to_multiset_ensures;
        }
        let f = choose|f: int| 0 <= f < found.len() && found[f] == ts[i];
        assert(spec_visible_root(found[f].id));
    }
}

} // verus!
