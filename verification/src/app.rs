//! The installer's screens and what each key does: a state machine whose
//! outside work (scanning media, loading the catalog, installing,
//! rebooting) the caller performs when an `AppAction` asks for it.

use vstd::prelude::*;
use vstd::string::*;

use crate::board::{
    BoardProbe, BoardView, DetectedBoard, detect_board, detected_board_view, list_contains,
};
use crate::catalog_view::{
    board_images, filter_catalog_for_board, first_recommended, recommended_index,
    sort_images_for_display,
};
use crate::custom_image::{
    CustomImage, CustomImageView, custom_entry_view, custom_placeholder, is_custom_placeholder,
    placeholder_url, placeholder_view,
};
use crate::device::{
    DeviceError, DeviceMode, InstallTarget, TargetKind, TargetView, device_error_message,
    spec_device_mode, targets_view,
};
use crate::installer::{EventView, InstallEvent, InstallRequest, RequestView, RunMode, live_attempts_of};
use crate::manifest::{Catalog, CatalogView, ImageEntry, ImageView, images_view, opt_str};
use crate::memory::{MemoryCheck, check_image_memory, memory_check_of, memory_summary, spec_blocks_install};
use crate::runner::{RunnerGame, RunnerView, fresh_runner, runner_jump, runner_step, runner_wf, viewport_for};
use crate::sort::stable_sorted;
use crate::text::{
    clone_opt_string, decimal, is_blank, owned, pop_char, push_char, push_decimal, push_str, str_eq, trim,
    trimmed,
};

verus! {

/// The screens of the installer.
#[derive(Clone, Copy, Debug, PartialEq, Eq, Structural)]
pub enum Screen {
    Welcome,
    ImageSelect,
    CustomImageSelect,
    TargetSelect,
    Confirm,
    Installing,
    Complete,
    Error,
    ProxyConfig,
}

/// The field of the proxy screen that typing goes to.
#[derive(Clone, Copy, Debug, PartialEq, Eq, Structural)]
pub enum ProxyConfigField {
    /// The UTC time to set the clock to.
    Time,
    /// The proxy URL.
    Proxy,
}

/// The latest progress an install reported.
#[derive(Clone, Debug)]
pub struct ProgressState {
    pub phase: String,
    pub current: u64,
    pub total: Option<u64>,
    pub source_current: Option<u64>,
    pub source_total: Option<u64>,
}

/// Progress, with strings taken as character sequences.
pub ghost struct ProgressView {
    pub phase: Seq<char>,
    pub current: u64,
    pub total: Option<u64>,
    pub source_current: Option<u64>,
    pub source_total: Option<u64>,
}

impl View for ProgressState {
    type V = ProgressView;

    open spec fn view(&self) -> ProgressView {
        ProgressView {
            phase: self.phase@,
            current: self.current,
            total: self.total,
            source_current: self.source_current,
            source_total: self.source_total,
        }
    }
}

/// Clock, address and network state shown in the header.
#[derive(Clone, Debug)]
pub struct SystemStatus {
    pub time: String,
    pub ip: String,
    pub ethernet: String,
}

/// System status, with strings taken as character sequences.
pub ghost struct StatusView {
    pub time: Seq<char>,
    pub ip: Seq<char>,
    pub ethernet: Seq<char>,
}

impl View for SystemStatus {
    type V = StatusView;

    open spec fn view(&self) -> StatusView {
        StatusView { time: self.time@, ip: self.ip@, ethernet: self.ethernet@ }
    }
}

/// Outside work the caller is asked to do after a step.
#[derive(Debug)]
pub enum AppAction {
    /// Nothing to do.
    Idle,
    /// Scan attached media and hand the result to `custom_images_scanned`
    /// (with `report`).
    ScanCustomImages { report: bool },
    /// List the install targets and hand the result to `devices_listed`.
    ListDevices(DeviceMode),
    /// Load the catalog from `source` through `proxy` and hand the result to
    /// `catalog_loaded`.
    LoadCatalog { source: String, proxy: Option<String> },
    /// Start the install in the background and feed its events to
    /// `poll_install_events`.
    StartInstall(InstallRequest),
    /// Reboot the board; on failure report it to `reboot_failed`.
    Reboot,
    /// Set the system clock to `time` (UTC, `YYYY-MM-DD HH:MM:SS`) and hand
    /// the outcome to `clock_set`.
    SetClock { time: String },
}

/// An action, with strings taken as character sequences.
pub ghost enum ActionView {
    Idle,
    ScanCustomImages { report: bool },
    ListDevices(DeviceMode),
    LoadCatalog { source: Seq<char>, proxy: Option<Seq<char>> },
    StartInstall(RequestView),
    Reboot,
    SetClock { time: Seq<char> },
}

impl View for AppAction {
    type V = ActionView;

    open spec fn view(&self) -> ActionView {
        match self {
            AppAction::Idle => ActionView::Idle,
            AppAction::ScanCustomImages { report } => ActionView::ScanCustomImages { report: *report },
            AppAction::ListDevices(m) => ActionView::ListDevices(*m),
            AppAction::LoadCatalog { source, proxy } => ActionView::LoadCatalog {
                source: source@,
                proxy: opt_str(*proxy),
            },
            AppAction::StartInstall(r) => ActionView::StartInstall(r@),
            AppAction::Reboot => ActionView::Reboot,
            AppAction::SetClock { time } => ActionView::SetClock { time: time@ },
        }
    }
}

/// The installer's state.
pub struct App {
    catalog: Catalog,
    board: DetectedBoard,
    devices: Vec<InstallTarget>,
    custom_images: Vec<CustomImage>,
    run_mode: RunMode,
    allow_write: bool,
    manifest_source: String,
    proxy_url: Option<String>,
    proxy_input: String,
    proxy_field: ProxyConfigField,
    proxy_time_input: String,
    screen: Screen,
    image_index: usize,
    custom_image_index: usize,
    target_index: usize,
    expanded_targets: Vec<String>,
    active_image: Option<ImageEntry>,
    active_image_is_custom: bool,
    progress: Option<ProgressState>,
    install_started_at: Option<u64>,
    success_completed_at: Option<u64>,
    status: String,
    warning: Option<String>,
    install_running: bool,
    runner: RunnerGame,
    system_status: SystemStatus,
    system_status_refreshed_at: Option<u64>,
    lite_guard: bool,
}

/// The installer's state as values. Times are readings of the caller's
/// monotonic clock in nanoseconds.
#[verifier::ext_equal]
pub ghost struct AppView {
    pub catalog: CatalogView,
    pub board: BoardView,
    pub devices: Seq<TargetView>,
    pub custom_images: Seq<CustomImageView>,
    pub run_mode: RunMode,
    pub allow_write: bool,
    pub manifest_source: Seq<char>,
    pub proxy_url: Option<Seq<char>>,
    pub proxy_input: Seq<char>,
    pub proxy_field: ProxyConfigField,
    pub time_input: Seq<char>,
    pub screen: Screen,
    pub image_index: nat,
    pub custom_image_index: nat,
    pub target_index: nat,
    pub expanded: Set<Seq<char>>,
    pub active_image: Option<ImageView>,
    pub active_image_is_custom: bool,
    pub progress: Option<ProgressView>,
    pub install_started_at: Option<u64>,
    pub success_completed_at: Option<u64>,
    pub status: Seq<char>,
    pub warning: Option<Seq<char>>,
    pub install_running: bool,
    pub runner: RunnerView,
    pub system_status: StatusView,
    pub system_status_refreshed_at: Option<u64>,
    pub lite_guard: bool,
}

/// The set of texts held by a list of strings.
pub open spec fn text_set(v: Seq<String>) -> Set<Seq<char>> {
    Set::new(|d: Seq<char>| exists|k: int| 0 <= k < v.len() && v[k]@ == d)
}

pub open spec fn opt_progress(p: Option<ProgressState>) -> Option<ProgressView> {
    match p {
        Some(p) => Some(p@),
        None => None,
    }
}

pub open spec fn opt_image(p: Option<ImageEntry>) -> Option<ImageView> {
    match p {
        Some(p) => Some(p@),
        None => None,
    }
}

impl View for App {
    type V = AppView;

    closed spec fn view(&self) -> AppView {
        AppView {
            catalog: self.catalog@,
            board: self.board@,
            devices: targets_view(self.devices@),
            custom_images: crate::sort::views(self.custom_images@),
            run_mode: self.run_mode,
            allow_write: self.allow_write,
            manifest_source: self.manifest_source@,
            proxy_url: opt_str(self.proxy_url),
            proxy_input: self.proxy_input@,
            proxy_field: self.proxy_field,
            time_input: self.proxy_time_input@,
            screen: self.screen,
            image_index: self.image_index as nat,
            custom_image_index: self.custom_image_index as nat,
            target_index: self.target_index as nat,
            expanded: text_set(self.expanded_targets@),
            active_image: opt_image(self.active_image),
            active_image_is_custom: self.active_image_is_custom,
            progress: opt_progress(self.progress),
            install_started_at: self.install_started_at,
            success_completed_at: self.success_completed_at,
            status: self.status@,
            warning: opt_str(self.warning),
            install_running: self.install_running,
            runner: self.runner@,
            system_status: self.system_status@,
            system_status_refreshed_at: self.system_status_refreshed_at,
            lite_guard: self.lite_guard,
        }
    }
}

/// An index into a list of `len` items: in range, or 0 for an empty list.
pub open spec fn index_ok(i: nat, len: nat) -> bool {
    i < len || (len == 0 && i == 0)
}

/// The state's own bounds: the image list is never empty and every
/// selection index points into its list.
pub open spec fn app_wf(v: AppView) -> bool {
    &&& v.catalog.images.len() >= 1
    &&& v.catalog.images.contains(placeholder_view())
    &&& v.screen == Screen::Installing ==> v.progress is Some && v.install_started_at is Some
    &&& v.image_index < v.catalog.images.len()
    &&& index_ok(v.custom_image_index, v.custom_images.len())
    &&& index_ok(v.target_index, v.devices.len())
    &&& runner_wf(v.runner)
}

/// The images offered on a board, with the attached-media entry, in display
/// order.
pub open spec fn prepared_images(c: CatalogView, board: BoardView) -> Seq<ImageView> {
    stable_sorted::<ImageEntry>(board_images(c.devices, board, c.images).push(placeholder_view()))
}

/// The index after `current` in a list of `len`, wrapping around.
pub open spec fn next_of(current: nat, len: nat) -> nat {
    if len == 0 {
        0
    } else {
        (current + 1) % len
    }
}

/// The index before `current` in a list of `len`, wrapping around.
pub open spec fn previous_of(current: nat, len: nat) -> nat {
    if len == 0 {
        0
    } else {
        ((current + len - 1) % (len as int)) as nat
    }
}

/// The index after `current`, wrapping around.
pub fn next_index(current: usize, len: usize) -> (r: usize)
    requires
        current < len || len == 0,
    ensures
        r == next_of(current as nat, len as nat),
{
    if len == 0 {
        0
    } else if current + 1 == len {
        proof {
            vstd::arithmetic::div_mod::lemma_mod_self_0(len as int);
        }
        0
    } else {
        proof {
            vstd::arithmetic::div_mod::lemma_small_mod((current + 1) as nat, len as nat);
        }
        current + 1
    }
}

/// The index after `i` in a list of `len`: the next one, or the first
/// after the last.
pub proof fn lemma_next_of_value(i: nat, len: nat)
    requires
        i < len,
    ensures
        next_of(i, len) == if i + 1 == len {
            0
        } else {
            i + 1
        },
{
    if i + 1 == len {
        vstd::arithmetic::div_mod::lemma_mod_self_0(len as int);
    } else {
        vstd::arithmetic::div_mod::lemma_small_mod((i + 1) as nat, len);
    }
}

/// The index before `current`, wrapping around.
pub fn previous_index(current: usize, len: usize) -> (r: usize)
    requires
        current < len || len == 0,
    ensures
        r == previous_of(current as nat, len as nat),
{
    if len == 0 {
        0
    } else if current == 0 {
        proof {
            vstd::arithmetic::div_mod::lemma_small_mod((len - 1) as nat, len as nat);
        }
        len - 1
    } else {
        proof {
            vstd::arithmetic::div_mod::lemma_mod_add_multiples_vanish((current - 1) as int, len as int);
            vstd::arithmetic::div_mod::lemma_small_mod((current - 1) as nat, len as nat);
        }
        current - 1
    }
}

/// The catalog image under the cursor.
pub open spec fn catalog_image(v: AppView) -> Option<ImageView> {
    if v.image_index < v.catalog.images.len() {
        Some(v.catalog.images[v.image_index as int])
    } else {
        None
    }
}

/// The image the current screen is about: once an image was chosen, the
/// chosen one, else the catalog image under the cursor.
pub open spec fn selected_image_of(v: AppView) -> Option<ImageView> {
    match v.screen {
        Screen::TargetSelect | Screen::Confirm | Screen::Installing | Screen::Complete
        | Screen::Error => match v.active_image {
            Some(a) => Some(a),
            None => catalog_image(v),
        },
        _ => catalog_image(v),
    }
}

/// The target under the cursor.
pub open spec fn selected_target_of(v: AppView) -> Option<TargetView> {
    if v.target_index < v.devices.len() {
        Some(v.devices[v.target_index as int])
    } else {
        None
    }
}

/// The custom image under the cursor.
pub open spec fn selected_custom_of(v: AppView) -> Option<CustomImageView> {
    if v.custom_image_index < v.custom_images.len() {
        Some(v.custom_images[v.custom_image_index as int])
    } else {
        None
    }
}

/// Whether the finished install may reboot the board: a live install to a
/// real block device.
pub open spec fn reboot_allowed(v: AppView) -> bool {
    v.screen == Screen::Complete && v.run_mode == RunMode::Live && match selected_target_of(v) {
        Some(t) => t.kind != TargetKind::File,
        None => false,
    }
}

pub const NANOS_PER_SECOND: u64 = 1000000000;

/// The seconds left before the automatic reboot after a successful live
/// install: ten seconds after completion, counted up to whole seconds.
pub open spec fn reboot_countdown(v: AppView, now: u64) -> Option<u64> {
    if !reboot_allowed(v) {
        None
    } else {
        match v.success_completed_at {
            None => None,
            Some(done) => {
                let elapsed = if now >= done {
                    now - done
                } else {
                    0
                };
                let remaining = if elapsed >= 10 * NANOS_PER_SECOND {
                    0
                } else {
                    10 * NANOS_PER_SECOND - elapsed
                };
                if remaining == 0 {
                    Some(0)
                } else {
                    Some(
                        (remaining / (NANOS_PER_SECOND as int) + if remaining % (
                        NANOS_PER_SECOND as int) > 0 {
                            1int
                        } else {
                            0int
                        }) as u64,
                    )
                }
            },
        }
    }
}

/// The state back at the welcome screen, with the install forgotten.
pub open spec fn started_over(v: AppView) -> AppView {
    AppView {
        screen: Screen::Welcome,
        active_image: None,
        active_image_is_custom: false,
        progress: None,
        install_started_at: None,
        success_completed_at: None,
        install_running: false,
        runner: fresh_runner(),
        status: "Press Enter to continue."@,
        ..v
    }
}

/// What the reboot key does on the completion screen: ask for a reboot when
/// one is allowed, else start over.
pub open spec fn reboot_or_start_over_of(v: AppView) -> (AppView, ActionView) {
    if !reboot_allowed(v) {
        (started_over(v), ActionView::Idle)
    } else {
        (
            AppView {
                status: "Reboot requested. If the board does not restart, reboot it manually from the serial console."@,
                ..v
            },
            ActionView::Reboot,
        )
    }
}

/// The cursor moved down on a list screen.
pub open spec fn after_next(v: AppView) -> AppView {
    match v.screen {
        Screen::ImageSelect => AppView {
            image_index: next_of(v.image_index, v.catalog.images.len()),
            ..v
        },
        Screen::CustomImageSelect => AppView {
            custom_image_index: next_of(v.custom_image_index, v.custom_images.len()),
            ..v
        },
        Screen::TargetSelect => AppView {
            target_index: next_of(v.target_index, v.devices.len()),
            ..v
        },
        _ => v,
    }
}

/// The cursor moved up on a list screen.
pub open spec fn after_previous(v: AppView) -> AppView {
    match v.screen {
        Screen::ImageSelect => AppView {
            image_index: previous_of(v.image_index, v.catalog.images.len()),
            ..v
        },
        Screen::CustomImageSelect => AppView {
            custom_image_index: previous_of(v.custom_image_index, v.custom_images.len()),
            ..v
        },
        Screen::TargetSelect => AppView {
            target_index: previous_of(v.target_index, v.devices.len()),
            ..v
        },
        _ => v,
    }
}

/// The partitions of the target under the cursor shown.
pub open spec fn after_expand(v: AppView) -> AppView {
    if v.screen != Screen::TargetSelect {
        v
    } else {
        match selected_target_of(v) {
            None => v,
            Some(t) => if t.partitions.len() > 0 {
                AppView {
                    expanded: v.expanded.insert(t.id),
                    status: "Showing partitions for "@ + t.name + "."@,
                    ..v
                }
            } else {
                v
            },
        }
    }
}

/// The partitions of the target under the cursor hidden.
pub open spec fn after_collapse(v: AppView) -> AppView {
    if v.screen != Screen::TargetSelect {
        v
    } else {
        match selected_target_of(v) {
            None => v,
            Some(t) => if v.expanded.contains(t.id) {
                AppView {
                    expanded: v.expanded.remove(t.id),
                    status: "Hiding partitions for "@ + t.name + "."@,
                    ..v
                }
            } else {
                v
            },
        }
    }
}

/// A character typed into the active field of the proxy screen; control
/// characters are ignored.
pub open spec fn after_proxy_push(v: AppView, ch: char) -> AppView {
    if is_control_char(ch) {
        v
    } else if v.proxy_field == ProxyConfigField::Time {
        AppView { time_input: v.time_input.push(ch), ..v }
    } else {
        AppView { proxy_input: v.proxy_input.push(ch), ..v }
    }
}

/// `s` without its last character, if it has one.
pub open spec fn without_last(s: Seq<char>) -> Seq<char> {
    if s.len() == 0 {
        s
    } else {
        s.drop_last()
    }
}

/// The last character of the active field of the proxy screen deleted.
pub open spec fn after_proxy_backspace(v: AppView) -> AppView {
    if v.proxy_field == ProxyConfigField::Time {
        AppView { time_input: without_last(v.time_input), ..v }
    } else {
        AppView { proxy_input: without_last(v.proxy_input), ..v }
    }
}

/// The other field of the proxy screen made active (there are two, so
/// moving up and moving down both switch).
pub open spec fn after_switch_field(v: AppView) -> AppView {
    AppView {
        proxy_field: if v.proxy_field == ProxyConfigField::Time {
            ProxyConfigField::Proxy
        } else {
            ProxyConfigField::Time
        },
        ..v
    }
}

/// Whether `t` has the shape `YYYY-MM-DD HH:MM:SS`.
pub open spec fn utc_time_shape(t: Seq<char>) -> bool {
    &&& t.len() == 19
    &&& forall|i: int|
        0 <= i < 19 ==> if i == 4 || i == 7 {
            t[i] == '-'
        } else if i == 10 {
            t[i] == ' '
        } else if i == 13 || i == 16 {
            t[i] == ':'
        } else {
            '0' <= #[trigger] t[i] && t[i] <= '9'
        }
}

/// Enter on the proxy screen: on the time field, an empty entry moves on
/// to the proxy field, a time of the right shape asks for the clock to be
/// set and moves on, anything else is refused with a hint; on the proxy
/// field, the catalog is reloaded through the proxy typed.
pub open spec fn submit_proxy_of(v: AppView) -> (AppView, ActionView) {
    if v.proxy_field == ProxyConfigField::Time {
        let t = trimmed(v.time_input);
        if t.len() == 0 {
            (AppView { proxy_field: ProxyConfigField::Proxy, ..v }, ActionView::Idle)
        } else if utc_time_shape(t) {
            (
                AppView {
                    proxy_field: ProxyConfigField::Proxy,
                    status: "Setting UTC time to "@ + t + "."@,
                    ..v
                },
                ActionView::SetClock { time: t },
            )
        } else {
            (AppView { status: "Enter UTC time as YYYY-MM-DD HH:MM:SS."@, ..v }, ActionView::Idle)
        }
    } else {
        (v, apply_proxy_of(v))
    }
}

/// The status after the clock was set to `time`, or failed to be.
pub open spec fn after_clock_set(v: AppView, time: Seq<char>, result: Result<(), Seq<char>>) -> AppView {
    AppView {
        status: match result {
            Ok(()) => "UTC time set to "@ + time + "."@,
            Err(e) => "Could not set UTC time: "@ + e,
        },
        ..v
    }
}

/// The proxy screen left for the image list.
pub open spec fn after_cancel_proxy(v: AppView) -> AppView {
    AppView { screen: Screen::ImageSelect, status: "Choose an operating system image."@, ..v }
}

/// One screen back.
pub open spec fn after_back(v: AppView) -> AppView {
    match v.screen {
        Screen::ImageSelect => AppView {
            screen: Screen::Welcome,
            status: "Press Enter to continue."@,
            ..v
        },
        Screen::CustomImageSelect => AppView {
            screen: Screen::ImageSelect,
            status: "Choose an operating system image."@,
            ..v
        },
        Screen::TargetSelect => if v.active_image_is_custom {
            AppView {
                screen: Screen::CustomImageSelect,
                status: "Choose a custom image from attached media."@,
                ..v
            }
        } else {
            AppView {
                screen: Screen::ImageSelect,
                status: "Choose an operating system image."@,
                ..v
            }
        },
        Screen::Confirm => AppView {
            screen: Screen::TargetSelect,
            status: "Choose target media."@,
            ..v
        },
        Screen::Complete | Screen::Error => started_over(v),
        Screen::ProxyConfig => after_cancel_proxy(v),
        _ => v,
    }
}

/// What an install of image `i` to target `t` is asked to do.
pub open spec fn install_request_of(v: AppView, i: ImageView, t: TargetView) -> RequestView {
    RequestView {
        image: i,
        target: t,
        run_mode: v.run_mode,
        allow_write: v.allow_write,
        proxy_url: v.proxy_url,
        reboot_after_install: v.run_mode == RunMode::Live && t.kind != TargetKind::File,
    }
}

/// The message shown when RAM is short for an image.
pub open spec fn low_memory_status(c: MemoryCheck) -> Seq<char> {
    "Not enough available RAM for the installer working set. "@ + memory_summary(c)
        + ". TOBI streams images, so the full image does not need to fit in RAM."@
}

/// The install started from the confirmation screen, at time `now` with
/// `available` bytes of RAM free (when known). A short RAM estimate stops
/// it, except where the lite guard relaxed the estimate, which only warns.
pub open spec fn start_install_of(v: AppView, now: u64, available: Option<u64>) -> (AppView, ActionView) {
    match selected_image_of(v) {
        None => (AppView { status: "No image selected."@, ..v }, ActionView::Idle),
        Some(i) => match selected_target_of(v) {
            None => (AppView { status: "No target selected."@, ..v }, ActionView::Idle),
            Some(t) => {
                let check = memory_check_of(i.format, v.lite_guard, available);
                if spec_blocks_install(check) {
                    (
                        AppView { screen: Screen::Error, status: low_memory_status(check), ..v },
                        ActionView::Idle,
                    )
                } else {
                    (
                        AppView {
                            screen: Screen::Installing,
                            runner: fresh_runner(),
                            install_started_at: Some(now),
                            status: "Starting install."@,
                            progress: Some(
                                ProgressView {
                                    phase: "Starting"@,
                                    current: 0,
                                    total: i.extract_size,
                                    source_current: Some(0),
                                    source_total: i.image_download_size,
                                },
                            ),
                            install_running: true,
                            ..v
                        },
                        ActionView::StartInstall(install_request_of(v, i, t)),
                    )
                }
            },
        },
    }
}

/// The proxy typed so far, trimmed, as a request to reload the catalog.
pub open spec fn apply_proxy_of(v: AppView) -> ActionView {
    let p = trimmed(v.proxy_input);
    ActionView::LoadCatalog {
        source: v.manifest_source,
        proxy: if p.len() > 0 {
            Some(p)
        } else {
            None
        },
    }
}

/// What Enter does on each screen.
pub open spec fn activate_of(v: AppView, now: u64, available: Option<u64>) -> (AppView, ActionView) {
    match v.screen {
        Screen::Welcome => (
            AppView { screen: Screen::ImageSelect, status: "Choose an operating system image."@, ..v },
            ActionView::Idle,
        ),
        Screen::ImageSelect => match catalog_image(v) {
            None => (AppView { status: "No image selected."@, ..v }, ActionView::Idle),
            Some(image) => if image.url == placeholder_url() {
                (
                    AppView {
                        screen: Screen::CustomImageSelect,
                        status: "Choose a custom image from attached media."@,
                        ..v
                    },
                    ActionView::ScanCustomImages { report: false },
                )
            } else {
                (
                    AppView {
                        active_image: Some(image),
                        active_image_is_custom: false,
                        screen: Screen::TargetSelect,
                        status: "Choose target media."@,
                        ..v
                    },
                    ActionView::Idle,
                )
            },
        },
        Screen::CustomImageSelect => match selected_custom_of(v) {
            None => (
                AppView {
                    status: "No custom images found. Attach media and press R to rescan."@,
                    ..v
                },
                ActionView::Idle,
            ),
            Some(c) => (
                AppView {
                    active_image: Some(custom_entry_view(c)),
                    active_image_is_custom: true,
                    screen: Screen::TargetSelect,
                    status: "Choose target media."@,
                    ..v
                },
                ActionView::Idle,
            ),
        },
        Screen::TargetSelect => (
            AppView { screen: Screen::Confirm, status: "Confirm destructive write."@, ..v },
            ActionView::Idle,
        ),
        Screen::Confirm => start_install_of(v, now, available),
        Screen::Complete => reboot_or_start_over_of(v),
        Screen::Error => (started_over(v), ActionView::Idle),
        Screen::ProxyConfig => submit_proxy_of(v),
        _ => (v, ActionView::Idle),
    }
}

/// The status after a scan of attached media finds `n` images.
pub open spec fn scan_status(n: nat) -> Seq<char> {
    if n == 0 {
        "No custom images found. Attach media and press R to rescan."@
    } else {
        "Found "@ + decimal(n) + " custom image(s)."@
    }
}

/// An index kept in range for a list that now has `len` items.
pub open spec fn clamp_index(i: nat, len: nat) -> nat {
    if len == 0 {
        0
    } else if i < len {
        i
    } else {
        (len - 1) as nat
    }
}

impl App {
    /// The well-formedness of the state (see `app_wf`).
    pub open spec fn wf(&self) -> bool {
        app_wf(self@)
    }

    proof fn lemma_view_parts(&self)
        ensures
            self@.catalog.images.len() == self.catalog.images@.len(),
            self@.devices.len() == self.devices@.len(),
            self@.custom_images.len() == self.custom_images@.len(),
            forall|i: int| 0 <= i < self.catalog.images@.len() ==> self@.catalog.images[i] == (#[trigger] self.catalog.images@[i])@,
            forall|i: int| 0 <= i < self.devices@.len() ==> self@.devices[i] == (#[trigger] self.devices@[i])@,
            forall|i: int| 0 <= i < self.custom_images@.len() ==> self@.custom_images[i] == (#[trigger] self.custom_images@[i])@,
    {
    }
}

/// The catalog as the installer shows it on a board (see `prepared_images`).
pub open spec fn prepared_catalog(c: CatalogView, board: BoardView) -> CatalogView {
    CatalogView { images: prepared_images(c, board), ..c }
}

/// The state of a freshly started installer.
pub open spec fn new_app_view(
    c: CatalogView,
    board: BoardView,
    devices: Seq<TargetView>,
    run_mode: RunMode,
    allow_write: bool,
    manifest_source: Seq<char>,
    proxy_url: Option<Seq<char>>,
    warning: Option<Seq<char>>,
    system_status: StatusView,
    now: u64,
) -> AppView {
    AppView {
        catalog: prepared_catalog(c, board),
        board,
        devices,
        custom_images: Seq::empty(),
        run_mode,
        allow_write,
        manifest_source,
        proxy_url,
        proxy_input: match proxy_url {
            Some(p) => p,
            None => Seq::empty(),
        },
        proxy_field: ProxyConfigField::Time,
        time_input: Seq::empty(),
        screen: Screen::Welcome,
        image_index: first_recommended(prepared_images(c, board)),
        custom_image_index: 0,
        target_index: 0,
        expanded: Set::empty(),
        active_image: None,
        active_image_is_custom: false,
        progress: None,
        install_started_at: None,
        success_completed_at: None,
        status: "Press Enter to continue."@,
        warning,
        install_running: false,
        runner: fresh_runner(),
        system_status,
        system_status_refreshed_at: Some(now),
        lite_guard: false,
    }
}

/// The ids of a list of targets.
pub open spec fn target_ids(d: Seq<TargetView>) -> Set<Seq<char>> {
    Set::new(|id: Seq<char>| exists|k: int| 0 <= k < d.len() && d[k].id == id)
}

/// A listing of targets, taken as values.
pub open spec fn listing_view(r: Result<Vec<InstallTarget>, DeviceError>) -> Result<Seq<TargetView>, DeviceError> {
    match r {
        Ok(v) => Ok(targets_view(v@)),
        Err(e) => Err(e),
    }
}

/// The state after the targets were listed again.
pub open spec fn after_devices_listed(v: AppView, r: Result<Seq<TargetView>, DeviceError>) -> AppView {
    match r {
        Ok(d) => AppView {
            devices: d,
            target_index: clamp_index(v.target_index, d.len()),
            expanded: v.expanded.intersect(target_ids(d)),
            status: "Storage targets refreshed."@,
            ..v
        },
        Err(e) => AppView { status: "Could not refresh targets: "@ + device_error_message(e), ..v },
    }
}

/// A scan of attached media, taken as values.
pub open spec fn scan_view(r: Result<Vec<CustomImage>, String>) -> Result<Seq<CustomImageView>, Seq<char>> {
    match r {
        Ok(v) => Ok(crate::sort::views(v@)),
        Err(e) => Err(e@),
    }
}

/// The state after attached media were scanned; the status reports the
/// outcome only when `report` is set.
pub open spec fn after_scan(v: AppView, r: Result<Seq<CustomImageView>, Seq<char>>, report: bool) -> AppView {
    match r {
        Ok(found) => AppView {
            custom_images: found,
            custom_image_index: clamp_index(v.custom_image_index, found.len()),
            status: if report {
                scan_status(found.len())
            } else {
                v.status
            },
            ..v
        },
        Err(e) => AppView {
            status: if report {
                "Could not scan attached media: "@ + e
            } else {
                v.status
            },
            ..v
        },
    }
}

/// What the refresh key asks for: a rescan of attached media on the custom
/// image list, else a new listing of targets.
pub open spec fn refresh_action(v: AppView) -> ActionView {
    if v.screen == Screen::CustomImageSelect {
        ActionView::ScanCustomImages { report: true }
    } else {
        ActionView::ListDevices(spec_device_mode(v.run_mode))
    }
}

/// The state after one install event at time `now`.
pub open spec fn after_event(v: AppView, e: EventView, now: u64) -> AppView {
    match e {
        EventView::Phase(p) => AppView { status: p, ..v },
        EventView::Progress { phase, current, total, source_current, source_total } => AppView {
            status: phase,
            progress: Some(ProgressView { phase, current, total, source_current, source_total }),
            ..v
        },
        EventView::Complete(m) => AppView {
            status: m,
            screen: Screen::Complete,
            success_completed_at: Some(now),
            ..v
        },
        EventView::Failed(m) => AppView {
            status: m,
            screen: Screen::Error,
            success_completed_at: None,
            ..v
        },
    }
}

/// The state after a run of install events, in order.
pub open spec fn after_events(v: AppView, es: Seq<EventView>, now: u64) -> AppView
    decreases es.len(),
{
    if es.len() == 0 {
        v
    } else {
        after_event(after_events(v, es.drop_last(), now), es.last(), now)
    }
}

/// Whether an event ends the install.
pub open spec fn ends_install(e: EventView) -> bool {
    e is Complete || e is Failed
}

/// The state after the events an install reported since the last poll:
/// nothing changes when no install runs; the install stops running once it
/// reported its end.
pub open spec fn after_poll(v: AppView, es: Seq<EventView>, now: u64) -> AppView {
    if !v.install_running {
        v
    } else {
        AppView {
            install_running: !exists|i: int| 0 <= i < es.len() && ends_install(#[trigger] es[i]),
            ..after_events(v, es, now)
        }
    }
}

/// The state after a catalog was loaded with the proxy typed so far: the
/// board is detected again when it was unknown, the catalog is prepared
/// for it and the proxy is kept; on failure a warning says why.
pub open spec fn after_catalog_loaded(
    v: AppView,
    r: Result<CatalogView, Seq<char>>,
    detected: BoardView,
) -> AppView {
    match r {
        Ok(c) => {
            let board = if v.board.id is None {
                detected
            } else {
                v.board
            };
            let p = trimmed(v.proxy_input);
            AppView {
                proxy_url: if p.len() > 0 {
                    Some(p)
                } else {
                    None
                },
                board,
                catalog: prepared_catalog(c, board),
                image_index: first_recommended(prepared_images(c, board)),
                active_image: None,
                active_image_is_custom: false,
                screen: Screen::ImageSelect,
                status: "Online OS catalog loaded."@,
                warning: None,
                ..v
            }
        },
        Err(e) => AppView {
            warning: Some(
                "Could not load the online catalog with this proxy. You can adjust the proxy and try again, or press Esc to continue with custom local images.\n\n"@
                    + e,
            ),
            ..v
        },
    }
}

/// The status after a reboot request failed.
pub open spec fn reboot_failed_status(e: Seq<char>) -> Seq<char> {
    "Install succeeded, but TOBI could not reboot the board.\n\n"@ + e
        + "\n\nYou can reboot manually or press R to start over."@
}

/// Whether the header's system status is due for a refresh at `now`: never
/// read, or read a second or more ago.
pub open spec fn status_refresh_due(v: AppView, now: u64) -> bool {
    match v.system_status_refreshed_at {
        None => true,
        Some(last) => now >= last && now - last >= NANOS_PER_SECOND,
    }
}

/// Whether a character is a control character (C0, DEL or C1).
pub open spec fn is_control_char(c: char) -> bool {
    (c as u32) < 0x20 || (0x7f <= (c as u32) && (c as u32) < 0xa0)
}

/// The texts of `v` whose value is the id of a target in `devices`.
fn known_ids(v: &Vec<String>, devices: &Vec<InstallTarget>) -> (r: Vec<String>)
    ensures
        text_set(r@) == text_set(v@).intersect(target_ids(targets_view(devices@))),
{
    let ghost ids = target_ids(targets_view(devices@));
    let mut r: Vec<String> = Vec::new();
    let mut i: usize = 0;
    while i < v.len()
        invariant
            i <= v@.len(),
            ids == target_ids(targets_view(devices@)),
            forall|k: int| 0 <= k < r@.len() ==> (#[trigger] text_set(v@).contains(r@[k]@)) && ids.contains(r@[k]@),
            forall|k: int| 0 <= k < i && ids.contains(v@[k]@) ==> #[trigger] text_set(r@).contains(v@[k]@),
        decreases v@.len() - i,
    {
        let mut j: usize = 0;
        let mut found = false;
        while j < devices.len()
            invariant
                j <= devices@.len(),
                i < v@.len(),
                found <==> exists|m: int| 0 <= m < j && devices@[m]@.id == v@[i as int]@,
            decreases devices@.len() - j,
        {
            if str_eq(devices[j].id.as_str(), v[i].as_str()) {
                found = true;
            }
            j = j + 1;
        }
        proof {
            assert(text_set(v@).contains(v@[i as int]@));
            if found {
                let m = choose|m: int| 0 <= m < devices@.len() && devices@[m]@.id == v@[i as int]@;
                assert(targets_view(devices@)[m] == devices@[m]@);
            } else {
                assert(!ids.contains(v@[i as int]@)) by {
                    if ids.contains(v@[i as int]@) {
                        let m = choose|m: int| 0 <= m < targets_view(devices@).len() && targets_view(devices@)[m].id == v@[i as int]@;
                        assert(targets_view(devices@)[m] == devices@[m]@);
                    }
                }
            }
        }
        if found {
            let ghost before = r@;
            r.push(v[i].clone());
            proof {
                assert forall|k: int| 0 <= k < i + 1 && ids.contains(v@[k]@) implies #[trigger] text_set(r@).contains(v@[k]@) by {
                    if k < i {
                        assert(text_set(before).contains(v@[k]@));
                        let w = choose|w: int| 0 <= w < before.len() && before[w]@ == v@[k]@;
                        assert(r@[w] == before[w]);
                    } else {
                        assert(r@[before.len() as int]@ == v@[k]@);
                    }
                }
            }
        } else {
            proof {
                assert forall|k: int| 0 <= k < i + 1 && ids.contains(v@[k]@) implies #[trigger] text_set(r@).contains(v@[k]@) by {
                    if k < i {
                    } else {
                        assert(false);
                    }
                }
            }
        }
        i = i + 1;
    }
    proof {
        assert(text_set(r@) =~= text_set(v@).intersect(ids)) by {
            assert forall|d: Seq<char>| text_set(r@).contains(d) implies text_set(v@).intersect(ids).contains(d) by {
                let k = choose|k: int| 0 <= k < r@.len() && r@[k]@ == d;
                assert(text_set(v@).contains(r@[k]@));
            }
            assert forall|d: Seq<char>| text_set(v@).intersect(ids).contains(d) implies text_set(r@).contains(d) by {
                let k = choose|k: int| 0 <= k < v@.len() && v@[k]@ == d;
                assert(text_set(r@).contains(v@[k]@));
            }
        }
    }
    r
}

/// `v` without the texts equal to `t`; whether it held one.
fn remove_text(v: &mut Vec<String>, t: &str) -> (r: bool)
    ensures
        text_set(final(v)@) == text_set(old(v)@).remove(t@),
        r == text_set(old(v)@).contains(t@),
{
    let ghost orig = v@;
    let mut kept: Vec<String> = Vec::new();
    let mut found = false;
    let mut i: usize = 0;
    while i < v.len()
        invariant
            v@ == orig,
            i <= orig.len(),
            found <==> exists|k: int| 0 <= k < i && orig[k]@ == t@,
            forall|k: int| 0 <= k < kept@.len() ==> (#[trigger] text_set(orig).contains(kept@[k]@)) && kept@[k]@ != t@,
            forall|k: int| 0 <= k < i && orig[k]@ != t@ ==> #[trigger] text_set(kept@).contains(orig[k]@),
        decreases orig.len() - i,
    {
        assert(text_set(orig).contains(orig[i as int]@));
        if str_eq(v[i].as_str(), t) {
            found = true;
        } else {
            let ghost before = kept@;
            kept.push(v[i].clone());
            proof {
                assert forall|k: int| 0 <= k < i + 1 && orig[k]@ != t@ implies #[trigger] text_set(kept@).contains(orig[k]@) by {
                    if k < i {
                        assert(text_set(before).contains(orig[k]@));
                        let w = choose|w: int| 0 <= w < before.len() && before[w]@ == orig[k]@;
                        assert(kept@[w] == before[w]);
                    } else {
                        assert(kept@[before.len() as int]@ == orig[k]@);
                    }
                }
            }
        }
        i = i + 1;
    }
    proof {
        assert(text_set(kept@) =~= text_set(orig).remove(t@)) by {
            assert forall|d: Seq<char>| text_set(kept@).contains(d) implies text_set(orig).remove(t@).contains(d) by {
                let k = choose|k: int| 0 <= k < kept@.len() && kept@[k]@ == d;
                assert(text_set(orig).contains(kept@[k]@));
            }
            assert forall|d: Seq<char>| text_set(orig).remove(t@).contains(d) implies text_set(kept@).contains(d) by {
                let k = choose|k: int| 0 <= k < orig.len() && orig[k]@ == d;
                assert(text_set(kept@).contains(orig[k]@));
            }
        }
        if text_set(orig).contains(t@) {
            let k = choose|k: int| 0 <= k < orig.len() && orig[k]@ == t@;
        }
    }
    *v = kept;
    found
}

/// Prepares a catalog for a board: its images filtered for the board, the
/// attached-media entry added, in display order; and the index of the first
/// recommended image.
fn prepare_catalog(catalog: Catalog, board: &DetectedBoard) -> (r: (Catalog, usize))
    ensures
        r.0@ == prepared_catalog(catalog@, board@),
        r.1 == first_recommended(prepared_images(catalog@, board@)),
        r.1 < r.0@.images.len(),
        r.0@.images.contains(placeholder_view()),
{
    proof {
        lemma_prepared_images(catalog@, board@);
    }
    let mut catalog = catalog;
    filter_catalog_for_board(&mut catalog, board);
    let ghost filtered = images_view(catalog.images@);
    catalog.images.push(custom_placeholder());
    assert(images_view(catalog.images@) =~= filtered.push(placeholder_view()));
    sort_images_for_display(&mut catalog.images);
    proof {
        crate::sort::lemma_stable_sorted_len::<ImageEntry>(filtered.push(placeholder_view()));
    }
    let index = recommended_index(&catalog.images);
    (catalog, index)
}

/// The nanoseconds since the install started, at `now` (none before the
/// start, and nothing counts when the clock reads earlier).
pub open spec fn elapsed_of(v: AppView, now: u64) -> Option<u64> {
    match v.install_started_at {
        Some(start) => Some(
            if now >= start {
                (now - start) as u64
            } else {
                0u64
            },
        ),
        None => None,
    }
}

/// The bytes written per second: the progress divided by the whole
/// seconds elapsed, at least one.
pub open spec fn rate_of(v: AppView, now: u64) -> Option<u64> {
    match (elapsed_of(v, now), v.progress) {
        (Some(e), Some(p)) => {
            let secs = e / NANOS_PER_SECOND;
            Some(
                (p.current / (if secs < 1 {
                    1
                } else {
                    secs
                })) as u64,
            )
        },
        _ => None,
    }
}

/// The proxy entry opened: the warning dismissed and the saved proxy
/// offered for editing.
pub open spec fn after_start_proxy(v: AppView) -> AppView {
    AppView {
        warning: None,
        proxy_input: match v.proxy_url {
            Some(p) => p,
            None => Seq::empty(),
        },
        proxy_field: ProxyConfigField::Time,
        time_input: Seq::empty(),
        screen: Screen::ProxyConfig,
        status: "Enter proxy URL and press Enter to retry the online catalog."@,
        ..v
    }
}

impl App {
    /// Starts the installer on the welcome screen with the catalog prepared
    /// for the board and the first recommended image under the cursor.
    /// `system_status` is the header's status as read at `now`.
    pub fn new(
        catalog: Catalog,
        board: DetectedBoard,
        devices: Vec<InstallTarget>,
        run_mode: RunMode,
        allow_write: bool,
        manifest_source: String,
        proxy_url: Option<String>,
        warning: Option<String>,
        system_status: SystemStatus,
        now: u64,
    ) -> (r: App)
        ensures
            r.wf(),
            r@ == new_app_view(
                catalog@,
                board@,
                targets_view(devices@),
                run_mode,
                allow_write,
                manifest_source@,
                opt_str(proxy_url),
                opt_str(warning),
                system_status@,
                now,
            ),
    {
        let (prepared, image_index) = prepare_catalog(catalog, &board);
        let proxy_input = match &proxy_url {
            Some(p) => p.clone(),
            None => String::new(),
        };
        let r = App {
            catalog: prepared,
            board,
            devices,
            custom_images: Vec::new(),
            run_mode,
            allow_write,
            manifest_source,
            proxy_url,
            proxy_input,
            proxy_field: ProxyConfigField::Time,
            proxy_time_input: String::new(),
            screen: Screen::Welcome,
            image_index,
            custom_image_index: 0,
            target_index: 0,
            expanded_targets: Vec::new(),
            active_image: None,
            active_image_is_custom: false,
            progress: None,
            install_started_at: None,
            success_completed_at: None,
            status: owned("Press Enter to continue."),
            warning,
            install_running: false,
            runner: RunnerGame::new(),
            system_status,
            system_status_refreshed_at: Some(now),
            lite_guard: false,
        };
        assert(text_set(r.expanded_targets@) =~= Set::<Seq<char>>::empty());
        assert(crate::sort::views(r.custom_images@) =~= Seq::<CustomImageView>::empty());
        assert(r@ =~~= new_app_view(
            catalog@,
            board@,
            targets_view(devices@),
            run_mode,
            allow_write,
            manifest_source@,
            opt_str(proxy_url),
            opt_str(warning),
            system_status@,
            now,
        ));
        r
    }

    /// Relaxes the xz memory guard for lite images, or restores it.
    pub fn set_lite_xz_memory_guard(&mut self, enabled: bool)
        requires
            old(self).wf(),
        ensures
            final(self).wf(),
            final(self)@ == (AppView { lite_guard: enabled, ..old(self)@ }),
    {
        self.lite_guard = enabled;
        assert(self@ =~~= AppView { lite_guard: enabled, ..old(self)@ });
    }

    /// Back to the welcome screen, the install forgotten (see `started_over`).
    pub fn start_over(&mut self)
        requires
            old(self).wf(),
        ensures
            final(self).wf(),
            final(self)@ == started_over(old(self)@),
    {
        self.screen = Screen::Welcome;
        self.active_image = None;
        self.active_image_is_custom = false;
        self.progress = None;
        self.install_started_at = None;
        self.success_completed_at = None;
        self.install_running = false;
        self.runner = RunnerGame::new();
        self.status = owned("Press Enter to continue.");
        assert(self@ =~~= started_over(old(self)@));
    }

    /// Moves the cursor down on a list screen, wrapping around.
    pub fn next(&mut self)
        requires
            old(self).wf(),
        ensures
            final(self).wf(),
            final(self)@ == after_next(old(self)@),
    {
        proof {
            self.lemma_view_parts();
        }
        match self.screen {
            Screen::ImageSelect => {
                self.image_index = next_index(self.image_index, self.catalog.images.len());
            },
            Screen::CustomImageSelect => {
                self.custom_image_index = next_index(self.custom_image_index, self.custom_images.len());
            },
            Screen::TargetSelect => {
                self.target_index = next_index(self.target_index, self.devices.len());
            },
            _ => {},
        }
        assert(self@ =~~= after_next(old(self)@));
    }

    /// Moves the cursor up on a list screen, wrapping around.
    pub fn previous(&mut self)
        requires
            old(self).wf(),
        ensures
            final(self).wf(),
            final(self)@ == after_previous(old(self)@),
    {
        proof {
            self.lemma_view_parts();
        }
        match self.screen {
            Screen::ImageSelect => {
                self.image_index = previous_index(self.image_index, self.catalog.images.len());
            },
            Screen::CustomImageSelect => {
                self.custom_image_index = previous_index(
                    self.custom_image_index,
                    self.custom_images.len(),
                );
            },
            Screen::TargetSelect => {
                self.target_index = previous_index(self.target_index, self.devices.len());
            },
            _ => {},
        }
        assert(self@ =~~= after_previous(old(self)@));
    }

    /// Shows the partitions of the target under the cursor.
    pub fn expand_target(&mut self)
        requires
            old(self).wf(),
        ensures
            final(self).wf(),
            final(self)@ == after_expand(old(self)@),
    {
        proof {
            self.lemma_view_parts();
        }
        if self.screen != Screen::TargetSelect || self.target_index >= self.devices.len() {
            return;
        }
        let i = self.target_index;
        assert(self.devices@[i as int]@.partitions.len() == self.devices@[i as int].partitions@.len());
        if self.devices[i].partitions.len() > 0 {
            let id = self.devices[i].id.clone();
            let ghost before = self.expanded_targets@;
            if !list_contains(&self.expanded_targets, id.as_str()) {
                self.expanded_targets.push(id);
                assert(text_set(self.expanded_targets@) =~= text_set(before).insert(
                    self.devices@[i as int]@.id,
                )) by {
                    assert(self.expanded_targets@[before.len() as int]@ == self.devices@[i as int]@.id);
                    assert forall|d: Seq<char>| text_set(before).contains(d) implies text_set(
                        self.expanded_targets@,
                    ).contains(d) by {
                        let k = choose|k: int| 0 <= k < before.len() && before[k]@ == d;
                        assert(self.expanded_targets@[k] == before[k]);
                    }
                    assert forall|d: Seq<char>| text_set(self.expanded_targets@).contains(d) implies text_set(
                        before,
                    ).insert(self.devices@[i as int]@.id).contains(d) by {
                        let k = choose|k: int| 0 <= k < self.expanded_targets@.len() && self.expanded_targets@[k]@ == d;
                        if k < before.len() {
                            assert(self.expanded_targets@[k] == before[k]);
                        }
                    }
                }
            } else {
                assert(text_set(before) =~= text_set(before).insert(self.devices@[i as int]@.id));
            }
            let mut s = owned("Showing partitions for ");
            push_str(&mut s, self.devices[i].name.as_str());
            push_str(&mut s, ".");
            self.status = s;
        }
        assert(self@ =~~= after_expand(old(self)@));
    }

    /// Hides the partitions of the target under the cursor.
    pub fn collapse_target(&mut self)
        requires
            old(self).wf(),
        ensures
            final(self).wf(),
            final(self)@ == after_collapse(old(self)@),
    {
        proof {
            self.lemma_view_parts();
        }
        if self.screen != Screen::TargetSelect || self.target_index >= self.devices.len() {
            return;
        }
        let i = self.target_index;
        let removed = remove_text(&mut self.expanded_targets, self.devices[i].id.as_str());
        if removed {
            let mut s = owned("Hiding partitions for ");
            push_str(&mut s, self.devices[i].name.as_str());
            push_str(&mut s, ".");
            self.status = s;
        } else {
            assert(text_set(old(self).expanded_targets@).remove(self.devices@[i as int]@.id) =~= text_set(
                old(self).expanded_targets@,
            ));
        }
        assert(self@ =~~= after_collapse(old(self)@));
    }

    /// Leaves the proxy entry for the image list.
    pub fn cancel_proxy_config(&mut self)
        requires
            old(self).wf(),
        ensures
            final(self).wf(),
            final(self)@ == after_cancel_proxy(old(self)@),
    {
        self.screen = Screen::ImageSelect;
        self.status = owned("Choose an operating system image.");
        assert(self@ =~~= after_cancel_proxy(old(self)@));
    }

    /// Goes one screen back (see `after_back`).
    pub fn back(&mut self)
        requires
            old(self).wf(),
        ensures
            final(self).wf(),
            final(self)@ == after_back(old(self)@),
    {
        match self.screen {
            Screen::ImageSelect => {
                self.screen = Screen::Welcome;
                self.status = owned("Press Enter to continue.");
            },
            Screen::CustomImageSelect => {
                self.screen = Screen::ImageSelect;
                self.status = owned("Choose an operating system image.");
            },
            Screen::TargetSelect => {
                if self.active_image_is_custom {
                    self.screen = Screen::CustomImageSelect;
                    self.status = owned("Choose a custom image from attached media.");
                } else {
                    self.screen = Screen::ImageSelect;
                    self.status = owned("Choose an operating system image.");
                }
            },
            Screen::Confirm => {
                self.screen = Screen::TargetSelect;
                self.status = owned("Choose target media.");
            },
            Screen::Complete | Screen::Error => {
                self.start_over();
            },
            Screen::ProxyConfig => {
                self.cancel_proxy_config();
            },
            _ => {},
        }
        assert(self@ =~~= after_back(old(self)@));
    }

    /// Dismisses the warning.
    pub fn dismiss_warning(&mut self)
        requires
            old(self).wf(),
        ensures
            final(self).wf(),
            final(self)@ == (AppView { warning: None, ..old(self)@ }),
    {
        self.warning = None;
        assert(self@ =~~= AppView { warning: None, ..old(self)@ });
    }

    /// Opens the proxy entry (see `after_start_proxy`).
    pub fn start_proxy_config(&mut self)
        requires
            old(self).wf(),
        ensures
            final(self).wf(),
            final(self)@ == after_start_proxy(old(self)@),
    {
        self.warning = None;
        self.proxy_input = match &self.proxy_url {
            Some(p) => p.clone(),
            None => String::new(),
        };
        self.proxy_field = ProxyConfigField::Time;
        self.proxy_time_input = String::new();
        self.screen = Screen::ProxyConfig;
        self.status = owned("Enter proxy URL and press Enter to retry the online catalog.");
        assert(self@ =~~= after_start_proxy(old(self)@));
    }

    /// Types a character into the proxy entry; control characters are
    /// ignored.
    pub fn proxy_push(&mut self, ch: char)
        requires
            old(self).wf(),
        ensures
            final(self).wf(),
            final(self)@ == after_proxy_push(old(self)@, ch),
    {
        let code = ch as u32;
        if !(code < 0x20 || (0x7f <= code && code < 0xa0)) {
            if self.proxy_field == ProxyConfigField::Time {
                push_char(&mut self.proxy_time_input, ch);
            } else {
                push_char(&mut self.proxy_input, ch);
            }
        }
        assert(self@ =~~= after_proxy_push(old(self)@, ch));
    }

    /// Replaces what the proxy entry holds.
    pub fn set_proxy_input(&mut self, value: String)
        requires
            old(self).wf(),
        ensures
            final(self).wf(),
            final(self)@ == (AppView { proxy_input: value@, ..old(self)@ }),
    {
        self.proxy_input = value;
        assert(self@ =~~= AppView { proxy_input: value@, ..old(self)@ });
    }

    /// Deletes the last character of the proxy entry.
    pub fn proxy_backspace(&mut self)
        requires
            old(self).wf(),
        ensures
            final(self).wf(),
            final(self)@ == after_proxy_backspace(old(self)@),
    {
        if self.proxy_field == ProxyConfigField::Time {
            let _ = pop_char(&mut self.proxy_time_input);
        } else {
            let _ = pop_char(&mut self.proxy_input);
        }
        assert(self@ =~~= after_proxy_backspace(old(self)@));
    }

    /// Replaces what the time field holds.
    pub fn set_proxy_time_input(&mut self, value: String)
        requires
            old(self).wf(),
        ensures
            final(self).wf(),
            final(self)@ == (AppView { time_input: value@, ..old(self)@ }),
    {
        self.proxy_time_input = value;
        assert(self@ =~~= AppView { time_input: value@, ..old(self)@ });
    }

    /// Makes the next field of the proxy screen active (see
    /// `after_switch_field`).
    pub fn next_proxy_field(&mut self)
        requires
            old(self).wf(),
        ensures
            final(self).wf(),
            final(self)@ == after_switch_field(old(self)@),
    {
        self.proxy_field = if self.proxy_field == ProxyConfigField::Time {
            ProxyConfigField::Proxy
        } else {
            ProxyConfigField::Time
        };
        assert(self@ =~~= after_switch_field(old(self)@));
    }

    /// Makes the previous field of the proxy screen active (see
    /// `after_switch_field`).
    pub fn previous_proxy_field(&mut self)
        requires
            old(self).wf(),
        ensures
            final(self).wf(),
            final(self)@ == after_switch_field(old(self)@),
    {
        self.next_proxy_field();
    }

    /// Enter on the proxy screen (see `submit_proxy_of`).
    pub fn submit_proxy_config(&mut self) -> (r: AppAction)
        requires
            old(self).wf(),
        ensures
            final(self).wf(),
            (final(self)@, r@) == submit_proxy_of(old(self)@),
    {
        if self.proxy_field == ProxyConfigField::Proxy {
            return self.apply_proxy_config();
        }
        let t = trim(self.proxy_time_input.as_str());
        if t.unicode_len() == 0 {
            self.proxy_field = ProxyConfigField::Proxy;
            assert(self@ =~~= submit_proxy_of(old(self)@).0);
            return AppAction::Idle;
        }
        if is_utc_time_shape(t.as_str()) {
            self.proxy_field = ProxyConfigField::Proxy;
            let mut st = owned("Setting UTC time to ");
            push_str(&mut st, t.as_str());
            push_str(&mut st, ".");
            self.status = st;
            assert(self@ =~~= submit_proxy_of(old(self)@).0);
            return AppAction::SetClock { time: t };
        }
        self.status = owned("Enter UTC time as YYYY-MM-DD HH:MM:SS.");
        assert(self@ =~~= submit_proxy_of(old(self)@).0);
        AppAction::Idle
    }

    /// Takes the outcome of setting the clock to `time` (see
    /// `after_clock_set`).
    pub fn clock_set(&mut self, time: &str, result: Result<(), String>)
        requires
            old(self).wf(),
        ensures
            final(self).wf(),
            final(self)@ == after_clock_set(
                old(self)@,
                time@,
                match result {
                    Ok(()) => Ok(()),
                    Err(e) => Err(e@),
                },
            ),
    {
        match result {
            Ok(()) => {
                let mut st = owned("UTC time set to ");
                push_str(&mut st, time);
                push_str(&mut st, ".");
                self.status = st;
            },
            Err(e) => {
                let mut st = owned("Could not set UTC time: ");
                push_str(&mut st, e.as_str());
                self.status = st;
            },
        }
        assert(self@ =~~= after_clock_set(
            old(self)@,
            time@,
            match result {
                Ok(()) => Ok(()),
                Err(e) => Err(e@),
            },
        ));
    }
}

/// Whether `t` has the shape `YYYY-MM-DD HH:MM:SS` (see `utc_time_shape`).
pub fn is_utc_time_shape(t: &str) -> (r: bool)
    ensures
        r == utc_time_shape(t@),
{
    if t.unicode_len() != 19 {
        return false;
    }
    let mut i: usize = 0;
    while i < 19
        invariant
            t@.len() == 19,
            i <= 19,
            forall|k: int|
                0 <= k < i ==> if k == 4 || k == 7 {
                    t@[k] == '-'
                } else if k == 10 {
                    t@[k] == ' '
                } else if k == 13 || k == 16 {
                    t@[k] == ':'
                } else {
                    '0' <= #[trigger] t@[k] && t@[k] <= '9'
                },
        decreases 19 - i,
    {
        let c = t.get_char(i);
        let ok = if i == 4 || i == 7 {
            c == '-'
        } else if i == 10 {
            c == ' '
        } else if i == 13 || i == 16 {
            c == ':'
        } else {
            '0' <= c && c <= '9'
        };
        if !ok {
            return false;
        }
        i = i + 1;
    }
    true
}

/// What the reboot countdown does at `now`: once it has run out, the same
/// as the reboot key; else nothing.
pub open spec fn auto_reboot_of(v: AppView, now: u64) -> (AppView, ActionView) {
    if reboot_countdown(v, now) == Some(0u64) {
        reboot_or_start_over_of(v)
    } else {
        (v, ActionView::Idle)
    }
}

/// The game advanced one tick while an install runs.
pub open spec fn after_tick(v: AppView) -> AppView {
    if v.screen == Screen::Installing {
        AppView { runner: runner_step(v.runner), ..v }
    } else {
        v
    }
}

/// The runner jumps (or the game restarts) while an install runs.
pub open spec fn after_jump(v: AppView) -> AppView {
    if v.screen == Screen::Installing {
        AppView { runner: runner_jump(v.runner), ..v }
    } else {
        v
    }
}

/// The events of a poll, taken as values.
pub open spec fn events_view(es: Seq<InstallEvent>) -> Seq<EventView> {
    crate::sort::views(es)
}

proof fn lemma_event_keeps_wf(v: AppView, e: EventView, now: u64)
    requires
        app_wf(v),
    ensures
        app_wf(after_event(v, e, now)),
        after_event(v, e, now).install_running == v.install_running,
{
}

impl App {
    /// The image the current screen is about (see `selected_image_of`), as a
    /// copy.
    fn current_image(&self) -> (r: Option<ImageEntry>)
        requires
            self.wf(),
        ensures
            opt_image(r) == selected_image_of(self@),
    {
        proof {
            self.lemma_view_parts();
        }
        let chosen = match self.screen {
            Screen::TargetSelect | Screen::Confirm | Screen::Installing | Screen::Complete
            | Screen::Error => true,
            _ => false,
        };
        if chosen {
            match &self.active_image {
                Some(a) => {
                    return Some(a.duplicate());
                },
                None => {},
            }
        }
        Some(self.catalog.images[self.image_index].duplicate())
    }

    /// Starts the install of the chosen image on the chosen target (see
    /// `start_install_of`).
    fn start_install(&mut self, now: u64, available_bytes: Option<u64>) -> (r: AppAction)
        requires
            old(self).wf(),
        ensures
            final(self).wf(),
            (final(self)@, r@) == start_install_of(old(self)@, now, available_bytes),
    {
        proof {
            self.lemma_view_parts();
        }
        let image = match self.current_image() {
            Some(i) => i,
            None => {
                self.status = owned("No image selected.");
                return AppAction::Idle;
            },
        };
        if self.target_index >= self.devices.len() {
            self.status = owned("No target selected.");
            assert(self@ =~~= AppView { status: "No target selected."@, ..old(self)@ });
            return AppAction::Idle;
        }
        let target = self.devices[self.target_index].duplicate();
        let check = check_image_memory(&image, self.lite_guard, available_bytes);
        if check.blocks_install() {
            self.screen = Screen::Error;
            let mut s = owned("Not enough available RAM for the installer working set. ");
            let summary = check.summary();
            push_str(&mut s, summary.as_str());
            push_str(&mut s, ". TOBI streams images, so the full image does not need to fit in RAM.");
            self.status = s;
            assert(self@ =~~= start_install_of(old(self)@, now, available_bytes).0);
            return AppAction::Idle;
        }
        self.screen = Screen::Installing;
        self.runner = RunnerGame::new();
        self.install_started_at = Some(now);
        self.status = owned("Starting install.");
        self.progress = Some(
            ProgressState {
                phase: owned("Starting"),
                current: 0,
                total: image.extract_size,
                source_current: Some(0),
                source_total: image.image_download_size,
            },
        );
        self.install_running = true;
        let reboot_after_install = self.run_mode == RunMode::Live && target.kind != TargetKind::File;
        let request = InstallRequest {
            image,
            target,
            run_mode: self.run_mode,
            allow_write: self.allow_write,
            proxy_url: clone_opt_string(&self.proxy_url),
            reboot_after_install,
        };
        assert(self@ =~~= start_install_of(old(self)@, now, available_bytes).0);
        assert(request@ =~~= install_request_of(
            old(self)@,
            selected_image_of(old(self)@).unwrap(),
            selected_target_of(old(self)@).unwrap(),
        ));
        AppAction::StartInstall(request)
    }

    /// What Enter does (see `activate_of`): `now` is the clock reading and
    /// `available_bytes` the RAM free, when known, for an install started
    /// from the confirmation screen.
    pub fn activate_selected(&mut self, now: u64, available_bytes: Option<u64>) -> (r: AppAction)
        requires
            old(self).wf(),
        ensures
            final(self).wf(),
            (final(self)@, r@) == activate_of(old(self)@, now, available_bytes),
    {
        proof {
            self.lemma_view_parts();
        }
        match self.screen {
            Screen::Welcome => {
                self.screen = Screen::ImageSelect;
                self.status = owned("Choose an operating system image.");
                assert(self@ =~~= activate_of(old(self)@, now, available_bytes).0);
                AppAction::Idle
            },
            Screen::ImageSelect => {
                let i = self.image_index;
                if is_custom_placeholder(&self.catalog.images[i]) {
                    self.screen = Screen::CustomImageSelect;
                    self.status = owned("Choose a custom image from attached media.");
                    assert(self@ =~~= activate_of(old(self)@, now, available_bytes).0);
                    AppAction::ScanCustomImages { report: false }
                } else {
                    self.active_image = Some(self.catalog.images[i].duplicate());
                    self.active_image_is_custom = false;
                    self.screen = Screen::TargetSelect;
                    self.status = owned("Choose target media.");
                    assert(self@ =~~= activate_of(old(self)@, now, available_bytes).0);
                    AppAction::Idle
                }
            },
            Screen::CustomImageSelect => {
                if self.custom_image_index < self.custom_images.len() {
                    let c = self.custom_images[self.custom_image_index].duplicate();
                    self.active_image = Some(c.into_image_entry());
                    self.active_image_is_custom = true;
                    self.screen = Screen::TargetSelect;
                    self.status = owned("Choose target media.");
                } else {
                    self.status = owned("No custom images found. Attach media and press R to rescan.");
                }
                assert(self@ =~~= activate_of(old(self)@, now, available_bytes).0);
                AppAction::Idle
            },
            Screen::TargetSelect => {
                self.screen = Screen::Confirm;
                self.status = owned("Confirm destructive write.");
                assert(self@ =~~= activate_of(old(self)@, now, available_bytes).0);
                AppAction::Idle
            },
            Screen::Confirm => self.start_install(now, available_bytes),
            Screen::Complete => self.reboot_or_start_over(),
            Screen::Error => {
                self.start_over();
                AppAction::Idle
            },
            Screen::ProxyConfig => self.submit_proxy_config(),
            _ => AppAction::Idle,
        }
    }

    /// Whether the finished install may reboot the board (see
    /// `reboot_allowed`).
    pub fn can_reboot_after_complete(&self) -> (r: bool)
        requires
            self.wf(),
        ensures
            r == reboot_allowed(self@),
    {
        proof {
            self.lemma_view_parts();
        }
        self.screen == Screen::Complete && self.run_mode == RunMode::Live && self.target_index
            < self.devices.len() && self.devices[self.target_index].kind != TargetKind::File
    }

    /// The seconds left before the automatic reboot at `now` (see
    /// `reboot_countdown`).
    pub fn complete_auto_reboot_seconds(&self, now: u64) -> (r: Option<u64>)
        requires
            self.wf(),
        ensures
            r == reboot_countdown(self@, now),
    {
        if !self.can_reboot_after_complete() {
            return None;
        }
        match self.success_completed_at {
            None => None,
            Some(done) => {
                let elapsed = if now >= done {
                    now - done
                } else {
                    0
                };
                let limit: u64 = 10 * NANOS_PER_SECOND;
                let remaining = if elapsed >= limit {
                    0
                } else {
                    limit - elapsed
                };
                if remaining == 0 {
                    Some(0)
                } else {
                    let whole = remaining / NANOS_PER_SECOND;
                    let part: u64 = if remaining % NANOS_PER_SECOND > 0 {
                        1
                    } else {
                        0
                    };
                    Some(whole + part)
                }
            },
        }
    }

    /// Reboots once the countdown has run out (see `auto_reboot_of`).
    pub fn auto_reboot_if_due(&mut self, now: u64) -> (r: AppAction)
        requires
            old(self).wf(),
        ensures
            final(self).wf(),
            (final(self)@, r@) == auto_reboot_of(old(self)@, now),
    {
        match self.complete_auto_reboot_seconds(now) {
            Some(0) => self.reboot_or_start_over(),
            _ => AppAction::Idle,
        }
    }

    /// The reboot key on the completion screen (see `reboot_or_start_over_of`).
    pub fn reboot_or_start_over(&mut self) -> (r: AppAction)
        requires
            old(self).wf(),
        ensures
            final(self).wf(),
            (final(self)@, r@) == reboot_or_start_over_of(old(self)@),
    {
        if !self.can_reboot_after_complete() {
            self.start_over();
            return AppAction::Idle;
        }
        self.status = owned(
            "Reboot requested. If the board does not restart, reboot it manually from the serial console.",
        );
        assert(self@ =~~= reboot_or_start_over_of(old(self)@).0);
        AppAction::Reboot
    }

    /// Reports that the requested reboot failed with `error`.
    pub fn reboot_failed(&mut self, error: &str)
        requires
            old(self).wf(),
        ensures
            final(self).wf(),
            final(self)@ == (AppView {
                screen: Screen::Error,
                status: reboot_failed_status(error@),
                ..old(self)@
            }),
    {
        self.screen = Screen::Error;
        let mut s = owned("Install succeeded, but TOBI could not reboot the board.\n\n");
        push_str(&mut s, error);
        push_str(&mut s, "\n\nYou can reboot manually or press R to start over.");
        self.status = s;
        assert(self@ =~~= AppView {
            screen: Screen::Error,
            status: reboot_failed_status(error@),
            ..old(self)@
        });
    }

    /// Asks to reload the catalog with the proxy typed so far (see
    /// `apply_proxy_of`).
    pub fn apply_proxy_config(&self) -> (r: AppAction)
        ensures
            r@ == apply_proxy_of(self@),
    {
        let proxy = if is_blank(self.proxy_input.as_str()) {
            None
        } else {
            Some(trim(self.proxy_input.as_str()))
        };
        AppAction::LoadCatalog { source: self.manifest_source.clone(), proxy }
    }

    /// Takes the outcome of a catalog load asked for by `apply_proxy_config`
    /// (see `after_catalog_loaded`); `probe` is what the board exposes, for
    /// the detection of a board still unknown.
    #[verifier::rlimit(40)]
    pub fn catalog_loaded(&mut self, result: Result<Catalog, String>, probe: &BoardProbe)
        requires
            old(self).wf(),
        ensures
            final(self).wf(),
            final(self)@ == after_catalog_loaded(
                old(self)@,
                match result {
                    Ok(c) => Ok(c@),
                    Err(e) => Err(e@),
                },
                match result {
                    Ok(c) => detected_board_view(old(self)@.run_mode, c@.devices, *probe),
                    Err(_) => old(self)@.board,
                },
            ),
    {
        match result {
            Ok(catalog) => {
                let proxy = if is_blank(self.proxy_input.as_str()) {
                    None
                } else {
                    Some(trim(self.proxy_input.as_str()))
                };
                let unknown = match &self.board.id {
                    Some(_) => false,
                    None => true,
                };
                if unknown {
                    self.board = detect_board(self.run_mode, &catalog, probe);
                }
                let (prepared, index) = prepare_catalog(catalog, &self.board);
                self.proxy_url = proxy;
                self.catalog = prepared;
                self.image_index = index;
                self.active_image = None;
                self.active_image_is_custom = false;
                self.screen = Screen::ImageSelect;
                self.status = owned("Online OS catalog loaded.");
                self.warning = None;
            },
            Err(e) => {
                let mut s = owned(
                    "Could not load the online catalog with this proxy. You can adjust the proxy and try again, or press Esc to continue with custom local images.\n\n",
                );
                push_str(&mut s, e.as_str());
                self.warning = Some(s);
            },
        }
        assert(self@ =~~= after_catalog_loaded(
            old(self)@,
            match result {
                Ok(c) => Ok(c@),
                Err(e) => Err(e@),
            },
            match result {
                Ok(c) => detected_board_view(old(self)@.run_mode, c@.devices, *probe),
                Err(_) => old(self)@.board,
            },
        ));
    }

    /// What the refresh key asks for (see `refresh_action`).
    pub fn refresh_devices(&self) -> (r: AppAction)
        ensures
            r@ == refresh_action(self@),
    {
        if self.screen == Screen::CustomImageSelect {
            return self.refresh_custom_images();
        }
        AppAction::ListDevices(DeviceMode::from_run_mode(self.run_mode))
    }

    /// Takes a new listing of targets (see `after_devices_listed`).
    pub fn devices_listed(&mut self, result: Result<Vec<InstallTarget>, DeviceError>)
        requires
            old(self).wf(),
        ensures
            final(self).wf(),
            final(self)@ == after_devices_listed(old(self)@, listing_view(result)),
    {
        match result {
            Ok(devices) => {
                self.expanded_targets = known_ids(&self.expanded_targets, &devices);
                let n = devices.len();
                self.devices = devices;
                self.target_index = if n == 0 {
                    0
                } else if self.target_index < n {
                    self.target_index
                } else {
                    n - 1
                };
                self.status = owned("Storage targets refreshed.");
            },
            Err(e) => {
                let mut s = owned("Could not refresh targets: ");
                let m = e.message();
                push_str(&mut s, m.as_str());
                self.status = s;
            },
        }
        assert(self@ =~~= after_devices_listed(old(self)@, listing_view(result)));
    }

    /// Asks for a scan of attached media whose outcome the status reports.
    pub fn refresh_custom_images(&self) -> (r: AppAction)
        ensures
            r@ == (ActionView::ScanCustomImages { report: true }),
    {
        AppAction::ScanCustomImages { report: true }
    }

    /// Takes the outcome of a scan of attached media (see `after_scan`).
    pub fn custom_images_scanned(&mut self, result: Result<Vec<CustomImage>, String>, report: bool)
        requires
            old(self).wf(),
        ensures
            final(self).wf(),
            final(self)@ == after_scan(old(self)@, scan_view(result), report),
    {
        match result {
            Ok(images) => {
                let n = images.len();
                self.custom_images = images;
                self.custom_image_index = if n == 0 {
                    0
                } else if self.custom_image_index < n {
                    self.custom_image_index
                } else {
                    n - 1
                };
                if report {
                    if n == 0 {
                        self.status = owned(
                            "No custom images found. Attach media and press R to rescan.",
                        );
                    } else {
                        let mut s = owned("Found ");
                        push_decimal(&mut s, n as u64);
                        push_str(&mut s, " custom image(s).");
                        self.status = s;
                    }
                }
            },
            Err(e) => {
                if report {
                    let mut s = owned("Could not scan attached media: ");
                    push_str(&mut s, e.as_str());
                    self.status = s;
                }
            },
        }
        assert(self@ =~~= after_scan(old(self)@, scan_view(result), report));
    }

    /// Takes the events the running install reported since the last poll
    /// (see `after_poll`); `now` is the clock reading.
    pub fn poll_install_events(&mut self, events: Vec<InstallEvent>, now: u64)
        requires
            old(self).wf(),
        ensures
            final(self).wf(),
            final(self)@ == after_poll(old(self)@, events_view(events@), now),
    {
        if !self.install_running {
            return;
        }
        let ghost es = events_view(events@);
        let ghost start = self@;
        let mut ended = false;
        let mut i: usize = 0;
        assert(es.take(0) =~= Seq::<EventView>::empty());
        while i < events.len()
            invariant
                i <= events@.len(),
                es == events_view(events@),
                start == old(self)@,
                start.install_running,
                self.wf(),
                self@ == after_events(start, es.take(i as int), now),
                self@.install_running,
                ended <==> exists|j: int| 0 <= j < i && ends_install(#[trigger] es[j]),
            decreases events@.len() - i,
        {
            let ghost prev = self@;
            assert(es.take(i + 1).drop_last() =~= es.take(i as int));
            assert(es[i as int] == events@[i as int]@);
            match &events[i] {
                InstallEvent::Phase(p) => {
                    self.status = p.clone();
                },
                InstallEvent::Progress { phase, current, total, source_current, source_total } => {
                    self.status = phase.clone();
                    self.progress = Some(
                        ProgressState {
                            phase: phase.clone(),
                            current: *current,
                            total: *total,
                            source_current: *source_current,
                            source_total: *source_total,
                        },
                    );
                },
                InstallEvent::Complete(m) => {
                    self.status = m.clone();
                    self.screen = Screen::Complete;
                    self.success_completed_at = Some(now);
                    ended = true;
                },
                InstallEvent::Failed(m) => {
                    self.status = m.clone();
                    self.screen = Screen::Error;
                    self.success_completed_at = None;
                    ended = true;
                },
            }
            proof {
                lemma_event_keeps_wf(prev, es[i as int], now);
                assert(self@ =~~= after_event(prev, es[i as int], now));
            }
            i = i + 1;
        }
        assert(es.take(events@.len() as int) =~= es);
        if ended {
            self.install_running = false;
        }
        assert(self@ =~~= after_poll(old(self)@, es, now));
    }

    /// Advances the game while an install runs.
    pub fn tick_runner(&mut self)
        requires
            old(self).wf(),
        ensures
            final(self).wf(),
            final(self)@ == after_tick(old(self)@),
    {
        if self.screen == Screen::Installing {
            self.runner.tick();
        }
        assert(self@ =~~= after_tick(old(self)@));
    }

    /// Jumps, or restarts the game, while an install runs.
    pub fn runner_jump_or_restart(&mut self)
        requires
            old(self).wf(),
        ensures
            final(self).wf(),
            final(self)@ == after_jump(old(self)@),
    {
        if self.screen == Screen::Installing {
            self.runner.jump_or_restart();
        }
        assert(self@ =~~= after_jump(old(self)@));
    }

    /// Fits the game to a terminal `width` columns wide.
    pub fn set_terminal_size(&mut self, width: u16, height: u16)
        requires
            old(self).wf(),
        ensures
            final(self).wf(),
            final(self)@ == (AppView {
                runner: RunnerView { viewport_width: viewport_for(width), ..old(self)@.runner },
                ..old(self)@
            }),
    {
        self.runner.set_viewport_width(width);
        assert(self@ =~~= AppView {
            runner: RunnerView { viewport_width: viewport_for(width), ..old(self)@.runner },
            ..old(self)@
        });
    }

    /// Whether the header's system status is due for a refresh at `now` (see
    /// `status_refresh_due`); when it is, `now` is kept as the time of the
    /// refresh and the caller reads the status for `set_system_status`.
    pub fn refresh_system_status_if_due(&mut self, now: u64) -> (r: bool)
        requires
            old(self).wf(),
        ensures
            final(self).wf(),
            r == status_refresh_due(old(self)@, now),
            final(self)@ == if r {
                AppView { system_status_refreshed_at: Some(now), ..old(self)@ }
            } else {
                old(self)@
            },
    {
        let due = match self.system_status_refreshed_at {
            None => true,
            Some(last) => now >= last && now - last >= NANOS_PER_SECOND,
        };
        if due {
            self.system_status_refreshed_at = Some(now);
        }
        assert(self@ =~~= if due {
            AppView { system_status_refreshed_at: Some(now), ..old(self)@ }
        } else {
            old(self)@
        });
        due
    }

    /// Replaces the header's system status.
    pub fn set_system_status(&mut self, status: SystemStatus)
        requires
            old(self).wf(),
        ensures
            final(self).wf(),
            final(self)@ == (AppView { system_status: status@, ..old(self)@ }),
    {
        self.system_status = status;
        assert(self@ =~~= AppView { system_status: status@, ..old(self)@ });
    }
}

proof fn lemma_index_roundtrip(i: nat, len: nat)
    requires
        index_ok(i, len),
    ensures
        previous_of(next_of(i, len), len) == i,
        next_of(previous_of(i, len), len) == i,
{
    if len > 0 {
        let l = len as int;
        vstd::arithmetic::div_mod::lemma_small_mod(i, len);
        vstd::arithmetic::div_mod::lemma_mod_self_0(l);
        vstd::arithmetic::div_mod::lemma_small_mod((len - 1) as nat, len);
        vstd::arithmetic::div_mod::lemma_mod_add_multiples_vanish(i as int, l);
        if i + 1 < len {
            vstd::arithmetic::div_mod::lemma_small_mod((i + 1) as nat, len);
        }
        if i > 0 {
            vstd::arithmetic::div_mod::lemma_small_mod((i - 1) as nat, len);
            vstd::arithmetic::div_mod::lemma_mod_add_multiples_vanish(i - 1, l);
        }
    }
}

/// On every screen, moving the cursor down and then up again, or up and
/// then down again, leaves the state as it was.
pub proof fn lemma_next_previous_inverse(v: AppView)
    requires
        app_wf(v),
    ensures
        after_previous(after_next(v)) == v,
        after_next(after_previous(v)) == v,
{
    lemma_index_roundtrip(v.image_index, v.catalog.images.len());
    lemma_index_roundtrip(v.custom_image_index, v.custom_images.len());
    lemma_index_roundtrip(v.target_index, v.devices.len());
    assert(after_previous(after_next(v)) =~~= v);
    assert(after_next(after_previous(v)) =~~= v);
}

/// Backspace deletes what was just typed: typing a character that is not a
/// control character into the proxy entry and deleting it again leaves the
/// state as it was.
pub proof fn lemma_proxy_backspace_undoes_push(v: AppView, ch: char)
    requires
        !is_control_char(ch),
    ensures
        after_proxy_backspace(after_proxy_push(v, ch)) == v,
{
    assert(v.proxy_input.push(ch).drop_last() =~= v.proxy_input);
    assert(after_proxy_backspace(after_proxy_push(v, ch)) =~~= v);
}

/// The status a screen shows when it is entered on the way to an install.
pub open spec fn arrival_status(screen: Screen) -> Seq<char> {
    match screen {
        Screen::Welcome => "Press Enter to continue."@,
        Screen::ImageSelect => "Choose an operating system image."@,
        Screen::CustomImageSelect => "Choose a custom image from attached media."@,
        _ => "Choose target media."@,
    }
}

/// Backspace undoes Enter on the way to the install: from the welcome
/// screen, the image lists and the target list, a step forward that changed
/// the screen followed by a step back returns to the same screen with the
/// status it shows on arrival; only the chosen image is remembered.
pub proof fn lemma_back_undoes_activate(v: AppView, now: u64, available: Option<u64>)
    requires
        v.screen == Screen::Welcome || v.screen == Screen::ImageSelect || v.screen
            == Screen::CustomImageSelect || v.screen == Screen::TargetSelect,
        activate_of(v, now, available).0.screen != v.screen,
    ensures
        ({
            let w = activate_of(v, now, available).0;
            after_back(w) == AppView {
                status: arrival_status(v.screen),
                active_image: w.active_image,
                active_image_is_custom: w.active_image_is_custom,
                ..v
            }
        }),
{
    let w = activate_of(v, now, available).0;
    assert(after_back(w) =~~= AppView {
        status: arrival_status(v.screen),
        active_image: w.active_image,
        active_image_is_custom: w.active_image_is_custom,
        ..v
    });
}

/// Showing the partitions of a target and hiding them again leaves the set
/// of expanded targets as it was, when the target under the cursor was not
/// expanded before.
pub proof fn lemma_collapse_undoes_expand(v: AppView)
    requires
        v.screen == Screen::TargetSelect,
        selected_target_of(v) matches Some(t) && !v.expanded.contains(t.id),
    ensures
        after_collapse(after_expand(v)).expanded == v.expanded,
{
    let t = selected_target_of(v)->0;
    if t.partitions.len() > 0 {
        assert(v.expanded.insert(t.id).remove(t.id) =~= v.expanded);
    }
}

/// Writes need live mode and write permission: an install the installer
/// starts carries the run mode and the write permission it was started
/// with, so a mock installer only ever asks for a simulated install, and a
/// live request without write permission is refused before anything is
/// opened, whatever memory is available.
pub proof fn lemma_install_keeps_mode_and_permission(
    v: AppView,
    now: u64,
    available: Option<u64>,
    lite_guard: bool,
    memory: Option<u64>,
)
    ensures
        activate_of(v, now, available).1 matches ActionView::StartInstall(r) ==> {
            &&& r.run_mode == v.run_mode
            &&& r.allow_write == v.allow_write
            &&& !v.allow_write ==> live_attempts_of(r, lite_guard, memory) is Err
        },
{
}

/// Every state the installer reaches offers the attached-media entry, so
/// the image list is never empty; and the install screen always has
/// progress to show and a start time to count the elapsed time from. (Every
/// operation of `App` keeps `app_wf`.)
pub proof fn lemma_reachable_states(v: AppView, now: u64)
    requires
        app_wf(v),
    ensures
        v.catalog.images.contains(placeholder_view()),
        v.catalog.images.len() > 0,
        v.screen == Screen::Installing ==> v.progress is Some && elapsed_of(v, now) is Some,
{
}

/// The cursor moved down `n` times.
pub open spec fn next_times(v: AppView, n: nat) -> AppView
    decreases n,
{
    if n == 0 {
        v
    } else {
        after_next(next_times(v, (n - 1) as nat))
    }
}

/// The length of the list the cursor walks on the current screen (zero off
/// the list screens).
pub open spec fn cursor_list_len(v: AppView) -> nat {
    match v.screen {
        Screen::ImageSelect => v.catalog.images.len(),
        Screen::CustomImageSelect => v.custom_images.len(),
        Screen::TargetSelect => v.devices.len(),
        _ => 0,
    }
}

/// An index `k` steps further along a list of `len`, wrapping around.
pub open spec fn advanced(i: nat, len: nat, k: nat) -> nat {
    if len == 0 {
        i
    } else {
        (i + k) % len
    }
}

proof fn lemma_advanced_step(i: nat, len: nat, k: nat)
    requires
        index_ok(i, len),
    ensures
        next_of(advanced(i, len, k), len) == advanced(i, len, k + 1),
{
    if len > 0 {
        let x = (i + k) as int;
        let m = len as int;
        vstd::arithmetic::div_mod::lemma_fundamental_div_mod(x, m);
        vstd::arithmetic::div_mod::lemma_mod_multiples_vanish(x / m, x % m + 1, m);
        assert(x + 1 == m * (x / m) + (x % m + 1));
    }
}

proof fn lemma_next_times_shape(v: AppView, k: nat)
    requires
        app_wf(v),
    ensures
        next_times(v, k) == (match v.screen {
            Screen::ImageSelect => AppView {
                image_index: advanced(v.image_index, v.catalog.images.len(), k),
                ..v
            },
            Screen::CustomImageSelect => AppView {
                custom_image_index: advanced(v.custom_image_index, v.custom_images.len(), k),
                ..v
            },
            Screen::TargetSelect => AppView {
                target_index: advanced(v.target_index, v.devices.len(), k),
                ..v
            },
            _ => v,
        }),
    decreases k,
{
    if k == 0 {
        if v.catalog.images.len() > 0 {
            vstd::arithmetic::div_mod::lemma_small_mod(v.image_index, v.catalog.images.len());
        }
        if v.custom_images.len() > 0 {
            vstd::arithmetic::div_mod::lemma_small_mod(v.custom_image_index, v.custom_images.len());
        }
        if v.devices.len() > 0 {
            vstd::arithmetic::div_mod::lemma_small_mod(v.target_index, v.devices.len());
        }
        assert(AppView { image_index: v.image_index, ..v } =~~= v);
        assert(AppView { custom_image_index: v.custom_image_index, ..v } =~~= v);
        assert(AppView { target_index: v.target_index, ..v } =~~= v);
    } else {
        lemma_next_times_shape(v, (k - 1) as nat);
        lemma_advanced_step(v.image_index, v.catalog.images.len(), (k - 1) as nat);
        lemma_advanced_step(v.custom_image_index, v.custom_images.len(), (k - 1) as nat);
        lemma_advanced_step(v.target_index, v.devices.len(), (k - 1) as nat);
    }
}

/// Moving the cursor down as many times as the list is long brings it back
/// to where it was, on every screen: the whole state is as before.
pub proof fn lemma_next_cycles(v: AppView)
    requires
        app_wf(v),
    ensures
        next_times(v, cursor_list_len(v)) == v,
{
    let n = cursor_list_len(v);
    lemma_next_times_shape(v, n);
    if n > 0 {
        let i = match v.screen {
            Screen::ImageSelect => v.image_index,
            Screen::CustomImageSelect => v.custom_image_index,
            _ => v.target_index,
        };
        vstd::arithmetic::div_mod::lemma_mod_add_multiples_vanish(i as int, n as int);
        vstd::arithmetic::div_mod::lemma_small_mod(i, n);
        assert((i + n) % n == i);
    }
    assert(next_times(v, n) =~~= v);
}

/// The automatic reboot is never more than ten seconds away, and it is due
/// exactly when ten seconds have passed since the install completed.
pub proof fn lemma_countdown_bounds(v: AppView, now: u64)
    ensures
        match reboot_countdown(v, now) {
            Some(secs) => {
                &&& reboot_allowed(v)
                &&& v.success_completed_at is Some
                &&& secs <= 10
                &&& (secs == 0 <==> v.success_completed_at.unwrap() + 10 * NANOS_PER_SECOND <= now)
            },
            None => !reboot_allowed(v) || v.success_completed_at is None,
        },
{
    if reboot_allowed(v) && v.success_completed_at is Some {
        let done = v.success_completed_at.unwrap();
        let elapsed: int = if now >= done {
            now - done
        } else {
            0
        };
        let limit: int = 10 * NANOS_PER_SECOND;
        if elapsed < limit {
            let remaining = limit - elapsed;
            let n = NANOS_PER_SECOND as int;
            assert(0 < remaining <= 10 * n);
            assert(remaining / n <= 10) by (nonlinear_arith)
                requires
                    0 < remaining <= 10 * n,
                    n > 0,
            ;
            assert(remaining / n == 10 ==> remaining % n == 0) by (nonlinear_arith)
                requires
                    0 < remaining <= 10 * n,
                    n > 0,
            ;
            assert(remaining / n == 0 ==> remaining % n > 0) by (nonlinear_arith)
                requires
                    0 < remaining,
                    n > 0,
            ;
        }
    }
}

/// An install started from the confirmation screen is asked to reboot the
/// board exactly when its completion screen will offer the reboot.
pub proof fn lemma_reboot_request_matches_completion(
    v: AppView,
    now: u64,
    available: Option<u64>,
    message: Seq<char>,
    later: u64,
)
    requires
        app_wf(v),
        v.screen == Screen::Confirm,
    ensures
        ({
            let (w, a) = activate_of(v, now, available);
            let u = after_poll(w, seq![EventView::Complete(message)], later);
            match a {
                ActionView::StartInstall(request) => {
                    &&& u.screen == Screen::Complete
                    &&& u.success_completed_at == Some(later)
                    &&& !u.install_running
                    &&& reboot_allowed(u) == request.reboot_after_install
                },
                _ => w.screen != Screen::Installing,
            }
        }),
{
    let (w, a) = activate_of(v, now, available);
    let es = seq![EventView::Complete(message)];
    assert(es.drop_last() =~= Seq::<EventView>::empty());
    assert(es.last() == EventView::Complete(message));
    assert(ends_install(es[0]));
    assert(after_events(w, es.drop_last(), later) == w);
    assert(after_events(w, es, later) == after_event(w, EventView::Complete(message), later));
    let u = after_poll(w, es, later);
    match a {
        ActionView::StartInstall(request) => {
            assert(w.install_running);
            assert(reboot_allowed(u) == request.reboot_after_install);
        },
        _ => {},
    }
}

/// The image list always ends up holding the attached-media entry; apart from
/// it, it holds exactly the catalog images offered to the board, in display
/// order.
pub proof fn lemma_prepared_images(c: CatalogView, board: BoardView)
    ensures
        prepared_images(c, board).contains(placeholder_view()),
        prepared_images(c, board).to_multiset() == board_images(c.devices, board, c.images).push(
            placeholder_view(),
        ).to_multiset(),
        crate::sort::is_sorted::<ImageEntry>(prepared_images(c, board)),
{
    broadcast use vstd::seq_lib::group_to_multiset_ensures;

    let s = board_images(c.devices, board, c.images).push(placeholder_view());
    crate::sort::lemma_stable_sorted_permutes::<ImageEntry>(s);
    crate::sort::lemma_stable_sorted_is_sorted::<ImageEntry>(s);
    assert(s[s.len() - 1] == placeholder_view());
    assert(s.contains(placeholder_view()));
    assert(s.to_multiset().count(placeholder_view()) > 0);
}

impl App {
    /// The catalog as shown.
    pub fn catalog(&self) -> (r: &Catalog)
        ensures
            r@ == self@.catalog,
    {
        &self.catalog
    }

    /// The board.
    pub fn board(&self) -> (r: &DetectedBoard)
        ensures
            r@ == self@.board,
    {
        &self.board
    }

    /// The install targets.
    pub fn devices(&self) -> (r: &[InstallTarget])
        ensures
            targets_view(r@) == self@.devices,
    {
        self.devices.as_slice()
    }

    /// The images found on attached media.
    pub fn custom_images(&self) -> (r: &[CustomImage])
        ensures
            crate::sort::views(r@) == self@.custom_images,
    {
        self.custom_images.as_slice()
    }

    /// Whether writes are simulated or performed.
    pub fn run_mode(&self) -> (r: RunMode)
        ensures
            r == self@.run_mode,
    {
        self.run_mode
    }

    /// The current screen.
    pub fn screen(&self) -> (r: Screen)
        ensures
            r == self@.screen,
    {
        self.screen
    }

    /// The cursor on the image list.
    pub fn image_index(&self) -> (r: usize)
        ensures
            r == self@.image_index,
    {
        self.image_index
    }

    /// The cursor on the custom image list.
    pub fn custom_image_index(&self) -> (r: usize)
        ensures
            r == self@.custom_image_index,
    {
        self.custom_image_index
    }

    /// The cursor on the target list.
    pub fn target_index(&self) -> (r: usize)
        ensures
            r == self@.target_index,
    {
        self.target_index
    }

    /// The catalog image under the cursor.
    pub fn selected_catalog_image(&self) -> (r: Option<&ImageEntry>)
        ensures
            match r {
                Some(e) => catalog_image(self@) == Some(e@),
                None => catalog_image(self@) is None,
            },
    {
        proof {
            self.lemma_view_parts();
        }
        if self.image_index < self.catalog.images.len() {
            Some(&self.catalog.images[self.image_index])
        } else {
            None
        }
    }

    /// The image the current screen is about (see `selected_image_of`).
    pub fn selected_image(&self) -> (r: Option<&ImageEntry>)
        ensures
            match r {
                Some(e) => selected_image_of(self@) == Some(e@),
                None => selected_image_of(self@) is None,
            },
    {
        let chosen = match self.screen {
            Screen::TargetSelect | Screen::Confirm | Screen::Installing | Screen::Complete
            | Screen::Error => true,
            _ => false,
        };
        if chosen {
            match &self.active_image {
                Some(a) => {
                    return Some(a);
                },
                None => {},
            }
        }
        self.selected_catalog_image()
    }

    /// The custom image under the cursor.
    pub fn selected_custom_image(&self) -> (r: Option<&CustomImage>)
        ensures
            match r {
                Some(c) => selected_custom_of(self@) == Some(c@),
                None => selected_custom_of(self@) is None,
            },
    {
        proof {
            self.lemma_view_parts();
        }
        if self.custom_image_index < self.custom_images.len() {
            Some(&self.custom_images[self.custom_image_index])
        } else {
            None
        }
    }

    /// The target under the cursor.
    pub fn selected_target(&self) -> (r: Option<&InstallTarget>)
        ensures
            match r {
                Some(t) => selected_target_of(self@) == Some(t@),
                None => selected_target_of(self@) is None,
            },
    {
        proof {
            self.lemma_view_parts();
        }
        if self.target_index < self.devices.len() {
            Some(&self.devices[self.target_index])
        } else {
            None
        }
    }

    /// Whether the partitions of a target are shown.
    pub fn is_target_expanded(&self, target_id: &str) -> (r: bool)
        ensures
            r == self@.expanded.contains(target_id@),
    {
        list_contains(&self.expanded_targets, target_id)
    }

    /// The latest progress of the install.
    pub fn progress(&self) -> (r: Option<&ProgressState>)
        ensures
            match r {
                Some(p) => self@.progress == Some(p@),
                None => self@.progress is None,
            },
    {
        match &self.progress {
            Some(p) => Some(p),
            None => None,
        }
    }

    /// The nanoseconds since the install started, at `now`.
    pub fn install_elapsed(&self, now: u64) -> (r: Option<u64>)
        ensures
            r == elapsed_of(self@, now),
    {
        match self.install_started_at {
            Some(start) => Some(
                if now >= start {
                    now - start
                } else {
                    0
                },
            ),
            None => None,
        }
    }

    /// The bytes written per second since the install started, at `now`
    /// (see `rate_of`).
    pub fn install_rate_bytes_per_second(&self, now: u64) -> (r: Option<u64>)
        ensures
            r == rate_of(self@, now),
    {
        let elapsed = match self.install_elapsed(now) {
            Some(e) => e,
            None => {
                return None;
            },
        };
        let secs = elapsed / NANOS_PER_SECOND;
        let secs = if secs < 1 {
            1
        } else {
            secs
        };
        match &self.progress {
            Some(p) => Some(p.current / secs),
            None => None,
        }
    }

    /// The status line.
    pub fn status(&self) -> (r: &str)
        ensures
            r@ == self@.status,
    {
        self.status.as_str()
    }

    /// The warning, if any.
    pub fn warning(&self) -> (r: Option<&str>)
        ensures
            match r {
                Some(w) => self@.warning == Some(w@),
                None => self@.warning is None,
            },
    {
        match &self.warning {
            Some(w) => Some(w.as_str()),
            None => None,
        }
    }

    /// Whether a warning is shown: there is one and the proxy entry is not
    /// open.
    pub fn has_warning(&self) -> (r: bool)
        ensures
            r == (self@.warning is Some && self@.screen != Screen::ProxyConfig),
    {
        let some = match &self.warning {
            Some(_) => true,
            None => false,
        };
        some && self.screen != Screen::ProxyConfig
    }

    /// The proxy typed so far.
    pub fn proxy_input(&self) -> (r: &str)
        ensures
            r@ == self@.proxy_input,
    {
        self.proxy_input.as_str()
    }

    /// The UTC time typed so far.
    pub fn proxy_time_input(&self) -> (r: &str)
        ensures
            r@ == self@.time_input,
    {
        self.proxy_time_input.as_str()
    }

    /// The field of the proxy screen that typing goes to.
    pub fn proxy_config_field(&self) -> (r: ProxyConfigField)
        ensures
            r == self@.proxy_field,
    {
        self.proxy_field
    }

    /// The memory check of the image the screen is about, with
    /// `available_bytes` of RAM free (when known).
    pub fn memory_check(&self, available_bytes: Option<u64>) -> (r: Option<MemoryCheck>)
        ensures
            r == match selected_image_of(self@) {
                Some(i) => Some(memory_check_of(i.format, self@.lite_guard, available_bytes)),
                None => None::<MemoryCheck>,
            },
    {
        match self.selected_image() {
            Some(i) => Some(check_image_memory(i, self.lite_guard, available_bytes)),
            None => None,
        }
    }

    /// The game shown during an install.
    pub fn runner(&self) -> (r: &RunnerGame)
        ensures
            r@ == self@.runner,
    {
        &self.runner
    }

    /// The header's system status.
    pub fn system_status(&self) -> (r: &SystemStatus)
        ensures
            r@ == self@.system_status,
    {
        &self.system_status
    }

    /// Whether the lite installer's compact displays and relaxed xz guard
    /// are on.
    pub fn lite_mode(&self) -> (r: bool)
        ensures
            r == self@.lite_guard,
    {
        self.lite_guard
    }

    /// Shows the warning of the proxy setup test: the catalog is treated as
    /// unreachable so the proxy entry can be tried.
    pub fn start_proxy_setup_test(&mut self, warning: String)
        requires
            old(self).wf(),
        ensures
            final(self).wf(),
            final(self)@ == (AppView { warning: Some(warning@), ..old(self)@ }),
    {
        self.warning = Some(warning);
        assert(self@ =~~= AppView { warning: Some(warning@), ..old(self)@ });
    }

    /// Whether the installer may be left: not while an install runs.
    pub fn can_quit(&self) -> (r: bool)
        ensures
            r == (self@.screen != Screen::Installing),
    {
        self.screen != Screen::Installing
    }
}

} // verus!
