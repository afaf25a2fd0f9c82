//! The install request and the events an install reports.

use vstd::prelude::*;

use crate::device::{InstallTarget, TargetView};
use crate::manifest::{ImageEntry, ImageFormat, ImageView, opt_str, spec_is_gzip, spec_is_xz, spec_is_zstd};
use crate::memory::{ensure_image_memory, memory_check_of, shortage_message, spec_blocks_install};
use crate::text::{
    contains, decimal, has_infix, has_prefix, lower, owned, parse_u64, push_decimal, push_str,
    spec_parse_u64, split_once, split_once_of, starts_with, str_eq, strip_prefix_of,
    to_ascii_lowercase,
};

verus! {

/// Whether the installer simulates writes or performs them.
#[derive(Clone, Copy, Debug, PartialEq, Eq, Structural)]
pub enum RunMode {
    Mock,
    Live,
}

/// Everything an install needs.
#[derive(Clone, Debug)]
pub struct InstallRequest {
    pub image: ImageEntry,
    pub target: InstallTarget,
    pub run_mode: RunMode,
    pub allow_write: bool,
    pub proxy_url: Option<String>,
    pub reboot_after_install: bool,
}

/// An install request, with strings taken as character sequences.
#[verifier::ext_equal]
pub ghost struct RequestView {
    pub image: ImageView,
    pub target: TargetView,
    pub run_mode: RunMode,
    pub allow_write: bool,
    pub proxy_url: Option<Seq<char>>,
    pub reboot_after_install: bool,
}

impl View for InstallRequest {
    type V = RequestView;

    open spec fn view(&self) -> RequestView {
        RequestView {
            image: self.image@,
            target: self.target@,
            run_mode: self.run_mode,
            allow_write: self.allow_write,
            proxy_url: opt_str(self.proxy_url),
            reboot_after_install: self.reboot_after_install,
        }
    }
}

/// What a running install reports.
#[derive(Clone, Debug)]
pub enum InstallEvent {
    Phase(String),
    Progress {
        phase: String,
        current: u64,
        total: Option<u64>,
        source_current: Option<u64>,
        source_total: Option<u64>,
    },
    Complete(String),
    Failed(String),
}

/// An install event, with strings taken as character sequences.
pub ghost enum EventView {
    Phase(Seq<char>),
    Progress {
        phase: Seq<char>,
        current: u64,
        total: Option<u64>,
        source_current: Option<u64>,
        source_total: Option<u64>,
    },
    Complete(Seq<char>),
    Failed(Seq<char>),
}

impl View for InstallEvent {
    type V = EventView;

    open spec fn view(&self) -> EventView {
        match self {
            InstallEvent::Phase(p) => EventView::Phase(p@),
            InstallEvent::Progress { phase, current, total, source_current, source_total } =>
                EventView::Progress {
                phase: phase@,
                current: *current,
                total: *total,
                source_current: *source_current,
                source_total: *source_total,
            },
            InstallEvent::Complete(m) => EventView::Complete(m@),
            InstallEvent::Failed(m) => EventView::Failed(m@),
        }
    }
}

/// Whether a source is fetched over HTTP(S).
pub open spec fn spec_is_remote_url(url: Seq<char>) -> bool {
    has_prefix(url, "http://"@) || has_prefix(url, "https://"@)
}

/// Whether an image is downloaded over HTTP(S) rather than read from a file.
pub fn is_remote_image(image: &ImageEntry) -> (r: bool)
    ensures
        r == spec_is_remote_url(image@.url),
{
    starts_with(image.url.as_str(), "http://") || starts_with(image.url.as_str(), "https://")
}

/// The start and total of a `Content-Range: bytes START-END/TOTAL` value;
/// a total of `*` is unknown. The end is not checked.
pub open spec fn content_range_of(range: Seq<char>) -> Option<(u64, Option<u64>)> {
    if !has_prefix(range, "bytes "@) {
        None
    } else {
        match split_once_of(range.subrange(6, range.len() as int), '/') {
            None => None,
            Some((span, total)) => match split_once_of(span, '-') {
                None => None,
                Some((start, _end)) => match spec_parse_u64(start) {
                    None => None,
                    Some(first) => if total == "*"@ {
                        Some((first, None))
                    } else {
                        match spec_parse_u64(total) {
                            Some(t) => Some((first, Some(t))),
                            None => None,
                        }
                    },
                },
            },
        }
    }
}

/// The file an image that is not downloaded is read from: its URL without
/// a leading `file://`.
pub open spec fn local_path_of(url: Seq<char>) -> Seq<char> {
    if has_prefix(url, "file://"@) {
        url.subrange(7, url.len() as int)
    } else {
        url
    }
}

/// The file an image that is not downloaded is read from.
pub fn local_image_path(url: &str) -> (r: String)
    ensures
        r@ == local_path_of(url@),
{
    proof {
        reveal_strlit("file://");
    }
    match strip_prefix_of(url, "file://") {
        Some(rest) => rest,
        None => owned(url),
    }
}

/// The proxy a request goes through: the one given, unless it is blank.
pub open spec fn proxy_in_use(proxy: Option<Seq<char>>) -> Option<Seq<char>> {
    match proxy {
        Some(p) => if crate::text::trimmed(p).len() == 0 {
            None
        } else {
            Some(p)
        },
        None => None,
    }
}

/// The proxy a request goes through (see `proxy_in_use`).
pub fn effective_proxy(proxy: Option<&str>) -> (r: Option<String>)
    ensures
        opt_str(r) == proxy_in_use(
            match proxy {
                Some(p) => Some(p@),
                None => None,
            },
        ),
{
    match proxy {
        Some(p) => if crate::text::is_blank(p) {
            None
        } else {
            Some(owned(p))
        },
        None => None,
    }
}

/// Reads a `Content-Range` value (see `content_range_of`).
pub fn parse_content_range(range: &str) -> (r: Option<(u64, Option<u64>)>)
    ensures
        r == content_range_of(range@),
{
    proof {
        reveal_strlit("bytes ");
    }
    let rest = match strip_prefix_of(range, "bytes ") {
        Some(rest) => rest,
        None => {
            return None;
        },
    };
    let (span, total) = match split_once(rest.as_str(), '/') {
        Some(p) => p,
        None => {
            return None;
        },
    };
    let (start, _end) = match split_once(span.as_str(), '-') {
        Some(p) => p,
        None => {
            return None;
        },
    };
    let first = match parse_u64(start.as_str()) {
        Some(v) => v,
        None => {
            return None;
        },
    };
    if str_eq(total.as_str(), "*") {
        return Some((first, None));
    }
    match parse_u64(total.as_str()) {
        Some(t) => Some((first, Some(t))),
        None => None,
    }
}

/// An optional string slice, taken as a character sequence.
pub open spec fn opt_text(o: Option<&str>) -> Option<Seq<char>> {
    match o {
        Some(s) => Some(s@),
        None => None,
    }
}

/// The refusal when a hash differs from the catalog's.
pub open spec fn hash_mismatch(label: Seq<char>, expected: Seq<char>, actual: Seq<char>) -> Seq<char> {
    label + " hash mismatch: expected "@ + expected + ", got "@ + actual
}

/// Checks a hash against the catalog's, ignoring ASCII case; a hash the
/// catalog does not give is not checked.
pub open spec fn hash_verdict(label: Seq<char>, expected: Option<Seq<char>>, actual: Seq<char>) -> Result<(), Seq<char>> {
    match expected {
        None => Ok(()),
        Some(e) => if lower(e) == lower(actual) {
            Ok(())
        } else {
            Err(hash_mismatch(label, e, actual))
        },
    }
}

/// Checks a hash (see `hash_verdict`).
pub fn verify_hash(label: &str, expected: Option<&str>, actual: &str) -> (r: Result<(), String>)
    ensures
        match r {
            Ok(()) => hash_verdict(label@, opt_text(expected), actual@) == Ok::<(), Seq<char>>(()),
            Err(m) => hash_verdict(label@, opt_text(expected), actual@) == Err::<(), Seq<char>>(m@),
        },
{
    let expected = match expected {
        Some(e) => e,
        None => {
            return Ok(());
        },
    };
    let a = to_ascii_lowercase(expected);
    let b = to_ascii_lowercase(actual);
    if str_eq(a.as_str(), b.as_str()) {
        Ok(())
    } else {
        let mut m = owned(label);
        push_str(&mut m, " hash mismatch: expected ");
        push_str(&mut m, expected);
        push_str(&mut m, ", got ");
        push_str(&mut m, actual);
        Err(m)
    }
}

/// Checks the number of bytes downloaded against the catalog's size, when
/// it gives one.
pub open spec fn size_verdict(expected: Option<u64>, actual: u64) -> Result<(), Seq<char>> {
    match expected {
        Some(e) => if e != actual {
            Err(
                "downloaded image size mismatch: expected "@ + decimal(e as nat) + " bytes, received "@
                    + decimal(actual as nat) + " bytes"@,
            )
        } else {
            Ok(())
        },
        None => Ok(()),
    }
}

/// Checks the number of bytes downloaded (see `size_verdict`).
pub fn verify_download_size(expected: Option<u64>, actual: u64) -> (r: Result<(), String>)
    ensures
        match r {
            Ok(()) => size_verdict(expected, actual) == Ok::<(), Seq<char>>(()),
            Err(m) => size_verdict(expected, actual) == Err::<(), Seq<char>>(m@),
        },
{
    match expected {
        Some(e) => if e != actual {
            let mut m = owned("downloaded image size mismatch: expected ");
            push_decimal(&mut m, e);
            push_str(&mut m, " bytes, received ");
            push_decimal(&mut m, actual);
            push_str(&mut m, " bytes");
            Err(m)
        } else {
            Ok(())
        },
        None => Ok(()),
    }
}

/// The final checks of a written image: an uncompressed download must have
/// the catalog's size and hash; the written bytes must have the catalog's
/// extracted hash.
pub open spec fn written_verdict(
    image: ImageView,
    downloaded: u64,
    downloaded_hash: Seq<char>,
    extracted_hash: Seq<char>,
) -> Result<(), Seq<char>> {
    let compressed = spec_is_xz(image.format) || spec_is_zstd(image.format) || spec_is_gzip(
        image.format,
    );
    if !compressed && size_verdict(image.image_download_size, downloaded) is Err {
        size_verdict(image.image_download_size, downloaded)
    } else if !compressed && hash_verdict(
        "downloaded image"@,
        image.image_download_sha256,
        downloaded_hash,
    ) is Err {
        hash_verdict("downloaded image"@, image.image_download_sha256, downloaded_hash)
    } else {
        hash_verdict("extracted image"@, image.extract_sha256, extracted_hash)
    }
}

/// The final checks of a written image (see `written_verdict`).
pub fn verify_written_image(
    image: &ImageEntry,
    downloaded: u64,
    downloaded_hash: &str,
    extracted_hash: &str,
) -> (r: Result<(), String>)
    ensures
        match r {
            Ok(()) => written_verdict(image@, downloaded, downloaded_hash@, extracted_hash@) == Ok::<
                (),
                Seq<char>,
            >(()),
            Err(m) => written_verdict(image@, downloaded, downloaded_hash@, extracted_hash@) == Err::<
                (),
                Seq<char>,
            >(m@),
        },
{
    if !image.format.is_compressed() {
        verify_download_size(image.image_download_size, downloaded)?;
        let expected = match &image.image_download_sha256 {
            Some(e) => Some(e.as_str()),
            None => None,
        };
        verify_hash("downloaded image", expected, downloaded_hash)?;
    }
    let expected = match &image.extract_sha256 {
        Some(e) => Some(e.as_str()),
        None => None,
    };
    verify_hash("extracted image", expected, extracted_hash)
}

/// Whether some text holds one of the messages of an interrupted transfer.
pub open spec fn download_interrupted_text(m: Seq<char>) -> bool {
    has_infix(m, "failed while reading image stream"@) || has_infix(
        m,
        "error reading a body from connection"@,
    ) || has_infix(m, "end of file before message length reached"@) || has_infix(
        m,
        "operation timed out"@,
    ) || has_infix(m, "connection closed"@) || has_infix(m, "downloaded image size mismatch"@)
}

/// Whether a failed attempt may be retried from the start: one of the
/// causes in the error's chain reads as an interrupted transfer.
pub fn is_retryable_download_error(causes: &Vec<String>) -> (r: bool)
    ensures
        r == exists|i: int| 0 <= i < causes@.len() && download_interrupted_text(#[trigger] causes@[i]@),
{
    let mut i: usize = 0;
    while i < causes.len()
        invariant
            i <= causes@.len(),
            forall|k: int| 0 <= k < i ==> !download_interrupted_text(#[trigger] causes@[k]@),
        decreases causes@.len() - i,
    {
        let m = causes[i].as_str();
        if contains(m, "failed while reading image stream") || contains(
            m,
            "error reading a body from connection",
        ) || contains(m, "end of file before message length reached") || contains(
            m,
            "operation timed out",
        ) || contains(m, "connection closed") || contains(m, "downloaded image size mismatch") {
            return true;
        }
        i = i + 1;
    }
    false
}

/// Whether a read error of an HTTP body may be resumed with a new request.
pub open spec fn http_read_retryable(m: Seq<char>) -> bool {
    has_infix(m, "error reading a body from connection"@) || has_infix(
        m,
        "request or response body error"@,
    ) || has_infix(m, "end of file before message length reached"@) || has_infix(
        m,
        "IncompleteBody"@,
    ) || has_infix(m, "operation timed out"@) || has_infix(m, "connection closed"@) || has_infix(
        m,
        "connection reset"@,
    )
}

/// Whether a read error of an HTTP body may be resumed (see
/// `http_read_retryable`).
pub fn is_retryable_http_read_error(message: &str) -> (r: bool)
    ensures
        r == http_read_retryable(message@),
{
    contains(message, "error reading a body from connection") || contains(
        message,
        "request or response body error",
    ) || contains(message, "end of file before message length reached") || contains(
        message,
        "IncompleteBody",
    ) || contains(message, "operation timed out") || contains(message, "connection closed")
        || contains(message, "connection reset")
}

/// Whether a failed attempt is followed by another: attempts remain and
/// the failure reads as an interrupted transfer.
pub fn should_retry(attempt: u8, attempts: u8, causes: &Vec<String>) -> (r: bool)
    ensures
        r == (attempt < attempts && exists|i: int|
            0 <= i < causes@.len() && download_interrupted_text(#[trigger] causes@[i]@)),
{
    attempt < attempts && is_retryable_download_error(causes)
}

/// The decoder a format is read through.
#[derive(Clone, Copy, Debug, PartialEq, Eq, Structural)]
pub enum DecoderKind {
    Xz,
    Zstd,
    Gzip,
    Plain,
}

/// The decoder a format is read through.
pub open spec fn decoder_of(format: ImageFormat) -> DecoderKind {
    if spec_is_xz(format) {
        DecoderKind::Xz
    } else if spec_is_zstd(format) {
        DecoderKind::Zstd
    } else if spec_is_gzip(format) {
        DecoderKind::Gzip
    } else {
        DecoderKind::Plain
    }
}

/// The decoder a format is read through.
pub fn decoder_for_format(format: ImageFormat) -> (r: DecoderKind)
    ensures
        r == decoder_of(format),
{
    if format.is_xz() {
        DecoderKind::Xz
    } else if format.is_zstd() {
        DecoderKind::Zstd
    } else if format.is_gzip() {
        DecoderKind::Gzip
    } else {
        DecoderKind::Plain
    }
}

/// A compressed image is always read through the decoder of its own
/// compression: both gzip formats through gzip, both xz formats through xz,
/// both zstd formats through zstd; only the raw format is copied as it is.
pub proof fn lemma_decoder_matches_compression(format: ImageFormat)
    ensures
        (format == ImageFormat::ImgGz || format == ImageFormat::WicGz) <==> decoder_of(format)
            == DecoderKind::Gzip,
        (format == ImageFormat::ImgXz || format == ImageFormat::WicXz) <==> decoder_of(format)
            == DecoderKind::Xz,
        (format == ImageFormat::ImgZst || format == ImageFormat::WicZst) <==> decoder_of(format)
            == DecoderKind::Zstd,
        format == ImageFormat::Raw <==> decoder_of(format) == DecoderKind::Plain,
{
}

/// The size a simulated install pretends to write: the extracted size,
/// else the download size, else 100 bytes.
pub open spec fn mock_total(image: ImageView) -> u64 {
    match image.extract_size {
        Some(t) => t,
        None => match image.image_download_size {
            Some(t) => t,
            None => 100,
        },
    }
}

/// The bytes a simulated install reports at `step` percent (the product
/// saturates at `u64::MAX` before the division).
pub open spec fn mock_progress(total: u64, step: nat) -> u64 {
    ((if total * step > u64::MAX {
        u64::MAX as int
    } else {
        total * step
    }) / 100) as u64
}

/// The progress event of a simulated install at `step` percent.
pub open spec fn mock_progress_event(total: u64, step: nat) -> EventView {
    EventView::Progress {
        phase: "Simulating download, decompression, write, and verify"@,
        current: mock_progress(total, step),
        total: Some(total),
        source_current: Some(mock_progress(total, step)),
        source_total: Some(total),
    }
}

/// The events of a simulated install: two phases, progress from 0 to 100
/// percent, then completion.
pub open spec fn mock_events_of(r: RequestView) -> Seq<EventView> {
    let total = mock_total(r.image);
    seq![
        EventView::Phase("Preparing RAM-only installer environment"@),
        EventView::Phase("Selected "@ + r.image.name + " for "@ + r.target.path),
    ] + Seq::new(101, |k: int| mock_progress_event(total, k as nat)) + seq![
        EventView::Complete(
            "Mock install complete. "@ + r.target.name + " would now reboot into "@ + r.image.name
                + "."@,
        ),
    ]
}

/// The events of a simulated install (see `mock_events_of`); the caller
/// sends them with short pauses between.
pub fn mock_install_events(request: &InstallRequest) -> (r: Vec<InstallEvent>)
    ensures
        crate::sort::views(r@) == mock_events_of(request@),
{
    let mut events: Vec<InstallEvent> = Vec::new();
    events.push(InstallEvent::Phase(owned("Preparing RAM-only installer environment")));
    let mut selected = owned("Selected ");
    push_str(&mut selected, request.image.name.as_str());
    push_str(&mut selected, " for ");
    push_str(&mut selected, request.target.path.as_str());
    events.push(InstallEvent::Phase(selected));
    let total: u64 = match request.image.extract_size {
        Some(t) => t,
        None => match request.image.image_download_size {
            Some(t) => t,
            None => 100,
        },
    };
    let ghost head = seq![
        EventView::Phase("Preparing RAM-only installer environment"@),
        EventView::Phase("Selected "@ + request@.image.name + " for "@ + request@.target.path),
    ];
    let ghost all = Seq::new(101, |k: int| mock_progress_event(total, k as nat));
    assert(crate::sort::views(events@) =~= head + all.take(0));
    let mut step: u64 = 0;
    while step <= 100
        invariant
            step <= 101,
            total == mock_total(request@.image),
            all == Seq::new(101, |k: int| mock_progress_event(total, k as nat)),
            crate::sort::views(events@) == head + all.take(step as int),
        decreases 101 - step,
    {
        let product = match total.checked_mul(step) {
            Some(p) => p,
            None => u64::MAX,
        };
        let current = product / 100;
        let ghost before = events@;
        events.push(
            InstallEvent::Progress {
                phase: owned("Simulating download, decompression, write, and verify"),
                current,
                total: Some(total),
                source_current: Some(current),
                source_total: Some(total),
            },
        );
        assert(crate::sort::views(events@) =~= head + all.take(step + 1)) by {
            assert(crate::sort::views(events@) =~= crate::sort::views(before).push(events@.last()@));
            assert(all.take(step + 1) =~= all.take(step as int).push(all[step as int]));
        }
        step = step + 1;
    }
    let mut done = owned("Mock install complete. ");
    push_str(&mut done, request.target.name.as_str());
    push_str(&mut done, " would now reboot into ");
    push_str(&mut done, request.image.name.as_str());
    push_str(&mut done, ".");
    let ghost before = events@;
    events.push(InstallEvent::Complete(done));
    assert(all.take(101) =~= all);
    assert(crate::sort::views(events@) =~= crate::sort::views(before).push(events@.last()@));
    assert(crate::sort::views(events@) =~= mock_events_of(request@));
    events
}

/// Whether a live install may start, and how many attempts it gets: it
/// needs write permission, a real image and enough RAM; downloads get three
/// attempts, local files one.
pub open spec fn live_attempts_of(r: RequestView, lite_guard: bool, available: Option<u64>) -> Result<u8, Seq<char>> {
    if !r.allow_write {
        Err("live mode refuses to write without --allow-write"@)
    } else if has_prefix(r.image.url, "mock://"@) {
        Err("mock images cannot be written in live mode"@)
    } else if spec_blocks_install(memory_check_of(r.image.format, lite_guard, available)) {
        Err(shortage_message(memory_check_of(r.image.format, lite_guard, available)))
    } else if spec_is_remote_url(r.image.url) {
        Ok(3)
    } else {
        Ok(1)
    }
}

/// Whether a live install may start (see `live_attempts_of`).
pub fn live_install_attempts(request: &InstallRequest, lite_guard: bool, available_bytes: Option<u64>) -> (r:
    Result<u8, String>)
    ensures
        match r {
            Ok(n) => live_attempts_of(request@, lite_guard, available_bytes) == Ok::<u8, Seq<char>>(n),
            Err(m) => live_attempts_of(request@, lite_guard, available_bytes) == Err::<u8, Seq<char>>(m@),
        },
{
    if !request.allow_write {
        return Err(owned("live mode refuses to write without --allow-write"));
    }
    if starts_with(request.image.url.as_str(), "mock://") {
        return Err(owned("mock images cannot be written in live mode"));
    }
    ensure_image_memory(&request.image, lite_guard, available_bytes)?;
    if is_remote_image(&request.image) {
        Ok(3)
    } else {
        Ok(1)
    }
}

/// The event that announces a retry from the start.
pub open spec fn retry_event_of(r: RequestView, attempt: u8, attempts: u8) -> EventView {
    EventView::Progress {
        phase: "Retrying download from the beginning ("@ + decimal(attempt as nat) + "/"@ + decimal(
            attempts as nat,
        ) + ")"@,
        current: 0,
        total: r.image.extract_size,
        source_current: Some(0),
        source_total: r.image.image_download_size,
    }
}

/// The event that announces a retry from the start.
pub fn retry_event(request: &InstallRequest, attempt: u8, attempts: u8) -> (r: InstallEvent)
    ensures
        r@ == retry_event_of(request@, attempt, attempts),
{
    let mut phase = owned("Retrying download from the beginning (");
    push_decimal(&mut phase, attempt as u64);
    push_str(&mut phase, "/");
    push_decimal(&mut phase, attempts as u64);
    push_str(&mut phase, ")");
    InstallEvent::Progress {
        phase,
        current: 0,
        total: request.image.extract_size,
        source_current: Some(0),
        source_total: request.image.image_download_size,
    }
}

/// The phase shown when an attempt was interrupted and will be retried.
pub fn interrupted_phase(error: &str) -> (r: InstallEvent)
    ensures
        r@ == EventView::Phase("Download interrupted: "@ + error@ + ". Retrying from byte 0."@),
{
    let mut m = owned("Download interrupted: ");
    push_str(&mut m, error);
    push_str(&mut m, ". Retrying from byte 0.");
    InstallEvent::Phase(m)
}

/// The phase shown while the source is opened.
pub open spec fn opening_phase_of(attempt: u8, attempts: u8) -> Seq<char> {
    if attempts > 1 {
        "Opening source image (attempt "@ + decimal(attempt as nat) + "/"@ + decimal(attempts as nat)
            + ")"@
    } else {
        "Opening source image"@
    }
}

/// The phase shown while the source is opened.
pub fn opening_phase(attempt: u8, attempts: u8) -> (r: InstallEvent)
    ensures
        r@ == EventView::Phase(opening_phase_of(attempt, attempts)),
{
    if attempts > 1 {
        let mut m = owned("Opening source image (attempt ");
        push_decimal(&mut m, attempt as u64);
        push_str(&mut m, "/");
        push_decimal(&mut m, attempts as u64);
        push_str(&mut m, ")");
        InstallEvent::Phase(m)
    } else {
        InstallEvent::Phase(owned("Opening source image"))
    }
}

/// The phase shown once writing starts.
pub fn writing_phase(request: &InstallRequest) -> (r: InstallEvent)
    ensures
        r@ == EventView::Phase("Writing "@ + request@.image.name + " to "@ + request@.target.path),
{
    let mut m = owned("Writing ");
    push_str(&mut m, request.image.name.as_str());
    push_str(&mut m, " to ");
    push_str(&mut m, request.target.path.as_str());
    InstallEvent::Phase(m)
}

/// The progress after `written` bytes were written from `downloaded` bytes
/// of source.
pub fn writing_progress(request: &InstallRequest, written: u64, downloaded: u64) -> (r: InstallEvent)
    ensures
        r@ == (EventView::Progress {
            phase: "Writing image"@,
            current: written,
            total: request@.image.extract_size,
            source_current: Some(downloaded),
            source_total: request@.image.image_download_size,
        }),
{
    InstallEvent::Progress {
        phase: owned("Writing image"),
        current: written,
        total: request.image.extract_size,
        source_current: Some(downloaded),
        source_total: request.image.image_download_size,
    }
}

/// What is reported once the image is written: completion, or, when the
/// board reboots afterwards, the phases before the reboot.
pub open spec fn written_events_of(r: RequestView, written: u64) -> Seq<EventView> {
    if r.reboot_after_install {
        seq![
            EventView::Phase(
                "Install complete. Wrote "@ + decimal(written as nat) + " bytes to "@ + r.target.path
                    + ". Syncing before reboot."@,
            ),
            EventView::Phase("Rebooting now into the installed image."@),
        ]
    } else {
        seq![
            EventView::Complete(
                "Install complete. Wrote "@ + decimal(written as nat) + " bytes to "@ + r.target.path
                    + "."@,
            ),
        ]
    }
}

/// What is reported once the image is written (see `written_events_of`).
pub fn written_events(request: &InstallRequest, written: u64) -> (r: Vec<InstallEvent>)
    ensures
        crate::sort::views(r@) == written_events_of(request@, written),
{
    let mut m = owned("Install complete. Wrote ");
    push_decimal(&mut m, written);
    push_str(&mut m, " bytes to ");
    push_str(&mut m, request.target.path.as_str());
    if request.reboot_after_install {
        push_str(&mut m, ". Syncing before reboot.");
        let r = vec![
            InstallEvent::Phase(m),
            InstallEvent::Phase(owned("Rebooting now into the installed image.")),
        ];
        assert(crate::sort::views(r@) =~= written_events_of(request@, written));
        r
    } else {
        push_str(&mut m, ".");
        let r = vec![InstallEvent::Complete(m)];
        assert(crate::sort::views(r@) =~= written_events_of(request@, written));
        r
    }
}

} // verus!
