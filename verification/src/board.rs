//! Which board the installer runs on, from the device tree or the catalog.

use vstd::prelude::*;
use vstd::string::*;
use vstd::utf8::{decode_utf8, valid_utf8};

use crate::installer::RunMode;
use crate::manifest::{Catalog, DeviceEntry, DeviceView, devices_view, strs};
use crate::text::{clone_strings, owned, str_eq, trim, trimmed};

verus! {

/// The board the installer believes it runs on.
#[derive(Clone, Debug)]
pub struct DetectedBoard {
    pub id: Option<String>,
    pub name: String,
    pub compatible: Vec<String>,
    pub source: BoardSource,
}

/// Where the board identity came from.
#[derive(Clone, Copy, Debug, PartialEq, Eq, Structural)]
pub enum BoardSource {
    DeviceTree,
    Mock,
    Unknown,
}

/// A detected board, with strings taken as character sequences.
#[verifier::ext_equal]
pub ghost struct BoardView {
    pub id: Option<Seq<char>>,
    pub name: Seq<char>,
    pub compatible: Seq<Seq<char>>,
    pub source: BoardSource,
}

impl View for DetectedBoard {
    type V = BoardView;

    open spec fn view(&self) -> BoardView {
        BoardView {
            id: crate::manifest::opt_str(self.id),
            name: self.name@,
            compatible: strs(self.compatible),
            source: self.source,
        }
    }
}

impl DetectedBoard {
    /// A field-by-field copy.
    pub fn duplicate(&self) -> (r: Self)
        ensures
            r@ == self@,
    {
        DetectedBoard {
            id: crate::text::clone_opt_string(&self.id),
            name: self.name.clone(),
            compatible: clone_strings(&self.compatible),
            source: self.source,
        }
    }
}

/// What the caller found out about the board: what the device tree
/// offered, or, for a simulated board, which catalog board to show.
#[derive(Clone, Debug)]
pub enum BoardProbe {
    /// No device tree on this platform.
    NotLinux,
    /// The raw contents of `/proc/device-tree/compatible` and
    /// `/proc/device-tree/model`, when they could be read.
    DeviceTree { compatible: Option<Vec<u8>>, model: Option<Vec<u8>> },
    /// Mock mode: the id of the catalog board to show (the
    /// `TOBI_MOCK_BOARD` setting), when one was asked for.
    Simulated { requested: Option<String> },
}

/// The text that `std::str::from_utf8` decodes, if the bytes are valid UTF-8.
#[verifier::external_body]
pub fn utf8_text(bytes: &[u8]) -> (r: Option<String>)
    ensures
        r is Some <==> valid_utf8(bytes@),
        r matches Some(s) ==> s@ == decode_utf8(bytes@),
{
    match std::str::from_utf8(bytes) {
        Ok(text) => Some(text.to_string()),
        Err(_) => None,
    }
}

/// The pieces of `b` between zero bytes (as `slice::split` gives them).
pub open spec fn zero_split(b: Seq<u8>) -> Seq<Seq<u8>>
    decreases b.len(),
{
    if b.len() == 0 {
        seq![Seq::empty()]
    } else if b.last() == 0 {
        zero_split(b.drop_last()).push(Seq::empty())
    } else {
        let s = zero_split(b.drop_last());
        s.update(s.len() - 1, s.last().push(b.last()))
    }
}

proof fn lemma_zero_split_nonempty(b: Seq<u8>)
    ensures
        zero_split(b).len() >= 1,
    decreases b.len(),
{
    if b.len() > 0 {
        lemma_zero_split_nonempty(b.drop_last());
    }
}

/// The usable entry of one piece: its trimmed text, when it is valid UTF-8
/// and not blank.
pub open spec fn piece_entry(p: Seq<u8>) -> Option<Seq<char>> {
    if valid_utf8(p) && trimmed(decode_utf8(p)).len() > 0 {
        Some(trimmed(decode_utf8(p)))
    } else {
        None
    }
}

/// The entries of a list of pieces, dropping unusable ones.
pub open spec fn piece_entries(s: Seq<Seq<u8>>) -> Seq<Seq<char>>
    decreases s.len(),
{
    if s.len() == 0 {
        Seq::empty()
    } else {
        match piece_entry(s.last()) {
            Some(e) => piece_entries(s.drop_last()).push(e),
            None => piece_entries(s.drop_last()),
        }
    }
}

/// The compatible strings of a raw device-tree `compatible` property.
pub open spec fn compatible_entries(b: Seq<u8>) -> Option<Seq<Seq<char>>> {
    let e = piece_entries(zero_split(b));
    if e.len() > 0 {
        Some(e)
    } else {
        None
    }
}

fn piece_text(piece: &Vec<u8>) -> (r: Option<String>)
    ensures
        crate::manifest::opt_str(r) == piece_entry(piece@),
{
    match utf8_text(piece.as_slice()) {
        Some(text) => {
            let t = trim(text.as_str());
            if t.as_str().unicode_len() > 0 {
                Some(t)
            } else {
                None
            }
        },
        None => None,
    }
}

/// Splits a raw device-tree `compatible` property into its strings.
pub fn parse_compatible(bytes: &[u8]) -> (r: Option<Vec<String>>)
    ensures
        match r {
            Some(v) => compatible_entries(bytes@) == Some(strs(v)),
            None => compatible_entries(bytes@) is None,
        },
{
    let mut pieces: Vec<Vec<u8>> = Vec::new();
    pieces.push(Vec::new());
    let mut i: usize = 0;
    assert(bytes@.take(0) =~= Seq::<u8>::empty());
    while i < bytes.len()
        invariant
            i <= bytes@.len(),
            pieces@.len() >= 1,
            pieces@.map_values(|p: Vec<u8>| p@) == zero_split(bytes@.take(i as int)),
        decreases bytes@.len() - i,
    {
        let b = bytes[i];
        let ghost prev = pieces@.map_values(|p: Vec<u8>| p@);
        assert(bytes@.take(i + 1).drop_last() =~= bytes@.take(i as int));
        if b == 0 {
            pieces.push(Vec::new());
            assert(pieces@.map_values(|p: Vec<u8>| p@) =~= prev.push(Seq::empty()));
        } else {
            let last = pieces.len() - 1;
            let mut piece = pieces.pop().unwrap();
            piece.push(b);
            pieces.push(piece);
            assert(pieces@.map_values(|p: Vec<u8>| p@) =~= prev.update(
                prev.len() - 1,
                prev.last().push(b),
            ));
        }
        i = i + 1;
    }
    assert(bytes@.take(bytes@.len() as int) =~= bytes@);
    let ghost split = pieces@.map_values(|p: Vec<u8>| p@);
    let mut entries: Vec<String> = Vec::new();
    let mut k: usize = 0;
    assert(split.take(0) =~= Seq::<Seq<u8>>::empty());
    while k < pieces.len()
        invariant
            k <= pieces@.len(),
            split == pieces@.map_values(|p: Vec<u8>| p@),
            strs(entries) == piece_entries(split.take(k as int)),
        decreases pieces@.len() - k,
    {
        assert(split.take(k + 1).drop_last() =~= split.take(k as int));
        assert(split.take(k + 1).last() == pieces@[k as int]@);
        match piece_text(&pieces[k]) {
            Some(t) => {
                let ghost before = strs(entries);
                entries.push(t);
                assert(strs(entries) =~= before.push(t@));
            },
            None => {},
        }
        k = k + 1;
    }
    assert(split.take(pieces@.len() as int) =~= split);
    if entries.len() > 0 {
        Some(entries)
    } else {
        None
    }
}

/// The bytes before the first zero byte.
pub open spec fn before_zero(b: Seq<u8>) -> Seq<u8>
    decreases b.len(),
{
    if b.len() == 0 {
        b
    } else if b[0] == 0 {
        Seq::empty()
    } else {
        seq![b[0]] + before_zero(b.drop_first())
    }
}

/// The board model of a raw device-tree `model` property: the text before
/// the first zero byte, trimmed, when it is valid UTF-8 and not blank.
pub open spec fn model_entry(b: Seq<u8>) -> Option<Seq<char>> {
    piece_entry(before_zero(b))
}

/// Reads the board model out of a raw device-tree `model` property.
pub fn parse_model(bytes: &[u8]) -> (r: Option<String>)
    ensures
        crate::manifest::opt_str(r) == model_entry(bytes@),
{
    let mut i: usize = 0;
    while i < bytes.len() && bytes[i] != 0
        invariant
            i <= bytes@.len(),
            forall|k: int| 0 <= k < i ==> bytes@[k] != 0,
        decreases bytes@.len() - i,
    {
        i = i + 1;
    }
    let mut prefix: Vec<u8> = Vec::new();
    let mut k: usize = 0;
    while k < i
        invariant
            k <= i <= bytes@.len(),
            prefix@ == bytes@.take(k as int),
        decreases i - k,
    {
        prefix.push(bytes[k]);
        assert(prefix@ =~= bytes@.take(k + 1));
        k = k + 1;
    }
    proof {
        lemma_before_zero(bytes@, i as int);
    }
    piece_text(&prefix)
}

proof fn lemma_before_zero(b: Seq<u8>, i: int)
    requires
        0 <= i <= b.len(),
        forall|k: int| 0 <= k < i ==> b[k] != 0,
        i < b.len() ==> b[i] == 0,
    ensures
        before_zero(b) == b.take(i),
    decreases b.len(),
{
    if b.len() == 0 {
        assert(b.take(i) =~= b);
    } else if b[0] == 0 {
        assert(i == 0);
        assert(b.take(0) =~= Seq::<u8>::empty());
    } else {
        let d = b.drop_first();
        assert forall|k: int| 0 <= k < i - 1 implies d[k] != 0 by {
            assert(d[k] == b[k + 1]);
        }
        lemma_before_zero(d, i - 1);
        assert(seq![b[0]] + d.take(i - 1) =~= b.take(i));
    }
}

/// Whether a catalog board shares a compatible string with the detected ones.
pub open spec fn shares_compatible(device: DeviceView, detected: Seq<Seq<char>>) -> bool {
    exists|j: int, k: int|
        0 <= j < device.compatible.len() && 0 <= k < detected.len() && device.compatible[j]
            == detected[k]
}

/// The first catalog board sharing a compatible string with `detected`.
pub open spec fn first_compatible(devices: Seq<DeviceView>, detected: Seq<Seq<char>>) -> Option<int> {
    if exists|i: int| 0 <= i < devices.len() && shares_compatible(devices[i], detected) {
        let i = choose|i: int|
            0 <= i < devices.len() && shares_compatible(devices[i], detected) && forall|k: int|
                0 <= k < i ==> !shares_compatible(devices[k], detected);
        Some(i)
    } else {
        None
    }
}

/// Whether some string of `list` equals `s`.
pub fn list_contains(list: &Vec<String>, s: &str) -> (r: bool)
    ensures
        r == exists|k: int| 0 <= k < list@.len() && list@[k]@ == s@,
{
    let mut k: usize = 0;
    while k < list.len()
        invariant
            k <= list@.len(),
            forall|m: int| 0 <= m < k ==> list@[m]@ != s@,
        decreases list@.len() - k,
    {
        if str_eq(list[k].as_str(), s) {
            return true;
        }
        k = k + 1;
    }
    false
}

/// Whether `device` lists a compatible string found in `detected`.
pub fn device_matches(device: &DeviceEntry, detected: &Vec<String>) -> (r: bool)
    ensures
        r == shares_compatible(device@, strs(*detected)),
{
    let mut j: usize = 0;
    while j < device.compatible.len()
        invariant
            j <= device.compatible@.len(),
            forall|a: int, b: int|
                0 <= a < j && 0 <= b < detected@.len() ==> device.compatible@[a]@ != detected@[b]@,
        decreases device.compatible@.len() - j,
    {
        if list_contains(detected, device.compatible[j].as_str()) {
            assert(device@.compatible[j as int] == device.compatible@[j as int]@);
            let ghost k = choose|k: int| 0 <= k < detected@.len() && detected@[k]@ == device.compatible@[j as int]@;
            assert(strs(*detected)[k] == detected@[k]@);
            return true;
        }
        j = j + 1;
    }
    assert forall|a: int, b: int|
        0 <= a < device@.compatible.len() && 0 <= b < strs(*detected).len() implies device@.compatible[a]
        != strs(*detected)[b] by {
        assert(device@.compatible[a] == device.compatible@[a]@);
        assert(strs(*detected)[b] == detected@[b]@);
    }
    false
}

/// The index of the first catalog board that shares a compatible string
/// with the detected ones.
pub fn match_catalog_device(catalog: &Catalog, detected: &Vec<String>) -> (r: Option<usize>)
    ensures
        match r {
            Some(i) => first_compatible(catalog@.devices, strs(*detected)) == Some(i as int) && i
                < catalog.devices@.len(),
            None => first_compatible(catalog@.devices, strs(*detected)) is None,
        },
{
    let ghost dv = catalog@.devices;
    let mut i: usize = 0;
    while i < catalog.devices.len()
        invariant
            i <= catalog.devices@.len(),
            dv == catalog@.devices,
            forall|k: int| 0 <= k < i ==> !shares_compatible(#[trigger] dv[k], strs(*detected)),
        decreases catalog.devices@.len() - i,
    {
        assert(dv[i as int] == catalog.devices@[i as int]@);
        if device_matches(&catalog.devices[i], detected) {
            assert(first_compatible(dv, strs(*detected)) == Some(i as int)) by {
                let c = choose|c: int|
                    0 <= c < dv.len() && shares_compatible(dv[c], strs(*detected)) && forall|k: int|
                        0 <= k < c ==> !shares_compatible(dv[k], strs(*detected));
                assert(0 <= i < dv.len() && shares_compatible(dv[i as int], strs(*detected)));
                if c < i {
                } else if c > i {
                }
            }
            return Some(i);
        }
        i = i + 1;
    }
    None
}

/// The board of mock mode: the SK-AM62P-LP record of the catalog, else its
/// first board, else a built-in SK-AM62P-LP.
pub open spec fn mock_board_view(devices: Seq<DeviceView>) -> BoardView {
    if exists|i: int| 0 <= i < devices.len() && devices[i].id == "sk-am62p-lp"@ {
        let i = choose|i: int|
            0 <= i < devices.len() && devices[i].id == "sk-am62p-lp"@ && forall|k: int|
                0 <= k < i ==> devices[k].id != "sk-am62p-lp"@;
        BoardView {
            id: Some(devices[i].id),
            name: devices[i].name,
            compatible: devices[i].compatible,
            source: BoardSource::Mock,
        }
    } else if devices.len() > 0 {
        BoardView {
            id: Some(devices[0].id),
            name: devices[0].name,
            compatible: devices[0].compatible,
            source: BoardSource::Mock,
        }
    } else {
        BoardView {
            id: None,
            name: "SK-AM62P-LP"@,
            compatible: seq!["ti,am62pxx-evm"@],
            source: BoardSource::Mock,
        }
    }
}

fn board_from_device(device: &DeviceEntry, source: BoardSource) -> (r: DetectedBoard)
    ensures
        r@ == (BoardView {
            id: Some(device@.id),
            name: device@.name,
            compatible: device@.compatible,
            source,
        }),
{
    DetectedBoard {
        id: Some(device.id.clone()),
        name: device.name.clone(),
        compatible: clone_strings(&device.compatible),
        source,
    }
}

/// The board of mock mode.
pub fn mock_board(catalog: &Catalog) -> (r: DetectedBoard)
    ensures
        r@ == mock_board_view(catalog@.devices),
{
    let ghost dv = catalog@.devices;
    let mut i: usize = 0;
    while i < catalog.devices.len()
        invariant
            i <= catalog.devices@.len(),
            dv == catalog@.devices,
            forall|k: int| 0 <= k < i ==> (#[trigger] dv[k]).id != "sk-am62p-lp"@,
        decreases catalog.devices@.len() - i,
    {
        assert(dv[i as int] == catalog.devices@[i as int]@);
        if str_eq(catalog.devices[i].id.as_str(), "sk-am62p-lp") {
            let r = board_from_device(&catalog.devices[i], BoardSource::Mock);
            assert(r@ == mock_board_view(dv)) by {
                let c = choose|c: int|
                    0 <= c < dv.len() && dv[c].id == "sk-am62p-lp"@ && forall|k: int|
                        0 <= k < c ==> dv[k].id != "sk-am62p-lp"@;
                assert(0 <= i < dv.len() && dv[i as int].id == "sk-am62p-lp"@);
                if c < i {
                } else if c > i {
                }
            }
            return r;
        }
        i = i + 1;
    }
    if catalog.devices.len() > 0 {
        assert(dv[0] == catalog.devices@[0]@);
        board_from_device(&catalog.devices[0], BoardSource::Mock)
    } else {
        let mut compatible: Vec<String> = Vec::new();
        compatible.push(owned("ti,am62pxx-evm"));
        let r = DetectedBoard {
            id: None,
            name: owned("SK-AM62P-LP"),
            compatible,
            source: BoardSource::Mock,
        };
        assert(r@ =~~= mock_board_view(dv));
        r
    }
}

/// The board of mock mode when `requested` names one: the first catalog
/// board with that id; when none has it, or none was asked for, the default
/// mock board.
pub open spec fn requested_mock_board_view(devices: Seq<DeviceView>, requested: Option<Seq<char>>) -> BoardView {
    match requested {
        Some(id) => if exists|i: int| 0 <= i < devices.len() && devices[i].id == id {
            let i = choose|i: int|
                0 <= i < devices.len() && devices[i].id == id && forall|k: int|
                    0 <= k < i ==> devices[k].id != id;
            BoardView {
                id: Some(devices[i].id),
                name: devices[i].name,
                compatible: devices[i].compatible,
                source: BoardSource::Mock,
            }
        } else {
            mock_board_view(devices)
        },
        None => mock_board_view(devices),
    }
}

/// The board of mock mode, showing the catalog board `requested` names when
/// there is one.
pub fn requested_mock_board(catalog: &Catalog, requested: Option<&str>) -> (r: DetectedBoard)
    ensures
        r@ == requested_mock_board_view(
            catalog@.devices,
            match requested {
                Some(id) => Some(id@),
                None => None,
            },
        ),
{
    let id = match requested {
        Some(id) => id,
        None => {
            return mock_board(catalog);
        },
    };
    let ghost dv = catalog@.devices;
    let mut i: usize = 0;
    while i < catalog.devices.len()
        invariant
            i <= catalog.devices@.len(),
            dv == catalog@.devices,
            requested == Some(id),
            forall|k: int| 0 <= k < i ==> (#[trigger] dv[k]).id != id@,
        decreases catalog.devices@.len() - i,
    {
        assert(dv[i as int] == catalog.devices@[i as int]@);
        if str_eq(catalog.devices[i].id.as_str(), id) {
            let r = board_from_device(&catalog.devices[i], BoardSource::Mock);
            assert(r@ == requested_mock_board_view(dv, Some(id@))) by {
                let c = choose|c: int|
                    0 <= c < dv.len() && dv[c].id == id@ && forall|k: int|
                        0 <= k < c ==> dv[k].id != id@;
                assert(0 <= i < dv.len() && dv[i as int].id == id@);
                if c < i {
                } else if c > i {
                }
            }
            return r;
        }
        i = i + 1;
    }
    assert(!exists|j: int| 0 <= j < dv.len() && dv[j].id == id@) by {
        assert forall|j: int| 0 <= j < dv.len() implies dv[j].id != id@ by {
            assert(dv[j].id != id@);
        }
    }
    mock_board(catalog)
}

/// The mock board a probe asks for.
pub open spec fn mock_request(probe: BoardProbe) -> Option<Seq<char>> {
    match probe {
        BoardProbe::Simulated { requested } => match requested {
            Some(id) => Some(id@),
            None => None,
        },
        _ => None,
    }
}

/// The board of live mode, from the device tree: the catalog board matching
/// its compatible strings, else an unknown board named by its model.
pub open spec fn live_board_view(devices: Seq<DeviceView>, probe: BoardProbe) -> BoardView {
    match probe {
        BoardProbe::NotLinux | BoardProbe::Simulated { .. } => BoardView {
            id: None,
            name: "Unknown board"@,
            compatible: Seq::empty(),
            source: BoardSource::Unknown,
        },
        BoardProbe::DeviceTree { compatible, model } => {
            let detected = match compatible {
                Some(b) => compatible_entries(b@),
                None => None,
            };
            let matched = match detected {
                Some(d) => first_compatible(devices, d),
                None => None,
            };
            let model_name = match model {
                Some(b) => model_entry(b@),
                None => None,
            };
            match matched {
                Some(i) => BoardView {
                    id: Some(devices[i].id),
                    name: devices[i].name,
                    compatible: detected.unwrap(),
                    source: BoardSource::DeviceTree,
                },
                None => BoardView {
                    id: None,
                    name: match model_name {
                        Some(m) => m,
                        None => "Unknown Sitara board"@,
                    },
                    compatible: match detected {
                        Some(d) => d,
                        None => Seq::empty(),
                    },
                    source: BoardSource::Unknown,
                },
            }
        },
    }
}

/// The board of live mode, from what the caller read of the device tree.
pub fn live_board(catalog: &Catalog, probe: &BoardProbe) -> (r: DetectedBoard)
    ensures
        r@ == live_board_view(catalog@.devices, *probe),
{
    match probe {
        BoardProbe::NotLinux | BoardProbe::Simulated { .. } => {
            let r = DetectedBoard {
                id: None,
                name: owned("Unknown board"),
                compatible: Vec::new(),
                source: BoardSource::Unknown,
            };
            assert(r@ =~~= live_board_view(catalog@.devices, *probe));
            r
        },
        BoardProbe::DeviceTree { compatible, model } => {
            let detected = match compatible {
                Some(b) => parse_compatible(b.as_slice()),
                None => None,
            };
            let model_name = match model {
                Some(b) => parse_model(b.as_slice()),
                None => None,
            };
            match detected {
                Some(d) => {
                    match match_catalog_device(catalog, &d) {
                        Some(i) => {
                            let device = &catalog.devices[i];
                            assert(catalog@.devices[i as int] == device@);
                            let r = DetectedBoard {
                                id: Some(device.id.clone()),
                                name: device.name.clone(),
                                compatible: d,
                                source: BoardSource::DeviceTree,
                            };
                            assert(r@ =~~= live_board_view(catalog@.devices, *probe));
                            return r;
                        },
                        None => {
                            let name = match model_name {
                                Some(m) => m,
                                None => owned("Unknown Sitara board"),
                            };
                            let r = DetectedBoard {
                                id: None,
                                name,
                                compatible: d,
                                source: BoardSource::Unknown,
                            };
                            assert(r@ =~~= live_board_view(catalog@.devices, *probe));
                            r
                        },
                    }
                },
                None => {
                    let name = match model_name {
                        Some(m) => m,
                        None => owned("Unknown Sitara board"),
                    };
                    let r = DetectedBoard {
                        id: None,
                        name,
                        compatible: Vec::new(),
                        source: BoardSource::Unknown,
                    };
                    assert(r@ =~~= live_board_view(catalog@.devices, *probe));
                    r
                },
            }
        },
    }
}

/// The board for a run mode: the mock board (the one the probe asks for,
/// when the catalog has it), or what the device tree shows.
pub open spec fn detected_board_view(mode: RunMode, devices: Seq<DeviceView>, probe: BoardProbe) -> BoardView {
    match mode {
        RunMode::Mock => requested_mock_board_view(devices, mock_request(probe)),
        RunMode::Live => live_board_view(devices, probe),
    }
}

/// Detects the board for a run mode.
pub fn detect_board(mode: RunMode, catalog: &Catalog, probe: &BoardProbe) -> (r: DetectedBoard)
    ensures
        r@ == detected_board_view(mode, catalog@.devices, *probe),
{
    match mode {
        RunMode::Mock => match probe {
            BoardProbe::Simulated { requested: Some(id) } => requested_mock_board(catalog, Some(id.as_str())),
            _ => mock_board(catalog),
        },
        RunMode::Live => live_board(catalog, probe),
    }
}


proof fn lemma_least_sharing(devices: Seq<DeviceView>, detected: Seq<Seq<char>>, n: int)
    requires
        0 <= n < devices.len(),
        shares_compatible(devices[n], detected),
    ensures
        exists|i: int|
            0 <= i <= n && shares_compatible(devices[i], detected) && forall|k: int|
                0 <= k < i ==> !shares_compatible(devices[k], detected),
    decreases n,
{
    if exists|k: int| 0 <= k < n && shares_compatible(devices[k], detected) {
        let k = choose|k: int| 0 <= k < n && shares_compatible(devices[k], detected);
        lemma_least_sharing(devices, detected, k);
    } else {
        assert(0 <= n <= n && shares_compatible(devices[n], detected) && forall|k: int|
            0 <= k < n ==> !shares_compatible(devices[k], detected));
    }
}

/// The board a detection matches is the earliest catalog board that has a
/// compatible string among the detected ones: it has one, and no board
/// before it has any. No board is matched only when none has one.
pub proof fn lemma_match_is_earliest(devices: Seq<DeviceView>, detected: Seq<Seq<char>>)
    ensures
        match first_compatible(devices, detected) {
            Some(i) => {
                &&& 0 <= i < devices.len()
                &&& exists|j: int, k: int|
                    0 <= j < devices[i].compatible.len() && 0 <= k < detected.len()
                        && devices[i].compatible[j] == detected[k]
                &&& forall|m: int, j: int, k: int|
                    0 <= m < i && 0 <= j < devices[m].compatible.len() && 0 <= k < detected.len()
                        ==> #[trigger] devices[m].compatible[j] != #[trigger] detected[k]
            },
            None => forall|m: int, j: int, k: int|
                0 <= m < devices.len() && 0 <= j < devices[m].compatible.len() && 0 <= k
                    < detected.len() ==> #[trigger] devices[m].compatible[j] != #[trigger] detected[k],
        },
{
    if exists|i: int| 0 <= i < devices.len() && shares_compatible(devices[i], detected) {
        let n = choose|i: int| 0 <= i < devices.len() && shares_compatible(devices[i], detected);
        lemma_least_sharing(devices, detected, n);
        let i = first_compatible(devices, detected)->0;
        assert forall|m: int, j: int, k: int|
            0 <= m < i && 0 <= j < devices[m].compatible.len() && 0 <= k < detected.len()
                implies #[trigger] devices[m].compatible[j] != #[trigger] detected[k] by {
            assert(!shares_compatible(devices[m], detected));
        }
    } else {
        assert forall|m: int, j: int, k: int|
            0 <= m < devices.len() && 0 <= j < devices[m].compatible.len() && 0 <= k < detected.len()
                implies #[trigger] devices[m].compatible[j] != #[trigger] detected[k] by {
            assert(!shares_compatible(devices[m], detected));
        }
    }
}

} // verus!
