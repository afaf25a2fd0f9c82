//! Which catalog images a board is offered, and in what order they are shown.

use vstd::prelude::*;
use vstd::string::*;

use crate::board::{BoardView, DetectedBoard, device_matches, list_contains, shares_compatible};
use crate::manifest::{Catalog, DeviceView, ImageEntry, ImageView, category_label_of, images_view, strs};
use crate::sort::{DisplayOrder, stable_sort, stable_sorted, views};
use crate::text::{
    all_ws, char_order, compare_str, is_blank, lemma_char_order_basics, lemma_char_order_trans, str_eq,
};

verus! {

/// The board id that selects images, when the board has a non-blank one.
pub open spec fn usable_board_id(board: BoardView) -> Option<Seq<char>> {
    match board.id {
        Some(id) => if all_ws(id) {
            None
        } else {
            Some(id)
        },
        None => None,
    }
}

/// Whether catalog device id `d` is one the board stands for: its own id
/// when it has one, else every catalog board sharing a compatible string.
pub open spec fn device_selected(devices: Seq<DeviceView>, board: BoardView, d: Seq<char>) -> bool {
    match usable_board_id(board) {
        Some(id) => d == id,
        None => exists|i: int|
            0 <= i < devices.len() && devices[i].id == d && shares_compatible(
                devices[i],
                board.compatible,
            ),
    }
}

/// Whether the board stands for any catalog device at all.
pub open spec fn board_selects(devices: Seq<DeviceView>, board: BoardView) -> bool {
    usable_board_id(board) is Some || exists|i: int|
        0 <= i < devices.len() && shares_compatible(devices[i], board.compatible)
}

/// Whether an image is offered: it names no device, or one the board stands for.
pub open spec fn image_offered(devices: Seq<DeviceView>, board: BoardView, e: ImageView) -> bool {
    e.devices.len() == 0 || exists|j: int|
        0 <= j < e.devices.len() && device_selected(devices, board, e.devices[j])
}

/// The offered images, in catalog order.
pub open spec fn offered_images(devices: Seq<DeviceView>, board: BoardView, s: Seq<ImageView>) -> Seq<
    ImageView,
>
    decreases s.len(),
{
    if s.len() == 0 {
        s
    } else {
        let rest = offered_images(devices, board, s.drop_last());
        if image_offered(devices, board, s.last()) {
            rest.push(s.last())
        } else {
            rest
        }
    }
}

/// The catalog's images for a board: when the board stands for no catalog
/// device, all of them.
pub open spec fn board_images(devices: Seq<DeviceView>, board: BoardView, s: Seq<ImageView>) -> Seq<
    ImageView,
> {
    if board_selects(devices, board) {
        offered_images(devices, board, s)
    } else {
        s
    }
}

/// Whether `v` holds the text `d`.
pub open spec fn holds_text(v: Seq<String>, d: Seq<char>) -> bool {
    exists|k: int| 0 <= k < v.len() && v[k]@ == d
}

/// Whether one of the first `i` catalog devices has id `d` and shares a
/// compatible string with the board.
pub open spec fn matched_before(devices: Seq<DeviceView>, board: BoardView, i: int, d: Seq<char>) -> bool {
    exists|m: int| 0 <= m < i && devices[m].id == d && shares_compatible(devices[m], board.compatible)
}

/// The ids of the catalog devices the board stands for.
fn selected_device_ids(catalog: &Catalog, board: &DetectedBoard) -> (r: Vec<String>)
    ensures
        forall|d: Seq<char>|
            #[trigger] holds_text(r@, d) <==> device_selected(catalog@.devices, board@, d),
        (r@.len() > 0) == board_selects(catalog@.devices, board@),
{
    let mut ids: Vec<String> = Vec::new();
    match &board.id {
        Some(id) => {
            if !is_blank(id.as_str()) {
                ids.push(id.clone());
                assert forall|d: Seq<char>|
                    #[trigger] holds_text(ids@, d) <==> device_selected(catalog@.devices, board@, d) by {
                    if d == id@ {
                        assert(ids@[0]@ == d);
                    }
                }
                return ids;
            }
        },
        None => {},
    }
    let ghost dv = catalog@.devices;
    let mut i: usize = 0;
    while i < catalog.devices.len()
        invariant
            i <= catalog.devices@.len(),
            dv == catalog@.devices,
            usable_board_id(board@) is None,
            forall|d: Seq<char>| #[trigger] holds_text(ids@, d) <==> matched_before(dv, board@, i as int, d),
            (ids@.len() > 0) == exists|m: int|
                0 <= m < i && shares_compatible(dv[m], board@.compatible),
        decreases catalog.devices@.len() - i,
    {
        let device = &catalog.devices[i];
        assert(dv[i as int] == device@);
        let ghost before = ids@;
        if device_matches(device, &board.compatible) {
            ids.push(device.id.clone());
        }
        assert forall|d: Seq<char>|
            #[trigger] holds_text(ids@, d) <==> matched_before(dv, board@, i + 1, d) by {
            if holds_text(ids@, d) {
                let k = choose|k: int| 0 <= k < ids@.len() && ids@[k]@ == d;
                if k < before.len() {
                    assert(before[k]@ == d);
                    assert(holds_text(before, d));
                } else {
                    assert(dv[i as int].id == d);
                }
            }
            if matched_before(dv, board@, i + 1, d) {
                let m = choose|m: int|
                    0 <= m < i + 1 && dv[m].id == d && shares_compatible(dv[m], board@.compatible);
                if m < i {
                    assert(matched_before(dv, board@, i as int, d));
                    assert(holds_text(before, d));
                    let k = choose|k: int| 0 <= k < before.len() && before[k]@ == d;
                    assert(ids@[k] == before[k]);
                } else {
                    assert(ids@[before.len() as int]@ == d);
                }
            }
        }
        i = i + 1;
    }
    assert forall|d: Seq<char>|
        #[trigger] holds_text(ids@, d) <==> device_selected(catalog@.devices, board@, d) by {
        assert(matched_before(dv, board@, i as int, d) == device_selected(dv, board@, d));
    }
    ids
}

/// Whether an image names a device among `ids`.
fn image_matches(image: &ImageEntry, ids: &Vec<String>) -> (r: bool)
    ensures
        r == (image@.devices.len() == 0 || exists|j: int, k: int|
            0 <= j < image@.devices.len() && 0 <= k < ids@.len() && ids@[k]@ == image@.devices[j]),
{
    if image.devices.len() == 0 {
        return true;
    }
    let mut j: usize = 0;
    while j < image.devices.len()
        invariant
            j <= image.devices@.len(),
            forall|a: int, k: int|
                0 <= a < j && 0 <= k < ids@.len() ==> ids@[k]@ != image@.devices[a],
        decreases image.devices@.len() - j,
    {
        assert(image@.devices[j as int] == image.devices@[j as int]@);
        if list_contains(ids, image.devices[j].as_str()) {
            return true;
        }
        j = j + 1;
    }
    false
}

/// Keeps the catalog images offered to the board (see `board_images`).
pub fn filter_catalog_for_board(catalog: &mut Catalog, board: &DetectedBoard)
    ensures
        final(catalog)@ == (crate::manifest::CatalogView {
            images: board_images(old(catalog)@.devices, board@, old(catalog)@.images),
            ..old(catalog)@
        }),
{
    let ids = selected_device_ids(catalog, board);
    if ids.len() == 0 {
        assert(final(catalog)@ =~~= old(catalog)@) by {}
        return;
    }
    let ghost devices = catalog@.devices;
    let mut images: Vec<ImageEntry> = Vec::new();
    std::mem::swap(&mut images, &mut catalog.images);
    let ghost all = images_view(images@);
    let n = images.len();
    let mut kept: Vec<ImageEntry> = Vec::new();
    let mut i: usize = 0;
    assert(all.take(0) =~= Seq::<ImageView>::empty());
    while images.len() > 0
        invariant
            i <= all.len(),
            n == all.len(),
            images_view(images@) == all.skip(i as int),
            images_view(kept@) == offered_images(devices, board@, all.take(i as int)),
            board_selects(devices, board@),
            forall|d: Seq<char>| #[trigger] holds_text(ids@, d) <==> device_selected(devices, board@, d),
        decreases images@.len(),
    {
        let ghost before = images@;
        assert(images_view(before).len() == before.len());
        let image = images.remove(0);
        assert(image@ == all[i as int]) by {
            assert(images_view(before)[0] == before[0]@);
            assert(all.skip(i as int)[0] == all[i as int]);
        }
        assert(all.take(i + 1).drop_last() =~= all.take(i as int));
        assert(all.take(i + 1).last() == image@);
        let m = image_matches(&image, &ids);
        assert(m == image_offered(devices, board@, image@)) by {
            if m && image@.devices.len() > 0 {
                let (j, k) = choose|j: int, k: int|
                    0 <= j < image@.devices.len() && 0 <= k < ids@.len() && ids@[k]@
                        == image@.devices[j];
                assert(holds_text(ids@, image@.devices[j]));
                assert(device_selected(devices, board@, image@.devices[j]));
            }
            if image_offered(devices, board@, image@) && image@.devices.len() > 0 {
                let j = choose|j: int|
                    0 <= j < image@.devices.len() && device_selected(devices, board@, image@.devices[j]);
                assert(holds_text(ids@, image@.devices[j]));
                let k = choose|k: int| 0 <= k < ids@.len() && ids@[k]@ == image@.devices[j];
            }
        }
        if m {
            let ghost kb = images_view(kept@);
            kept.push(image);
            assert(images_view(kept@) =~= kb.push(all[i as int]));
        }
        assert(images_view(images@) =~= all.skip(i + 1)) by {
            assert forall|j: int| 0 <= j < images@.len() implies images_view(images@)[j] == all.skip(
                i + 1,
            )[j] by {
                assert(images@[j] == before[j + 1]);
                assert(images_view(before)[j + 1] == before[j + 1]@);
                assert(all.skip(i as int)[j + 1] == all[i + 1 + j]);
            }
        }
        i = i + 1;
    }
    assert(all.take(i as int) =~= all);
    catalog.images = kept;
    assert(final(catalog)@ =~~= (crate::manifest::CatalogView {
        images: board_images(old(catalog)@.devices, board@, old(catalog)@.images),
        ..old(catalog)@
    }));
}

/// The order in which image categories are listed.
pub open spec fn category_rank_of(label: Seq<char>) -> u8 {
    if label == "Yocto"@ {
        0
    } else if label == "Edge AI"@ {
        1
    } else if label == "Debian"@ {
        2
    } else if label == "Community"@ {
        3
    } else if label == "Virtualization"@ {
        4
    } else if label == "Buildroot"@ {
        5
    } else if label == "Custom"@ {
        99
    } else {
        50
    }
}

/// The order in which image categories are listed.
pub fn category_rank(label: &str) -> (r: u8)
    ensures
        r == category_rank_of(label@),
{

    if str_eq(label, "Yocto") {
        0
    } else if str_eq(label, "Edge AI") {
        1
    } else if str_eq(label, "Debian") {
        2
    } else if str_eq(label, "Community") {
        3
    } else if str_eq(label, "Virtualization") {
        4
    } else if str_eq(label, "Buildroot") {
        5
    } else if str_eq(label, "Custom") {
        99
    } else {
        50
    }
}

/// Images are listed by category rank, category, recommended first, then name.
pub open spec fn image_le(a: ImageView, b: ImageView) -> bool {
    let la = category_label_of(a);
    let lb = category_label_of(b);
    if category_rank_of(la) != category_rank_of(lb) {
        category_rank_of(la) < category_rank_of(lb)
    } else if la != lb {
        char_order(la, lb) < 0
    } else if a.recommended != b.recommended {
        a.recommended
    } else {
        char_order(a.name, b.name) <= 0
    }
}

impl DisplayOrder for ImageEntry {
    open spec fn spec_le(a: ImageView, b: ImageView) -> bool {
        image_le(a, b)
    }

    fn le(a: &Self, b: &Self) -> (r: bool) {
        let la = a.category_label();
        let lb = b.category_label();
        let ra = category_rank(la);
        let rb = category_rank(lb);
        if ra != rb {
            return ra < rb;
        }
        let c = compare_str(la, lb);
        proof {
            lemma_char_order_basics(la@, lb@);
        }
        if c != 0 {
            return c < 0;
        }
        if a.recommended != b.recommended {
            return a.recommended;
        }
        compare_str(a.name.as_str(), b.name.as_str()) <= 0
    }

    proof fn lemma_total(a: ImageView, b: ImageView) {
        lemma_char_order_basics(category_label_of(a), category_label_of(b));
        lemma_char_order_basics(a.name, b.name);
    }

    proof fn lemma_trans(a: ImageView, b: ImageView, c: ImageView) {
        let (la, lb, lc) = (category_label_of(a), category_label_of(b), category_label_of(c));
        lemma_char_order_basics(la, lb);
        lemma_char_order_basics(lb, lc);
        lemma_char_order_basics(la, lc);
        lemma_char_order_basics(a.name, b.name);
        lemma_char_order_basics(b.name, c.name);
        if char_order(la, lb) <= 0 && char_order(lb, lc) <= 0 {
            lemma_char_order_trans(la, lb, lc);
        }
        if char_order(a.name, b.name) <= 0 && char_order(b.name, c.name) <= 0 {
            lemma_char_order_trans(a.name, b.name, c.name);
        }
    }
}

/// Orders images for display (see `image_le`), keeping equal ones in order.
pub fn sort_images_for_display(images: &mut Vec<ImageEntry>)
    ensures
        images_view(final(images)@) == stable_sorted::<ImageEntry>(images_view(old(images)@)),
{
    stable_sort(images);
    assert(views(images@) =~= images_view(images@));
}

/// The first recommended image, else the first.
pub open spec fn first_recommended(s: Seq<ImageView>) -> nat {
    if exists|i: int| 0 <= i < s.len() && s[i].recommended {
        (choose|i: int|
            0 <= i < s.len() && s[i].recommended && forall|k: int| 0 <= k < i ==> !s[k].recommended) as nat
    } else {
        0
    }
}

/// The index of the first recommended image, else 0.
pub fn recommended_index(images: &Vec<ImageEntry>) -> (r: usize)
    ensures
        r == first_recommended(images_view(images@)),
        images@.len() > 0 ==> r < images@.len(),
{
    let ghost s = images_view(images@);
    let mut i: usize = 0;
    while i < images.len()
        invariant
            i <= images@.len(),
            s == images_view(images@),
            forall|k: int| 0 <= k < i ==> !(#[trigger] s[k]).recommended,
        decreases images@.len() - i,
    {
        assert(s[i as int] == images@[i as int]@);
        if images[i].recommended {
            assert(first_recommended(s) == i) by {
                let c = choose|c: int|
                    0 <= c < s.len() && s[c].recommended && forall|k: int| 0 <= k < c ==> !s[k].recommended;
                assert(0 <= i < s.len() && s[i as int].recommended);
                if c < i {
                } else if c > i {
                }
            }
            return i;
        }
        i = i + 1;
    }
    0
}

proof fn lemma_offered_images(devices: Seq<DeviceView>, board: BoardView, s: Seq<ImageView>)
    ensures
        forall|i: int|
            0 <= i < offered_images(devices, board, s).len() ==> s.contains(
                #[trigger] offered_images(devices, board, s)[i],
            ) && image_offered(devices, board, offered_images(devices, board, s)[i]),
        forall|j: int|
            0 <= j < s.len() && image_offered(devices, board, s[j]) ==> offered_images(
                devices,
                board,
                s,
            ).contains(#[trigger] s[j]),
    decreases s.len(),
{
    if s.len() > 0 {
        let d = s.drop_last();
        let rest = offered_images(devices, board, d);
        lemma_offered_images(devices, board, d);
        let r = offered_images(devices, board, s);
        assert forall|i: int| 0 <= i < r.len() implies s.contains(#[trigger] r[i]) && image_offered(
            devices,
            board,
            r[i],
        ) by {
            if i < rest.len() {
                assert(r[i] == rest[i]);
                assert(d.contains(rest[i]));
                let k = choose|k: int| 0 <= k < d.len() && d[k] == rest[i];
                assert(s[k] == d[k]);
            } else {
                assert(r[i] == s.last());
                assert(s[s.len() - 1] == s.last());
            }
        }
        assert forall|j: int| 0 <= j < s.len() && image_offered(devices, board, s[j]) implies r.contains(
            #[trigger] s[j],
        ) by {
            if j < s.len() - 1 {
                assert(s[j] == d[j]);
                assert(rest.contains(d[j]));
                let k = choose|k: int| 0 <= k < rest.len() && rest[k] == d[j];
                assert(r[k] == rest[k]);
            } else {
                assert(r[r.len() - 1] == s.last());
            }
        }
    }
}

/// Every image shown for a board comes from the catalog and, when the board
/// stands for catalog devices, is offered to it; every catalog image the
/// board is offered is shown. A board that stands for no catalog device is
/// shown the whole catalog.
pub proof fn lemma_board_images_exact(devices: Seq<DeviceView>, board: BoardView, s: Seq<ImageView>)
    ensures
        forall|i: int|
            0 <= i < board_images(devices, board, s).len() ==> s.contains(
                #[trigger] board_images(devices, board, s)[i],
            ) && (board_selects(devices, board) ==> image_offered(
                devices,
                board,
                board_images(devices, board, s)[i],
            )),
        forall|j: int|
            0 <= j < s.len() && (!board_selects(devices, board) || image_offered(devices, board, s[j]))
                ==> board_images(devices, board, s).contains(#[trigger] s[j]),
        !board_selects(devices, board) ==> board_images(devices, board, s) == s,
{
    lemma_offered_images(devices, board, s);
    if !board_selects(devices, board) {
        assert forall|i: int| 0 <= i < s.len() implies s.contains(#[trigger] s[i]) by {}
        assert forall|j: int| 0 <= j < s.len() implies s.contains(#[trigger] s[j]) by {}
    }
}

/// A board with a usable id of its own stands for catalog devices, and is
/// offered exactly the images that name no board or name that id, whatever
/// compatible strings it shares with other boards.
pub proof fn lemma_board_id_decides(devices: Seq<DeviceView>, board: BoardView, e: ImageView)
    requires
        usable_board_id(board) is Some,
    ensures
        board_selects(devices, board),
        image_offered(devices, board, e) <==> (e.devices.len() == 0 || e.devices.contains(
            usable_board_id(board).unwrap(),
        )),
{
    let id = usable_board_id(board).unwrap();
    if e.devices.contains(id) {
        let j = choose|j: int| 0 <= j < e.devices.len() && e.devices[j] == id;
        assert(device_selected(devices, board, e.devices[j]));
    }
    if e.devices.len() > 0 && image_offered(devices, board, e) {
        let j = choose|j: int| 0 <= j < e.devices.len() && device_selected(devices, board, e.devices[j]);
        assert(e.devices[j] == id);
    }
}

} // verus!
