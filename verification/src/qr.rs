//! QR codes of links, drawn with text characters for the terminal.

use vstd::prelude::*;
use vstd::string::*;

use crate::manifest::strs;
use crate::text::{all_ws, is_blank, lines_of, text_lines};

verus! {

/// The text of the QR code of `data` (its UTF-8 bytes, error correction
/// level M, a quiet zone, two modules per character with the `Dense1x2`
/// half blocks) as `qrcode` draws it; `None` when the data does not fit in a
/// QR code.
pub uninterp spec fn qr_text(data: Seq<char>) -> Option<Seq<char>>;

/// The lines of the drawn QR code of `data` (`str::lines` of `qr_text`).
pub open spec fn qr_text_lines(data: Seq<char>) -> Option<Seq<Seq<char>>> {
    match qr_text(data) {
        Some(t) => Some(text_lines(t)),
        None => None,
    }
}

/// `QrCode::with_error_correction_level(data, EcLevel::M)` then
/// `render::<Dense1x2>()` with dark and light colors and the quiet zone;
/// `None` when the encoder refuses the data.
#[verifier::external_body]
fn qr_render_text(data: &str) -> (r: Option<String>)
    ensures
        match r {
            Some(t) => qr_text(data@) == Some(t@),
            None => qr_text(data@) is None,
        },
{
    let code = match qrcode::QrCode::with_error_correction_level(data.as_bytes(), qrcode::EcLevel::M) {
        Ok(code) => code,
        Err(_) => return None,
    };
    Some(
        code.render::<qrcode::render::unicode::Dense1x2>().dark_color(
            qrcode::render::unicode::Dense1x2::Dark,
        ).light_color(qrcode::render::unicode::Dense1x2::Light).quiet_zone(true).build(),
    )
}

/// The lines that are not blank, in order.
pub open spec fn nonblank(lines: Seq<Seq<char>>) -> Seq<Seq<char>>
    decreases lines.len(),
{
    if lines.len() == 0 {
        lines
    } else if all_ws(lines.last()) {
        nonblank(lines.drop_last())
    } else {
        nonblank(lines.drop_last()).push(lines.last())
    }
}

/// The length of the longest line, in characters.
pub open spec fn widest(lines: Seq<Seq<char>>) -> nat
    decreases lines.len(),
{
    if lines.len() == 0 {
        0
    } else {
        let rest = widest(lines.drop_last());
        if lines.last().len() > rest {
            lines.last().len()
        } else {
            rest
        }
    }
}

/// The drawn lines fitted to a viewport: blank lines dropped; nothing when
/// no line is left or the code is wider or taller than the viewport.
pub open spec fn qr_fit_of(lines: Seq<Seq<char>>, max_width: u16, max_height: u16) -> Option<Seq<Seq<char>>> {
    let kept = nonblank(lines);
    if kept.len() == 0 || widest(kept) > max_width || kept.len() > max_height {
        None
    } else {
        Some(kept)
    }
}

/// Fits drawn lines to a viewport (see `qr_fit_of`).
pub fn fit_qr_lines(lines: Vec<String>, max_width: u16, max_height: u16) -> (r: Option<Vec<String>>)
    ensures
        match r {
            Some(v) => qr_fit_of(strs(lines), max_width, max_height) == Some(strs(v)),
            None => qr_fit_of(strs(lines), max_width, max_height) is None,
        },
{
    let ghost all = strs(lines);
    let mut kept: Vec<String> = Vec::new();
    let mut width: usize = 0;
    let mut i: usize = 0;
    assert(all.take(0) =~= Seq::<Seq<char>>::empty());
    assert(strs(kept) =~= Seq::<Seq<char>>::empty());
    while i < lines.len()
        invariant
            i <= lines@.len(),
            all == strs(lines),
            all.len() == lines@.len(),
            strs(kept) == nonblank(all.take(i as int)),
            width == widest(nonblank(all.take(i as int))),
        decreases lines@.len() - i,
    {
        assert(all.take(i + 1).drop_last() =~= all.take(i as int));
        assert(all.take(i + 1).last() == lines@[i as int]@);
        let line = &lines[i];
        if !is_blank(line.as_str()) {
            let n = line.as_str().unicode_len();
            let ghost before = strs(kept);
            kept.push(line.clone());
            assert(strs(kept) =~= before.push(lines@[i as int]@));
            assert(nonblank(all.take(i + 1)).drop_last() =~= nonblank(all.take(i as int)));
            if n > width {
                width = n;
            }
        }
        i = i + 1;
    }
    assert(all.take(lines@.len() as int) =~= all);
    if kept.len() == 0 || width > max_width as usize || kept.len() > max_height as usize {
        None
    } else {
        Some(kept)
    }
}

/// The QR code of `data` drawn in text lines that fit in `max_width`
/// columns and `max_height` rows; `None` when the data cannot be encoded or
/// the code does not fit.
pub fn render_qr(data: &str, max_width: u16, max_height: u16) -> (r: Option<Vec<String>>)
    ensures
        match qr_text_lines(data@) {
            None => r is None,
            Some(drawn) => match r {
                Some(v) => qr_fit_of(drawn, max_width, max_height) == Some(strs(v)),
                None => qr_fit_of(drawn, max_width, max_height) is None,
            },
        },
{
    match qr_render_text(data) {
        Some(text) => {
            let lines = lines_of(text.as_str());
            proof {
                assert(strs(lines) =~= lines@.map_values(|x: String| x@));
            }
            fit_qr_lines(lines, max_width, max_height)
        },
        None => None,
    }
}

/// A fitted code is never empty, and every line fits the viewport.
pub proof fn lemma_fit_bounds(lines: Seq<Seq<char>>, max_width: u16, max_height: u16)
    ensures
        match qr_fit_of(lines, max_width, max_height) {
            Some(kept) => {
                &&& 0 < kept.len() <= max_height
                &&& forall|i: int| 0 <= i < kept.len() ==> (#[trigger] kept[i]).len() <= max_width
                &&& forall|i: int| 0 <= i < kept.len() ==> !all_ws(#[trigger] kept[i])
            },
            None => true,
        },
{
    lemma_widest(nonblank(lines));
    lemma_nonblank(lines);
}

proof fn lemma_widest(lines: Seq<Seq<char>>)
    ensures
        forall|i: int| 0 <= i < lines.len() ==> (#[trigger] lines[i]).len() <= widest(lines),
    decreases lines.len(),
{
    if lines.len() > 0 {
        lemma_widest(lines.drop_last());
        assert forall|i: int| 0 <= i < lines.len() implies (#[trigger] lines[i]).len() <= widest(lines) by {
            if i < lines.len() - 1 {
                assert(lines[i] == lines.drop_last()[i]);
            }
        }
    }
}

proof fn lemma_nonblank(lines: Seq<Seq<char>>)
    ensures
        forall|i: int| 0 <= i < nonblank(lines).len() ==> !all_ws(#[trigger] nonblank(lines)[i]),
    decreases lines.len(),
{
    if lines.len() > 0 {
        lemma_nonblank(lines.drop_last());
        let rest = nonblank(lines.drop_last());
        assert forall|i: int| 0 <= i < nonblank(lines).len() implies !all_ws(#[trigger] nonblank(lines)[i]) by {
            if i < rest.len() {
                assert(nonblank(lines)[i] == rest[i]);
            }
        }
    }
}

} // verus!
