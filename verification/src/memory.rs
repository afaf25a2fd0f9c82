//! Whether the machine has the working RAM an install needs.

use vstd::prelude::*;
use vstd::string::*;

use crate::device::{one_decimal, push_one_decimal, round_half_even, div_round_half_even};
use crate::manifest::{ImageEntry, ImageFormat, spec_is_xz};
use crate::text::{
    decimal, first_word, first_word_of, has_prefix, lines_of, owned, parse_u64, push_decimal,
    push_str, spec_parse_u64, str_eq, strip_prefix_of, text_lines,
};

verus! {

pub const MIB: u64 = 1048576;

/// The outcome of the memory check for an image.
#[derive(Clone, Copy, Debug)]
pub struct MemoryCheck {
    pub available_bytes: Option<u64>,
    pub required_bytes: u64,
    pub enough: Option<bool>,
    pub guard_relaxed: bool,
}

/// The working RAM an install needs: 96 MiB for the installer plus what the
/// decoder of the format needs (xz needs 256 MiB, or 64 MiB when the lite
/// guard is relaxed).
pub open spec fn working_memory(format: ImageFormat, guard_relaxed: bool) -> u64 {
    let decoder: int = match format {
        ImageFormat::Raw => 32 * MIB,
        ImageFormat::ImgGz | ImageFormat::WicGz => 64 * MIB,
        ImageFormat::ImgZst | ImageFormat::WicZst => 160 * MIB,
        ImageFormat::ImgXz | ImageFormat::WicXz => if guard_relaxed {
            64 * MIB
        } else {
            256 * MIB
        },
    };
    (96 * MIB + decoder) as u64
}

/// The working RAM an install of `format` needs.
pub fn required_working_memory(format: ImageFormat, guard_relaxed: bool) -> (r: u64)
    ensures
        r == working_memory(format, guard_relaxed),
{
    let base = 96 * MIB;
    let decoder = match format {
        ImageFormat::Raw => 32 * MIB,
        ImageFormat::ImgGz | ImageFormat::WicGz => 64 * MIB,
        ImageFormat::ImgZst | ImageFormat::WicZst => 160 * MIB,
        ImageFormat::ImgXz | ImageFormat::WicXz => if guard_relaxed {
            64 * MIB
        } else {
            256 * MIB
        },
    };
    base + decoder
}

/// The check for an image, given whether the lite xz guard is on and what
/// RAM is available (when known).
pub open spec fn memory_check_of(format: ImageFormat, lite_guard: bool, available: Option<u64>) -> MemoryCheck {
    let relaxed = lite_guard && spec_is_xz(format);
    let required = working_memory(format, relaxed);
    MemoryCheck {
        available_bytes: available,
        required_bytes: required,
        enough: match available {
            Some(a) => Some(a >= required),
            None => None,
        },
        guard_relaxed: relaxed,
    }
}

/// Checks an image against the available RAM. `lite_guard` is the lite
/// mode's relaxed xz guard; `available_bytes` is `MemAvailable`, when known.
pub fn check_image_memory(image: &ImageEntry, lite_guard: bool, available_bytes: Option<u64>) -> (r:
    MemoryCheck)
    ensures
        r == memory_check_of(image.format, lite_guard, available_bytes),
{
    let guard_relaxed = lite_guard && image.format.is_xz();
    let required_bytes = required_working_memory(image.format, guard_relaxed);
    let enough = match available_bytes {
        Some(available) => Some(available >= required_bytes),
        None => None,
    };
    MemoryCheck { available_bytes, required_bytes, enough, guard_relaxed }
}

/// A byte count in GiB with one decimal from 1 GiB up, else in whole MiB.
pub open spec fn memory_text(b: nat) -> Seq<char> {
    if b >= 1024 * MIB {
        one_decimal(round_half_even(b * 10, 1024 * MIB as nat)) + " GiB"@
    } else {
        decimal(round_half_even(b, MIB as nat)) + " MiB"@
    }
}

/// Appends `memory_text(b)`.
pub fn push_memory_text(s: &mut String, b: u64)
    ensures
        final(s)@ == old(s)@ + memory_text(b as nat),
{
    if b >= 1024 * MIB {
        let tenths = div_round_half_even((b as u128) * 10, (1024 * MIB) as u128);
        assert(tenths / 10 <= u64::MAX) by {
            assert((b as nat) * 10 / (1073741824 as nat) <= (b as nat) * 10 / 1024) by (nonlinear_arith);
        }
        push_one_decimal(s, tenths);
        push_str(s, " GiB");
    } else {
        let whole = div_round_half_even(b as u128, MIB as u128);
        assert(whole <= 1024) by {
            assert((b as nat) / (MIB as nat) < 1024) by (nonlinear_arith)
                requires
                    b < 1024 * MIB,
            ;
        }
        push_decimal(s, whole as u64);
        push_str(s, " MiB");
    }
}

/// Whether the check blocks the install: RAM is known to be short and the
/// guard is not relaxed.
pub open spec fn spec_blocks_install(c: MemoryCheck) -> bool {
    c.enough == Some(false) && !c.guard_relaxed
}

/// The one-line summary of a check.
pub open spec fn memory_summary(c: MemoryCheck) -> Seq<char> {
    let required = memory_text(c.required_bytes as nat);
    if c.guard_relaxed {
        match c.available_bytes {
            Some(a) => "TOBI-lite test: "@ + memory_text(a as nat) + " available, xz guard relaxed to "@
                + required + " working RAM and not enforced"@,
            None => "TOBI-lite test: xz guard relaxed to "@ + required
                + " working RAM and not enforced"@,
        }
    } else {
        match (c.available_bytes, c.enough) {
            (Some(a), Some(true)) => "OK: "@ + memory_text(a as nat) + " available, "@ + required
                + " working RAM needed"@,
            (Some(a), Some(false)) => "Insufficient: "@ + memory_text(a as nat) + " available, "@
                + required + " working RAM needed"@,
            _ => required + " working RAM needed; available RAM unknown"@,
        }
    }
}

impl MemoryCheck {
    /// Whether the install must be refused for want of RAM.
    pub fn blocks_install(&self) -> (r: bool)
        ensures
            r == spec_blocks_install(*self),
    {
        match self.enough {
            Some(e) => !e && !self.guard_relaxed,
            None => false,
        }
    }

    /// A one-line summary for the confirmation screen.
    pub fn summary(&self) -> (r: String)
        ensures
            r@ == memory_summary(*self),
    {
        if self.guard_relaxed {
            return match self.available_bytes {
                Some(available) => {
                    let mut s = owned("TOBI-lite test: ");
                    push_memory_text(&mut s, available);
                    push_str(&mut s, " available, xz guard relaxed to ");
                    push_memory_text(&mut s, self.required_bytes);
                    push_str(&mut s, " working RAM and not enforced");
                    s
                },
                None => {
                    let mut s = owned("TOBI-lite test: xz guard relaxed to ");
                    push_memory_text(&mut s, self.required_bytes);
                    push_str(&mut s, " working RAM and not enforced");
                    s
                },
            };
        }
        match (self.available_bytes, self.enough) {
            (Some(available), Some(true)) => {
                let mut s = owned("OK: ");
                push_memory_text(&mut s, available);
                push_str(&mut s, " available, ");
                push_memory_text(&mut s, self.required_bytes);
                push_str(&mut s, " working RAM needed");
                s
            },
            (Some(available), Some(false)) => {
                let mut s = owned("Insufficient: ");
                push_memory_text(&mut s, available);
                push_str(&mut s, " available, ");
                push_memory_text(&mut s, self.required_bytes);
                push_str(&mut s, " working RAM needed");
                s
            },
            _ => {
                let mut s = String::new();
                push_memory_text(&mut s, self.required_bytes);
                push_str(&mut s, " working RAM needed; available RAM unknown");
                assert(s@ =~= memory_summary(*self));
                s
            },
        }
    }
}

/// The refusal when RAM is short.
pub open spec fn shortage_message(c: MemoryCheck) -> Seq<char> {
    "not enough available RAM for the installer working set: need at least "@ + memory_text(
        c.required_bytes as nat,
    ) + ", have "@ + memory_text(
        match c.available_bytes {
            Some(a) => a as nat,
            None => 0,
        },
    )
}

/// Refuses an image whose install the memory check blocks.
pub fn ensure_image_memory(image: &ImageEntry, lite_guard: bool, available_bytes: Option<u64>) -> (r:
    Result<(), String>)
    ensures
        ({
            let c = memory_check_of(image.format, lite_guard, available_bytes);
            match r {
                Ok(()) => !spec_blocks_install(c),
                Err(m) => spec_blocks_install(c) && m@ == shortage_message(c),
            }
        }),
{
    let check = check_image_memory(image, lite_guard, available_bytes);
    if check.blocks_install() {
        let available = match check.available_bytes {
            Some(a) => a,
            None => 0,
        };
        let mut s = owned("not enough available RAM for the installer working set: need at least ");
        push_memory_text(&mut s, check.required_bytes);
        push_str(&mut s, ", have ");
        push_memory_text(&mut s, available);
        return Err(s);
    }
    Ok(())
}

/// Whether a `TOBI_LITE` setting turns the lite guard on.
pub open spec fn lite_setting_on(value: Option<Seq<char>>) -> bool {
    match value {
        Some(v) => v == "1"@ || v == "true"@ || v == "TRUE"@ || v == "yes"@ || v == "YES"@,
        None => false,
    }
}

/// Whether a `TOBI_LITE` setting turns the lite guard on.
pub fn lite_env_enabled(value: Option<&str>) -> (r: bool)
    ensures
        r == lite_setting_on(match value {
            Some(v) => Some(v@),
            None => None,
        }),
{
    match value {
        Some(v) => str_eq(v, "1") || str_eq(v, "true") || str_eq(v, "TRUE") || str_eq(v, "yes")
            || str_eq(v, "YES"),
        None => false,
    }
}

/// `MemAvailable` of a `/proc/meminfo` text, in bytes: the first line that
/// starts with `MemAvailable:` decides; its first word is the size in KiB.
pub open spec fn mem_available_of(lines: Seq<Seq<char>>) -> Option<u64>
    decreases lines.len(),
{
    if lines.len() == 0 {
        None
    } else if has_prefix(lines[0], "MemAvailable:"@) {
        let rest = lines[0].subrange(13, lines[0].len() as int);
        match first_word(rest) {
            Some(w) => match spec_parse_u64(w) {
                Some(kb) => if kb * 1024 <= u64::MAX {
                    Some((kb * 1024) as u64)
                } else {
                    None
                },
                None => None,
            },
            None => None,
        }
    } else {
        mem_available_of(lines.drop_first())
    }
}

/// Reads `MemAvailable` out of a `/proc/meminfo` text.
pub fn parse_mem_available(meminfo: &str) -> (r: Option<u64>)
    ensures
        r == mem_available_of(text_lines(meminfo@)),
{
    let lines = lines_of(meminfo);
    let ghost ls = lines@.map_values(|x: String| x@);
    let mut i: usize = 0;
    assert(ls.skip(0) =~= ls);
    while i < lines.len()
        invariant
            i <= lines@.len(),
            ls == lines@.map_values(|x: String| x@),
            ls == text_lines(meminfo@),
            mem_available_of(ls) == mem_available_of(ls.skip(i as int)),
        decreases lines@.len() - i,
    {
        let line = &lines[i];
        assert(ls.skip(i as int)[0] == line@);
        assert(ls.skip(i as int).drop_first() =~= ls.skip(i + 1));
        match strip_prefix_of(line.as_str(), "MemAvailable:") {
            Some(rest) => {
                proof {
                    reveal_strlit("MemAvailable:");
                }
                return match first_word_of(rest.as_str()) {
                    Some(w) => match parse_u64(w.as_str()) {
                        Some(kb) => if kb <= u64::MAX / 1024 {
                            Some(kb * 1024)
                        } else {
                            None
                        },
                        None => None,
                    },
                    None => None,
                };
            },
            None => {},
        }
        i = i + 1;
    }
    None
}

/// The RAM an install needs depends on the format alone, never on the size
/// of the image; the lite guard only lowers what xz needs, and a check whose
/// guard it relaxed never blocks the install.
pub proof fn lemma_lite_guard(format: ImageFormat, available: Option<u64>)
    ensures
        working_memory(format, true) <= working_memory(format, false),
        !spec_is_xz(format) ==> memory_check_of(format, true, available) == memory_check_of(
            format,
            false,
            available,
        ),
        spec_is_xz(format) ==> !spec_blocks_install(memory_check_of(format, true, available)),
        working_memory(format, false) <= working_memory(ImageFormat::ImgXz, false),
{
}


/// The working RAM each format needs, in bytes: 96 MiB for the installer
/// plus 32 MiB for a raw image, 64 MiB for gzip, 160 MiB for zstd and
/// 256 MiB for xz (64 MiB when the lite guard is relaxed).
pub proof fn lemma_working_memory_values(format: ImageFormat, guard_relaxed: bool)
    ensures
        format == ImageFormat::Raw ==> working_memory(format, guard_relaxed) == 134217728,
        (format == ImageFormat::ImgGz || format == ImageFormat::WicGz) ==> working_memory(
            format,
            guard_relaxed,
        ) == 167772160,
        (format == ImageFormat::ImgZst || format == ImageFormat::WicZst) ==> working_memory(
            format,
            guard_relaxed,
        ) == 268435456,
        (format == ImageFormat::ImgXz || format == ImageFormat::WicXz) ==> working_memory(
            format,
            guard_relaxed,
        ) == if guard_relaxed {
            167772160u64
        } else {
            369098752u64
        },
{
}

/// With the available RAM known, the install is blocked exactly when it is
/// below what the format needs, except for xz under the lite guard, which is
/// never blocked: a zstd image, for one, is refused below 256 MiB.
pub proof fn lemma_blocked_exactly_when_short(format: ImageFormat, lite_guard: bool, available: u64)
    ensures
        format == ImageFormat::Raw ==> (spec_blocks_install(
            memory_check_of(format, lite_guard, Some(available)),
        ) <==> available < 134217728),
        (format == ImageFormat::ImgGz || format == ImageFormat::WicGz) ==> (spec_blocks_install(
            memory_check_of(format, lite_guard, Some(available)),
        ) <==> available < 167772160),
        (format == ImageFormat::ImgZst || format == ImageFormat::WicZst) ==> (spec_blocks_install(
            memory_check_of(format, lite_guard, Some(available)),
        ) <==> available < 268435456),
        (format == ImageFormat::ImgXz || format == ImageFormat::WicXz) ==> (spec_blocks_install(
            memory_check_of(format, lite_guard, Some(available)),
        ) <==> (!lite_guard && available < 369098752)),
        !spec_blocks_install(memory_check_of(format, lite_guard, None)),
{
}

} // verus!
