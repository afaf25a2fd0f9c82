//! Local image files found on attached media, and the catalog entry that
//! stands for them.

use vstd::prelude::*;
use vstd::string::*;

use crate::manifest::{ImageEntry, ImageFormat, ImageView, format_of_lower_name};
use crate::path_order::{compare_paths, lemma_components_order_basics, lemma_components_order_trans, path_components, path_order};
use crate::sort::DisplayOrder;
use crate::text::{
    char_order, compare_str, lemma_char_order_basics, lemma_char_order_trans, lower, owned, push_char,
    push_str, str_eq, chars_of,
};

verus! {

/// An image file found on attached media.
#[derive(Clone, Debug)]
pub struct CustomImage {
    pub name: String,
    pub path: String,
    pub size_bytes: Option<u64>,
    pub format: ImageFormat,
}

/// A custom image, with strings taken as character sequences.
pub ghost struct CustomImageView {
    pub name: Seq<char>,
    pub path: Seq<char>,
    pub size_bytes: Option<u64>,
    pub format: ImageFormat,
}

impl View for CustomImage {
    type V = CustomImageView;

    open spec fn view(&self) -> CustomImageView {
        CustomImageView {
            name: self.name@,
            path: self.path@,
            size_bytes: self.size_bytes,
            format: self.format,
        }
    }
}

impl CustomImage {
    /// A field-by-field copy.
    pub fn duplicate(&self) -> (r: Self)
        ensures
            r@ == self@,
    {
        CustomImage {
            name: self.name.clone(),
            path: self.path.clone(),
            size_bytes: self.size_bytes,
            format: self.format,
        }
    }
}

/// Custom images are listed by file name, then path (compared component by
/// component, as `Path` orders them).
impl DisplayOrder for CustomImage {
    open spec fn spec_le(a: CustomImageView, b: CustomImageView) -> bool {
        if a.name != b.name {
            char_order(a.name, b.name) < 0
        } else {
            path_order(a.path, b.path) <= 0
        }
    }

    fn le(a: &Self, b: &Self) -> (r: bool) {
        let c = compare_str(a.name.as_str(), b.name.as_str());
        proof {
            lemma_char_order_basics(a.name@, b.name@);
        }
        if c != 0 {
            return c < 0;
        }
        compare_paths(a.path.as_str(), b.path.as_str()) <= 0
    }

    proof fn lemma_total(a: CustomImageView, b: CustomImageView) {
        lemma_char_order_basics(a.name, b.name);
        lemma_components_order_basics(path_components(a.path), path_components(b.path));
    }

    proof fn lemma_trans(a: CustomImageView, b: CustomImageView, c: CustomImageView) {
        lemma_char_order_basics(a.name, b.name);
        lemma_char_order_basics(b.name, c.name);
        lemma_char_order_basics(a.name, c.name);
        if char_order(a.name, b.name) <= 0 && char_order(b.name, c.name) <= 0 {
            lemma_char_order_trans(a.name, b.name, c.name);
        }
        if path_order(a.path, b.path) <= 0 && path_order(b.path, c.path) <= 0 {
            lemma_components_order_trans(
                path_components(a.path),
                path_components(b.path),
                path_components(c.path),
            );
        }
    }
}

/// The URL that marks the catalog entry for attached media.
pub open spec fn placeholder_url() -> Seq<char> {
    "custom://attached-media"@
}

/// The catalog entry that leads to the attached-media image list.
pub open spec fn placeholder_view() -> ImageView {
    ImageView {
        id: "custom-attached-media"@,
        name: "Custom image from attached media"@,
        description: "Choose a local OS image from a mounted USB drive, SD card, or other attached storage media."@,
        devices: Seq::empty(),
        category: Some("Custom"@),
        recommended: false,
        version: "local"@,
        release_date: "local"@,
        channel: "custom"@,
        url: "custom://attached-media"@,
        format: ImageFormat::Raw,
        image_download_sha256: None,
        extract_sha256: None,
        image_download_size: None,
        extract_size: None,
        bmap_url: None,
        signature_url: None,
    }
}

/// The catalog entry that leads to the attached-media image list.
pub fn custom_placeholder() -> (r: ImageEntry)
    ensures
        r@ == placeholder_view(),
{
    let r = ImageEntry {
        id: owned("custom-attached-media"),
        name: owned("Custom image from attached media"),
        description: owned(
            "Choose a local OS image from a mounted USB drive, SD card, or other attached storage media.",
        ),
        devices: Vec::new(),
        category: Some(owned("Custom")),
        recommended: false,
        version: owned("local"),
        release_date: owned("local"),
        channel: owned("custom"),
        url: owned("custom://attached-media"),
        format: ImageFormat::Raw,
        image_download_sha256: None,
        extract_sha256: None,
        image_download_size: None,
        extract_size: None,
        bmap_url: None,
        signature_url: None,
    };
    assert(r@.devices =~= Seq::<Seq<char>>::empty());
    r
}

/// Whether an entry is the attached-media placeholder (by its URL).
pub fn is_custom_placeholder(image: &ImageEntry) -> (r: bool)
    ensures
        r == (image@.url == placeholder_url()),
{
    str_eq(image.url.as_str(), "custom://attached-media")
}

/// The character an id keeps for `c`: ASCII letters and digits in lower
/// case, anything else as a dash.
pub open spec fn id_char(c: char) -> char {
    if ('a' <= c && c <= 'z') || ('0' <= c && c <= '9') {
        c
    } else if 'A' <= c && c <= 'Z' {
        crate::text::lower_char(c)
    } else {
        '-'
    }
}

/// The maximal dash-free runs of `m`, joined by single dashes.
pub open spec fn squash_dashes(m: Seq<char>) -> Seq<char>
    decreases m.len(),
{
    if m.len() == 0 {
        m
    } else {
        let r = squash_dashes(m.drop_last());
        let c = m.last();
        if c == '-' {
            r
        } else if m.len() >= 2 && m[m.len() - 2] == '-' && r.len() > 0 {
            r.push('-').push(c)
        } else {
            r.push(c)
        }
    }
}

/// An identifier made of a file name: lower-case ASCII letters and digits,
/// with each run of other characters turned into one dash between words.
pub open spec fn sanitized(s: Seq<char>) -> Seq<char> {
    squash_dashes(Seq::new(s.len(), |i: int| id_char(s[i])))
}

fn id_char_exec(c: char) -> (r: char)
    ensures
        r == id_char(c),
{
    if ('a' <= c && c <= 'z') || ('0' <= c && c <= '9') {
        c
    } else if 'A' <= c && c <= 'Z' {
        let t = crate::text::to_ascii_lowercase_char(c);
        t
    } else {
        '-'
    }
}

/// Turns a file name into an identifier (see `sanitized`).
pub fn sanitize_id(value: &str) -> (r: String)
    ensures
        r@ == sanitized(value@),
{
    let v = chars_of(value);
    let ghost m = Seq::new(value@.len(), |i: int| id_char(value@[i]));
    let mut r = String::new();
    let mut prev_dash = false;
    let mut i: usize = 0;
    assert(m.take(0) =~= Seq::<char>::empty());
    while i < v.len()
        invariant
            v@ == value@,
            i <= v@.len(),
            m == Seq::new(value@.len(), |i: int| id_char(value@[i])),
            r@ == squash_dashes(m.take(i as int)),
            prev_dash == (i > 0 && m[i - 1] == '-'),
        decreases v@.len() - i,
    {
        let c = id_char_exec(v[i]);
        assert(m.take(i + 1).drop_last() =~= m.take(i as int));
        assert(m.take(i + 1).last() == c);
        if c == '-' {
            prev_dash = true;
        } else {
            if prev_dash && r.as_str().unicode_len() > 0 {
                assert(m.take(i + 1)[i - 1] == m[i - 1]);
                push_char(&mut r, '-');
            } else if i > 0 {
                assert(m.take(i + 1)[i - 1] == m[i - 1]);
            }
            push_char(&mut r, c);
            prev_dash = false;
        }
        i = i + 1;
    }
    assert(m.take(v@.len() as int) =~= m);
    r
}

/// The catalog entry for a chosen local image file.
pub open spec fn custom_entry_view(c: CustomImageView) -> ImageView {
    ImageView {
        id: "custom-"@ + sanitized(c.name),
        name: c.name,
        description: "Custom local image selected from "@ + c.path + "."@,
        devices: Seq::empty(),
        category: Some("Custom"@),
        recommended: false,
        version: "local"@,
        release_date: "local"@,
        channel: "custom"@,
        url: "file://"@ + c.path,
        format: c.format,
        image_download_sha256: None,
        extract_sha256: None,
        image_download_size: c.size_bytes,
        extract_size: None,
        bmap_url: None,
        signature_url: None,
    }
}

impl CustomImage {
    /// The catalog entry for this file: a `file://` URL to its path, its size
    /// as the download size, and an id made from its name.
    pub fn into_image_entry(self) -> (r: ImageEntry)
        ensures
            r@ == custom_entry_view(self@),
    {
        let mut id = owned("custom-");
        let sanitized_name = sanitize_id(self.name.as_str());
        push_str(&mut id, sanitized_name.as_str());
        let mut description = owned("Custom local image selected from ");
        push_str(&mut description, self.path.as_str());
        push_str(&mut description, ".");
        let mut url = owned("file://");
        push_str(&mut url, self.path.as_str());
        let r = ImageEntry {
            id,
            name: self.name,
            description,
            devices: Vec::new(),
            category: Some(owned("Custom")),
            recommended: false,
            version: owned("local"),
            release_date: owned("local"),
            channel: owned("custom"),
            url,
            format: self.format,
            image_download_sha256: None,
            extract_sha256: None,
            image_download_size: self.size_bytes,
            extract_size: None,
            bmap_url: None,
            signature_url: None,
        };
        assert(r@.devices =~= Seq::<Seq<char>>::empty());
        r
    }
}

/// The custom image a regular file stands for, when its name announces a
/// supported format.
pub open spec fn custom_image_of_file(file_name: Seq<char>, path: Seq<char>, len: u64) -> Option<
    CustomImageView,
> {
    match format_of_lower_name(lower(file_name)) {
        Some(format) => Some(
            CustomImageView { name: file_name, path, size_bytes: Some(len), format },
        ),
        None => None,
    }
}

/// The custom image a regular file found during a scan stands for.
pub fn custom_image_from_file(file_name: &str, path: &str, len: u64) -> (r: Option<CustomImage>)
    ensures
        match r {
            Some(c) => custom_image_of_file(file_name@, path@, len) == Some(c@),
            None => custom_image_of_file(file_name@, path@, len) is None,
        },
{
    match ImageFormat::from_filename(file_name) {
        Some(format) => Some(
            CustomImage {
                name: owned(file_name),
                path: owned(path),
                size_bytes: Some(len),
                format,
            },
        ),
        None => None,
    }
}

/// Orders scanned images by name, then path.
pub fn sort_custom_images(images: &mut Vec<CustomImage>)
    ensures
        crate::sort::views(final(images)@) == crate::sort::stable_sorted::<CustomImage>(
            crate::sort::views(old(images)@),
        ),
{
    crate::sort::stable_sort(images);
}

/// The deepest directory level below a scan root that is searched.
pub const MAX_SCAN_DEPTH: usize = 5;

/// Whether a directory found at `depth` below a root is still searched.
pub fn should_scan_depth(depth: usize) -> (r: bool)
    ensures
        r == (depth <= MAX_SCAN_DEPTH),
{
    depth <= MAX_SCAN_DEPTH
}

/// The non-blank pieces of a colon-separated list, in order.
pub open spec fn listed_roots(pieces: Seq<Seq<char>>) -> Seq<Seq<char>>
    decreases pieces.len(),
{
    if pieces.len() == 0 {
        Seq::empty()
    } else if crate::text::all_ws(pieces.last()) {
        listed_roots(pieces.drop_last())
    } else {
        listed_roots(pieces.drop_last()).push(pieces.last())
    }
}

/// The directories searched for images: those listed in the
/// `TOBI_CUSTOM_IMAGE_ROOTS` setting (colon-separated, blanks skipped) when
/// it is set; else `/Volumes` on macOS and the removable-media mount points
/// on Linux.
pub open spec fn scan_roots_of(setting: Option<Seq<char>>, linux: bool, macos: bool) -> Seq<Seq<char>> {
    match setting {
        Some(text) => listed_roots(crate::text::split_char(text, ':')),
        None => (if macos {
            seq!["/Volumes"@]
        } else {
            Seq::empty()
        }) + (if linux {
            seq!["/run/media"@, "/media"@, "/mnt"@, "/var/run/media"@]
        } else {
            Seq::empty()
        }),
    }
}

/// The directories searched for images (see `scan_roots_of`).
pub fn scan_roots(setting: Option<&str>, linux: bool, macos: bool) -> (r: Vec<String>)
    ensures
        crate::manifest::strs(r) == scan_roots_of(
            match setting {
                Some(t) => Some(t@),
                None => None,
            },
            linux,
            macos,
        ),
{
    let mut roots: Vec<String> = Vec::new();
    match setting {
        Some(text) => {
            let pieces = crate::text::split_on(text, ':');
            let ghost ps = pieces@.map_values(|x: String| x@);
            let mut i: usize = 0;
            assert(ps.take(0) =~= Seq::<Seq<char>>::empty());
            assert(crate::manifest::strs(roots) =~= Seq::<Seq<char>>::empty());
            while i < pieces.len()
                invariant
                    i <= pieces@.len(),
                    ps == pieces@.map_values(|x: String| x@),
                    ps == crate::text::split_char(text@, ':'),
                    crate::manifest::strs(roots) == listed_roots(ps.take(i as int)),
                decreases pieces@.len() - i,
            {
                assert(ps.take(i + 1).drop_last() =~= ps.take(i as int));
                assert(ps[i as int] == pieces@[i as int]@);
                if !crate::text::is_blank(pieces[i].as_str()) {
                    let ghost before = crate::manifest::strs(roots);
                    roots.push(pieces[i].clone());
                    assert(crate::manifest::strs(roots) =~= before.push(ps[i as int]));
                }
                i = i + 1;
            }
            assert(ps.take(ps.len() as int) =~= ps);
        },
        None => {
            if macos {
                roots.push(owned("/Volumes"));
            }
            if linux {
                roots.push(owned("/run/media"));
                roots.push(owned("/media"));
                roots.push(owned("/mnt"));
                roots.push(owned("/var/run/media"));
            }
            assert(crate::manifest::strs(roots) =~= scan_roots_of(None, linux, macos));
        },
    }
    roots
}

} // verus!
