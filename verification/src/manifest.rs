//! The OS image catalog: its records, image formats and validation.

use vstd::prelude::*;
use vstd::string::*;

use crate::text::{
    all_ws, clone_opt_string, clone_strings, decimal, ends_with, has_prefix, has_suffix, is_blank,
    lower, owned, push_decimal, push_str, starts_with, to_ascii_lowercase, trim_str, trimmed,
};

verus! {

/// The catalog of installable images and the boards they support.
#[derive(Clone, Debug)]
pub struct Catalog {
    pub schema_version: u32,
    pub generated_at: Option<String>,
    pub devices: Vec<DeviceEntry>,
    pub images: Vec<ImageEntry>,
}

/// One board known to the catalog, with its device-tree compatible strings.
#[derive(Clone, Debug)]
pub struct DeviceEntry {
    pub id: String,
    pub name: String,
    pub compatible: Vec<String>,
}

/// One installable OS image.
#[derive(Clone, Debug)]
pub struct ImageEntry {
    pub id: String,
    pub name: String,
    pub description: String,
    pub devices: Vec<String>,
    pub category: Option<String>,
    pub recommended: bool,
    pub version: String,
    pub release_date: String,
    pub channel: String,
    pub url: String,
    pub format: ImageFormat,
    pub image_download_sha256: Option<String>,
    pub extract_sha256: Option<String>,
    pub image_download_size: Option<u64>,
    pub extract_size: Option<u64>,
    pub bmap_url: Option<String>,
    pub signature_url: Option<String>,
}

/// How an image file is packed.
#[derive(Clone, Copy, Debug, PartialEq, Eq, Structural)]
pub enum ImageFormat {
    Raw,
    ImgXz,
    WicXz,
    ImgZst,
    WicZst,
    ImgGz,
    WicGz,
}

/// The catalog record of an image, with strings taken as character sequences.
#[verifier::ext_equal]
pub ghost struct ImageView {
    pub id: Seq<char>,
    pub name: Seq<char>,
    pub description: Seq<char>,
    pub devices: Seq<Seq<char>>,
    pub category: Option<Seq<char>>,
    pub recommended: bool,
    pub version: Seq<char>,
    pub release_date: Seq<char>,
    pub channel: Seq<char>,
    pub url: Seq<char>,
    pub format: ImageFormat,
    pub image_download_sha256: Option<Seq<char>>,
    pub extract_sha256: Option<Seq<char>>,
    pub image_download_size: Option<u64>,
    pub extract_size: Option<u64>,
    pub bmap_url: Option<Seq<char>>,
    pub signature_url: Option<Seq<char>>,
}

/// A board record, with strings taken as character sequences.
#[verifier::ext_equal]
pub ghost struct DeviceView {
    pub id: Seq<char>,
    pub name: Seq<char>,
    pub compatible: Seq<Seq<char>>,
}

/// A catalog, with strings taken as character sequences.
#[verifier::ext_equal]
pub ghost struct CatalogView {
    pub schema_version: u32,
    pub generated_at: Option<Seq<char>>,
    pub devices: Seq<DeviceView>,
    pub images: Seq<ImageView>,
}

/// An optional string, taken as a character sequence.
pub open spec fn opt_str(o: Option<String>) -> Option<Seq<char>> {
    match o {
        Some(s) => Some(s@),
        None => None,
    }
}

/// A list of strings, taken as character sequences.
pub open spec fn strs(v: Vec<String>) -> Seq<Seq<char>> {
    v@.map_values(|s: String| s@)
}

impl View for ImageEntry {
    type V = ImageView;

    open spec fn view(&self) -> ImageView {
        ImageView {
            id: self.id@,
            name: self.name@,
            description: self.description@,
            devices: strs(self.devices),
            category: opt_str(self.category),
            recommended: self.recommended,
            version: self.version@,
            release_date: self.release_date@,
            channel: self.channel@,
            url: self.url@,
            format: self.format,
            image_download_sha256: opt_str(self.image_download_sha256),
            extract_sha256: opt_str(self.extract_sha256),
            image_download_size: self.image_download_size,
            extract_size: self.extract_size,
            bmap_url: opt_str(self.bmap_url),
            signature_url: opt_str(self.signature_url),
        }
    }
}

impl View for DeviceEntry {
    type V = DeviceView;

    open spec fn view(&self) -> DeviceView {
        DeviceView { id: self.id@, name: self.name@, compatible: strs(self.compatible) }
    }
}

/// The views of a list of images.
pub open spec fn images_view(v: Seq<ImageEntry>) -> Seq<ImageView> {
    v.map_values(|e: ImageEntry| e@)
}

/// The views of a list of boards.
pub open spec fn devices_view(v: Seq<DeviceEntry>) -> Seq<DeviceView> {
    v.map_values(|e: DeviceEntry| e@)
}

impl View for Catalog {
    type V = CatalogView;

    open spec fn view(&self) -> CatalogView {
        CatalogView {
            schema_version: self.schema_version,
            generated_at: opt_str(self.generated_at),
            devices: devices_view(self.devices@),
            images: images_view(self.images@),
        }
    }
}

/// Why a catalog is refused.
#[derive(Clone, Debug)]
pub enum CatalogError {
    UnsupportedSchema(u32),
    NoImages,
    EmptyIdOrName,
    EmptyUrl(String),
}

/// The label under which an image is grouped: its trimmed category, or
/// `Other` when it has none or only white space.
pub open spec fn category_label_of(image: ImageView) -> Seq<char> {
    match image.category {
        Some(c) => if trimmed(c).len() > 0 {
            trimmed(c)
        } else {
            "Other"@
        },
        None => "Other"@,
    }
}

impl ImageEntry {
    /// The display category (see `category_label_of`).
    pub fn category_label(&self) -> (r: &str)
        ensures
            r@ == category_label_of(self@),
    {
        match &self.category {
            Some(c) => {
                let t = trim_str(c.as_str());
                if t.unicode_len() > 0 {
                    t
                } else {
                    "Other"
                }
            },
            None => "Other",
        }
    }

    /// A field-by-field copy.
    pub fn duplicate(&self) -> (r: Self)
        ensures
            r@ == self@,
    {
        ImageEntry {
            id: self.id.clone(),
            name: self.name.clone(),
            description: self.description.clone(),
            devices: clone_strings(&self.devices),
            category: clone_opt_string(&self.category),
            recommended: self.recommended,
            version: self.version.clone(),
            release_date: self.release_date.clone(),
            channel: self.channel.clone(),
            url: self.url.clone(),
            format: self.format,
            image_download_sha256: clone_opt_string(&self.image_download_sha256),
            extract_sha256: clone_opt_string(&self.extract_sha256),
            image_download_size: self.image_download_size,
            extract_size: self.extract_size,
            bmap_url: clone_opt_string(&self.bmap_url),
            signature_url: clone_opt_string(&self.signature_url),
        }
    }
}

impl DeviceEntry {
    /// A field-by-field copy.
    pub fn duplicate(&self) -> (r: Self)
        ensures
            r@ == self@,
    {
        DeviceEntry {
            id: self.id.clone(),
            name: self.name.clone(),
            compatible: clone_strings(&self.compatible),
        }
    }
}

/// The catalog spelling of a format.
pub open spec fn format_label(f: ImageFormat) -> Seq<char> {
    match f {
        ImageFormat::Raw => "raw"@,
        ImageFormat::ImgXz => "img.xz"@,
        ImageFormat::WicXz => "wic.xz"@,
        ImageFormat::ImgZst => "img.zst"@,
        ImageFormat::WicZst => "wic.zst"@,
        ImageFormat::ImgGz => "img.gz"@,
        ImageFormat::WicGz => "wic.gz"@,
    }
}

pub open spec fn spec_is_xz(f: ImageFormat) -> bool {
    f == ImageFormat::ImgXz || f == ImageFormat::WicXz
}

pub open spec fn spec_is_zstd(f: ImageFormat) -> bool {
    f == ImageFormat::ImgZst || f == ImageFormat::WicZst
}

pub open spec fn spec_is_gzip(f: ImageFormat) -> bool {
    f == ImageFormat::ImgGz || f == ImageFormat::WicGz
}

/// The format that a (lower-cased) file name announces by its extension.
pub open spec fn format_of_lower_name(n: Seq<char>) -> Option<ImageFormat> {
    if has_suffix(n, ".img.xz"@) {
        Some(ImageFormat::ImgXz)
    } else if has_suffix(n, ".wic.xz"@) {
        Some(ImageFormat::WicXz)
    } else if has_suffix(n, ".img.zst"@) {
        Some(ImageFormat::ImgZst)
    } else if has_suffix(n, ".wic.zst"@) {
        Some(ImageFormat::WicZst)
    } else if has_suffix(n, ".img.gz"@) {
        Some(ImageFormat::ImgGz)
    } else if has_suffix(n, ".wic.gz"@) {
        Some(ImageFormat::WicGz)
    } else if has_suffix(n, ".wic"@) || has_suffix(n, ".img"@) || has_suffix(n, ".raw"@)
        || has_suffix(n, ".bin"@) {
        Some(ImageFormat::Raw)
    } else {
        None
    }
}

impl ImageFormat {
    /// The catalog spelling of the format.
    pub fn label(self) -> (r: &'static str)
        ensures
            r@ == format_label(self),
    {
        match self {
            ImageFormat::Raw => "raw",
            ImageFormat::ImgXz => "img.xz",
            ImageFormat::WicXz => "wic.xz",
            ImageFormat::ImgZst => "img.zst",
            ImageFormat::WicZst => "wic.zst",
            ImageFormat::ImgGz => "img.gz",
            ImageFormat::WicGz => "wic.gz",
        }
    }

    pub fn is_xz(self) -> (r: bool)
        ensures
            r == spec_is_xz(self),
    {
        matches!(self, ImageFormat::ImgXz | ImageFormat::WicXz)
    }

    pub fn is_zstd(self) -> (r: bool)
        ensures
            r == spec_is_zstd(self),
    {
        matches!(self, ImageFormat::ImgZst | ImageFormat::WicZst)
    }

    pub fn is_gzip(self) -> (r: bool)
        ensures
            r == spec_is_gzip(self),
    {
        matches!(self, ImageFormat::ImgGz | ImageFormat::WicGz)
    }

    /// Whether the image has to be decompressed while it is written.
    pub fn is_compressed(self) -> (r: bool)
        ensures
            r == (self != ImageFormat::Raw),
            r == (spec_is_xz(self) || spec_is_zstd(self) || spec_is_gzip(self)),
    {
        self.is_xz() || self.is_zstd() || self.is_gzip()
    }

    /// The format a file name announces, ignoring ASCII case.
    pub fn from_filename(name: &str) -> (r: Option<Self>)
        ensures
            r == format_of_lower_name(lower(name@)),
    {
        let lowered = to_ascii_lowercase(name);
        let n = lowered.as_str();
        if ends_with(n, ".img.xz") {
            Some(ImageFormat::ImgXz)
        } else if ends_with(n, ".wic.xz") {
            Some(ImageFormat::WicXz)
        } else if ends_with(n, ".img.zst") {
            Some(ImageFormat::ImgZst)
        } else if ends_with(n, ".wic.zst") {
            Some(ImageFormat::WicZst)
        } else if ends_with(n, ".img.gz") {
            Some(ImageFormat::ImgGz)
        } else if ends_with(n, ".wic.gz") {
            Some(ImageFormat::WicGz)
        } else if ends_with(n, ".wic") || ends_with(n, ".img") || ends_with(n, ".raw") || ends_with(
            n,
            ".bin",
        ) {
            Some(ImageFormat::Raw)
        } else {
            None
        }
    }
}

/// The extension a format's label spells after a dot, character by
/// character.
pub open spec fn label_extension(f: ImageFormat) -> Seq<char> {
    match f {
        ImageFormat::Raw => seq!['.', 'r', 'a', 'w'],
        ImageFormat::ImgXz => seq!['.', 'i', 'm', 'g', '.', 'x', 'z'],
        ImageFormat::WicXz => seq!['.', 'w', 'i', 'c', '.', 'x', 'z'],
        ImageFormat::ImgZst => seq!['.', 'i', 'm', 'g', '.', 'z', 's', 't'],
        ImageFormat::WicZst => seq!['.', 'w', 'i', 'c', '.', 'z', 's', 't'],
        ImageFormat::ImgGz => seq!['.', 'i', 'm', 'g', '.', 'g', 'z'],
        ImageFormat::WicGz => seq!['.', 'w', 'i', 'c', '.', 'g', 'z'],
    }
}

proof fn lemma_label_extension(f: ImageFormat)
    ensures
        "."@ + format_label(f) == label_extension(f),
        lower(label_extension(f)) == label_extension(f),
{
    reveal_strlit(".");
    reveal_strlit("raw");
    reveal_strlit("img.xz");
    reveal_strlit("wic.xz");
    reveal_strlit("img.zst");
    reveal_strlit("wic.zst");
    reveal_strlit("img.gz");
    reveal_strlit("wic.gz");
    assert("."@ + format_label(f) =~= label_extension(f));
    assert(lower(label_extension(f)) =~= label_extension(f));
}

proof fn lemma_ends_with_itself(a: Seq<char>, t: Seq<char>)
    ensures
        has_suffix(a + t, t),
{
    assert((a + t).subrange(a.len() as int, (a + t).len() as int) =~= t);
}

proof fn lemma_differs_near_end(a: Seq<char>, t: Seq<char>, p: Seq<char>, k: int)
    requires
        1 <= k <= t.len(),
        k <= p.len(),
        t[t.len() - k] != p[p.len() - k],
    ensures
        !has_suffix(a + t, p),
{
    let x = a + t;
    if has_suffix(x, p) {
        let j = p.len() - k;
        assert(x.subrange(x.len() - p.len(), x.len() as int)[j] == x[x.len() - k]);
    }
}

/// A file named after a format's label is recognized as that format: for
/// every stem, `from_filename` gives back `f` for the stem, a dot and
/// `f.label()`, in any mix of ASCII case of the stem.
pub proof fn lemma_label_round_trip(stem: Seq<char>, f: ImageFormat)
    ensures
        format_of_lower_name(lower(stem + "."@ + format_label(f))) == Some(f),
{
    lemma_label_extension(f);
    let t = label_extension(f);
    let a = lower(stem);
    assert(stem + "."@ + format_label(f) =~= stem + t);
    assert(lower(stem + t) =~= a + lower(t));
    let x = a + t;
    reveal_strlit(".img.xz");
    reveal_strlit(".wic.xz");
    reveal_strlit(".img.zst");
    reveal_strlit(".wic.zst");
    reveal_strlit(".img.gz");
    reveal_strlit(".wic.gz");
    reveal_strlit(".wic");
    reveal_strlit(".img");
    reveal_strlit(".raw");
    reveal_strlit(".bin");
    lemma_ends_with_itself(a, t);
    match f {
        ImageFormat::ImgXz => {
            assert(t == ".img.xz"@);
        },
        ImageFormat::WicXz => {
            lemma_differs_near_end(a, t, ".img.xz"@, 4);
            assert(t == ".wic.xz"@);
        },
        ImageFormat::ImgZst => {
            lemma_differs_near_end(a, t, ".img.xz"@, 1);
            lemma_differs_near_end(a, t, ".wic.xz"@, 1);
            assert(t == ".img.zst"@);
        },
        ImageFormat::WicZst => {
            lemma_differs_near_end(a, t, ".img.xz"@, 1);
            lemma_differs_near_end(a, t, ".wic.xz"@, 1);
            lemma_differs_near_end(a, t, ".img.zst"@, 5);
            assert(t == ".wic.zst"@);
        },
        ImageFormat::ImgGz => {
            lemma_differs_near_end(a, t, ".img.xz"@, 2);
            lemma_differs_near_end(a, t, ".wic.xz"@, 2);
            lemma_differs_near_end(a, t, ".img.zst"@, 1);
            lemma_differs_near_end(a, t, ".wic.zst"@, 1);
            assert(t == ".img.gz"@);
        },
        ImageFormat::WicGz => {
            lemma_differs_near_end(a, t, ".img.xz"@, 2);
            lemma_differs_near_end(a, t, ".wic.xz"@, 2);
            lemma_differs_near_end(a, t, ".img.zst"@, 1);
            lemma_differs_near_end(a, t, ".wic.zst"@, 1);
            lemma_differs_near_end(a, t, ".img.gz"@, 4);
            assert(t == ".wic.gz"@);
        },
        ImageFormat::Raw => {
            lemma_differs_near_end(a, t, ".img.xz"@, 1);
            lemma_differs_near_end(a, t, ".wic.xz"@, 1);
            lemma_differs_near_end(a, t, ".img.zst"@, 1);
            lemma_differs_near_end(a, t, ".wic.zst"@, 1);
            lemma_differs_near_end(a, t, ".img.gz"@, 1);
            lemma_differs_near_end(a, t, ".wic.gz"@, 1);
            lemma_differs_near_end(a, t, ".wic"@, 1);
            lemma_differs_near_end(a, t, ".img"@, 1);
            assert(t == ".raw"@);
        },
    }
}

/// Whether a catalog source names an HTTP(S) location.
pub open spec fn spec_is_remote(s: Seq<char>) -> bool {
    has_prefix(s, "http://"@) || has_prefix(s, "https://"@)
}

/// Whether a catalog source is fetched over HTTP(S) rather than read from disk.
pub fn is_remote_source(source: &str) -> (r: bool)
    ensures
        r == spec_is_remote(source@),
{
    starts_with(source, "http://") || starts_with(source, "https://")
}

/// The verdict on a list of images: the first image with a blank id or name,
/// or else a blank URL, is refused.
pub open spec fn check_images(images: Seq<ImageEntry>) -> Result<(), CatalogError>
    decreases images.len(),
{
    if images.len() == 0 {
        Ok(())
    } else if all_ws(images[0].id@) || all_ws(images[0].name@) {
        Err(CatalogError::EmptyIdOrName)
    } else if all_ws(images[0].url@) {
        Err(CatalogError::EmptyUrl(images[0].id))
    } else {
        check_images(images.drop_first())
    }
}

/// The verdict on a catalog.
pub open spec fn catalog_verdict(c: Catalog) -> Result<(), CatalogError> {
    if c.schema_version != 1 {
        Err(CatalogError::UnsupportedSchema(c.schema_version))
    } else if c.images@.len() == 0 {
        Err(CatalogError::NoImages)
    } else {
        check_images(c.images@)
    }
}

/// Checks the schema version and that every image has an id, a name and a URL.
pub fn validate_catalog(catalog: &Catalog) -> (r: Result<(), CatalogError>)
    ensures
        r == catalog_verdict(*catalog),
{
    if catalog.schema_version != 1 {
        return Err(CatalogError::UnsupportedSchema(catalog.schema_version));
    }
    if catalog.images.len() == 0 {
        return Err(CatalogError::NoImages);
    }
    let mut i: usize = 0;
    assert(catalog.images@.skip(0) =~= catalog.images@);
    while i < catalog.images.len()
        invariant
            i <= catalog.images@.len(),
            catalog.schema_version == 1,
            catalog.images@.len() > 0,
            catalog_verdict(*catalog) == check_images(catalog.images@.skip(i as int)),
        decreases catalog.images@.len() - i,
    {
        let image = &catalog.images[i];
        let ghost rest = catalog.images@.skip(i as int);
        assert(rest[0] == *image);
        assert(rest.drop_first() =~= catalog.images@.skip(i + 1));
        if is_blank(image.id.as_str()) || is_blank(image.name.as_str()) {
            return Err(CatalogError::EmptyIdOrName);
        }
        if is_blank(image.url.as_str()) {
            return Err(CatalogError::EmptyUrl(image.id.clone()));
        }
        i = i + 1;
    }
    Ok(())
}

impl CatalogError {
    /// The message the installer shows for this error.
    pub fn message(&self) -> (r: String)
        ensures
            r@ == catalog_error_message(*self),
    {
        match self {
            CatalogError::UnsupportedSchema(v) => {
                let mut s = owned("unsupported manifest schema version ");
                push_decimal(&mut s, *v as u64);
                s
            },
            CatalogError::NoImages => owned("manifest does not contain any images"),
            CatalogError::EmptyIdOrName => owned(
                "manifest contains an image with an empty id or name",
            ),
            CatalogError::EmptyUrl(id) => {
                let mut s = owned("image ");
                push_str(&mut s, id.as_str());
                push_str(&mut s, " has an empty URL");
                s
            },
        }
    }
}

pub open spec fn catalog_error_message(e: CatalogError) -> Seq<char> {
    match e {
        CatalogError::UnsupportedSchema(v) => "unsupported manifest schema version "@ + decimal(
            v as nat,
        ),
        CatalogError::NoImages => "manifest does not contain any images"@,
        CatalogError::EmptyIdOrName => "manifest contains an image with an empty id or name"@,
        CatalogError::EmptyUrl(id) => "image "@ + id@ + " has an empty URL"@,
    }
}


/// A list of owned strings, built from literals.
fn list_of(a: &str, b: Option<&str>, c: Option<&str>, d: Option<&str>) -> (r: Vec<String>)
    requires
        c is Some ==> b is Some,
        d is Some ==> c is Some,
    ensures
        strs(r) == seq![a@] + (match b {
            Some(x) => seq![x@],
            None => Seq::empty(),
        }) + (match c {
            Some(x) => seq![x@],
            None => Seq::empty(),
        }) + (match d {
            Some(x) => seq![x@],
            None => Seq::empty(),
        }),
{
    let mut r: Vec<String> = Vec::new();
    r.push(owned(a));
    if let Some(x) = b {
        r.push(owned(x));
    }
    if let Some(x) = c {
        r.push(owned(x));
    }
    if let Some(x) = d {
        r.push(owned(x));
    }
    let ghost expect = seq![a@] + (match b {
        Some(x) => seq![x@],
        None => Seq::empty(),
    }) + (match c {
        Some(x) => seq![x@],
        None => Seq::empty(),
    }) + (match d {
        Some(x) => seq![x@],
        None => Seq::empty(),
    });
    assert(strs(r) =~= expect);
    r
}

fn device(id: &str, name: &str, compatible: Vec<String>) -> (r: DeviceEntry)
    ensures
        r@ == (DeviceView { id: id@, name: name@, compatible: strs(compatible) }),
{
    DeviceEntry { id: owned(id), name: owned(name), compatible }
}

/// The boards the installer knows without a catalog.
pub open spec fn supported_device_views() -> Seq<DeviceView> {
    seq![
        DeviceView {
            id: "sk-am62p-lp"@,
            name: "SK-AM62P-LP"@,
            compatible: seq!["ti,am62p5-sk"@, "ti,am62px-sk"@, "ti,am62pxx-evm"@],
        },
        DeviceView { id: "sk-am62-lp"@, name: "SK-AM62-LP"@, compatible: seq!["ti,am62-lp-sk"@] },
        DeviceView {
            id: "sk-am62-sip"@,
            name: "SK-AM62-SIP"@,
            compatible: seq![
                "ti,am6254atl-sk"@,
                "ti,am6254xxl-sk"@,
                "ti,am6254atl"@,
                "ti,am6254xxl"@,
            ],
        },
        DeviceView { id: "sk-am62b"@, name: "SK-AM62B"@, compatible: seq!["ti,am625-sk"@] },
        DeviceView {
            id: "beagleplay"@,
            name: "BeaglePlay"@,
            compatible: seq!["beagle,am625-beagleplay"@],
        },
        DeviceView {
            id: "sk-am62a-lp"@,
            name: "SK-AM62A-LP"@,
            compatible: seq!["ti,am62a7-sk"@, "ti,am62a7"@],
        },
        DeviceView {
            id: "tmds62levm"@,
            name: "TMDS62LEVM"@,
            compatible: seq!["ti,am62l3-evm"@, "ti,am62l3"@],
        },
        DeviceView {
            id: "sk-am64b"@,
            name: "SK-AM64B"@,
            compatible: seq!["ti,am642-sk"@, "ti,am642"@],
        },
        DeviceView {
            id: "tmds64evm"@,
            name: "TMDS64EVM"@,
            compatible: seq!["ti,am642-evm"@, "ti,am642"@],
        },
        DeviceView {
            id: "sk-am68"@,
            name: "SK-AM68"@,
            compatible: seq!["ti,am68-sk"@, "ti,j721s2"@],
        },
        DeviceView {
            id: "sk-am69"@,
            name: "SK-AM69"@,
            compatible: seq!["ti,am69-sk"@, "ti,j784s4"@],
        },
    ]
}

/// The boards the installer knows without a catalog.
pub fn supported_devices() -> (r: Vec<DeviceEntry>)
    ensures
        devices_view(r@) == supported_device_views(),
{
    let mut r: Vec<DeviceEntry> = Vec::new();
    r.push(
        device(
            "sk-am62p-lp",
            "SK-AM62P-LP",
            list_of("ti,am62p5-sk", Some("ti,am62px-sk"), Some("ti,am62pxx-evm"), None),
        ),
    );
    r.push(device("sk-am62-lp", "SK-AM62-LP", list_of("ti,am62-lp-sk", None, None, None)));
    r.push(
        device(
            "sk-am62-sip",
            "SK-AM62-SIP",
            list_of(
                "ti,am6254atl-sk",
                Some("ti,am6254xxl-sk"),
                Some("ti,am6254atl"),
                Some("ti,am6254xxl"),
            ),
        ),
    );
    r.push(device("sk-am62b", "SK-AM62B", list_of("ti,am625-sk", None, None, None)));
    r.push(device("beagleplay", "BeaglePlay", list_of("beagle,am625-beagleplay", None, None, None)));
    r.push(device("sk-am62a-lp", "SK-AM62A-LP", list_of("ti,am62a7-sk", Some("ti,am62a7"), None, None)));
    r.push(device("tmds62levm", "TMDS62LEVM", list_of("ti,am62l3-evm", Some("ti,am62l3"), None, None)));
    r.push(device("sk-am64b", "SK-AM64B", list_of("ti,am642-sk", Some("ti,am642"), None, None)));
    r.push(device("tmds64evm", "TMDS64EVM", list_of("ti,am642-evm", Some("ti,am642"), None, None)));
    r.push(device("sk-am68", "SK-AM68", list_of("ti,am68-sk", Some("ti,j721s2"), None, None)));
    r.push(device("sk-am69", "SK-AM69", list_of("ti,am69-sk", Some("ti,j784s4"), None, None)));
    assert(devices_view(r@) =~~= supported_device_views());
    r
}

/// The catalog used when the online one cannot be had: every supported
/// board and no images.
pub fn fallback_catalog() -> (r: Catalog)
    ensures
        r@.schema_version == 1,
        r@.generated_at is None,
        r@.devices == supported_device_views(),
        r@.images.len() == 0,
{
    Catalog {
        schema_version: 1,
        generated_at: None,
        devices: supported_devices(),
        images: Vec::new(),
    }
}

/// A catalog as read: a parse error is reported as invalid JSON; a parsed
/// catalog must pass validation.
pub open spec fn accepted_catalog_of(parsed: Result<Catalog, Seq<char>>) -> Result<CatalogView, Seq<char>> {
    match parsed {
        Err(e) => Err("manifest JSON is invalid: "@ + e),
        Ok(c) => match catalog_verdict(c) {
            Ok(()) => Ok(c@),
            Err(ce) => Err(catalog_error_message(ce)),
        },
    }
}

/// Accepts a catalog as read (see `accepted_catalog_of`); `parsed` is the
/// outcome of parsing the catalog's JSON text.
pub fn accept_catalog(parsed: Result<Catalog, String>) -> (r: Result<Catalog, String>)
    ensures
        match r {
            Ok(c) => accepted_catalog_of(
                match parsed {
                    Ok(p) => Ok(p),
                    Err(e) => Err(e@),
                },
            ) == Ok::<CatalogView, Seq<char>>(c@),
            Err(m) => accepted_catalog_of(
                match parsed {
                    Ok(p) => Ok(p),
                    Err(e) => Err(e@),
                },
            ) == Err::<CatalogView, Seq<char>>(m@),
        },
{
    match parsed {
        Err(e) => {
            let mut m = owned("manifest JSON is invalid: ");
            push_str(&mut m, e.as_str());
            Err(m)
        },
        Ok(c) => match validate_catalog(&c) {
            Ok(()) => Ok(c),
            Err(ce) => Err(ce.message()),
        },
    }
}

} // verus!
