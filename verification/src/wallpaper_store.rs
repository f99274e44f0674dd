//! Building and caching the desktop-wallpaper data URL handed to the GUI:
//! the MIME type is chosen from the image file's extension, the image bytes
//! are base64-encoded, and the resulting `data:` URL is kept in a store so
//! repeated queries need no further filesystem work.

use vstd::prelude::*;
use vstd::string::StringExecFns;

verus! {

/// The lowercased code point of an ASCII letter; other characters unchanged.
pub open spec fn spec_lower_code(c: char) -> u32 {
    let v = c as u32;
    if 65 <= v <= 90 {
        (v + 32) as u32
    } else {
        v
    }
}

/// Equality up to ASCII case.
pub open spec fn spec_eq_icase(a: Seq<char>, b: Seq<char>) -> bool {
    a.len() == b.len() && forall|i: int|
        0 <= i < a.len() ==> spec_lower_code(a[i]) == spec_lower_code(b[i])
}

/// Compares two strings ignoring ASCII case.
pub fn eq_ignore_ascii_case(a: &str, b: &str) -> (r: bool)
    ensures
        r == spec_eq_icase(a@, b@),
{
    let alen = a.unicode_len();
    let blen = b.unicode_len();
    if alen != blen {
        return false;
    }
    let mut i: usize = 0;
    while i < alen
        invariant
            alen == a@.len() == b@.len(),
            0 <= i <= alen,
            forall|j: int| 0 <= j < i ==> spec_lower_code(a@[j]) == spec_lower_code(b@[j]),
        decreases alen - i,
    {
        let ca = a.get_char(i) as u32;
        let cb = b.get_char(i) as u32;
        let la = if 65 <= ca && ca <= 90 {
            ca + 32
        } else {
            ca
        };
        let lb = if 65 <= cb && cb <= 90 {
            cb + 32
        } else {
            cb
        };
        if la != lb {
            return false;
        }
        i += 1;
    }
    true
}

/// The MIME type presumed for a wallpaper image file extension; JPEG is the
/// default for anything unrecognized.
pub open spec fn spec_mime_for_extension(ext: Seq<char>) -> Seq<char> {
    if spec_eq_icase(ext, "png"@) {
        "image/png"@
    } else if spec_eq_icase(ext, "gif"@) {
        "image/gif"@
    } else if spec_eq_icase(ext, "bmp"@) {
        "image/bmp"@
    } else if spec_eq_icase(ext, "webp"@) {
        "image/webp"@
    } else {
        "image/jpeg"@
    }
}

/// Picks the MIME type for a wallpaper file's extension, case-insensitively.
pub fn mime_for_extension(ext: &str) -> (r: &'static str)
    ensures
        r@ == spec_mime_for_extension(ext@),
{
    if eq_ignore_ascii_case(ext, "png") {
        "image/png"
    } else if eq_ignore_ascii_case(ext, "gif") {
        "image/gif"
    } else if eq_ignore_ascii_case(ext, "bmp") {
        "image/bmp"
    } else if eq_ignore_ascii_case(ext, "webp") {
        "image/webp"
    } else {
        "image/jpeg"
    }
}

/// The base64 text (standard alphabet, padded) for a byte sequence.
pub uninterp spec fn base64_of(bytes: Seq<u8>) -> Seq<char>;

/// Relies on base64's `Engine::encode` with the `STANDARD` engine: the
/// encoding depends on the input bytes alone, and the padded output holds
/// four characters for every three input bytes, rounded up. `encode` panics
/// when that output length overflows `usize`, so inputs near the top quarter
/// of `usize` are excluded.
#[verifier::external_body]
fn base64_encode(bytes: &Vec<u8>) -> (r: String)
    requires
        bytes@.len() <= usize::MAX as nat / 4 * 3,
    ensures
        r@ == base64_of(bytes@),
        r@.len() == ((bytes@.len() + 2) / 3) * 4,
{
    base64::Engine::encode(&base64::engine::general_purpose::STANDARD, bytes)
}

/// The `data:` URL presenting an image inline.
pub open spec fn spec_data_url(mime: Seq<char>, b64: Seq<char>) -> Seq<char> {
    "data:"@ + mime + ";base64,"@ + b64
}

/// Builds the wallpaper's `data:` URL from the raw image bytes and the image
/// file's extension.
pub fn build_wallpaper_data_url(image_bytes: &Vec<u8>, extension: &str) -> (r: String)
    requires
        image_bytes@.len() <= usize::MAX as nat / 4 * 3,
    ensures
        r@ == spec_data_url(spec_mime_for_extension(extension@), base64_of(image_bytes@)),
{
    let b64 = base64_encode(image_bytes);
    let mime = mime_for_extension(extension);
    let mut s = String::new();
    s.append("data:");
    s.append(mime);
    s.append(";base64,");
    s.append(b64.as_str());
    s
}

/// Process-wide cache of the wallpaper data URL; empty until first loaded.
pub struct WallpaperStore {
    cached: String,
}

impl WallpaperStore {
    /// The cached data URL's text (empty when nothing is cached).
    pub closed spec fn cached_view(self) -> Seq<char> {
        self.cached@
    }

    /// An empty cache.
    pub fn new() -> (r: WallpaperStore)
        ensures
            r.cached_view() == Seq::<char>::empty(),
    {
        WallpaperStore { cached: String::new() }
    }

    /// The cached data URL, or `None` when the wallpaper has not been loaded
    /// yet and the caller must read the image and call `init_wallpaper`.
    pub fn cached(&self) -> (r: Option<String>)
        ensures
            match r {
                Some(s) => s@ == self.cached_view() && self.cached_view().len() > 0,
                None => self.cached_view().len() == 0,
            },
    {
        if self.cached.as_str().is_empty() {
            None
        } else {
            Some(self.cached.clone())
        }
    }
}

/// Loads the wallpaper cache from the image the driver read at startup (or
/// on a refresh): the store afterwards holds the image's `data:` URL.
pub fn init_wallpaper(store: &mut WallpaperStore, extension: &str, image_bytes: &Vec<u8>)
    requires
        image_bytes@.len() <= usize::MAX as nat / 4 * 3,
    ensures
        final(store).cached_view() == spec_data_url(
            spec_mime_for_extension(extension@),
            base64_of(image_bytes@),
        ),
{
    let url = build_wallpaper_data_url(image_bytes, extension);
    store.cached = url;
}

} // verus!
