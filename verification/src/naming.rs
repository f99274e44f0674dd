//! Deriving the final file name of a download: extension detection on the
//! suggested name, inference from the final URL's last path segment, and the
//! MIME-type fallback table; also the staging directory layout.

use vstd::prelude::*;
use vstd::string::StrSliceExecFns;
use vstd::string::StringExecFns;
use crate::strutil::{spec_find, spec_rfind, find_char, rfind_char, str_eq, lemma_rfind_last};

verus! {

/// The characters stripped around a MIME type: the Unicode white-space set
/// that `str::trim` removes.
pub open spec fn is_mime_space(c: char) -> bool {
    let v = c as u32;
    ||| (0x09 <= v && v <= 0x0D)
    ||| v == 0x20
    ||| v == 0x85
    ||| v == 0xA0
    ||| v == 0x1680
    ||| (0x2000 <= v && v <= 0x200A)
    ||| v == 0x2028
    ||| v == 0x2029
    ||| v == 0x202F
    ||| v == 0x205F
    ||| v == 0x3000
}

/// Tests one character against the white-space set `str::trim` strips.
fn is_space_char(c: char) -> (r: bool)
    ensures
        r == is_mime_space(c),
{
    let v = c as u32;
    (0x09 <= v && v <= 0x0D) || v == 0x20 || v == 0x85 || v == 0xA0 || v == 0x1680 || (0x2000 <= v
        && v <= 0x200A) || v == 0x2028 || v == 0x2029 || v == 0x202F || v == 0x205F || v == 0x3000
}

/// `s` without leading space-like characters.
pub open spec fn spec_trim_start(s: Seq<char>) -> Seq<char>
    decreases s.len(),
{
    if s.len() > 0 && is_mime_space(s[0]) {
        spec_trim_start(s.skip(1))
    } else {
        s
    }
}

/// `s` without trailing space-like characters.
pub open spec fn spec_trim_end(s: Seq<char>) -> Seq<char>
    decreases s.len(),
{
    if s.len() > 0 && is_mime_space(s.last()) {
        spec_trim_end(s.drop_last())
    } else {
        s
    }
}

/// `s` without surrounding space-like characters.
pub open spec fn spec_trim(s: Seq<char>) -> Seq<char> {
    spec_trim_end(spec_trim_start(s))
}

/// If the first `k` characters are spaces and the `k`-th is not (or is the
/// end), trimming from the start drops exactly those `k`.
proof fn lemma_trim_start_at(s: Seq<char>, k: int)
    requires
        0 <= k <= s.len(),
        forall|j: int| 0 <= j < k ==> is_mime_space(s[j]),
        k < s.len() ==> !is_mime_space(s[k]),
    ensures
        spec_trim_start(s) =~= s.skip(k),
    decreases k,
{
    if k == 0 {
    } else {
        lemma_trim_start_at(s.skip(1), k - 1);
        assert forall|j: int| 0 <= j < k - 1 implies is_mime_space(s.skip(1)[j]) by {
            assert(s.skip(1)[j] == s[j + 1]);
        }
        assert(s.skip(1).skip(k - 1) =~= s.skip(k));
    }
}

/// If everything from `m` on is a space and the character before `m` is not
/// (or `m` is the start), trimming from the end keeps exactly the first `m`.
proof fn lemma_trim_end_at(s: Seq<char>, m: int)
    requires
        0 <= m <= s.len(),
        forall|j: int| m <= j < s.len() ==> is_mime_space(s[j]),
        m > 0 ==> !is_mime_space(s[m - 1]),
    ensures
        spec_trim_end(s) =~= s.take(m),
    decreases s.len() - m,
{
    if m == s.len() {
        if s.len() == 0 || !is_mime_space(s.last()) {
            assert(s.take(m) =~= s);
        } else {
            assert(is_mime_space(s[m - 1]));
        }
    } else {
        lemma_trim_end_at(s.drop_last(), m);
        assert(s.drop_last().take(m) =~= s.take(m));
    }
}

/// The MIME type `s` names once parameters (after `';'`) and surrounding
/// spaces are removed.
pub open spec fn spec_clean_mime(s: Seq<char>) -> Seq<char> {
    spec_trim(s.take(spec_find(s, ';')))
}

/// Strips a `";charset=..."`-style parameter and surrounding spaces from a
/// content-type header value.
pub fn clean_mime(s: &str) -> (r: String)
    ensures
        r@ == spec_clean_mime(s@),
{
    let cut = find_char(s, ';');
    proof {
        crate::strutil::lemma_find_first(s@, ';');
    }
    let head = s.substring_char(0, cut);
    let ghost h = s@.take(spec_find(s@, ';'));
    proof {
        assert(head@ =~= h);
    }
    let hlen = head.unicode_len();
    let mut start: usize = 0;
    while start < hlen && is_space_char(head.get_char(start))
        invariant
            hlen == h.len(),
            head@ == h,
            0 <= start <= hlen,
            forall|j: int| 0 <= j < start ==> is_mime_space(h[j]),
        decreases hlen - start,
    {
        start += 1;
    }
    let mut end: usize = hlen;
    while end > start && is_space_char(head.get_char(end - 1))
        invariant
            hlen == h.len(),
            head@ == h,
            0 <= start <= end <= hlen,
            forall|j: int| 0 <= j < start ==> is_mime_space(h[j]),
            start < hlen ==> !is_mime_space(h[start as int]),
            forall|j: int| end <= j < hlen ==> is_mime_space(h[j]),
        decreases end,
    {
        end -= 1;
    }
    let out = head.substring_char(start, end);
    proof {
        lemma_trim_start_at(h, start as int);
        let t = h.skip(start as int);
        lemma_trim_end_at(t, end - start);
        assert forall|j: int| end - start <= j < t.len() implies is_mime_space(t[j]) by {
            assert(t[j] == h[j + start]);
        }
        if end > start {
            assert(t[end - start - 1] == h[end - 1]);
        }
        assert(out@ =~= t.take(end - start));
    }
    out.to_owned()
}

/// The extension table used when a download's content type must supply the
/// file extension.
pub open spec fn spec_mime_extension(m: Seq<char>) -> Option<Seq<char>> {
    if m == "image/jpeg"@ {
        Some("jpg"@)
    } else if m == "image/jpg"@ {
        Some("jpg"@)
    } else if m == "image/png"@ {
        Some("png"@)
    } else if m == "image/gif"@ {
        Some("gif"@)
    } else if m == "application/pdf"@ {
        Some("pdf"@)
    } else if m == "text/plain"@ {
        Some("txt"@)
    } else if m == "text/html"@ {
        Some("html"@)
    } else if m == "application/json"@ {
        Some("json"@)
    } else if m == "application/zip"@ {
        Some("zip"@)
    } else if m == "application/x-tar"@ {
        Some("tar"@)
    } else if m == "application/gzip"@ {
        Some("gz"@)
    } else if m == "application/x-bzip2"@ {
        Some("bz2"@)
    } else if m == "application/x-xz"@ {
        Some("xz"@)
    } else if m == "text/csv"@ {
        Some("csv"@)
    } else if m == "application/vnd.ms-excel"@ {
        Some("xls"@)
    } else if m == "application/vnd.openxmlformats-officedocument.spreadsheetml.sheet"@ {
        Some("xlsx"@)
    } else if m == "application/vnd.ms-powerpoint"@ {
        Some("ppt"@)
    } else if m == "application/vnd.openxmlformats-officedocument.presentationml.presentation"@ {
        Some("pptx"@)
    } else if m == "application/msword"@ {
        Some("doc"@)
    } else if m == "application/vnd.openxmlformats-officedocument.wordprocessingml.document"@ {
        Some("docx"@)
    } else {
        None
    }
}

/// What `mime_to_extension` returns for a raw content-type header value.
pub open spec fn spec_mime_to_extension(s: Seq<char>) -> Option<Seq<char>> {
    spec_mime_extension(spec_clean_mime(s))
}

/// Maps a content-type header value to a file extension, ignoring any
/// parameter after `';'` and surrounding spaces.
pub fn mime_to_extension(mime_type: &str) -> (r: Option<&'static str>)
    ensures
        match r {
            Some(e) => spec_mime_to_extension(mime_type@) == Some(e@),
            None => spec_mime_to_extension(mime_type@) is None,
        },
{
    let cleaned = clean_mime(mime_type);
    let m = cleaned.as_str();
    if str_eq(m, "image/jpeg") {
        Some("jpg")
    } else if str_eq(m, "image/jpg") {
        Some("jpg")
    } else if str_eq(m, "image/png") {
        Some("png")
    } else if str_eq(m, "image/gif") {
        Some("gif")
    } else if str_eq(m, "application/pdf") {
        Some("pdf")
    } else if str_eq(m, "text/plain") {
        Some("txt")
    } else if str_eq(m, "text/html") {
        Some("html")
    } else if str_eq(m, "application/json") {
        Some("json")
    } else if str_eq(m, "application/zip") {
        Some("zip")
    } else if str_eq(m, "application/x-tar") {
        Some("tar")
    } else if str_eq(m, "application/gzip") {
        Some("gz")
    } else if str_eq(m, "application/x-bzip2") {
        Some("bz2")
    } else if str_eq(m, "application/x-xz") {
        Some("xz")
    } else if str_eq(m, "text/csv") {
        Some("csv")
    } else if str_eq(m, "application/vnd.ms-excel") {
        Some("xls")
    } else if str_eq(m, "application/vnd.openxmlformats-officedocument.spreadsheetml.sheet") {
        Some("xlsx")
    } else if str_eq(m, "application/vnd.ms-powerpoint") {
        Some("ppt")
    } else if str_eq(m, "application/vnd.openxmlformats-officedocument.presentationml.presentation") {
        Some("pptx")
    } else if str_eq(m, "application/msword") {
        Some("doc")
    } else if str_eq(m, "application/vnd.openxmlformats-officedocument.wordprocessingml.document") {
        Some("docx")
    } else {
        None
    }
}

/// The extension of a file name: what follows the last `'.'`, provided that
/// dot is neither the first character (a hidden file has no extension) nor
/// the last (a trailing dot yields none).
pub open spec fn spec_extension(name: Seq<char>) -> Option<Seq<char>> {
    match spec_rfind(name, '.') {
        None => None,
        Some(p) => if p > 0 && p + 1 < name.len() {
            Some(name.subrange(p + 1, name.len() as int))
        } else {
            None
        },
    }
}

/// The extension of `s`, if it has one.
pub fn str_extension<'a>(s: &'a str) -> (r: Option<&'a str>)
    ensures
        match r {
            Some(e) => spec_extension(s@) == Some(e@),
            None => spec_extension(s@) is None,
        },
{
    let len = s.unicode_len();
    match rfind_char(s, '.') {
        None => None,
        Some(p) => {
            proof {
                lemma_rfind_last(s@, '.');
            }
            if p > 0 && p + 1 < len {
                Some(s.substring_char(p + 1, len))
            } else {
                None
            }
        },
    }
}

/// The part of `path` after its last `'/'` (all of it if there is none).
pub open spec fn spec_last_segment(path: Seq<char>) -> Seq<char> {
    match spec_rfind(path, '/') {
        None => path,
        Some(p) => path.subrange(p + 1, path.len() as int),
    }
}

/// The last `'/'`-separated segment of a URL path.
pub fn last_segment<'a>(path: &'a str) -> (r: &'a str)
    ensures
        r@ == spec_last_segment(path@),
{
    let len = path.unicode_len();
    match rfind_char(path, '/') {
        None => path,
        Some(p) => {
            proof {
                lemma_rfind_last(path@, '/');
            }
            path.substring_char(p + 1, len)
        },
    }
}

/// The extension a download file should get when its suggested name lacks
/// one: the extension of the URL's last path segment, else the content-type
/// table's answer.
pub open spec fn spec_inferred_extension(url_path: Seq<char>, content_type: Seq<char>) -> Option<
    Seq<char>,
> {
    match spec_extension(spec_last_segment(url_path)) {
        Some(e) => Some(e),
        None => spec_mime_to_extension(content_type),
    }
}

/// What `derive_file_name` returns.
pub open spec fn spec_derive_file_name(
    suggested: Seq<char>,
    url_path: Seq<char>,
    content_type: Seq<char>,
) -> Seq<char> {
    if spec_extension(suggested) is Some {
        suggested
    } else {
        match spec_inferred_extension(url_path, content_type) {
            Some(e) => suggested + seq!['.'] + e,
            None => suggested,
        }
    }
}

/// The final name of a downloaded file: the caller's suggestion, given an
/// extension when it lacks one — first from the final URL's last path
/// segment, then from the response's content type, and left bare when
/// neither yields an extension.
pub fn derive_file_name(suggested: &str, url_path: &str, content_type: &str) -> (r: String)
    ensures
        r@ == spec_derive_file_name(suggested@, url_path@, content_type@),
{
    if str_extension(suggested).is_some() {
        return suggested.to_owned();
    }
    let seg = last_segment(url_path);
    let ext: Option<&str> = match str_extension(seg) {
        Some(e) => Some(e),
        None => mime_to_extension(content_type),
    };
    match ext {
        Some(e) => {
            let mut out = suggested.to_owned();
            out.append(".");
            out.append(e);
            proof {
                reveal_strlit(".");
                assert(out@ =~= spec_derive_file_name(suggested@, url_path@, content_type@));
            }
            out
        },
        None => suggested.to_owned(),
    }
}

/// Where a download for `key` is staged: `downloads/<key>` under the working
/// directory, or under the caller's save path when none is set.
pub open spec fn spec_staging_dir(cwd: Seq<char>, save_path: Seq<char>, key: Seq<char>) -> Seq<
    char,
> {
    (if cwd.len() == 0 {
        save_path
    } else {
        cwd
    }) + "/downloads/"@ + key
}

/// Builds the staging directory path for one download key.
pub fn staging_dir(cwd: &str, save_path: &str, key: &str) -> (r: String)
    ensures
        r@ == spec_staging_dir(cwd@, save_path@, key@),
{
    let mut out = if cwd.unicode_len() == 0 {
        save_path.to_owned()
    } else {
        cwd.to_owned()
    };
    out.append("/downloads/");
    out.append(key);
    out
}

} // verus!
