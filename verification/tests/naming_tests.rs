use mod_installer::naming::{
    clean_mime, derive_file_name, last_segment, mime_to_extension, staging_dir, str_extension,
};
use mod_installer::strutil::{find_char, rfind_char, starts_with_str, str_eq};

#[test]
fn string_helpers() {
    assert!(str_eq("abc", "abc"));
    assert!(!str_eq("abc", "abd"));
    assert!(!str_eq("abc", "abcd"));
    assert!(starts_with_str("preview.png", "preview."));
    assert!(!starts_with_str("review.png", "preview."));
    assert!(!starts_with_str("pre", "preview."));
    assert_eq!(find_char("a;b;c", ';'), 1);
    assert_eq!(find_char("abc", ';'), 3);
    assert_eq!(rfind_char("a.b.c", '.'), Some(3));
    assert_eq!(rfind_char("abc", '.'), None);
}

#[test]
fn mime_cleaning() {
    assert_eq!(clean_mime("text/html; charset=utf-8"), "text/html");
    assert_eq!(clean_mime("  application/zip  "), "application/zip");
    assert_eq!(clean_mime("application/json"), "application/json");
    // The full white-space set that str::trim strips is removed.
    assert_eq!(clean_mime("\u{A0}\ttext/plain\r\n"), "text/plain");
    assert_eq!(clean_mime(""), "");
}

#[test]
fn mime_table_lookups() {
    assert_eq!(mime_to_extension("application/zip"), Some("zip"));
    assert_eq!(mime_to_extension("image/png"), Some("png"));
    assert_eq!(mime_to_extension("text/html; charset=utf-8"), Some("html"));
    assert_eq!(mime_to_extension("application/x-tar"), Some("tar"));
    assert_eq!(mime_to_extension("application/gzip"), Some("gz"));
    assert_eq!(mime_to_extension("application/octet-stream"), None);
    assert_eq!(mime_to_extension(""), None);
}

#[test]
fn extensions_of_names() {
    assert_eq!(str_extension("mod.zip"), Some("zip"));
    assert_eq!(str_extension("archive.tar.gz"), Some("gz"));
    assert_eq!(str_extension("noext"), None);
    assert_eq!(str_extension(".hidden"), None);
    assert_eq!(str_extension("trailing."), None);
}

#[test]
fn last_url_segment() {
    assert_eq!(last_segment("/files/packs/mod.zip"), "mod.zip");
    assert_eq!(last_segment("mod.zip"), "mod.zip");
    assert_eq!(last_segment("/files/"), "");
}

#[test]
fn file_name_with_existing_extension_is_kept() {
    assert_eq!(derive_file_name("mod.rar", "/dl/other.zip", "application/zip"), "mod.rar");
}

#[test]
fn file_name_takes_url_extension_first() {
    assert_eq!(derive_file_name("mod", "/dl/pack.zip", "text/plain"), "mod.zip");
}

#[test]
fn file_name_falls_back_to_content_type() {
    assert_eq!(derive_file_name("mod", "/dl/pack", "application/zip"), "mod.zip");
    assert_eq!(derive_file_name("mod", "/dl/pack", "application/zip; charset=binary"), "mod.zip");
}

#[test]
fn file_name_left_bare_when_nothing_matches() {
    assert_eq!(derive_file_name("mod", "/dl/pack", "application/octet-stream"), "mod");
}

#[test]
fn staging_directory_layout() {
    assert_eq!(staging_dir("/work", "/save", "key-1"), "/work/downloads/key-1");
    // Without a recorded working directory the caller's save path is used.
    assert_eq!(staging_dir("", "/save", "key-1"), "/save/downloads/key-1");
}
