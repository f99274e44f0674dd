use mod_installer::session::SessionCounter;
use mod_installer::wallpaper_store::{
    build_wallpaper_data_url, eq_ignore_ascii_case, init_wallpaper, mime_for_extension,
    WallpaperStore,
};

#[test]
fn case_insensitive_comparison() {
    assert!(eq_ignore_ascii_case("PNG", "png"));
    assert!(eq_ignore_ascii_case("JpEg", "jpeg"));
    assert!(!eq_ignore_ascii_case("png", "jpg"));
    assert!(!eq_ignore_ascii_case("png", "pngs"));
}

#[test]
fn mime_from_extension() {
    assert_eq!(mime_for_extension("png"), "image/png");
    assert_eq!(mime_for_extension("PNG"), "image/png");
    assert_eq!(mime_for_extension("gif"), "image/gif");
    assert_eq!(mime_for_extension("bmp"), "image/bmp");
    assert_eq!(mime_for_extension("webp"), "image/webp");
    assert_eq!(mime_for_extension("jpg"), "image/jpeg");
    assert_eq!(mime_for_extension("jpeg"), "image/jpeg");
    // Anything unrecognized is presumed JPEG.
    assert_eq!(mime_for_extension("tiff"), "image/jpeg");
}

#[test]
fn data_url_encodes_the_bytes() {
    let bytes = b"hello".to_vec();
    // A data URL whose payload really is the base64 of the input.
    assert_eq!(build_wallpaper_data_url(&bytes, "png"), "data:image/png;base64,aGVsbG8=");
}

#[test]
fn data_url_of_empty_image() {
    let bytes: Vec<u8> = Vec::new();
    assert_eq!(build_wallpaper_data_url(&bytes, "jpg"), "data:image/jpeg;base64,");
}

#[test]
fn store_starts_empty_and_caches_after_init() {
    let mut store = WallpaperStore::new();
    assert!(store.cached().is_none());
    let bytes = b"img".to_vec();
    init_wallpaper(&mut store, "gif", &bytes);
    let url = store.cached().expect("initialized store holds a data URL");
    assert_eq!(url, "data:image/gif;base64,aW1n");
}

#[test]
fn session_counter_increments_on_refresh() {
    let mut s = SessionCounter::new();
    assert_eq!(s.get_session_id(), 0);
    assert_eq!(s.refresh(), 1);
    assert_eq!(s.refresh(), 2);
    assert_eq!(s.get_session_id(), 2);
}
