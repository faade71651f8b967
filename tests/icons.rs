use focuslock::icon::{
    data_url, display_icon_path, icon_candidates, icon_from_ico, icon_source, icon_url_of_decoding,
    png_url_of_encoding, IconSource,
};

#[test]
fn display_icon_keeps_path_before_comma() {
    assert_eq!(display_icon_path("\"C:\\Apps\\app.exe\",0"), "C:\\Apps\\app.exe");
    assert_eq!(display_icon_path("C:\\Apps\\app.exe"), "C:\\Apps\\app.exe");
    assert_eq!(display_icon_path("C:\\a.exe,1,2"), "C:\\a.exe");
    assert_eq!(display_icon_path("\"\""), "");
    assert_eq!(display_icon_path(""), "");
}

#[test]
fn data_url_encodes_base64() {
    assert_eq!(data_url("image/png", &vec![1, 2, 3]), "data:image/png;base64,AQID");
    assert_eq!(data_url("image/x-icon", &b"hi".to_vec()), "data:image/x-icon;base64,aGk=");
    assert_eq!(data_url("text/plain", &vec![]), "data:text/plain;base64,");
}

#[test]
fn undecodable_icon_is_passed_through() {
    let bytes = vec![0u8, 1, 2, 3, 4, 5];
    assert_eq!(icon_from_ico(&bytes), Ok("data:image/x-icon;base64,AAECAwQF".to_string()));
}

#[test]
fn decodable_icon_becomes_png() {
    // A 1x1 RGBA PNG.
    let png: Vec<u8> = vec![
        0x89, 0x50, 0x4E, 0x47, 0x0D, 0x0A, 0x1A, 0x0A, 0x00, 0x00, 0x00, 0x0D, 0x49, 0x48, 0x44,
        0x52, 0x00, 0x00, 0x00, 0x01, 0x00, 0x00, 0x00, 0x01, 0x08, 0x06, 0x00, 0x00, 0x00, 0x1F,
        0x15, 0xC4, 0x89, 0x00, 0x00, 0x00, 0x0D, 0x49, 0x44, 0x41, 0x54, 0x78, 0x9C, 0x63, 0xF8,
        0xCF, 0xC0, 0xF0, 0x1F, 0x00, 0x05, 0x00, 0x01, 0xFF, 0x89, 0x99, 0x3D, 0x1D, 0x00, 0x00,
        0x00, 0x00, 0x49, 0x45, 0x4E, 0x44, 0xAE, 0x42, 0x60, 0x82,
    ];
    let url = icon_from_ico(&png).expect("encodes");
    // Signature and an IHDR chunk for a 32x32 image, base64-encoded.
    assert!(url.starts_with("data:image/png;base64,iVBORw0KGgoAAAANSUhEUgAAACAAAAAg"));
    assert_ne!(url, data_url("image/png", &png));
}

#[test]
fn candidates_in_order() {
    let c = icon_candidates("firefox", "/home/u");
    assert_eq!(c.len(), 51);
    assert_eq!(c[0], "/usr/share/icons/hicolor/48x48/apps/firefox.png");
    assert_eq!(c[1], "/home/u/.local/share/icons/hicolor/48x48/apps/firefox.png");
    assert_eq!(c[2], "/usr/share/icons/gnome/48x48/apps/firefox.png");
    assert_eq!(c[3], "/usr/share/icons/hicolor/48x48/apps/firefox.svg");
    assert_eq!(c[9], "/usr/share/icons/hicolor/64x64/apps/firefox.png");
    assert_eq!(c[44], "/usr/share/icons/gnome/32x32/apps/firefox.xpm");
    assert_eq!(c[45], "/usr/share/pixmaps/firefox.png");
    assert_eq!(c[46], "/home/u/.local/share/pixmaps/firefox.png");
    assert_eq!(c[50], "/home/u/.local/share/pixmaps/firefox.xpm");
}

#[test]
fn absolute_hint_is_the_file() {
    match icon_source("/opt/app/icon.png", "/root") {
        IconSource::File(p) => assert_eq!(p, "/opt/app/icon.png"),
        IconSource::Search(_) => panic!("expected a file"),
    }
    match icon_source("gimp", "/root") {
        IconSource::Search(places) => {
            assert_eq!(places.len(), 51);
            assert_eq!(places[45], "/usr/share/pixmaps/gimp.png");
        }
        IconSource::File(_) => panic!("expected a search"),
    }
}

#[test]
fn encoding_outcome_gives_url_or_failure() {
    let ok: Result<Vec<u8>, image::ImageError> = Ok(vec![1, 2, 3]);
    assert_eq!(png_url_of_encoding(&ok), Ok("data:image/png;base64,AQID".to_string()));
    let failed: Result<Vec<u8>, image::ImageError> =
        Err(image::ImageError::IoError(std::io::Error::other("disk full")));
    let reply = png_url_of_encoding(&failed);
    assert_eq!(reply, Err("Failed to encode PNG: disk full".to_string()));
}

#[test]
fn failed_decoding_passes_bytes_through() {
    let ico = vec![0u8, 1, 2];
    let failed: Result<image::DynamicImage, image::ImageError> =
        Err(image::ImageError::IoError(std::io::Error::other("unknown format")));
    assert_eq!(icon_url_of_decoding(&ico, &failed), Ok("data:image/x-icon;base64,AAEC".to_string()));
    let decoded: Result<image::DynamicImage, image::ImageError> =
        Ok(image::DynamicImage::new_rgba8(3, 5));
    let url = icon_url_of_decoding(&ico, &decoded).expect("encodes");
    assert!(url.starts_with("data:image/png;base64,iVBORw0KGgoAAAANSUhEUgAAACAAAAAg"));
}
