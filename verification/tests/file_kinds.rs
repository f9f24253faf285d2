use pnd::filetype::{entry_ext, file_category, is_image_entry, is_image_ext, is_media_ext, is_text_ext, lavf_format, lower_ext};
use pnd::pages::{decode_rgba, fit_rgba, image_kind, ImageKind};

#[test]
fn image_extensions_recognised() {
    for ext in &["jpg", "jpeg", "png", "gif", "webp", "bmp", "tiff", "tif"] {
        assert!(is_image_ext(ext), "{ext} should be an image ext");
    }
}

#[test]
fn non_image_extensions_rejected() {
    for ext in &["mp4", "txt", "pdf", "zip", "rs", "lock", ""] {
        assert!(!is_image_ext(ext), "{ext} should not be an image ext");
    }
}

#[test]
fn unsupported_ext_returns_error() {
    assert!(!is_image_ext("xyz"));
    assert!(!is_image_ext(""));
}

fn make_test_png(w: u32, h: u32) -> Vec<u8> {
    let img = image::RgbaImage::from_pixel(w, h, image::Rgba([255, 128, 0, 255]));
    let mut buf = Vec::new();
    image::DynamicImage::ImageRgba8(img)
        .write_to(&mut std::io::Cursor::new(&mut buf), image::ImageFormat::Png)
        .unwrap();
    buf
}

#[test]
fn decode_png_bytes_succeeds() {
    let png = make_test_png(4, 4);
    let (pixels, w, h) = decode_rgba(&png, "png").unwrap();
    assert_eq!(w, 4);
    assert_eq!(h, 4);
    assert_eq!(pixels.len(), 4 * 4 * 4);
    assert_eq!(&pixels[..4], &[255, 128, 0, 255]);
}

#[test]
fn large_images_are_scaled_to_fit_the_preview() {
    let png = make_test_png(2000, 10);
    let (pixels, w, h) = decode_rgba(&png, "png").unwrap();
    assert!(w <= 1920 && h <= 1080);
    assert_eq!((w, h), (1800, 9));
    assert_eq!(pixels.len(), (4 * w * h) as usize);
    let (pixels, w, h) = fit_rgba(vec![7u8; 4 * 4000 * 10], 4000, 10);
    assert_eq!((w, h), (1600, 4));
    assert_eq!(pixels.len(), 4 * 1600 * 4);
    let (pixels, w, h) = fit_rgba(vec![1u8; 4 * 10 * 2160], 10, 2160);
    assert_eq!((w, h), (5, 1080));
    assert_eq!(pixels.len(), 4 * 5 * 1080);
    let (pixels, w, h) = fit_rgba(vec![9u8; 8], 2, 1);
    assert_eq!((pixels, w, h), (vec![9u8; 8], 2, 1));
    assert_eq!(fit_rgba(vec![], 3000, 0), (vec![], 0, 0));
}

#[test]
fn corrupt_bytes_fail_to_decode() {
    let result = decode_rgba(b"not a real png", "png");
    assert!(result.is_err());
}

#[test]
fn unknown_image_extension_is_reported() {
    assert_eq!(decode_rgba(b"", "xyz"), Err("unsupported image format: xyz".to_string()));
    assert_eq!(image_kind("jpeg"), Ok(ImageKind::Jpeg));
    assert_eq!(image_kind("tif"), Ok(ImageKind::Tiff));
    assert_eq!(image_kind("PNG"), Err("unsupported image format: PNG".to_string()));
}

#[test]
fn video_extensions_recognised() {
    for ext in &["mp4", "mkv", "avi", "mov", "webm", "flv", "wmv", "m4v", "ts", "ogv"] {
        assert!(is_media_ext(ext), "{ext} should be a media ext");
    }
}

#[test]
fn audio_extensions_recognised() {
    for ext in &["mp3", "flac", "wav", "ogg", "m4a", "aac", "opus", "wma"] {
        assert!(is_media_ext(ext), "{ext} should be a media ext");
    }
}

#[test]
fn non_media_extensions_rejected() {
    for ext in &["jpg", "png", "txt", "pdf", "zip", "rs", "lock", ""] {
        assert!(!is_media_ext(ext), "{ext} should not be a media ext");
    }
}

#[test]
fn lavf_format_mappings() {
    assert_eq!(lavf_format("mkv"), "matroska");
    assert_eq!(lavf_format("ogv"), "ogg");
    assert_eq!(lavf_format("ts"), "mpegts");
    assert_eq!(lavf_format("wmv"), "asf");
    assert_eq!(lavf_format("wma"), "asf");
    assert_eq!(lavf_format("m4v"), "mp4");
    assert_eq!(lavf_format("m4a"), "mp4");
    assert_eq!(lavf_format("mp4"), "mp4");
    assert_eq!(lavf_format("mp3"), "mp3");
    assert_eq!(lavf_format("flac"), "flac");
}

#[test]
fn plain_text_formats_recognised() {
    for ext in &["txt", "md", "markdown", "log", "csv", "diff", "patch"] {
        assert!(is_text_ext(ext), "{ext} should be a text ext");
    }
}

#[test]
fn data_formats_recognised() {
    for ext in &["json", "jsonc", "json5", "yml", "yaml", "toml", "ini", "cfg", "conf", "env"] {
        assert!(is_text_ext(ext), "{ext} should be a text ext");
    }
}

#[test]
fn markup_formats_recognised() {
    for ext in &["xml", "html", "htm", "svg"] {
        assert!(is_text_ext(ext), "{ext} should be a text ext");
    }
}

#[test]
fn code_extensions_recognised() {
    for ext in &[
        "rs", "py", "js", "ts", "jsx", "tsx",
        "sh", "bash", "zsh", "fish",
        "css", "scss", "less",
        "sql", "graphql", "gql",
        "c", "cpp", "h", "hpp",
        "java", "go", "rb", "php", "swift", "kt", "lua",
    ] {
        assert!(is_text_ext(ext), "{ext} should be a text ext");
    }
}

#[test]
fn binary_and_media_extensions_rejected() {
    for ext in &["jpg", "jpeg", "png", "gif", "mp4", "mkv", "mp3",
                 "zip", "gz", "tar", "pdf", "lock", "exe", "bin", ""] {
        assert!(!is_text_ext(ext), "{ext} should not be a text ext");
    }
}

#[test]
fn categories_by_extension() {
    assert_eq!(file_category("photo.JPG"), 0);
    assert_eq!(file_category("clip.mkv"), 1);
    assert_eq!(file_category("song.flac"), 2);
    assert_eq!(file_category("report.pdf"), 3);
    assert_eq!(file_category("backup.tar"), 4);
    assert_eq!(file_category("main.rs"), 5);
    assert_eq!(file_category("README"), 6);
    assert_eq!(file_category(".bashrc"), 6);
    assert_eq!(file_category("archive.tar.gz"), 4);
}

#[test]
fn entry_extensions() {
    assert!(is_image_entry("Holiday.PNG"));
    assert!(!is_image_entry("notes.txt"));
    assert_eq!(entry_ext("Movie.MKV").into_iter().collect::<String>(), "mkv");
    assert_eq!(entry_ext("noext").into_iter().collect::<String>(), "");
    assert_eq!(lower_ext("a/b.TXT").into_iter().collect::<String>(), "txt");
}
