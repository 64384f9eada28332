use illutag_core::search::{external_search_mode, ExternalSearchMode};
use illutag_core::worker::{finish_startup_cleanup, request_startup_cleanup};
use illutag_core::model::ReferenceBoardPasteImageInput;
use illutag_core::paste::{prepare_pasted_reference_image, prepare_pasted_reference_images};
use illutag_core::paths::PathHost;
use illutag_core::unique_paths::pasted_image_path;
use std::io::Cursor;

fn png_bytes(width: u32, height: u32) -> Vec<u8> {
    let image = image::RgbaImage::new(width, height);
    let mut out = Cursor::new(Vec::new());
    image.write_to(&mut out, image::ImageFormat::Png).unwrap();
    out.into_inner()
}

fn input(bytes: Vec<u8>, mime: &str) -> ReferenceBoardPasteImageInput {
    ReferenceBoardPasteImageInput { image_bytes: bytes, mime_type: mime.to_string() }
}

#[test]
fn pasted_images_are_sized_and_named() {
    let prepared =
        prepare_pasted_reference_images(vec![input(png_bytes(3, 2), "image/png"), input(png_bytes(1, 5), "image/jpeg")])
            .unwrap();
    assert_eq!(prepared.len(), 2);
    assert_eq!((prepared[0].width, prepared[0].height, prepared[0].extension.as_str()), (3, 2, "png"));
    assert_eq!((prepared[1].width, prepared[1].height, prepared[1].extension.as_str()), (1, 5, "jpg"));
    assert_eq!(prepared[0].image_bytes, png_bytes(3, 2));
}

#[test]
fn pasting_nothing_or_bad_data_is_refused() {
    assert_eq!(prepare_pasted_reference_images(vec![]).err(), Some("No image data to paste".to_string()));
    assert_eq!(
        prepare_pasted_reference_images(vec![input(png_bytes(1, 1), "image/png"), input(vec![], "image/png")]).err(),
        Some("No image data to paste".to_string())
    );
    let error = prepare_pasted_reference_images(vec![input(vec![1, 2, 3], "image/png"), input(vec![], "image/png")])
        .err()
        .unwrap();
    assert!(error.starts_with("Failed to read pasted reference image: "));
}

#[test]
fn pasted_image_path_skips_taken_names() {
    let taken = |p: &str| p == "/c/clipboard-7-0.png";
    assert_eq!(pasted_image_path(PathHost::Unix, "/c", 7, Some(0), "png", taken), Some("/c/clipboard-7-0-1.png".to_string()));
    assert_eq!(pasted_image_path(PathHost::Windows, "C:\\c", 7, None, "jpg", |_| false), Some("C:\\c\\clipboard-7.jpg".to_string()));
}

#[test]
fn single_clipboard_paste() {
    let ok = prepare_pasted_reference_image(input(png_bytes(4, 4), "image/webp")).unwrap();
    assert_eq!((ok.width, ok.height, ok.extension.as_str()), (4, 4, "webp"));
    assert_eq!(prepare_pasted_reference_image(input(vec![], "image/png")).err(), Some("剪贴板里没有可用的图片数据".to_string()));
    assert!(prepare_pasted_reference_image(input(vec![9, 9], "image/png")).err().unwrap().starts_with("读取剪贴板图片失败："));
}

#[test]
fn external_search_mode_choice() {
    assert_eq!(external_search_mode(&Some(" Color ".to_string())), ExternalSearchMode::Color);
    assert_eq!(external_search_mode(&Some("ATMOSPHERE".to_string())), ExternalSearchMode::Atmosphere);
    assert_eq!(external_search_mode(&Some("  ".to_string())), ExternalSearchMode::Vector);
    assert_eq!(external_search_mode(&Some("clip".to_string())), ExternalSearchMode::Vector);
    assert_eq!(external_search_mode(&None), ExternalSearchMode::Vector);
}

#[test]
fn startup_cleanup_start_to_finish() {
    let mut running = false;
    let mut generation = 4;
    assert!(!request_startup_cleanup(true, &mut running));
    assert!(!running);
    assert!(request_startup_cleanup(false, &mut running));
    assert!(running);
    assert!(!request_startup_cleanup(false, &mut running));
    assert!(!finish_startup_cleanup(&mut running, &mut generation, &Err("disk gone".to_string())));
    assert!(!running);
    assert_eq!(generation, 5);
    assert!(request_startup_cleanup(false, &mut running));
    assert!(finish_startup_cleanup(&mut running, &mut generation, &Ok(2)));
    assert_eq!(generation, 6);
}
