use illutag_core::control::{
    pause_atmosphere_generation, pause_color_signature_generation, resume_atmosphere_generation,
    resume_color_signature_generation, stop_color_signature_generation, stop_natural_language_scan,
};
use illutag_core::progress::{
    atmosphere_pause_requested, atmosphere_stop_requested, background_scan_pause_requested,
    color_signature_pause_requested, color_signature_stop_requested, natural_language_scan_pause_requested,
    natural_language_scan_stop_requested, push_atmosphere_progress_recent_error,
    push_color_signature_progress_recent_error, push_natural_language_scan_recent_error,
    push_scan_progress_recent_error, set_atmosphere_progress, set_atmosphere_progress_counts,
    set_atmosphere_progress_done, set_atmosphere_progress_error, set_atmosphere_progress_phase,
    set_atmosphere_progress_total, set_color_signature_progress, set_color_signature_progress_counts,
    set_color_signature_progress_done, set_color_signature_progress_error, set_color_signature_progress_phase,
    set_color_signature_progress_total, set_natural_language_scan_progress,
    set_natural_language_scan_progress_counts, set_natural_language_scan_progress_done,
    set_natural_language_scan_progress_error, set_natural_language_scan_progress_phase,
    set_natural_language_scan_progress_total, set_scan_progress, set_scan_progress_current_folder,
    set_scan_progress_done, set_scan_progress_error, set_scan_progress_new_images,
    set_scan_progress_removed_missing_images, set_scan_progress_scanned_files, set_scan_progress_scanned_folders,
    set_scan_progress_skipped_images, set_scan_progress_total_folders, set_scan_progress_updated_images,
    set_thumbnail_progress, thumbnail_stop_requested, update_atmosphere_progress, update_color_signature_progress,
    update_natural_language_scan_progress, AtmosphereGenerationProgress, BackgroundScanProgress,
    ColorSignatureGenerationProgress, NaturalLanguageScanProgress, ThumbnailGenerationProgress,
};

#[test]
fn atmosphere_progress_lifecycle() {
    let mut p = AtmosphereGenerationProgress::default();
    set_atmosphere_progress_phase(&mut p, "generating");
    assert!(p.running && !p.paused);
    set_atmosphere_progress_total(&mut p, -3);
    assert_eq!(p.total_candidates, 0);
    set_atmosphere_progress_counts(&mut p, 5, 3, 1, -1);
    assert_eq!((p.processed_images, p.generated_images, p.skipped_images, p.failed_images), (5, 3, 1, 0));
    set_atmosphere_progress_error(&mut p, "bad file");
    assert_eq!(p.last_error.as_deref(), Some("bad file"));
    push_atmosphere_progress_recent_error(&mut p, "  ");
    assert!(p.recent_errors.is_empty());
    push_atmosphere_progress_recent_error(&mut p, " decode failed ");
    assert_eq!(p.recent_errors, vec!["decode failed".to_string()]);
    set_atmosphere_progress_done(&mut p);
    assert!(!p.running && !p.paused);
    assert_eq!(p.phase, "idle");
    assert_eq!(p.processed_images, 5);
    update_atmosphere_progress(&mut p, |mut q| {
        q.failed_images = 9;
        q
    });
    assert_eq!(p.failed_images, 9);
    let mut fresh = AtmosphereGenerationProgress::default();
    fresh.total_candidates = 11;
    set_atmosphere_progress(&mut p, fresh);
    assert_eq!(p.total_candidates, 11);
    assert_eq!(p.failed_images, 0);
}

#[test]
fn atmosphere_pause_and_resume() {
    let mut p = AtmosphereGenerationProgress::default();
    let mut pause = false;
    assert!(!pause_atmosphere_generation(false, &mut pause, &mut p));
    assert!(!pause && p.phase == "idle");
    set_atmosphere_progress_phase(&mut p, "generating");
    assert!(pause_atmosphere_generation(true, &mut pause, &mut p));
    assert!(pause && p.paused && p.phase == "paused");
    assert!(resume_atmosphere_generation(true, &mut pause, &mut p));
    assert!(!pause && !p.paused && p.phase == "generating");
}

#[test]
fn color_signature_progress_lifecycle() {
    let mut p = ColorSignatureGenerationProgress::default();
    set_color_signature_progress_phase(&mut p, "paused");
    assert!(p.running && p.paused);
    set_color_signature_progress_total(&mut p, 8);
    set_color_signature_progress_counts(&mut p, 2, 1, 1, 0);
    assert_eq!((p.total_candidates, p.processed_images), (8, 2));
    set_color_signature_progress_error(&mut p, "x");
    push_color_signature_progress_recent_error(&mut p, "y");
    assert_eq!(p.last_error.as_deref(), Some("x"));
    assert_eq!(p.recent_errors, vec!["y".to_string()]);
    update_color_signature_progress(&mut p, |mut q| {
        q.skipped_images = 4;
        q
    });
    assert_eq!(p.skipped_images, 4);
    set_color_signature_progress_done(&mut p);
    assert!(!p.running && p.phase == "idle");
    set_color_signature_progress(&mut p, ColorSignatureGenerationProgress::default());
    assert_eq!(p.skipped_images, 0);
}

#[test]
fn color_signature_control() {
    let mut p = ColorSignatureGenerationProgress::default();
    let (mut stop, mut pause) = (false, false);
    set_color_signature_progress_phase(&mut p, "generating");
    assert!(pause_color_signature_generation(true, &mut pause, &mut p));
    assert!(stop_color_signature_generation(true, &mut stop, &mut pause, &mut p));
    assert!(stop && !pause && !p.paused && p.phase == "stopping");
    assert!(resume_color_signature_generation(true, &mut pause, &mut p));
    assert!(stop && p.phase == "stopping");
    assert!(!stop_color_signature_generation(false, &mut stop, &mut pause, &mut p));
}

#[test]
fn natural_language_scan_progress_lifecycle() {
    let mut p = NaturalLanguageScanProgress::default();
    set_natural_language_scan_progress_phase(&mut p, "generating");
    set_natural_language_scan_progress_total(&mut p, 20);
    set_natural_language_scan_progress_counts(&mut p, 4, 3, 1, 0);
    assert_eq!((p.total_images, p.processed_images, p.generated_images), (20, 4, 3));
    set_natural_language_scan_progress_error(&mut p, "model missing");
    push_natural_language_scan_recent_error(&mut p, "model missing");
    assert_eq!(p.recent_errors.len(), 1);
    update_natural_language_scan_progress(&mut p, |mut q| {
        q.processed_images = 5;
        q
    });
    assert_eq!(p.processed_images, 5);
    let (mut stop, mut pause) = (false, true);
    assert!(stop_natural_language_scan(true, &mut stop, &mut pause, &mut p));
    assert!(stop && !pause && p.phase == "stopping");
    set_natural_language_scan_progress_done(&mut p);
    assert!(!p.running && p.phase == "idle");
    set_natural_language_scan_progress(&mut p, NaturalLanguageScanProgress::default());
    assert_eq!(p.total_images, 0);
}

#[test]
fn background_scan_progress_fields() {
    let mut p = BackgroundScanProgress::default();
    set_scan_progress_total_folders(&mut p, 3);
    set_scan_progress_scanned_folders(&mut p, 1);
    set_scan_progress_scanned_files(&mut p, 250);
    set_scan_progress_current_folder(&mut p, "D:\\pics");
    set_scan_progress_new_images(&mut p, 10);
    set_scan_progress_updated_images(&mut p, 2);
    set_scan_progress_skipped_images(&mut p, -1);
    set_scan_progress_removed_missing_images(&mut p, 4);
    assert_eq!(
        (p.total_folders, p.scanned_folders, p.scanned_files, p.new_images, p.updated_images, p.skipped_images, p.removed_missing_images),
        (3, 1, 250, 10, 2, 0, 4)
    );
    assert_eq!(p.current_folder, "D:\\pics");
    set_scan_progress_error(&mut p, "walk failed");
    push_scan_progress_recent_error(&mut p, "walk failed");
    assert_eq!(p.last_error.as_deref(), Some("walk failed"));
    assert_eq!(p.recent_errors, vec!["walk failed".to_string()]);
    set_scan_progress_done(&mut p);
    assert!(!p.running && !p.paused && p.phase == "idle");
    assert_eq!(p.new_images, 10);
    set_scan_progress(&mut p, BackgroundScanProgress::default());
    assert_eq!(p.new_images, 0);
}

#[test]
fn requests_read_under_lock() {
    assert!(thumbnail_stop_requested(Some(true)));
    assert!(!thumbnail_stop_requested(None));
    assert!(atmosphere_stop_requested(Some(true)) && !atmosphere_stop_requested(Some(false)));
    assert!(atmosphere_pause_requested(Some(true)) && !atmosphere_pause_requested(None));
    assert!(color_signature_stop_requested(Some(true)) && !color_signature_stop_requested(None));
    assert!(color_signature_pause_requested(Some(true)) && !color_signature_pause_requested(Some(false)));
    assert!(natural_language_scan_stop_requested(Some(true)) && !natural_language_scan_stop_requested(None));
    assert!(natural_language_scan_pause_requested(Some(true)) && !natural_language_scan_pause_requested(None));
    assert!(background_scan_pause_requested(Some(true)) && !background_scan_pause_requested(None));
}

#[test]
fn thumbnail_progress_replaced_whole() {
    let mut p = ThumbnailGenerationProgress::default();
    p.failed_images = 3;
    let mut next = ThumbnailGenerationProgress::default();
    next.total_candidates = 2;
    set_thumbnail_progress(&mut p, next);
    assert_eq!((p.total_candidates, p.failed_images), (2, 0));
}
