use illutag_core::control::{
    next_resume_wait_step, pause_background_scan, pause_thumbnail_generation, resume_background_scan,
    resume_natural_language_scan, resume_thumbnail_generation, stop_atmosphere_generation,
    stop_background_scan, stop_thumbnail_generation, pause_natural_language_scan, ResumeWaitStep,
};
use illutag_core::progress::{
    add_scan_progress_tagged, background_scan_stop_requested, clamp_count, increment_scan_progress_failed,
    push_recent_error, push_thumbnail_progress_recent_error, set_scan_progress_phase,
    set_scan_progress_queued_images, set_thumbnail_progress_counts, set_thumbnail_progress_done,
    set_thumbnail_progress_error, set_thumbnail_progress_phase, set_thumbnail_progress_total,
    thumbnail_pause_requested, AtmosphereGenerationProgress, BackgroundScanProgress,
    NaturalLanguageScanProgress, ThumbnailGenerationProgress, RECENT_ERROR_LIMIT,
};

#[test]
fn counts_clamped_at_zero() {
    assert_eq!(clamp_count(-4), 0);
    assert_eq!(clamp_count(7), 7);
}

#[test]
fn recent_errors_keep_newest_twelve() {
    let mut errors = Vec::new();
    for i in 0..15 {
        push_recent_error(&mut errors, &format!(" error {i} "));
    }
    assert_eq!(errors.len(), RECENT_ERROR_LIMIT);
    assert_eq!(errors[0], "error 3");
    assert_eq!(errors[11], "error 14");
}

#[test]
fn recent_errors_ignore_blank() {
    let mut errors = vec!["a".to_string()];
    push_recent_error(&mut errors, "   ");
    assert_eq!(errors, vec!["a".to_string()]);
}

#[test]
fn thumbnail_progress_defaults_idle() {
    let p = ThumbnailGenerationProgress::default();
    assert!(!p.running);
    assert!(!p.paused);
    assert_eq!(p.phase, "idle");
    assert_eq!(p.processed_images, 0);
    assert!(p.recent_errors.is_empty());
}

#[test]
fn thumbnail_phase_sets_running_and_paused() {
    let mut p = ThumbnailGenerationProgress::default();
    set_thumbnail_progress_phase(&mut p, "generating");
    assert!(p.running && !p.paused);
    set_thumbnail_progress_phase(&mut p, "paused");
    assert!(p.running && p.paused);
    set_thumbnail_progress_phase(&mut p, "idle");
    assert!(!p.running && !p.paused);
}

#[test]
fn thumbnail_counts_and_total_clamped() {
    let mut p = ThumbnailGenerationProgress::default();
    set_thumbnail_progress_total(&mut p, -3);
    assert_eq!(p.total_candidates, 0);
    set_thumbnail_progress_counts(&mut p, 5, 3, -1, 2);
    assert_eq!((p.processed_images, p.generated_images, p.skipped_images, p.failed_images), (5, 3, 0, 2));
}

#[test]
fn thumbnail_errors_recorded() {
    let mut p = ThumbnailGenerationProgress::default();
    set_thumbnail_progress_error(&mut p, "boom");
    push_thumbnail_progress_recent_error(&mut p, " boom ");
    assert_eq!(p.last_error, Some("boom".to_string()));
    assert_eq!(p.recent_errors, vec!["boom".to_string()]);
    set_thumbnail_progress_phase(&mut p, "generating");
    set_thumbnail_progress_done(&mut p);
    assert_eq!(p.phase, "idle");
    assert!(!p.running);
    assert_eq!(p.last_error, Some("boom".to_string()));
}

#[test]
fn scan_progress_counters() {
    let mut p = BackgroundScanProgress::default();
    set_scan_progress_phase(&mut p, "collecting");
    set_scan_progress_queued_images(&mut p, -2);
    add_scan_progress_tagged(&mut p, 5);
    add_scan_progress_tagged(&mut p, -5);
    increment_scan_progress_failed(&mut p);
    assert!(p.running);
    assert_eq!(p.queued_images, 0);
    assert_eq!(p.tagged_images, 5);
    assert_eq!(p.failed_images, 1);
}

#[test]
fn request_flags_default_false() {
    assert!(!background_scan_stop_requested(None));
    assert!(background_scan_stop_requested(Some(true)));
    assert!(!thumbnail_pause_requested(Some(false)));
}

#[test]
fn resume_wait_steps() {
    assert!(matches!(next_resume_wait_step(true, true), ResumeWaitStep::Stop));
    assert!(matches!(next_resume_wait_step(false, true), ResumeWaitStep::StayPaused));
    assert!(matches!(next_resume_wait_step(false, false), ResumeWaitStep::Continue));
}

#[test]
fn thumbnail_pause_then_resume_restores_generating() {
    let mut pause = false;
    let mut p = ThumbnailGenerationProgress::default();
    set_thumbnail_progress_phase(&mut p, "generating");
    assert!(pause_thumbnail_generation(true, &mut pause, &mut p));
    assert!(pause && p.paused);
    assert_eq!(p.phase, "paused");
    assert!(resume_thumbnail_generation(true, &mut pause, &mut p));
    assert!(!pause && !p.paused);
    assert_eq!(p.phase, "generating");
}

#[test]
fn control_of_idle_worker_changes_nothing() {
    let mut pause = false;
    let mut p = ThumbnailGenerationProgress::default();
    assert!(!pause_thumbnail_generation(false, &mut pause, &mut p));
    assert!(!pause);
    assert_eq!(p.phase, "idle");
}

#[test]
fn stop_survives_resume() {
    let mut stop = false;
    let mut pause = true;
    let mut p = ThumbnailGenerationProgress::default();
    set_thumbnail_progress_phase(&mut p, "paused");
    assert!(stop_thumbnail_generation(true, &mut stop, &mut pause, &mut p));
    assert!(resume_thumbnail_generation(true, &mut pause, &mut p));
    assert!(stop);
    assert_eq!(p.phase, "stopping");
}

#[test]
fn atmosphere_stop_sets_stopping() {
    let mut stop = false;
    let mut pause = true;
    let mut p = AtmosphereGenerationProgress::default();
    assert!(stop_atmosphere_generation(true, &mut stop, &mut pause, &mut p));
    assert!(stop && !pause);
    assert_eq!(p.phase, "stopping");
}

#[test]
fn natural_language_pause_resume() {
    let mut pause = false;
    let mut p = NaturalLanguageScanProgress::default();
    assert!(pause_natural_language_scan(true, &mut pause, &mut p));
    assert_eq!(p.phase, "paused");
    assert!(resume_natural_language_scan(true, &mut pause, &mut p));
    assert!(!pause && !p.paused);
}

#[test]
fn background_scan_resume_phase_depends_on_queue() {
    let mut pause = false;
    let mut p = BackgroundScanProgress::default();
    assert!(pause_background_scan(true, &mut pause, &mut p));
    assert!(resume_background_scan(true, &mut pause, &mut p));
    assert_eq!(p.phase, "collecting");
    p.queued_images = 3;
    assert!(pause_background_scan(true, &mut pause, &mut p));
    assert!(resume_background_scan(true, &mut pause, &mut p));
    assert_eq!(p.phase, "tagging");
    let mut stop = false;
    assert!(stop_background_scan(true, &mut stop, &mut pause, &mut p));
    assert!(stop && !pause);
    assert_eq!(p.phase, "stopping");
}
