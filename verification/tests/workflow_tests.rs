use illutag_core::known_paths::{classify_scanned_image, scan_batch_full, scan_progress_tick, KnownPaths, ScanOutcome};
use illutag_core::services::{
    idle_release_confirmed, idle_watcher_check, request_idle_watcher_start, startup_cleanup_batch_limit,
    startup_cleanup_removes, IdleCheck, CLIP_IMAGE_SERVICE_IDLE_RELEASE_MS,
};
use illutag_core::tagging::{TaggingPipeline, TAG_SAVE_BATCH_SIZE};
use illutag_core::thumbnails::{
    finish_thumbnail_pass, show_thumbnail_tally, stale_thumbnail_to_remove, thumbnail_worker_slot, ThumbnailTally,
};
use illutag_core::progress::{set_thumbnail_progress_phase, ThumbnailGenerationProgress};
use illutag_core::window_state::{
    move_window_state_to_visible_monitor, prepare_window_restore, window_state_intersects_available_monitor,
    MonitorRect, WindowMemoryState,
};
use illutag_core::worker::{
    finish_startup_cleanup, finish_worker, next_background_scan_job, next_migration_wait_step, request_startup_cleanup,
    request_worker_start, scan_job_collects, scan_job_start_phase, scan_job_tags_images, should_resume_library_scan,
    sorted_unique_ids, take_rerun, BackgroundScanJobMode, BackgroundTasks, MigrationWaitStep, WorkerFlags,
};

fn idle() -> WorkerFlags {
    WorkerFlags { running: false, pending: false, pause_requested: false, stop_requested: false }
}

fn strings(v: &[&str]) -> Vec<String> {
    v.iter().map(|s| s.to_string()).collect()
}

#[test]
fn worker_start_clears_requests() {
    let mut f = WorkerFlags { running: false, pending: true, pause_requested: true, stop_requested: true };
    assert!(request_worker_start(&mut f));
    assert!(f.running && !f.pending && !f.pause_requested && !f.stop_requested);
}

#[test]
fn requests_while_running_coalesce_into_one_rerun() {
    let mut f = idle();
    assert!(request_worker_start(&mut f));
    assert!(!request_worker_start(&mut f));
    assert!(!request_worker_start(&mut f));
    assert!(f.pending);
    assert!(take_rerun(&mut f, true));
    assert!(!take_rerun(&mut f, true));
    finish_worker(&mut f);
    assert!(!f.running && !f.pending);
    assert!(request_worker_start(&mut f));
}

#[test]
fn stop_request_cancels_rerun_of_scans_only() {
    let mut f = WorkerFlags { running: true, pending: true, pause_requested: false, stop_requested: true };
    assert!(!take_rerun(&mut f, true));
    assert!(!f.pending);
    let mut g = WorkerFlags { running: true, pending: true, pause_requested: false, stop_requested: true };
    assert!(take_rerun(&mut g, false));
}

#[test]
fn scan_job_modes() {
    assert_eq!(scan_job_start_phase(&BackgroundScanJobMode::TagPendingOnly), "tagging");
    assert_eq!(scan_job_start_phase(&BackgroundScanJobMode::CollectAndTag), "collecting");
    assert!(!scan_job_tags_images(&BackgroundScanJobMode::CollectOnly));
    assert!(scan_job_tags_images(&BackgroundScanJobMode::TagPendingOnly));
    assert!(!scan_job_collects(&BackgroundScanJobMode::TagPendingOnly));
    assert!(scan_job_collects(&BackgroundScanJobMode::CollectAndTag));
}

#[test]
fn scan_rerun_only_collects() {
    let mut f = WorkerFlags { running: true, pending: true, pause_requested: false, stop_requested: false };
    assert!(matches!(next_background_scan_job(&mut f), Some(BackgroundScanJobMode::CollectOnly)));
    assert!(next_background_scan_job(&mut f).is_none());
}

#[test]
fn tag_queue_sorted_unique() {
    assert_eq!(sorted_unique_ids(&strings(&["b", "a", "b", "c", "a"])), strings(&["a", "b", "c"]));
    assert!(sorted_unique_ids(&Vec::new()).is_empty());
}

#[test]
fn interrupted_scan_resumed() {
    assert!(should_resume_library_scan(&Some("1".to_string()), 0));
    assert!(should_resume_library_scan(&None, 2));
    assert!(!should_resume_library_scan(&Some("0".to_string()), 0));
    assert!(!should_resume_library_scan(&None, 0));
}

#[test]
fn startup_cleanup_start_and_finish() {
    let mut running = false;
    assert!(!request_startup_cleanup(true, &mut running));
    assert!(!running);
    assert!(request_startup_cleanup(false, &mut running));
    assert!(!request_startup_cleanup(false, &mut running));
    let mut generation = 4;
    assert!(finish_startup_cleanup(&mut running, &mut generation, &Ok(3)));
    assert!(!running);
    assert_eq!(generation, 5);
    assert!(!finish_startup_cleanup(&mut running, &mut generation, &Ok(0)));
    assert!(!finish_startup_cleanup(&mut running, &mut generation, &Err("x".to_string())));
    assert_eq!(generation, 7);
}

#[test]
fn stop_all_background_tasks() {
    let busy = WorkerFlags { running: true, pending: true, pause_requested: true, stop_requested: false };
    let mut t = BackgroundTasks {
        scan: WorkerFlags { ..busy },
        thumbnails: idle(),
        natural_language: idle(),
        atmosphere: idle(),
        color_signatures: idle(),
        startup_cleanup_running: false,
    };
    assert!(t.any_running());
    t.request_stop_all();
    assert!(t.scan.stop_requested && !t.scan.pause_requested && t.scan.running);
    assert!(t.color_signatures.stop_requested);
    t.scan.running = false;
    assert!(!t.any_running());
    t.startup_cleanup_running = true;
    assert!(t.any_running());
}

#[test]
fn migration_wait_steps() {
    assert!(matches!(next_migration_wait_step(false, 99_999), MigrationWaitStep::Proceed));
    assert!(matches!(next_migration_wait_step(true, 20_001), MigrationWaitStep::TimedOut));
    assert!(matches!(next_migration_wait_step(true, 20_000), MigrationWaitStep::Wait));
}

#[test]
fn tagging_pipeline_keeps_two_in_flight() {
    let mut p = TaggingPipeline::new(3);
    assert_eq!(p.next_to_send(), Some(0));
    p.mark_sent();
    assert_eq!(p.next_to_send(), Some(1));
    p.mark_sent();
    assert_eq!(p.next_to_send(), None);
    assert!(p.can_read());
    assert!(!p.record_read_ok());
    assert_eq!(p.next_to_send(), Some(2));
    p.mark_sent();
    assert!(!p.record_read_ok());
    assert!(!p.record_read_ok());
    assert!(!p.can_read());
    assert_eq!(p.record_flushed(), 3);
    assert!(!p.results_in_flight());
}

#[test]
fn tagging_pipeline_retries_then_gives_up() {
    let mut p = TaggingPipeline::new(5);
    p.mark_sent();
    p.mark_sent();
    assert!(!p.record_read_failure());
    assert_eq!((p.read_idx, p.send_idx), (0, 0));
    assert_eq!(p.next_to_send(), Some(0));
    p.mark_sent();
    assert!(p.record_read_failure());
    assert_eq!((p.read_idx, p.send_idx), (1, 0));
    assert!(!p.retried_current);
    assert_eq!(p.next_to_send(), Some(0));
}

#[test]
fn tagging_pipeline_flushes_full_batches() {
    let mut p = TaggingPipeline::new(TAG_SAVE_BATCH_SIZE + 1);
    let mut flushes = 0;
    while p.read_idx < p.total {
        while let Some(_) = p.next_to_send() {
            p.mark_sent();
        }
        if p.record_read_ok() {
            flushes += 1;
            assert_eq!(p.record_flushed(), TAG_SAVE_BATCH_SIZE);
        }
    }
    assert_eq!(flushes, 1);
    assert_eq!(p.pending_saves, 1);
}

#[test]
fn thumbnail_tally_adds_up() {
    let mut t = ThumbnailTally::new(5);
    t.record_generated();
    t.record_skipped();
    t.record_skipped();
    t.record_failed();
    assert_eq!((t.processed, t.generated, t.skipped, t.failed), (4, 1, 2, 1));
    assert_eq!(t.processed, t.generated + t.skipped + t.failed);
    assert!(t.processed <= t.total);
}

#[test]
fn thumbnail_pass_reports_its_tally() {
    let mut t = ThumbnailTally::new(3);
    t.record_generated();
    t.record_failed();
    let mut p = ThumbnailGenerationProgress::default();
    set_thumbnail_progress_phase(&mut p, "generating");
    show_thumbnail_tally(&mut p, &t);
    assert_eq!((p.total_candidates, p.processed_images, p.generated_images, p.failed_images), (3, 2, 1, 1));
    assert_eq!(p.phase, "generating");
    assert_eq!(finish_thumbnail_pass(&mut p, &t, true), 1);
    assert_eq!(p.phase, "idle");
    assert!(!p.running);
    let mut q = ThumbnailGenerationProgress::default();
    set_thumbnail_progress_phase(&mut q, "generating");
    assert_eq!(finish_thumbnail_pass(&mut q, &t, false), 1);
    assert_eq!(q.phase, "generating");
}

#[test]
fn thumbnail_jobs_dealt_in_turn() {
    assert_eq!(thumbnail_worker_slot(0, 3), 0);
    assert_eq!(thumbnail_worker_slot(4, 3), 1);
    assert!(stale_thumbnail_to_remove(&Some("old.webp".to_string()), "new.webp"));
    assert!(!stale_thumbnail_to_remove(&Some("same.webp".to_string()), "same.webp"));
    assert!(!stale_thumbnail_to_remove(&None, "new.webp"));
}

#[test]
fn known_paths_insert_and_find() {
    let mut k = KnownPaths::from_paths(&strings(&["C:/b.png", "C:/a.png", "C:/b.png"]));
    assert!(k.contains("C:/a.png"));
    assert!(!k.contains("C:/c.png"));
    assert!(k.insert("C:/c.png"));
    assert!(!k.insert("C:/c.png"));
    assert!(k.contains("C:/c.png"));
}

#[test]
fn scanned_images_classified() {
    let mut k = KnownPaths::new();
    assert!(matches!(classify_scanned_image(&mut k, "x.png", true), ScanOutcome::New));
    assert!(matches!(classify_scanned_image(&mut k, "x.png", true), ScanOutcome::Unchanged));
    assert!(matches!(classify_scanned_image(&mut k, "x.png", false), ScanOutcome::Updated));
    assert!(scan_batch_full(2000));
    assert!(!scan_batch_full(1999));
    assert!(scan_progress_tick(40));
    assert!(!scan_progress_tick(41));
}

#[test]
fn idle_watcher_decisions() {
    let mut running = false;
    assert!(request_idle_watcher_start(&mut running));
    assert!(!request_idle_watcher_start(&mut running));
    let now = 10_000_000;
    assert!(matches!(idle_watcher_check(now, now - 1000, true), IdleCheck::KeepWatching));
    assert!(matches!(idle_watcher_check(now, now - 1000, false), IdleCheck::Exit));
    assert!(matches!(idle_watcher_check(now, now - CLIP_IMAGE_SERVICE_IDLE_RELEASE_MS, true), IdleCheck::ConfirmRelease));
    assert!(matches!(idle_watcher_check(i64::MAX, i64::MIN, true), IdleCheck::ConfirmRelease));
    assert!(idle_release_confirmed(now, 0));
    assert!(!idle_release_confirmed(now, now));
}

#[test]
fn startup_cleanup_rules() {
    assert_eq!(startup_cleanup_batch_limit(8), 32);
    assert_eq!(startup_cleanup_batch_limit(256), 256);
    assert!(startup_cleanup_removes(true, true, false));
    assert!(!startup_cleanup_removes(true, false, false));
    assert!(!startup_cleanup_removes(false, true, false));
    assert!(!startup_cleanup_removes(true, true, true));
}

fn window(x: i32, y: i32, width: u32, height: u32) -> WindowMemoryState {
    WindowMemoryState { x, y, width, height, is_maximized: false, is_fullscreen: true }
}

#[test]
fn window_visibility_needs_overlap() {
    let monitors = vec![MonitorRect { x: 0, y: 0, width: 1920, height: 1080 }];
    assert!(window_state_intersects_available_monitor(&window(100, 100, 800, 600), &monitors));
    assert!(!window_state_intersects_available_monitor(&window(1900, 100, 800, 600), &monitors));
    assert!(window_state_intersects_available_monitor(&window(5000, 5000, 10, 10), &Vec::new()));
}

#[test]
fn hidden_window_moved_and_centred() {
    let monitors = vec![MonitorRect { x: 100, y: 50, width: 1000, height: 800 }];
    let mut w = window(5000, 5000, 1200, 300);
    move_window_state_to_visible_monitor(&mut w, &monitors);
    assert_eq!((w.x, w.y, w.width, w.height), (100, 200, 1000, 500));
    assert!(w.is_fullscreen);
    let restored = prepare_window_restore(window(10, 10, 100, 100), &monitors);
    assert_eq!((restored.width, restored.height), (500, 500));
    assert_eq!((restored.x, restored.y), (10, 10));
}
