use vstd::prelude::*;
use crate::progress::{
    ThumbnailGenerationProgress, AtmosphereGenerationProgress, ColorSignatureGenerationProgress,
    NaturalLanguageScanProgress, BackgroundScanProgress, scan_same_counts,
};
use crate::text::{owned_string, str_eq};

verus! {

/// What a paused worker does next: stop, stay paused (mark the phase
/// `"paused"` and wait a little), or go on.
pub enum ResumeWaitStep {
    Stop,
    StayPaused,
    Continue,
}

/// The next step of a worker waiting out a pause: a stop request wins over a
/// pause request; without either the worker goes on.
pub fn next_resume_wait_step(stop_requested: bool, pause_requested: bool) -> (r: ResumeWaitStep)
    ensures
        stop_requested ==> r is Stop,
        !stop_requested && pause_requested ==> r is StayPaused,
        !stop_requested && !pause_requested ==> r is Continue,
{
    if stop_requested {
        ResumeWaitStep::Stop
    } else if pause_requested {
        ResumeWaitStep::StayPaused
    } else {
        ResumeWaitStep::Continue
    }
}

/// The effect of a pause request on a running thumbnail worker: the request is
/// set, and the progress shows the `"paused"` phase; nothing else changes.
pub open spec fn thumbnail_progress_paused(old: ThumbnailGenerationProgress, new: ThumbnailGenerationProgress, request: bool) -> bool {
    &&& request
    &&& new.paused
    &&& new.phase@ == "paused"@
    &&& new.running == old.running
    &&& crate::progress::thumbnail_progress_same_counts(new, old)
    &&& new.last_error == old.last_error
    &&& new.recent_errors == old.recent_errors
}

/// The effect of a resume request on a running thumbnail worker: the pause request
/// is cleared, the progress is no longer paused, and a `"paused"` phase
/// becomes `"generating"`; nothing else changes.
pub open spec fn thumbnail_progress_resumed(old: ThumbnailGenerationProgress, new: ThumbnailGenerationProgress, request: bool) -> bool {
    &&& !request
    &&& !new.paused
    &&& new.phase@ == (if old.phase@ == "paused"@ { "generating"@ } else { old.phase@ })
    &&& new.running == old.running
    &&& crate::progress::thumbnail_progress_same_counts(new, old)
    &&& new.last_error == old.last_error
    &&& new.recent_errors == old.recent_errors
}

/// The effect of a stop request on a running thumbnail worker: the stop request is
/// set, the pause request cleared, and the progress shows the `"stopping"`
/// phase, not paused; nothing else changes.
pub open spec fn thumbnail_progress_stopping(old: ThumbnailGenerationProgress, new: ThumbnailGenerationProgress, stop: bool, pause: bool) -> bool {
    &&& stop
    &&& !pause
    &&& !new.paused
    &&& new.phase@ == "stopping"@
    &&& new.running == old.running
    &&& crate::progress::thumbnail_progress_same_counts(new, old)
    &&& new.last_error == old.last_error
    &&& new.recent_errors == old.recent_errors
}

/// Asks the thumbnail worker to pause, when it runs (see [`thumbnail_progress_paused`]). Returns
/// whether it ran; when it does not run nothing changes.
pub fn pause_thumbnail_generation(running: bool, pause_requested: &mut bool, progress: &mut ThumbnailGenerationProgress) -> (r: bool)
    ensures
        r == running,
        !running ==> *final(pause_requested) == *old(pause_requested) && *final(progress) == *old(progress),
        running ==> thumbnail_progress_paused(*old(progress), *final(progress), *final(pause_requested)),
{
    if !running {
        return false;
    }
    *pause_requested = true;
    progress.paused = true;
    progress.phase = owned_string("paused");
    true
}

/// Asks the thumbnail worker to go on after a pause, when it runs (see
/// [`thumbnail_progress_resumed`]). Returns whether it ran; when it does not run nothing
/// changes.
pub fn resume_thumbnail_generation(running: bool, pause_requested: &mut bool, progress: &mut ThumbnailGenerationProgress) -> (r: bool)
    ensures
        r == running,
        !running ==> *final(pause_requested) == *old(pause_requested) && *final(progress) == *old(progress),
        running ==> thumbnail_progress_resumed(*old(progress), *final(progress), *final(pause_requested)),
{
    if !running {
        return false;
    }
    *pause_requested = false;
    progress.paused = false;
    if str_eq(progress.phase.as_str(), "paused") {
        progress.phase = owned_string("generating");
    }
    true
}

/// Asks the thumbnail worker to stop, when it runs (see [`thumbnail_progress_stopping`]). Returns
/// whether it ran; when it does not run nothing changes.
pub fn stop_thumbnail_generation(running: bool, stop_requested: &mut bool, pause_requested: &mut bool, progress: &mut ThumbnailGenerationProgress) -> (r: bool)
    ensures
        r == running,
        !running ==> *final(stop_requested) == *old(stop_requested) && *final(pause_requested) == *old(pause_requested)
            && *final(progress) == *old(progress),
        running ==> thumbnail_progress_stopping(*old(progress), *final(progress), *final(stop_requested), *final(pause_requested)),
{
    if !running {
        return false;
    }
    *stop_requested = true;
    *pause_requested = false;
    progress.paused = false;
    progress.phase = owned_string("stopping");
    true
}

/// Resuming a thumbnail worker that is stopping does not undo the stop: the phase
/// stays `"stopping"` and the stop request stays set.
pub proof fn law_thumbnail_progress_stop_survives_resume(p0: ThumbnailGenerationProgress, p1: ThumbnailGenerationProgress, p2: ThumbnailGenerationProgress, stop: bool, r1: bool, r2: bool)
    requires
        thumbnail_progress_stopping(p0, p1, stop, r1),
        thumbnail_progress_resumed(p1, p2, r2),
    ensures
        p2.phase@ == "stopping"@,
        stop,
        !p2.paused,
{
    reveal_strlit("stopping");
    reveal_strlit("paused");
    assert("stopping"@ != "paused"@) by {
        assert("stopping"@.len() != "paused"@.len());
    }
}

/// Pausing a running thumbnail worker and then resuming it puts it back to work in
/// the `"generating"` phase, with no pause request and its counters kept.
pub proof fn law_thumbnail_progress_pause_then_resume(p0: ThumbnailGenerationProgress, p1: ThumbnailGenerationProgress, p2: ThumbnailGenerationProgress, r1: bool, r2: bool)
    requires
        thumbnail_progress_paused(p0, p1, r1),
        thumbnail_progress_resumed(p1, p2, r2),
    ensures
        p2.phase@ == "generating"@,
        !p2.paused,
        !r2,
        p2.running == p0.running,
        crate::progress::thumbnail_progress_same_counts(p2, p0),
{
}

/// The effect of a pause request on a running atmosphere signature worker: the request is
/// set, and the progress shows the `"paused"` phase; nothing else changes.
pub open spec fn atmosphere_progress_paused(old: AtmosphereGenerationProgress, new: AtmosphereGenerationProgress, request: bool) -> bool {
    &&& request
    &&& new.paused
    &&& new.phase@ == "paused"@
    &&& new.running == old.running
    &&& crate::progress::atmosphere_progress_same_counts(new, old)
    &&& new.last_error == old.last_error
    &&& new.recent_errors == old.recent_errors
}

/// The effect of a resume request on a running atmosphere signature worker: the pause request
/// is cleared, the progress is no longer paused, and a `"paused"` phase
/// becomes `"generating"`; nothing else changes.
pub open spec fn atmosphere_progress_resumed(old: AtmosphereGenerationProgress, new: AtmosphereGenerationProgress, request: bool) -> bool {
    &&& !request
    &&& !new.paused
    &&& new.phase@ == (if old.phase@ == "paused"@ { "generating"@ } else { old.phase@ })
    &&& new.running == old.running
    &&& crate::progress::atmosphere_progress_same_counts(new, old)
    &&& new.last_error == old.last_error
    &&& new.recent_errors == old.recent_errors
}

/// The effect of a stop request on a running atmosphere signature worker: the stop request is
/// set, the pause request cleared, and the progress shows the `"stopping"`
/// phase, not paused; nothing else changes.
pub open spec fn atmosphere_progress_stopping(old: AtmosphereGenerationProgress, new: AtmosphereGenerationProgress, stop: bool, pause: bool) -> bool {
    &&& stop
    &&& !pause
    &&& !new.paused
    &&& new.phase@ == "stopping"@
    &&& new.running == old.running
    &&& crate::progress::atmosphere_progress_same_counts(new, old)
    &&& new.last_error == old.last_error
    &&& new.recent_errors == old.recent_errors
}

/// Asks the atmosphere signature worker to pause, when it runs (see [`atmosphere_progress_paused`]). Returns
/// whether it ran; when it does not run nothing changes.
pub fn pause_atmosphere_generation(running: bool, pause_requested: &mut bool, progress: &mut AtmosphereGenerationProgress) -> (r: bool)
    ensures
        r == running,
        !running ==> *final(pause_requested) == *old(pause_requested) && *final(progress) == *old(progress),
        running ==> atmosphere_progress_paused(*old(progress), *final(progress), *final(pause_requested)),
{
    if !running {
        return false;
    }
    *pause_requested = true;
    progress.paused = true;
    progress.phase = owned_string("paused");
    true
}

/// Asks the atmosphere signature worker to go on after a pause, when it runs (see
/// [`atmosphere_progress_resumed`]). Returns whether it ran; when it does not run nothing
/// changes.
pub fn resume_atmosphere_generation(running: bool, pause_requested: &mut bool, progress: &mut AtmosphereGenerationProgress) -> (r: bool)
    ensures
        r == running,
        !running ==> *final(pause_requested) == *old(pause_requested) && *final(progress) == *old(progress),
        running ==> atmosphere_progress_resumed(*old(progress), *final(progress), *final(pause_requested)),
{
    if !running {
        return false;
    }
    *pause_requested = false;
    progress.paused = false;
    if str_eq(progress.phase.as_str(), "paused") {
        progress.phase = owned_string("generating");
    }
    true
}

/// Asks the atmosphere signature worker to stop, when it runs (see [`atmosphere_progress_stopping`]). Returns
/// whether it ran; when it does not run nothing changes.
pub fn stop_atmosphere_generation(running: bool, stop_requested: &mut bool, pause_requested: &mut bool, progress: &mut AtmosphereGenerationProgress) -> (r: bool)
    ensures
        r == running,
        !running ==> *final(stop_requested) == *old(stop_requested) && *final(pause_requested) == *old(pause_requested)
            && *final(progress) == *old(progress),
        running ==> atmosphere_progress_stopping(*old(progress), *final(progress), *final(stop_requested), *final(pause_requested)),
{
    if !running {
        return false;
    }
    *stop_requested = true;
    *pause_requested = false;
    progress.paused = false;
    progress.phase = owned_string("stopping");
    true
}

/// Resuming an atmosphere signature worker that is stopping does not undo the stop: the phase
/// stays `"stopping"` and the stop request stays set.
pub proof fn law_atmosphere_progress_stop_survives_resume(p0: AtmosphereGenerationProgress, p1: AtmosphereGenerationProgress, p2: AtmosphereGenerationProgress, stop: bool, r1: bool, r2: bool)
    requires
        atmosphere_progress_stopping(p0, p1, stop, r1),
        atmosphere_progress_resumed(p1, p2, r2),
    ensures
        p2.phase@ == "stopping"@,
        stop,
        !p2.paused,
{
    reveal_strlit("stopping");
    reveal_strlit("paused");
    assert("stopping"@ != "paused"@) by {
        assert("stopping"@.len() != "paused"@.len());
    }
}

/// Pausing a running atmosphere signature worker and then resuming it puts it back to work in
/// the `"generating"` phase, with no pause request and its counters kept.
pub proof fn law_atmosphere_progress_pause_then_resume(p0: AtmosphereGenerationProgress, p1: AtmosphereGenerationProgress, p2: AtmosphereGenerationProgress, r1: bool, r2: bool)
    requires
        atmosphere_progress_paused(p0, p1, r1),
        atmosphere_progress_resumed(p1, p2, r2),
    ensures
        p2.phase@ == "generating"@,
        !p2.paused,
        !r2,
        p2.running == p0.running,
        crate::progress::atmosphere_progress_same_counts(p2, p0),
{
}

/// The effect of a pause request on a running colour signature worker: the request is
/// set, and the progress shows the `"paused"` phase; nothing else changes.
pub open spec fn color_signature_progress_paused(old: ColorSignatureGenerationProgress, new: ColorSignatureGenerationProgress, request: bool) -> bool {
    &&& request
    &&& new.paused
    &&& new.phase@ == "paused"@
    &&& new.running == old.running
    &&& crate::progress::color_signature_progress_same_counts(new, old)
    &&& new.last_error == old.last_error
    &&& new.recent_errors == old.recent_errors
}

/// The effect of a resume request on a running colour signature worker: the pause request
/// is cleared, the progress is no longer paused, and a `"paused"` phase
/// becomes `"generating"`; nothing else changes.
pub open spec fn color_signature_progress_resumed(old: ColorSignatureGenerationProgress, new: ColorSignatureGenerationProgress, request: bool) -> bool {
    &&& !request
    &&& !new.paused
    &&& new.phase@ == (if old.phase@ == "paused"@ { "generating"@ } else { old.phase@ })
    &&& new.running == old.running
    &&& crate::progress::color_signature_progress_same_counts(new, old)
    &&& new.last_error == old.last_error
    &&& new.recent_errors == old.recent_errors
}

/// The effect of a stop request on a running colour signature worker: the stop request is
/// set, the pause request cleared, and the progress shows the `"stopping"`
/// phase, not paused; nothing else changes.
pub open spec fn color_signature_progress_stopping(old: ColorSignatureGenerationProgress, new: ColorSignatureGenerationProgress, stop: bool, pause: bool) -> bool {
    &&& stop
    &&& !pause
    &&& !new.paused
    &&& new.phase@ == "stopping"@
    &&& new.running == old.running
    &&& crate::progress::color_signature_progress_same_counts(new, old)
    &&& new.last_error == old.last_error
    &&& new.recent_errors == old.recent_errors
}

/// Asks the colour signature worker to pause, when it runs (see [`color_signature_progress_paused`]). Returns
/// whether it ran; when it does not run nothing changes.
pub fn pause_color_signature_generation(running: bool, pause_requested: &mut bool, progress: &mut ColorSignatureGenerationProgress) -> (r: bool)
    ensures
        r == running,
        !running ==> *final(pause_requested) == *old(pause_requested) && *final(progress) == *old(progress),
        running ==> color_signature_progress_paused(*old(progress), *final(progress), *final(pause_requested)),
{
    if !running {
        return false;
    }
    *pause_requested = true;
    progress.paused = true;
    progress.phase = owned_string("paused");
    true
}

/// Asks the colour signature worker to go on after a pause, when it runs (see
/// [`color_signature_progress_resumed`]). Returns whether it ran; when it does not run nothing
/// changes.
pub fn resume_color_signature_generation(running: bool, pause_requested: &mut bool, progress: &mut ColorSignatureGenerationProgress) -> (r: bool)
    ensures
        r == running,
        !running ==> *final(pause_requested) == *old(pause_requested) && *final(progress) == *old(progress),
        running ==> color_signature_progress_resumed(*old(progress), *final(progress), *final(pause_requested)),
{
    if !running {
        return false;
    }
    *pause_requested = false;
    progress.paused = false;
    if str_eq(progress.phase.as_str(), "paused") {
        progress.phase = owned_string("generating");
    }
    true
}

/// Asks the colour signature worker to stop, when it runs (see [`color_signature_progress_stopping`]). Returns
/// whether it ran; when it does not run nothing changes.
pub fn stop_color_signature_generation(running: bool, stop_requested: &mut bool, pause_requested: &mut bool, progress: &mut ColorSignatureGenerationProgress) -> (r: bool)
    ensures
        r == running,
        !running ==> *final(stop_requested) == *old(stop_requested) && *final(pause_requested) == *old(pause_requested)
            && *final(progress) == *old(progress),
        running ==> color_signature_progress_stopping(*old(progress), *final(progress), *final(stop_requested), *final(pause_requested)),
{
    if !running {
        return false;
    }
    *stop_requested = true;
    *pause_requested = false;
    progress.paused = false;
    progress.phase = owned_string("stopping");
    true
}

/// Resuming a colour signature worker that is stopping does not undo the stop: the phase
/// stays `"stopping"` and the stop request stays set.
pub proof fn law_color_signature_progress_stop_survives_resume(p0: ColorSignatureGenerationProgress, p1: ColorSignatureGenerationProgress, p2: ColorSignatureGenerationProgress, stop: bool, r1: bool, r2: bool)
    requires
        color_signature_progress_stopping(p0, p1, stop, r1),
        color_signature_progress_resumed(p1, p2, r2),
    ensures
        p2.phase@ == "stopping"@,
        stop,
        !p2.paused,
{
    reveal_strlit("stopping");
    reveal_strlit("paused");
    assert("stopping"@ != "paused"@) by {
        assert("stopping"@.len() != "paused"@.len());
    }
}

/// Pausing a running colour signature worker and then resuming it puts it back to work in
/// the `"generating"` phase, with no pause request and its counters kept.
pub proof fn law_color_signature_progress_pause_then_resume(p0: ColorSignatureGenerationProgress, p1: ColorSignatureGenerationProgress, p2: ColorSignatureGenerationProgress, r1: bool, r2: bool)
    requires
        color_signature_progress_paused(p0, p1, r1),
        color_signature_progress_resumed(p1, p2, r2),
    ensures
        p2.phase@ == "generating"@,
        !p2.paused,
        !r2,
        p2.running == p0.running,
        crate::progress::color_signature_progress_same_counts(p2, p0),
{
}

/// The effect of a pause request on a running natural-language scan: the request is
/// set, and the progress shows the `"paused"` phase; nothing else changes.
pub open spec fn natural_language_scan_progress_paused(old: NaturalLanguageScanProgress, new: NaturalLanguageScanProgress, request: bool) -> bool {
    &&& request
    &&& new.paused
    &&& new.phase@ == "paused"@
    &&& new.running == old.running
    &&& crate::progress::natural_language_scan_progress_same_counts(new, old)
    &&& new.last_error == old.last_error
    &&& new.recent_errors == old.recent_errors
}

/// The effect of a resume request on a running natural-language scan: the pause request
/// is cleared, the progress is no longer paused, and a `"paused"` phase
/// becomes `"generating"`; nothing else changes.
pub open spec fn natural_language_scan_progress_resumed(old: NaturalLanguageScanProgress, new: NaturalLanguageScanProgress, request: bool) -> bool {
    &&& !request
    &&& !new.paused
    &&& new.phase@ == (if old.phase@ == "paused"@ { "generating"@ } else { old.phase@ })
    &&& new.running == old.running
    &&& crate::progress::natural_language_scan_progress_same_counts(new, old)
    &&& new.last_error == old.last_error
    &&& new.recent_errors == old.recent_errors
}

/// The effect of a stop request on a running natural-language scan: the stop request is
/// set, the pause request cleared, and the progress shows the `"stopping"`
/// phase, not paused; nothing else changes.
pub open spec fn natural_language_scan_progress_stopping(old: NaturalLanguageScanProgress, new: NaturalLanguageScanProgress, stop: bool, pause: bool) -> bool {
    &&& stop
    &&& !pause
    &&& !new.paused
    &&& new.phase@ == "stopping"@
    &&& new.running == old.running
    &&& crate::progress::natural_language_scan_progress_same_counts(new, old)
    &&& new.last_error == old.last_error
    &&& new.recent_errors == old.recent_errors
}

/// Asks the natural-language scan to pause, when it runs (see [`natural_language_scan_progress_paused`]). Returns
/// whether it ran; when it does not run nothing changes.
pub fn pause_natural_language_scan(running: bool, pause_requested: &mut bool, progress: &mut NaturalLanguageScanProgress) -> (r: bool)
    ensures
        r == running,
        !running ==> *final(pause_requested) == *old(pause_requested) && *final(progress) == *old(progress),
        running ==> natural_language_scan_progress_paused(*old(progress), *final(progress), *final(pause_requested)),
{
    if !running {
        return false;
    }
    *pause_requested = true;
    progress.paused = true;
    progress.phase = owned_string("paused");
    true
}

/// Asks the natural-language scan to go on after a pause, when it runs (see
/// [`natural_language_scan_progress_resumed`]). Returns whether it ran; when it does not run nothing
/// changes.
pub fn resume_natural_language_scan(running: bool, pause_requested: &mut bool, progress: &mut NaturalLanguageScanProgress) -> (r: bool)
    ensures
        r == running,
        !running ==> *final(pause_requested) == *old(pause_requested) && *final(progress) == *old(progress),
        running ==> natural_language_scan_progress_resumed(*old(progress), *final(progress), *final(pause_requested)),
{
    if !running {
        return false;
    }
    *pause_requested = false;
    progress.paused = false;
    if str_eq(progress.phase.as_str(), "paused") {
        progress.phase = owned_string("generating");
    }
    true
}

/// Asks the natural-language scan to stop, when it runs (see [`natural_language_scan_progress_stopping`]). Returns
/// whether it ran; when it does not run nothing changes.
pub fn stop_natural_language_scan(running: bool, stop_requested: &mut bool, pause_requested: &mut bool, progress: &mut NaturalLanguageScanProgress) -> (r: bool)
    ensures
        r == running,
        !running ==> *final(stop_requested) == *old(stop_requested) && *final(pause_requested) == *old(pause_requested)
            && *final(progress) == *old(progress),
        running ==> natural_language_scan_progress_stopping(*old(progress), *final(progress), *final(stop_requested), *final(pause_requested)),
{
    if !running {
        return false;
    }
    *stop_requested = true;
    *pause_requested = false;
    progress.paused = false;
    progress.phase = owned_string("stopping");
    true
}

/// Resuming a natural-language scan that is stopping does not undo the stop: the phase
/// stays `"stopping"` and the stop request stays set.
pub proof fn law_natural_language_scan_progress_stop_survives_resume(p0: NaturalLanguageScanProgress, p1: NaturalLanguageScanProgress, p2: NaturalLanguageScanProgress, stop: bool, r1: bool, r2: bool)
    requires
        natural_language_scan_progress_stopping(p0, p1, stop, r1),
        natural_language_scan_progress_resumed(p1, p2, r2),
    ensures
        p2.phase@ == "stopping"@,
        stop,
        !p2.paused,
{
    reveal_strlit("stopping");
    reveal_strlit("paused");
    assert("stopping"@ != "paused"@) by {
        assert("stopping"@.len() != "paused"@.len());
    }
}

/// Pausing a running natural-language scan and then resuming it puts it back to work in
/// the `"generating"` phase, with no pause request and its counters kept.
pub proof fn law_natural_language_scan_progress_pause_then_resume(p0: NaturalLanguageScanProgress, p1: NaturalLanguageScanProgress, p2: NaturalLanguageScanProgress, r1: bool, r2: bool)
    requires
        natural_language_scan_progress_paused(p0, p1, r1),
        natural_language_scan_progress_resumed(p1, p2, r2),
    ensures
        p2.phase@ == "generating"@,
        !p2.paused,
        !r2,
        p2.running == p0.running,
        crate::progress::natural_language_scan_progress_same_counts(p2, p0),
{
}

/// Asks the background scan to pause, when it runs: sets the pause request
/// and shows the `"paused"` phase. Returns whether it ran.
pub fn pause_background_scan(running: bool, pause_requested: &mut bool, progress: &mut BackgroundScanProgress) -> (r: bool)
    ensures
        r == running,
        !running ==> *final(pause_requested) == *old(pause_requested) && *final(progress) == *old(progress),
        running ==> *final(pause_requested) && final(progress).paused && final(progress).phase@ == "paused"@
            && final(progress).running == old(progress).running
            && scan_same_counts(*final(progress), *old(progress))
            && final(progress).current_folder == old(progress).current_folder
            && final(progress).last_error == old(progress).last_error
            && final(progress).recent_errors == old(progress).recent_errors,
{
    if !running {
        return false;
    }
    *pause_requested = true;
    progress.paused = true;
    progress.phase = owned_string("paused");
    true
}

/// The phase a background scan resumes in: tagging when images are queued
/// for tagging, collecting otherwise.
pub open spec fn scan_resume_phase(queued_images: i64) -> Seq<char> {
    if queued_images > 0 {
        "tagging"@
    } else {
        "collecting"@
    }
}

/// Asks the background scan to go on after a pause, when it runs: clears the
/// pause request and leaves the `"paused"` phase for the phase of its work
/// (see [`scan_resume_phase`]). Returns whether it ran.
pub fn resume_background_scan(running: bool, pause_requested: &mut bool, progress: &mut BackgroundScanProgress) -> (r: bool)
    ensures
        r == running,
        !running ==> *final(pause_requested) == *old(pause_requested) && *final(progress) == *old(progress),
        running ==> !*final(pause_requested) && !final(progress).paused
            && final(progress).phase@ == (if old(progress).phase@ == "paused"@ { scan_resume_phase(old(progress).queued_images) } else { old(progress).phase@ })
            && final(progress).running == old(progress).running
            && scan_same_counts(*final(progress), *old(progress))
            && final(progress).current_folder == old(progress).current_folder
            && final(progress).last_error == old(progress).last_error
            && final(progress).recent_errors == old(progress).recent_errors,
{
    if !running {
        return false;
    }
    *pause_requested = false;
    progress.paused = false;
    if str_eq(progress.phase.as_str(), "paused") {
        progress.phase = if progress.queued_images > 0 {
            owned_string("tagging")
        } else {
            owned_string("collecting")
        };
    }
    true
}

/// Asks the background scan to stop, when it runs: sets the stop request,
/// drops any pause request and shows the `"stopping"` phase. Returns whether
/// it ran.
pub fn stop_background_scan(running: bool, stop_requested: &mut bool, pause_requested: &mut bool, progress: &mut BackgroundScanProgress) -> (r: bool)
    ensures
        r == running,
        !running ==> *final(stop_requested) == *old(stop_requested) && *final(pause_requested) == *old(pause_requested)
            && *final(progress) == *old(progress),
        running ==> *final(stop_requested) && !*final(pause_requested) && !final(progress).paused
            && final(progress).phase@ == "stopping"@
            && final(progress).running == old(progress).running
            && scan_same_counts(*final(progress), *old(progress))
            && final(progress).current_folder == old(progress).current_folder
            && final(progress).last_error == old(progress).last_error
            && final(progress).recent_errors == old(progress).recent_errors,
{
    if !running {
        return false;
    }
    *stop_requested = true;
    *pause_requested = false;
    progress.paused = false;
    progress.phase = owned_string("stopping");
    true
}

} // verus!
