use vstd::prelude::*;
use crate::chars::{trim, texts};
use crate::text::{owned_string, str_eq};

verus! {

/// Most recent error messages a progress record keeps.
pub const RECENT_ERROR_LIMIT: usize = 12;

/// The last `n` elements of `s` (all of `s` when it is shorter).
pub open spec fn keep_last<A>(s: Seq<A>, n: nat) -> Seq<A> {
    if s.len() > n {
        s.subrange(s.len() - n, s.len() as int)
    } else {
        s
    }
}

/// The recent-error list after reporting `error`: blank messages are ignored,
/// others are trimmed and appended, and only the newest twelve are kept.
pub open spec fn pushed_recent_errors(errors: Seq<Seq<char>>, error: Seq<char>) -> Seq<Seq<char>> {
    if trim(error).len() == 0 {
        errors
    } else {
        keep_last(errors.push(trim(error)), RECENT_ERROR_LIMIT as nat)
    }
}

/// A counter value clamped at zero (`i64::max(value, 0)`).
pub open spec fn clamp_nonneg(value: i64) -> i64 {
    if value < 0 { 0 } else { value }
}

/// A phase other than `"idle"` means the worker runs.
pub open spec fn phase_running(phase: Seq<char>) -> bool {
    phase != "idle"@
}

/// The `"paused"` phase means the worker is paused.
pub open spec fn phase_paused(phase: Seq<char>) -> bool {
    phase == "paused"@
}

/// Clamps a counter value at zero.
pub fn clamp_count(value: i64) -> (r: i64)
    ensures
        r == clamp_nonneg(value),
{
    if value < 0 { 0 } else { value }
}

/// Appends a trimmed, non-blank error message and drops the oldest messages
/// beyond the newest twelve.
pub fn push_recent_error(errors: &mut Vec<String>, error: &str)
    ensures
        texts(final(errors)@) == pushed_recent_errors(texts(old(errors)@), error@),
{
    let trimmed = crate::chars::trim_chars(error);
    if trimmed.len() == 0 {
        return;
    }
    let text = crate::chars::string_from_chars(&trimmed);
    let ghost pushed = texts(old(errors)@).push(trim(error@));
    errors.push(text);
    proof {
        assert(texts(errors@) =~= pushed);
    }
    if errors.len() > RECENT_ERROR_LIMIT {
        let overflow = errors.len() - RECENT_ERROR_LIMIT;
        let mut removed: usize = 0;
        while removed < overflow
            invariant
                removed <= overflow,
                overflow == pushed.len() - RECENT_ERROR_LIMIT,
                pushed.len() > RECENT_ERROR_LIMIT,
                errors@.len() == pushed.len() - removed,
                texts(errors@) == pushed.subrange(removed as int, pushed.len() as int),
            decreases overflow - removed,
        {
            let ghost before = errors@;
            errors.remove(0);
            removed = removed + 1;
            proof {
                assert forall|j: int| 0 <= j < errors@.len() implies texts(errors@)[j]
                    == pushed.subrange(removed as int, pushed.len() as int)[j] by {
                    assert(errors@[j] == before[j + 1]);
                    assert(texts(before)[j + 1] == before[j + 1]@);
                }
                assert(texts(errors@) =~= pushed.subrange(removed as int, pushed.len() as int));
            }
        }
    }
}


/// A progress record never keeps more than twelve recent errors: reporting
/// an error to a list of at most twelve leaves at most twelve, and a reported
/// non-blank message is always the newest one kept.
pub proof fn law_recent_errors_bounded(errors: Seq<Seq<char>>, error: Seq<char>)
    requires
        errors.len() <= RECENT_ERROR_LIMIT,
    ensures
        pushed_recent_errors(errors, error).len() <= RECENT_ERROR_LIMIT,
        trim(error).len() > 0 ==> pushed_recent_errors(errors, error).last() == trim(error),
        trim(error).len() == 0 ==> pushed_recent_errors(errors, error) == errors,
{
}

/// Reporting errors keeps the newest ones in the order they came: the kept
/// list is the end of the earlier list followed by the new message.
pub proof fn law_recent_errors_keep_order(errors: Seq<Seq<char>>, error: Seq<char>)
    requires
        trim(error).len() > 0,
    ensures
        exists|k: int| 0 <= k <= errors.len() && pushed_recent_errors(errors, error) == errors.subrange(k, errors.len() as int).push(trim(error)),
{
    let pushed = errors.push(trim(error));
    if pushed.len() > RECENT_ERROR_LIMIT {
        let k = pushed.len() - RECENT_ERROR_LIMIT;
        assert(pushed.subrange(k, pushed.len() as int) =~= errors.subrange(k, errors.len() as int).push(trim(error)));
    } else {
        assert(errors.subrange(0, errors.len() as int) =~= errors);
    }
}

/// Progress of the thumbnail generation worker.
#[derive(Clone, Debug)]
pub struct ThumbnailGenerationProgress {
    pub running: bool,
    pub paused: bool,
    pub phase: String,
    pub total_candidates: i64,
    pub processed_images: i64,
    pub generated_images: i64,
    pub skipped_images: i64,
    pub failed_images: i64,
    pub last_error: Option<String>,
    pub recent_errors: Vec<String>,
}

impl Default for ThumbnailGenerationProgress {
    fn default() -> (r: Self)
        ensures
            !r.running,
            !r.paused,
            r.phase@ == "idle"@,
            r.total_candidates == 0,
            r.processed_images == 0,
            r.generated_images == 0,
            r.skipped_images == 0,
            r.failed_images == 0,
            r.last_error is None,
            r.recent_errors@.len() == 0,
    {
        ThumbnailGenerationProgress {
            running: false,
            paused: false,
            phase: owned_string("idle"),
            total_candidates: 0,
            processed_images: 0,
            generated_images: 0,
            skipped_images: 0,
            failed_images: 0,
            last_error: None,
            recent_errors: Vec::new(),
        }
    }
}

/// The counters and messages of `a` and `b` agree.
pub open spec fn thumbnail_progress_same_counts(a: ThumbnailGenerationProgress, b: ThumbnailGenerationProgress) -> bool {
    &&& a.total_candidates == b.total_candidates
    &&& a.processed_images == b.processed_images
    &&& a.generated_images == b.generated_images
    &&& a.skipped_images == b.skipped_images
    &&& a.failed_images == b.failed_images
}

/// The phase fields of `a` and `b` agree.
pub open spec fn thumbnail_progress_same_phase(a: ThumbnailGenerationProgress, b: ThumbnailGenerationProgress) -> bool {
    &&& a.running == b.running
    &&& a.paused == b.paused
    &&& a.phase@ == b.phase@
}

/// Replaces the whole progress record.
pub fn set_thumbnail_progress(progress: &mut ThumbnailGenerationProgress, next: ThumbnailGenerationProgress)
    ensures
        *final(progress) == next,
{
    *progress = next;
}

/// Replaces the progress record by what `update` makes of it.
pub fn update_thumbnail_progress<F: FnOnce(ThumbnailGenerationProgress) -> ThumbnailGenerationProgress>(
    progress: &mut ThumbnailGenerationProgress,
    update: F,
)
    requires
        update.requires((*old(progress),)),
    ensures
        update.ensures((*old(progress),), *final(progress)),
{
    let mut current = ThumbnailGenerationProgress::default();
    std::mem::swap(&mut current, progress);
    *progress = update(current);
}

/// Enters `phase`; the worker runs unless the phase is `"idle"` and is paused
/// exactly in the `"paused"` phase.
pub fn set_thumbnail_progress_phase(progress: &mut ThumbnailGenerationProgress, phase: &str)
    ensures
        final(progress).phase@ == phase@,
        final(progress).running == phase_running(phase@),
        final(progress).paused == phase_paused(phase@),
        thumbnail_progress_same_counts(*final(progress), *old(progress)),
        final(progress).last_error == old(progress).last_error,
        final(progress).recent_errors == old(progress).recent_errors,
{
    progress.phase = owned_string(phase);
    progress.running = !str_eq(phase, "idle");
    progress.paused = str_eq(phase, "paused");
}

/// Sets the number of candidates, clamped at zero.
pub fn set_thumbnail_progress_total(progress: &mut ThumbnailGenerationProgress, total: i64)
    ensures
        final(progress).total_candidates == clamp_nonneg(total),
        final(progress).processed_images == old(progress).processed_images,
        final(progress).generated_images == old(progress).generated_images,
        final(progress).skipped_images == old(progress).skipped_images,
        final(progress).failed_images == old(progress).failed_images,
        thumbnail_progress_same_phase(*final(progress), *old(progress)),
        final(progress).last_error == old(progress).last_error,
        final(progress).recent_errors == old(progress).recent_errors,
{
    progress.total_candidates = clamp_count(total);
}

/// Sets the four work counters, each clamped at zero.
pub fn set_thumbnail_progress_counts(
    progress: &mut ThumbnailGenerationProgress,
    processed: i64,
    generated: i64,
    skipped: i64,
    failed: i64,
)
    ensures
        final(progress).processed_images == clamp_nonneg(processed),
        final(progress).generated_images == clamp_nonneg(generated),
        final(progress).skipped_images == clamp_nonneg(skipped),
        final(progress).failed_images == clamp_nonneg(failed),
        final(progress).total_candidates == old(progress).total_candidates,
        thumbnail_progress_same_phase(*final(progress), *old(progress)),
        final(progress).last_error == old(progress).last_error,
        final(progress).recent_errors == old(progress).recent_errors,
{
    progress.processed_images = clamp_count(processed);
    progress.generated_images = clamp_count(generated);
    progress.skipped_images = clamp_count(skipped);
    progress.failed_images = clamp_count(failed);
}

/// Records `error` as the last error.
pub fn set_thumbnail_progress_error(progress: &mut ThumbnailGenerationProgress, error: &str)
    ensures
        final(progress).last_error matches Some(e) && e@ == error@,
        thumbnail_progress_same_counts(*final(progress), *old(progress)),
        thumbnail_progress_same_phase(*final(progress), *old(progress)),
        final(progress).recent_errors == old(progress).recent_errors,
{
    progress.last_error = Some(owned_string(error));
}

/// Adds `error` to the recent errors (see [`pushed_recent_errors`]).
pub fn push_thumbnail_progress_recent_error(progress: &mut ThumbnailGenerationProgress, error: &str)
    ensures
        texts(final(progress).recent_errors@) == pushed_recent_errors(
            texts(old(progress).recent_errors@),
            error@,
        ),
        thumbnail_progress_same_counts(*final(progress), *old(progress)),
        thumbnail_progress_same_phase(*final(progress), *old(progress)),
        final(progress).last_error == old(progress).last_error,
{
    push_recent_error(&mut progress.recent_errors, error);
}

/// Marks the worker as finished: idle, neither running nor paused.
pub fn set_thumbnail_progress_done(progress: &mut ThumbnailGenerationProgress)
    ensures
        !final(progress).running,
        !final(progress).paused,
        final(progress).phase@ == "idle"@,
        thumbnail_progress_same_counts(*final(progress), *old(progress)),
        final(progress).last_error == old(progress).last_error,
        final(progress).recent_errors == old(progress).recent_errors,
{
    progress.running = false;
    progress.paused = false;
    progress.phase = owned_string("idle");
}

/// Progress of the atmosphere signature worker.
#[derive(Clone, Debug)]
pub struct AtmosphereGenerationProgress {
    pub running: bool,
    pub paused: bool,
    pub phase: String,
    pub total_candidates: i64,
    pub processed_images: i64,
    pub generated_images: i64,
    pub skipped_images: i64,
    pub failed_images: i64,
    pub last_error: Option<String>,
    pub recent_errors: Vec<String>,
}

impl Default for AtmosphereGenerationProgress {
    fn default() -> (r: Self)
        ensures
            !r.running,
            !r.paused,
            r.phase@ == "idle"@,
            r.total_candidates == 0,
            r.processed_images == 0,
            r.generated_images == 0,
            r.skipped_images == 0,
            r.failed_images == 0,
            r.last_error is None,
            r.recent_errors@.len() == 0,
    {
        AtmosphereGenerationProgress {
            running: false,
            paused: false,
            phase: owned_string("idle"),
            total_candidates: 0,
            processed_images: 0,
            generated_images: 0,
            skipped_images: 0,
            failed_images: 0,
            last_error: None,
            recent_errors: Vec::new(),
        }
    }
}

/// The counters and messages of `a` and `b` agree.
pub open spec fn atmosphere_progress_same_counts(a: AtmosphereGenerationProgress, b: AtmosphereGenerationProgress) -> bool {
    &&& a.total_candidates == b.total_candidates
    &&& a.processed_images == b.processed_images
    &&& a.generated_images == b.generated_images
    &&& a.skipped_images == b.skipped_images
    &&& a.failed_images == b.failed_images
}

/// The phase fields of `a` and `b` agree.
pub open spec fn atmosphere_progress_same_phase(a: AtmosphereGenerationProgress, b: AtmosphereGenerationProgress) -> bool {
    &&& a.running == b.running
    &&& a.paused == b.paused
    &&& a.phase@ == b.phase@
}

/// Replaces the whole progress record.
pub fn set_atmosphere_progress(progress: &mut AtmosphereGenerationProgress, next: AtmosphereGenerationProgress)
    ensures
        *final(progress) == next,
{
    *progress = next;
}

/// Replaces the progress record by what `update` makes of it.
pub fn update_atmosphere_progress<F: FnOnce(AtmosphereGenerationProgress) -> AtmosphereGenerationProgress>(
    progress: &mut AtmosphereGenerationProgress,
    update: F,
)
    requires
        update.requires((*old(progress),)),
    ensures
        update.ensures((*old(progress),), *final(progress)),
{
    let mut current = AtmosphereGenerationProgress::default();
    std::mem::swap(&mut current, progress);
    *progress = update(current);
}

/// Enters `phase`; the worker runs unless the phase is `"idle"` and is paused
/// exactly in the `"paused"` phase.
pub fn set_atmosphere_progress_phase(progress: &mut AtmosphereGenerationProgress, phase: &str)
    ensures
        final(progress).phase@ == phase@,
        final(progress).running == phase_running(phase@),
        final(progress).paused == phase_paused(phase@),
        atmosphere_progress_same_counts(*final(progress), *old(progress)),
        final(progress).last_error == old(progress).last_error,
        final(progress).recent_errors == old(progress).recent_errors,
{
    progress.phase = owned_string(phase);
    progress.running = !str_eq(phase, "idle");
    progress.paused = str_eq(phase, "paused");
}

/// Sets the number of candidates, clamped at zero.
pub fn set_atmosphere_progress_total(progress: &mut AtmosphereGenerationProgress, total: i64)
    ensures
        final(progress).total_candidates == clamp_nonneg(total),
        final(progress).processed_images == old(progress).processed_images,
        final(progress).generated_images == old(progress).generated_images,
        final(progress).skipped_images == old(progress).skipped_images,
        final(progress).failed_images == old(progress).failed_images,
        atmosphere_progress_same_phase(*final(progress), *old(progress)),
        final(progress).last_error == old(progress).last_error,
        final(progress).recent_errors == old(progress).recent_errors,
{
    progress.total_candidates = clamp_count(total);
}

/// Sets the four work counters, each clamped at zero.
pub fn set_atmosphere_progress_counts(
    progress: &mut AtmosphereGenerationProgress,
    processed: i64,
    generated: i64,
    skipped: i64,
    failed: i64,
)
    ensures
        final(progress).processed_images == clamp_nonneg(processed),
        final(progress).generated_images == clamp_nonneg(generated),
        final(progress).skipped_images == clamp_nonneg(skipped),
        final(progress).failed_images == clamp_nonneg(failed),
        final(progress).total_candidates == old(progress).total_candidates,
        atmosphere_progress_same_phase(*final(progress), *old(progress)),
        final(progress).last_error == old(progress).last_error,
        final(progress).recent_errors == old(progress).recent_errors,
{
    progress.processed_images = clamp_count(processed);
    progress.generated_images = clamp_count(generated);
    progress.skipped_images = clamp_count(skipped);
    progress.failed_images = clamp_count(failed);
}

/// Records `error` as the last error.
pub fn set_atmosphere_progress_error(progress: &mut AtmosphereGenerationProgress, error: &str)
    ensures
        final(progress).last_error matches Some(e) && e@ == error@,
        atmosphere_progress_same_counts(*final(progress), *old(progress)),
        atmosphere_progress_same_phase(*final(progress), *old(progress)),
        final(progress).recent_errors == old(progress).recent_errors,
{
    progress.last_error = Some(owned_string(error));
}

/// Adds `error` to the recent errors (see [`pushed_recent_errors`]).
pub fn push_atmosphere_progress_recent_error(progress: &mut AtmosphereGenerationProgress, error: &str)
    ensures
        texts(final(progress).recent_errors@) == pushed_recent_errors(
            texts(old(progress).recent_errors@),
            error@,
        ),
        atmosphere_progress_same_counts(*final(progress), *old(progress)),
        atmosphere_progress_same_phase(*final(progress), *old(progress)),
        final(progress).last_error == old(progress).last_error,
{
    push_recent_error(&mut progress.recent_errors, error);
}

/// Marks the worker as finished: idle, neither running nor paused.
pub fn set_atmosphere_progress_done(progress: &mut AtmosphereGenerationProgress)
    ensures
        !final(progress).running,
        !final(progress).paused,
        final(progress).phase@ == "idle"@,
        atmosphere_progress_same_counts(*final(progress), *old(progress)),
        final(progress).last_error == old(progress).last_error,
        final(progress).recent_errors == old(progress).recent_errors,
{
    progress.running = false;
    progress.paused = false;
    progress.phase = owned_string("idle");
}

/// Progress of the colour signature worker.
#[derive(Clone, Debug)]
pub struct ColorSignatureGenerationProgress {
    pub running: bool,
    pub paused: bool,
    pub phase: String,
    pub total_candidates: i64,
    pub processed_images: i64,
    pub generated_images: i64,
    pub skipped_images: i64,
    pub failed_images: i64,
    pub last_error: Option<String>,
    pub recent_errors: Vec<String>,
}

impl Default for ColorSignatureGenerationProgress {
    fn default() -> (r: Self)
        ensures
            !r.running,
            !r.paused,
            r.phase@ == "idle"@,
            r.total_candidates == 0,
            r.processed_images == 0,
            r.generated_images == 0,
            r.skipped_images == 0,
            r.failed_images == 0,
            r.last_error is None,
            r.recent_errors@.len() == 0,
    {
        ColorSignatureGenerationProgress {
            running: false,
            paused: false,
            phase: owned_string("idle"),
            total_candidates: 0,
            processed_images: 0,
            generated_images: 0,
            skipped_images: 0,
            failed_images: 0,
            last_error: None,
            recent_errors: Vec::new(),
        }
    }
}

/// The counters and messages of `a` and `b` agree.
pub open spec fn color_signature_progress_same_counts(a: ColorSignatureGenerationProgress, b: ColorSignatureGenerationProgress) -> bool {
    &&& a.total_candidates == b.total_candidates
    &&& a.processed_images == b.processed_images
    &&& a.generated_images == b.generated_images
    &&& a.skipped_images == b.skipped_images
    &&& a.failed_images == b.failed_images
}

/// The phase fields of `a` and `b` agree.
pub open spec fn color_signature_progress_same_phase(a: ColorSignatureGenerationProgress, b: ColorSignatureGenerationProgress) -> bool {
    &&& a.running == b.running
    &&& a.paused == b.paused
    &&& a.phase@ == b.phase@
}

/// Replaces the whole progress record.
pub fn set_color_signature_progress(progress: &mut ColorSignatureGenerationProgress, next: ColorSignatureGenerationProgress)
    ensures
        *final(progress) == next,
{
    *progress = next;
}

/// Replaces the progress record by what `update` makes of it.
pub fn update_color_signature_progress<F: FnOnce(ColorSignatureGenerationProgress) -> ColorSignatureGenerationProgress>(
    progress: &mut ColorSignatureGenerationProgress,
    update: F,
)
    requires
        update.requires((*old(progress),)),
    ensures
        update.ensures((*old(progress),), *final(progress)),
{
    let mut current = ColorSignatureGenerationProgress::default();
    std::mem::swap(&mut current, progress);
    *progress = update(current);
}

/// Enters `phase`; the worker runs unless the phase is `"idle"` and is paused
/// exactly in the `"paused"` phase.
pub fn set_color_signature_progress_phase(progress: &mut ColorSignatureGenerationProgress, phase: &str)
    ensures
        final(progress).phase@ == phase@,
        final(progress).running == phase_running(phase@),
        final(progress).paused == phase_paused(phase@),
        color_signature_progress_same_counts(*final(progress), *old(progress)),
        final(progress).last_error == old(progress).last_error,
        final(progress).recent_errors == old(progress).recent_errors,
{
    progress.phase = owned_string(phase);
    progress.running = !str_eq(phase, "idle");
    progress.paused = str_eq(phase, "paused");
}

/// Sets the number of candidates, clamped at zero.
pub fn set_color_signature_progress_total(progress: &mut ColorSignatureGenerationProgress, total: i64)
    ensures
        final(progress).total_candidates == clamp_nonneg(total),
        final(progress).processed_images == old(progress).processed_images,
        final(progress).generated_images == old(progress).generated_images,
        final(progress).skipped_images == old(progress).skipped_images,
        final(progress).failed_images == old(progress).failed_images,
        color_signature_progress_same_phase(*final(progress), *old(progress)),
        final(progress).last_error == old(progress).last_error,
        final(progress).recent_errors == old(progress).recent_errors,
{
    progress.total_candidates = clamp_count(total);
}

/// Sets the four work counters, each clamped at zero.
pub fn set_color_signature_progress_counts(
    progress: &mut ColorSignatureGenerationProgress,
    processed: i64,
    generated: i64,
    skipped: i64,
    failed: i64,
)
    ensures
        final(progress).processed_images == clamp_nonneg(processed),
        final(progress).generated_images == clamp_nonneg(generated),
        final(progress).skipped_images == clamp_nonneg(skipped),
        final(progress).failed_images == clamp_nonneg(failed),
        final(progress).total_candidates == old(progress).total_candidates,
        color_signature_progress_same_phase(*final(progress), *old(progress)),
        final(progress).last_error == old(progress).last_error,
        final(progress).recent_errors == old(progress).recent_errors,
{
    progress.processed_images = clamp_count(processed);
    progress.generated_images = clamp_count(generated);
    progress.skipped_images = clamp_count(skipped);
    progress.failed_images = clamp_count(failed);
}

/// Records `error` as the last error.
pub fn set_color_signature_progress_error(progress: &mut ColorSignatureGenerationProgress, error: &str)
    ensures
        final(progress).last_error matches Some(e) && e@ == error@,
        color_signature_progress_same_counts(*final(progress), *old(progress)),
        color_signature_progress_same_phase(*final(progress), *old(progress)),
        final(progress).recent_errors == old(progress).recent_errors,
{
    progress.last_error = Some(owned_string(error));
}

/// Adds `error` to the recent errors (see [`pushed_recent_errors`]).
pub fn push_color_signature_progress_recent_error(progress: &mut ColorSignatureGenerationProgress, error: &str)
    ensures
        texts(final(progress).recent_errors@) == pushed_recent_errors(
            texts(old(progress).recent_errors@),
            error@,
        ),
        color_signature_progress_same_counts(*final(progress), *old(progress)),
        color_signature_progress_same_phase(*final(progress), *old(progress)),
        final(progress).last_error == old(progress).last_error,
{
    push_recent_error(&mut progress.recent_errors, error);
}

/// Marks the worker as finished: idle, neither running nor paused.
pub fn set_color_signature_progress_done(progress: &mut ColorSignatureGenerationProgress)
    ensures
        !final(progress).running,
        !final(progress).paused,
        final(progress).phase@ == "idle"@,
        color_signature_progress_same_counts(*final(progress), *old(progress)),
        final(progress).last_error == old(progress).last_error,
        final(progress).recent_errors == old(progress).recent_errors,
{
    progress.running = false;
    progress.paused = false;
    progress.phase = owned_string("idle");
}

/// Progress of the natural-language embedding scan.
#[derive(Clone, Debug)]
pub struct NaturalLanguageScanProgress {
    pub running: bool,
    pub paused: bool,
    pub phase: String,
    pub total_images: i64,
    pub processed_images: i64,
    pub generated_images: i64,
    pub skipped_images: i64,
    pub failed_images: i64,
    pub last_error: Option<String>,
    pub recent_errors: Vec<String>,
}

impl Default for NaturalLanguageScanProgress {
    fn default() -> (r: Self)
        ensures
            !r.running,
            !r.paused,
            r.phase@ == "idle"@,
            r.total_images == 0,
            r.processed_images == 0,
            r.generated_images == 0,
            r.skipped_images == 0,
            r.failed_images == 0,
            r.last_error is None,
            r.recent_errors@.len() == 0,
    {
        NaturalLanguageScanProgress {
            running: false,
            paused: false,
            phase: owned_string("idle"),
            total_images: 0,
            processed_images: 0,
            generated_images: 0,
            skipped_images: 0,
            failed_images: 0,
            last_error: None,
            recent_errors: Vec::new(),
        }
    }
}

/// The counters and messages of `a` and `b` agree.
pub open spec fn natural_language_scan_progress_same_counts(a: NaturalLanguageScanProgress, b: NaturalLanguageScanProgress) -> bool {
    &&& a.total_images == b.total_images
    &&& a.processed_images == b.processed_images
    &&& a.generated_images == b.generated_images
    &&& a.skipped_images == b.skipped_images
    &&& a.failed_images == b.failed_images
}

/// The phase fields of `a` and `b` agree.
pub open spec fn natural_language_scan_progress_same_phase(a: NaturalLanguageScanProgress, b: NaturalLanguageScanProgress) -> bool {
    &&& a.running == b.running
    &&& a.paused == b.paused
    &&& a.phase@ == b.phase@
}

/// Replaces the whole progress record.
pub fn set_natural_language_scan_progress(progress: &mut NaturalLanguageScanProgress, next: NaturalLanguageScanProgress)
    ensures
        *final(progress) == next,
{
    *progress = next;
}

/// Replaces the progress record by what `update` makes of it.
pub fn update_natural_language_scan_progress<F: FnOnce(NaturalLanguageScanProgress) -> NaturalLanguageScanProgress>(
    progress: &mut NaturalLanguageScanProgress,
    update: F,
)
    requires
        update.requires((*old(progress),)),
    ensures
        update.ensures((*old(progress),), *final(progress)),
{
    let mut current = NaturalLanguageScanProgress::default();
    std::mem::swap(&mut current, progress);
    *progress = update(current);
}

/// Enters `phase`; the worker runs unless the phase is `"idle"` and is paused
/// exactly in the `"paused"` phase.
pub fn set_natural_language_scan_progress_phase(progress: &mut NaturalLanguageScanProgress, phase: &str)
    ensures
        final(progress).phase@ == phase@,
        final(progress).running == phase_running(phase@),
        final(progress).paused == phase_paused(phase@),
        natural_language_scan_progress_same_counts(*final(progress), *old(progress)),
        final(progress).last_error == old(progress).last_error,
        final(progress).recent_errors == old(progress).recent_errors,
{
    progress.phase = owned_string(phase);
    progress.running = !str_eq(phase, "idle");
    progress.paused = str_eq(phase, "paused");
}

/// Sets the number of images, clamped at zero.
pub fn set_natural_language_scan_progress_total(progress: &mut NaturalLanguageScanProgress, total: i64)
    ensures
        final(progress).total_images == clamp_nonneg(total),
        final(progress).processed_images == old(progress).processed_images,
        final(progress).generated_images == old(progress).generated_images,
        final(progress).skipped_images == old(progress).skipped_images,
        final(progress).failed_images == old(progress).failed_images,
        natural_language_scan_progress_same_phase(*final(progress), *old(progress)),
        final(progress).last_error == old(progress).last_error,
        final(progress).recent_errors == old(progress).recent_errors,
{
    progress.total_images = clamp_count(total);
}

/// Sets the four work counters, each clamped at zero.
pub fn set_natural_language_scan_progress_counts(
    progress: &mut NaturalLanguageScanProgress,
    processed: i64,
    generated: i64,
    skipped: i64,
    failed: i64,
)
    ensures
        final(progress).processed_images == clamp_nonneg(processed),
        final(progress).generated_images == clamp_nonneg(generated),
        final(progress).skipped_images == clamp_nonneg(skipped),
        final(progress).failed_images == clamp_nonneg(failed),
        final(progress).total_images == old(progress).total_images,
        natural_language_scan_progress_same_phase(*final(progress), *old(progress)),
        final(progress).last_error == old(progress).last_error,
        final(progress).recent_errors == old(progress).recent_errors,
{
    progress.processed_images = clamp_count(processed);
    progress.generated_images = clamp_count(generated);
    progress.skipped_images = clamp_count(skipped);
    progress.failed_images = clamp_count(failed);
}

/// Records `error` as the last error.
pub fn set_natural_language_scan_progress_error(progress: &mut NaturalLanguageScanProgress, error: &str)
    ensures
        final(progress).last_error matches Some(e) && e@ == error@,
        natural_language_scan_progress_same_counts(*final(progress), *old(progress)),
        natural_language_scan_progress_same_phase(*final(progress), *old(progress)),
        final(progress).recent_errors == old(progress).recent_errors,
{
    progress.last_error = Some(owned_string(error));
}

/// Adds `error` to the recent errors (see [`pushed_recent_errors`]).
pub fn push_natural_language_scan_recent_error(progress: &mut NaturalLanguageScanProgress, error: &str)
    ensures
        texts(final(progress).recent_errors@) == pushed_recent_errors(
            texts(old(progress).recent_errors@),
            error@,
        ),
        natural_language_scan_progress_same_counts(*final(progress), *old(progress)),
        natural_language_scan_progress_same_phase(*final(progress), *old(progress)),
        final(progress).last_error == old(progress).last_error,
{
    push_recent_error(&mut progress.recent_errors, error);
}

/// Marks the worker as finished: idle, neither running nor paused.
pub fn set_natural_language_scan_progress_done(progress: &mut NaturalLanguageScanProgress)
    ensures
        !final(progress).running,
        !final(progress).paused,
        final(progress).phase@ == "idle"@,
        natural_language_scan_progress_same_counts(*final(progress), *old(progress)),
        final(progress).last_error == old(progress).last_error,
        final(progress).recent_errors == old(progress).recent_errors,
{
    progress.running = false;
    progress.paused = false;
    progress.phase = owned_string("idle");
}

/// Whether the thumbnail worker was asked to stop: the flag as read under its lock,
/// or `false` when the lock could not be taken (`None`).
pub fn thumbnail_stop_requested(flag: Option<bool>) -> (r: bool)
    ensures
        r == (flag == Some(true)),
{
    match flag {
        Some(value) => value,
        None => false,
    }
}

/// Whether the thumbnail worker was asked to pause: the flag as read under its lock,
/// or `false` when the lock could not be taken (`None`).
pub fn thumbnail_pause_requested(flag: Option<bool>) -> (r: bool)
    ensures
        r == (flag == Some(true)),
{
    match flag {
        Some(value) => value,
        None => false,
    }
}

/// Whether the atmosphere worker was asked to stop: the flag as read under its lock,
/// or `false` when the lock could not be taken (`None`).
pub fn atmosphere_stop_requested(flag: Option<bool>) -> (r: bool)
    ensures
        r == (flag == Some(true)),
{
    match flag {
        Some(value) => value,
        None => false,
    }
}

/// Whether the atmosphere worker was asked to pause: the flag as read under its lock,
/// or `false` when the lock could not be taken (`None`).
pub fn atmosphere_pause_requested(flag: Option<bool>) -> (r: bool)
    ensures
        r == (flag == Some(true)),
{
    match flag {
        Some(value) => value,
        None => false,
    }
}

/// Whether the colour signature worker was asked to stop: the flag as read under its lock,
/// or `false` when the lock could not be taken (`None`).
pub fn color_signature_stop_requested(flag: Option<bool>) -> (r: bool)
    ensures
        r == (flag == Some(true)),
{
    match flag {
        Some(value) => value,
        None => false,
    }
}

/// Whether the colour signature worker was asked to pause: the flag as read under its lock,
/// or `false` when the lock could not be taken (`None`).
pub fn color_signature_pause_requested(flag: Option<bool>) -> (r: bool)
    ensures
        r == (flag == Some(true)),
{
    match flag {
        Some(value) => value,
        None => false,
    }
}

/// Whether the natural-language scan was asked to stop: the flag as read under its lock,
/// or `false` when the lock could not be taken (`None`).
pub fn natural_language_scan_stop_requested(flag: Option<bool>) -> (r: bool)
    ensures
        r == (flag == Some(true)),
{
    match flag {
        Some(value) => value,
        None => false,
    }
}

/// Whether the natural-language scan was asked to pause: the flag as read under its lock,
/// or `false` when the lock could not be taken (`None`).
pub fn natural_language_scan_pause_requested(flag: Option<bool>) -> (r: bool)
    ensures
        r == (flag == Some(true)),
{
    match flag {
        Some(value) => value,
        None => false,
    }
}

/// Whether the background scan was asked to stop: the flag as read under its lock,
/// or `false` when the lock could not be taken (`None`).
pub fn background_scan_stop_requested(flag: Option<bool>) -> (r: bool)
    ensures
        r == (flag == Some(true)),
{
    match flag {
        Some(value) => value,
        None => false,
    }
}

/// Whether the background scan was asked to pause: the flag as read under its lock,
/// or `false` when the lock could not be taken (`None`).
pub fn background_scan_pause_requested(flag: Option<bool>) -> (r: bool)
    ensures
        r == (flag == Some(true)),
{
    match flag {
        Some(value) => value,
        None => false,
    }
}

/// Progress of the background library scan.
#[derive(Clone, Debug)]
pub struct BackgroundScanProgress {
    pub running: bool,
    pub paused: bool,
    pub phase: String,
    pub scanned_folders: i64,
    pub total_folders: i64,
    pub new_images: i64,
    pub updated_images: i64,
    pub skipped_images: i64,
    pub removed_missing_images: i64,
    pub queued_images: i64,
    pub tagged_images: i64,
    pub failed_images: i64,
    pub scanned_files: i64,
    pub current_folder: String,
    pub last_error: Option<String>,
    pub recent_errors: Vec<String>,
}

impl Default for BackgroundScanProgress {
    fn default() -> (r: Self)
        ensures
            !r.running,
            !r.paused,
            r.phase@ == "idle"@,
            r.scanned_folders == 0,
            r.total_folders == 0,
            r.new_images == 0,
            r.updated_images == 0,
            r.skipped_images == 0,
            r.removed_missing_images == 0,
            r.queued_images == 0,
            r.tagged_images == 0,
            r.failed_images == 0,
            r.scanned_files == 0,
            r.current_folder@.len() == 0,
            r.last_error is None,
            r.recent_errors@.len() == 0,
    {
        BackgroundScanProgress {
            running: false,
            paused: false,
            phase: owned_string("idle"),
            scanned_folders: 0,
            total_folders: 0,
            new_images: 0,
            updated_images: 0,
            skipped_images: 0,
            removed_missing_images: 0,
            queued_images: 0,
            tagged_images: 0,
            failed_images: 0,
            scanned_files: 0,
            current_folder: String::new(),
            last_error: None,
            recent_errors: Vec::new(),
        }
    }
}

/// The counters of `a` and `b` agree.
pub open spec fn scan_same_counts(a: BackgroundScanProgress, b: BackgroundScanProgress) -> bool {
    &&& a.scanned_folders == b.scanned_folders
    &&& a.total_folders == b.total_folders
    &&& a.new_images == b.new_images
    &&& a.updated_images == b.updated_images
    &&& a.skipped_images == b.skipped_images
    &&& a.removed_missing_images == b.removed_missing_images
    &&& a.queued_images == b.queued_images
    &&& a.tagged_images == b.tagged_images
    &&& a.failed_images == b.failed_images
    &&& a.scanned_files == b.scanned_files
}

/// Everything but the counters of `a` and `b` agrees.
pub open spec fn scan_same_state(a: BackgroundScanProgress, b: BackgroundScanProgress) -> bool {
    &&& a.running == b.running
    &&& a.paused == b.paused
    &&& a.phase == b.phase
    &&& a.current_folder == b.current_folder
    &&& a.last_error == b.last_error
    &&& a.recent_errors == b.recent_errors
}

/// Replaces the whole scan progress record.
pub fn set_scan_progress(progress: &mut BackgroundScanProgress, next: BackgroundScanProgress)
    ensures
        *final(progress) == next,
{
    *progress = next;
}

/// Replaces the progress record by what `update` makes of it.
pub fn update_scan_progress<F: FnOnce(BackgroundScanProgress) -> BackgroundScanProgress>(
    progress: &mut BackgroundScanProgress,
    update: F,
)
    requires
        update.requires((*old(progress),)),
    ensures
        update.ensures((*old(progress),), *final(progress)),
{
    let mut current = BackgroundScanProgress::default();
    std::mem::swap(&mut current, progress);
    *progress = update(current);
}

/// Enters `phase`; the scan runs unless the phase is `"idle"` and is paused
/// exactly in the `"paused"` phase.
pub fn set_scan_progress_phase(progress: &mut BackgroundScanProgress, phase: &str)
    ensures
        final(progress).phase@ == phase@,
        final(progress).running == phase_running(phase@),
        final(progress).paused == phase_paused(phase@),
        scan_same_counts(*final(progress), *old(progress)),
        final(progress).current_folder == old(progress).current_folder,
        final(progress).last_error == old(progress).last_error,
        final(progress).recent_errors == old(progress).recent_errors,
{
    progress.phase = owned_string(phase);
    progress.running = !str_eq(phase, "idle");
    progress.paused = str_eq(phase, "paused");
}

/// Sets the number of folders to scan, clamped at zero.
pub fn set_scan_progress_total_folders(progress: &mut BackgroundScanProgress, total_folders: i64)
    ensures
        *final(progress) == (BackgroundScanProgress {
            total_folders: clamp_nonneg(total_folders),
            ..*old(progress)
        }),
{
    progress.total_folders = clamp_count(total_folders);
}

/// Sets the number of folders scanned so far, clamped at zero.
pub fn set_scan_progress_scanned_folders(
    progress: &mut BackgroundScanProgress,
    scanned_folders: i64,
)
    ensures
        *final(progress) == (BackgroundScanProgress {
            scanned_folders: clamp_nonneg(scanned_folders),
            ..*old(progress)
        }),
{
    progress.scanned_folders = clamp_count(scanned_folders);
}

/// Sets the number of files looked at so far, clamped at zero.
pub fn set_scan_progress_scanned_files(progress: &mut BackgroundScanProgress, scanned_files: i64)
    ensures
        *final(progress) == (BackgroundScanProgress {
            scanned_files: clamp_nonneg(scanned_files),
            ..*old(progress)
        }),
{
    progress.scanned_files = clamp_count(scanned_files);
}

/// Records the folder being scanned.
pub fn set_scan_progress_current_folder(progress: &mut BackgroundScanProgress, folder_path: &str)
    ensures
        final(progress).current_folder@ == folder_path@,
        scan_same_counts(*final(progress), *old(progress)),
        final(progress).running == old(progress).running,
        final(progress).paused == old(progress).paused,
        final(progress).phase == old(progress).phase,
        final(progress).last_error == old(progress).last_error,
        final(progress).recent_errors == old(progress).recent_errors,
{
    progress.current_folder = owned_string(folder_path);
}

/// Sets the number of newly found images, clamped at zero.
pub fn set_scan_progress_new_images(progress: &mut BackgroundScanProgress, new_images: i64)
    ensures
        *final(progress) == (BackgroundScanProgress {
            new_images: clamp_nonneg(new_images),
            ..*old(progress)
        }),
{
    progress.new_images = clamp_count(new_images);
}

/// Sets the number of updated images, clamped at zero.
pub fn set_scan_progress_updated_images(progress: &mut BackgroundScanProgress, updated_images: i64)
    ensures
        *final(progress) == (BackgroundScanProgress {
            updated_images: clamp_nonneg(updated_images),
            ..*old(progress)
        }),
{
    progress.updated_images = clamp_count(updated_images);
}

/// Sets the number of unchanged, skipped images, clamped at zero.
pub fn set_scan_progress_skipped_images(progress: &mut BackgroundScanProgress, skipped_images: i64)
    ensures
        *final(progress) == (BackgroundScanProgress {
            skipped_images: clamp_nonneg(skipped_images),
            ..*old(progress)
        }),
{
    progress.skipped_images = clamp_count(skipped_images);
}

/// Sets the number of images removed because their file is gone, clamped at zero.
pub fn set_scan_progress_removed_missing_images(
    progress: &mut BackgroundScanProgress,
    removed_missing_images: i64,
)
    ensures
        *final(progress) == (BackgroundScanProgress {
            removed_missing_images: clamp_nonneg(removed_missing_images),
            ..*old(progress)
        }),
{
    progress.removed_missing_images = clamp_count(removed_missing_images);
}

/// Sets the number of images queued for tagging, clamped at zero.
pub fn set_scan_progress_queued_images(progress: &mut BackgroundScanProgress, queued_images: i64)
    ensures
        *final(progress) == (BackgroundScanProgress {
            queued_images: clamp_nonneg(queued_images),
            ..*old(progress)
        }),
{
    progress.queued_images = clamp_count(queued_images);
}

/// Adds `count` (clamped at zero) to the number of tagged images.
pub fn add_scan_progress_tagged(progress: &mut BackgroundScanProgress, count: i64)
    requires
        old(progress).tagged_images + clamp_nonneg(count) <= i64::MAX,
    ensures
        *final(progress) == (BackgroundScanProgress {
            tagged_images: (old(progress).tagged_images + clamp_nonneg(count)) as i64,
            ..*old(progress)
        }),
{
    progress.tagged_images = progress.tagged_images + clamp_count(count);
}

/// Counts one more image that failed.
pub fn increment_scan_progress_failed(progress: &mut BackgroundScanProgress)
    requires
        old(progress).failed_images < i64::MAX,
    ensures
        *final(progress) == (BackgroundScanProgress {
            failed_images: (old(progress).failed_images + 1) as i64,
            ..*old(progress)
        }),
{
    progress.failed_images = progress.failed_images + 1;
}

/// Records `error` as the last error.
pub fn set_scan_progress_error(progress: &mut BackgroundScanProgress, error: &str)
    ensures
        final(progress).last_error matches Some(e) && e@ == error@,
        scan_same_counts(*final(progress), *old(progress)),
        final(progress).running == old(progress).running,
        final(progress).paused == old(progress).paused,
        final(progress).phase == old(progress).phase,
        final(progress).current_folder == old(progress).current_folder,
        final(progress).recent_errors == old(progress).recent_errors,
{
    progress.last_error = Some(owned_string(error));
}

/// Adds `error` to the recent errors (see [`pushed_recent_errors`]).
pub fn push_scan_progress_recent_error(progress: &mut BackgroundScanProgress, error: &str)
    ensures
        texts(final(progress).recent_errors@) == pushed_recent_errors(
            texts(old(progress).recent_errors@),
            error@,
        ),
        scan_same_counts(*final(progress), *old(progress)),
        final(progress).running == old(progress).running,
        final(progress).paused == old(progress).paused,
        final(progress).phase == old(progress).phase,
        final(progress).current_folder == old(progress).current_folder,
        final(progress).last_error == old(progress).last_error,
{
    push_recent_error(&mut progress.recent_errors, error);
}

/// Marks the scan as finished: idle, neither running nor paused.
pub fn set_scan_progress_done(progress: &mut BackgroundScanProgress)
    ensures
        !final(progress).running,
        !final(progress).paused,
        final(progress).phase@ == "idle"@,
        scan_same_counts(*final(progress), *old(progress)),
        final(progress).current_folder == old(progress).current_folder,
        final(progress).last_error == old(progress).last_error,
        final(progress).recent_errors == old(progress).recent_errors,
{
    progress.running = false;
    progress.paused = false;
    progress.phase = owned_string("idle");
}

/// Whether the background scan runs.
pub struct BackgroundScanStatus {
    pub running: bool,
}

/// Whether the natural-language scan runs.
pub struct NaturalLanguageScanStatus {
    pub running: bool,
}

/// Whether the start-up cleanup runs, and how many cleanups were started.
pub struct StartupCleanupStatus {
    pub running: bool,
    pub generation: i64,
}

} // verus!
