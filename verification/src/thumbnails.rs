use vstd::prelude::*;
use crate::text::str_eq;
use crate::progress::{
    ThumbnailGenerationProgress, set_thumbnail_progress_total, set_thumbnail_progress_counts,
    set_thumbnail_progress_phase, thumbnail_progress_same_phase,
};

verus! {

/// How many thumbnail workers run at once.
pub const THUMBNAIL_WORKER_COUNT: usize = 3;

/// How many jobs may wait in each worker's queue.
pub const THUMBNAIL_WORKER_QUEUE_CAPACITY: usize = 2;

/// The counts of a thumbnail pass over `total` candidate images: images
/// processed, thumbnails made, images skipped (up to date, or their file
/// gone) and failures.
pub struct ThumbnailTally {
    pub total: i64,
    pub processed: i64,
    pub generated: i64,
    pub skipped: i64,
    pub failed: i64,
}

impl ThumbnailTally {
    /// Every processed image was either made a thumbnail for, skipped or
    /// failed, no count is negative, and no more images were processed than
    /// the pass has candidates.
    pub open spec fn wf(self) -> bool {
        &&& self.generated >= 0
        &&& self.skipped >= 0
        &&& self.failed >= 0
        &&& self.processed == self.generated + self.skipped + self.failed
        &&& self.processed <= self.total
    }

    /// A pass over `total` candidates, nothing processed yet.
    pub fn new(total: i64) -> (r: Self)
        requires
            total >= 0,
        ensures
            r.wf(),
            r == (ThumbnailTally { total, processed: 0, generated: 0, skipped: 0, failed: 0 }),
    {
        ThumbnailTally { total, processed: 0, generated: 0, skipped: 0, failed: 0 }
    }

    /// Counts one thumbnail made, for a candidate not yet processed.
    pub fn record_generated(&mut self)
        requires
            old(self).wf(),
            old(self).processed < old(self).total,
        ensures
            final(self).wf(),
            final(self).processed <= final(self).total,
            *final(self) == (ThumbnailTally {
                processed: (old(self).processed + 1) as i64,
                generated: (old(self).generated + 1) as i64,
                ..*old(self)
            }),
    {
        self.generated = self.generated + 1;
        self.processed = self.processed + 1;
    }

    /// Counts one image skipped, for a candidate not yet processed.
    pub fn record_skipped(&mut self)
        requires
            old(self).wf(),
            old(self).processed < old(self).total,
        ensures
            final(self).wf(),
            final(self).processed <= final(self).total,
            *final(self) == (ThumbnailTally {
                processed: (old(self).processed + 1) as i64,
                skipped: (old(self).skipped + 1) as i64,
                ..*old(self)
            }),
    {
        self.skipped = self.skipped + 1;
        self.processed = self.processed + 1;
    }

    /// Counts one failure, for a candidate not yet processed.
    pub fn record_failed(&mut self)
        requires
            old(self).wf(),
            old(self).processed < old(self).total,
        ensures
            final(self).wf(),
            final(self).processed <= final(self).total,
            *final(self) == (ThumbnailTally {
                processed: (old(self).processed + 1) as i64,
                failed: (old(self).failed + 1) as i64,
                ..*old(self)
            }),
    {
        self.failed = self.failed + 1;
        self.processed = self.processed + 1;
    }
}

/// The progress record shows the tally: its total and its four counts; the
/// phase and the messages are kept.
pub fn show_thumbnail_tally(progress: &mut ThumbnailGenerationProgress, tally: &ThumbnailTally)
    requires
        tally.wf(),
    ensures
        final(progress).total_candidates == tally.total,
        final(progress).processed_images == tally.processed,
        final(progress).generated_images == tally.generated,
        final(progress).skipped_images == tally.skipped,
        final(progress).failed_images == tally.failed,
        final(progress).processed_images == final(progress).generated_images
            + final(progress).skipped_images + final(progress).failed_images,
        final(progress).processed_images <= final(progress).total_candidates,
        thumbnail_progress_same_phase(*final(progress), *old(progress)),
        final(progress).last_error == old(progress).last_error,
        final(progress).recent_errors == old(progress).recent_errors,
{
    set_thumbnail_progress_total(progress, tally.total);
    set_thumbnail_progress_counts(progress, tally.processed, tally.generated, tally.skipped, tally.failed);
}

/// Ends a thumbnail pass: the progress shows the final tally, a stopped pass
/// returns to the `"idle"` phase, and the pass reports the thumbnails it
/// made, the tally's final `generated` count.
pub fn finish_thumbnail_pass(progress: &mut ThumbnailGenerationProgress, tally: &ThumbnailTally, stopped: bool) -> (generated: i64)
    requires
        tally.wf(),
    ensures
        generated == tally.generated,
        final(progress).total_candidates == tally.total,
        final(progress).processed_images == tally.processed,
        final(progress).generated_images == tally.generated,
        final(progress).skipped_images == tally.skipped,
        final(progress).failed_images == tally.failed,
        final(progress).processed_images <= final(progress).total_candidates,
        stopped ==> final(progress).phase@ == "idle"@ && !final(progress).running && !final(progress).paused,
        !stopped ==> thumbnail_progress_same_phase(*final(progress), *old(progress)),
        final(progress).last_error == old(progress).last_error,
        final(progress).recent_errors == old(progress).recent_errors,
{
    show_thumbnail_tally(progress, tally);
    if stopped {
        set_thumbnail_progress_phase(progress, "idle");
        proof {
            reveal_strlit("idle");
            reveal_strlit("paused");
            assert("idle"@ != "paused"@) by {
                assert("idle"@[0] != "paused"@[0]);
            }
        }
    }
    tally.generated
}

/// The worker the `n`-th queued job goes to: the workers take jobs in turn.
pub fn thumbnail_worker_slot(n: usize, workers: usize) -> (r: usize)
    requires
        workers > 0,
    ensures
        r == n % workers,
        r < workers,
{
    n % workers
}

/// Whether a replaced thumbnail file is deleted: when the image had one and
/// the new one lies elsewhere.
pub fn stale_thumbnail_to_remove(previous: &Option<String>, next: &str) -> (r: bool)
    ensures
        r == match previous {
            Some(p) => p@ != next@,
            None => false,
        },
{
    match previous {
        Some(p) => !str_eq(p.as_str(), next),
        None => false,
    }
}

/// Whatever happens to each image of a pass, the counts keep adding up: the
/// processed images are exactly those made, skipped or failed, and never more
/// than the pass has candidates.
pub proof fn law_tally_adds_up(t: ThumbnailTally, u: ThumbnailTally)
    requires
        t.wf(),
        t.processed < t.total,
        u == (ThumbnailTally { processed: (t.processed + 1) as i64, generated: (t.generated + 1) as i64, ..t })
            || u == (ThumbnailTally { processed: (t.processed + 1) as i64, skipped: (t.skipped + 1) as i64, ..t })
            || u == (ThumbnailTally { processed: (t.processed + 1) as i64, failed: (t.failed + 1) as i64, ..t }),
    ensures
        u.wf(),
        u.processed == t.processed + 1,
        u.processed <= u.total,
{
}

} // verus!
