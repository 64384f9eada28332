use vstd::prelude::*;
use crate::text::{
    insert_sorted_unique, strictly_sorted, strings_from_char_vecs, str_eq,
};
use crate::chars::str_chars;

verus! {

/// The control flags of a background worker: whether it runs, whether a run
/// was requested while it ran, and the pause and stop requests.
pub struct WorkerFlags {
    pub running: bool,
    pub pending: bool,
    pub pause_requested: bool,
    pub stop_requested: bool,
}

/// The flags of a worker that has just been started.
pub open spec fn started_flags() -> WorkerFlags {
    WorkerFlags { running: true, pending: false, pause_requested: false, stop_requested: false }
}

/// The flags of a worker that is not running.
pub open spec fn idle_flags() -> WorkerFlags {
    WorkerFlags { running: false, pending: false, pause_requested: false, stop_requested: false }
}

/// A start request: an idle worker starts with every request cleared; a
/// running one is left running and remembers that another run is wanted.
/// The first component tells whether a worker starts.
pub open spec fn after_start_request(f: WorkerFlags) -> (bool, WorkerFlags) {
    if f.running {
        (false, WorkerFlags { pending: true, ..f })
    } else {
        (true, started_flags())
    }
}

/// The end of one pass of a worker: it runs again when a run was requested
/// meanwhile, unless it honours stop requests and one was made. Either way the
/// request for another run is used up.
pub open spec fn after_pass(f: WorkerFlags, honours_stop: bool) -> (bool, WorkerFlags) {
    (f.pending && !(honours_stop && f.stop_requested), WorkerFlags { pending: false, ..f })
}

/// Handles a request to start a worker (see [`after_start_request`]); returns
/// whether a new worker is to be started.
pub fn request_worker_start(flags: &mut WorkerFlags) -> (started: bool)
    ensures
        (started, *final(flags)) == after_start_request(*old(flags)),
{
    if flags.running {
        flags.pending = true;
        false
    } else {
        flags.running = true;
        flags.pending = false;
        flags.pause_requested = false;
        flags.stop_requested = false;
        true
    }
}

/// Decides, after one pass, whether the worker runs again (see
/// [`after_pass`]).
pub fn take_rerun(flags: &mut WorkerFlags, honours_stop: bool) -> (rerun: bool)
    ensures
        (rerun, *final(flags)) == after_pass(*old(flags), honours_stop),
{
    let rerun = flags.pending && !(honours_stop && flags.stop_requested);
    flags.pending = false;
    rerun
}

/// Marks a worker as finished: nothing runs and no request is left.
pub fn finish_worker(flags: &mut WorkerFlags)
    ensures
        *final(flags) == idle_flags(),
{
    flags.running = false;
    flags.pending = false;
    flags.pause_requested = false;
    flags.stop_requested = false;
}

/// Requests made while a worker runs do not start a second worker; they
/// collapse into a single further pass, which a stop request (for a worker
/// that honours it) cancels.
pub proof fn law_requests_while_running_coalesce(f: WorkerFlags, honours_stop: bool)
    requires
        f.running,
    ensures
        ({
            let (s1, f1) = after_start_request(f);
            let (s2, f2) = after_start_request(f1);
            let (r1, f3) = after_pass(f2, honours_stop);
            let (r2, f4) = after_pass(f3, honours_stop);
            &&& !s1 && !s2
            &&& f2.running
            &&& r1 == !(honours_stop && f.stop_requested)
            &&& !r2
        }),
{
}

/// A finished worker starts again on the next request, with no request left
/// over from its earlier run.
pub proof fn law_finish_then_start(f: WorkerFlags)
    ensures
        after_start_request(idle_flags()) == (true, started_flags()),
        after_pass(started_flags(), true).0 == false,
        after_pass(started_flags(), false).0 == false,
{
}

/// What a background scan job does: collect new images only, collect them
/// and tag them, or only tag images still waiting for tags.
pub enum BackgroundScanJobMode {
    CollectOnly,
    CollectAndTag,
    TagPendingOnly,
}

/// The phase a pass of a scan job starts in: `"tagging"` when it only tags,
/// `"collecting"` otherwise.
pub open spec fn scan_job_phase(mode: BackgroundScanJobMode) -> Seq<char> {
    if mode is TagPendingOnly {
        "tagging"@
    } else {
        "collecting"@
    }
}

/// The phase a pass of a scan job starts in (see [`scan_job_phase`]).
pub fn scan_job_start_phase(mode: &BackgroundScanJobMode) -> (r: &'static str)
    ensures
        r@ == scan_job_phase(*mode),
{
    match mode {
        BackgroundScanJobMode::TagPendingOnly => "tagging",
        _ => "collecting",
    }
}

/// Whether a pass of a scan job tags images.
pub fn scan_job_tags_images(mode: &BackgroundScanJobMode) -> (r: bool)
    ensures
        r == !(*mode is CollectOnly),
{
    match mode {
        BackgroundScanJobMode::CollectOnly => false,
        _ => true,
    }
}

/// Whether a pass of a scan job walks the library folders (and so makes the
/// cached library and signatures stale).
pub fn scan_job_collects(mode: &BackgroundScanJobMode) -> (r: bool)
    ensures
        r == !(*mode is TagPendingOnly),
{
    match mode {
        BackgroundScanJobMode::TagPendingOnly => false,
        _ => true,
    }
}

/// The job of the next pass of a background scan, if any: a scan honours
/// stop requests, and a rerun only collects.
pub fn next_background_scan_job(flags: &mut WorkerFlags) -> (next: Option<BackgroundScanJobMode>)
    ensures
        after_pass(*old(flags), true) == (next is Some, *final(flags)),
        next is Some ==> next->0 is CollectOnly,
{
    if take_rerun(flags, true) {
        Some(BackgroundScanJobMode::CollectOnly)
    } else {
        None
    }
}

/// The image ids queued for tagging: sorted, each once.
pub fn sorted_unique_ids(ids: &Vec<String>) -> (r: Vec<String>)
    ensures
        strictly_sorted(r@.map_values(|s: String| s@)),
        r@.map_values(|s: String| s@).to_set() == ids@.map_values(|s: String| s@).to_set(),
{
    let mut sorted: Vec<Vec<char>> = Vec::new();
    let mut i: usize = 0;
    while i < ids.len()
        invariant
            i <= ids.len(),
            strictly_sorted(sorted@.map_values(|w: Vec<char>| w@)),
            sorted@.map_values(|w: Vec<char>| w@).to_set() == ids@.map_values(
                |s: String| s@,
            ).subrange(0, i as int).to_set(),
        decreases ids.len() - i,
    {
        let t = str_chars(ids[i].as_str());
        insert_sorted_unique(&mut sorted, t);
        proof {
            let all = ids@.map_values(|s: String| s@);
            assert(all.subrange(0, i + 1) =~= all.subrange(0, i as int).push(all[i as int]));
            all.subrange(0, i as int).lemma_push_to_set_commute(all[i as int]);
        }
        i = i + 1;
    }
    proof {
        let all = ids@.map_values(|s: String| s@);
        assert(all.subrange(0, ids@.len() as int) =~= all);
    }
    strings_from_char_vecs(&sorted)
}

/// Whether an interrupted library scan is to be resumed: the scan was
/// recorded as in progress (meta value `"1"`), or some visible library folder
/// holds no image yet.
pub fn should_resume_library_scan(in_progress_meta: &Option<String>, empty_roots: i64) -> (r: bool)
    ensures
        r == ((in_progress_meta is Some && in_progress_meta->0@ == "1"@) || empty_roots > 0),
{
    let interrupted = match in_progress_meta {
        Some(value) => str_eq(value.as_str(), "1"),
        None => false,
    };
    interrupted || empty_roots > 0
}

/// Whether the startup cleanup may start: not while a background scan runs,
/// and not twice. When it may, it is marked running.
pub fn request_startup_cleanup(background_scan_running: bool, cleanup_running: &mut bool) -> (started: bool)
    ensures
        started == (!background_scan_running && !*old(cleanup_running)),
        *final(cleanup_running) == (*old(cleanup_running) || started),
{
    if background_scan_running || *cleanup_running {
        return false;
    }
    *cleanup_running = true;
    true
}

/// Marks the startup cleanup as finished: it no longer runs and its
/// generation counter moves on by one. Returns whether the cached signatures
/// are stale, which is when it removed some image.
pub fn finish_startup_cleanup(cleanup_running: &mut bool, generation: &mut i64, removed: &Result<i64, String>) -> (signatures_stale: bool)
    requires
        *old(generation) < i64::MAX,
    ensures
        !*final(cleanup_running),
        *final(generation) == *old(generation) + 1,
        signatures_stale == (removed is Ok && removed->Ok_0 > 0),
{
    *cleanup_running = false;
    *generation = *generation + 1;
    match removed {
        Ok(count) => *count > 0,
        Err(_) => false,
    }
}

/// A startup cleanup from start to finish: a start request (see
/// [`request_startup_cleanup`]) is refused while a background scan or another
/// cleanup runs, and then changes nothing; otherwise the cleanup runs, and
/// once it is finished (see [`finish_startup_cleanup`]), whether its pass
/// succeeded or failed, it runs no longer, its generation has moved on by
/// one, and a new cleanup may start when no scan runs.
pub proof fn law_startup_cleanup_start_to_finish(
    scan_running: bool,
    running0: bool,
    started: bool,
    running1: bool,
    generation0: i64,
    running2: bool,
    generation1: i64,
    started_again: bool,
)
    requires
        started == (!scan_running && !running0),
        running1 == (running0 || started),
        started ==> !running2 && generation1 == generation0 + 1,
        started ==> started_again == (!scan_running && !running2),
    ensures
        !started ==> running1 == running0 && (scan_running || running0),
        started ==> running1,
        started ==> !running2 && generation1 == generation0 + 1,
        started ==> started_again == !scan_running,
{
}

/// The control flags of every background task: the library scan, thumbnail
/// generation, the natural-language scan, atmosphere and colour signature
/// generation, and whether the startup cleanup runs.
pub struct BackgroundTasks {
    pub scan: WorkerFlags,
    pub thumbnails: WorkerFlags,
    pub natural_language: WorkerFlags,
    pub atmosphere: WorkerFlags,
    pub color_signatures: WorkerFlags,
    pub startup_cleanup_running: bool,
}

/// A worker asked to stop: its stop request set and its pause request
/// cleared; nothing else changes.
pub open spec fn stop_requested_flags(f: WorkerFlags) -> WorkerFlags {
    WorkerFlags { stop_requested: true, pause_requested: false, ..f }
}

/// Asks one worker to stop (see [`stop_requested_flags`]).
fn request_worker_stop(flags: &mut WorkerFlags)
    ensures
        *final(flags) == stop_requested_flags(*old(flags)),
{
    flags.stop_requested = true;
    flags.pause_requested = false;
}

impl BackgroundTasks {
    /// Asks every background worker to stop, as before a data directory is
    /// moved: each gets its stop request set and its pause request cleared.
    pub fn request_stop_all(&mut self)
        ensures
            final(self).scan == stop_requested_flags(old(self).scan),
            final(self).thumbnails == stop_requested_flags(old(self).thumbnails),
            final(self).natural_language == stop_requested_flags(old(self).natural_language),
            final(self).atmosphere == stop_requested_flags(old(self).atmosphere),
            final(self).color_signatures == stop_requested_flags(old(self).color_signatures),
            final(self).startup_cleanup_running == old(self).startup_cleanup_running,
    {
        request_worker_stop(&mut self.scan);
        request_worker_stop(&mut self.thumbnails);
        request_worker_stop(&mut self.natural_language);
        request_worker_stop(&mut self.atmosphere);
        request_worker_stop(&mut self.color_signatures);
    }

    /// Whether any background task runs.
    pub fn any_running(&self) -> (r: bool)
        ensures
            r == (self.scan.running || self.thumbnails.running || self.natural_language.running
                || self.atmosphere.running || self.color_signatures.running
                || self.startup_cleanup_running),
    {
        self.scan.running || self.thumbnails.running || self.natural_language.running
            || self.atmosphere.running || self.color_signatures.running || self.startup_cleanup_running
    }
}

/// How long a data directory move waits for background tasks to stop, in
/// milliseconds.
pub const MIGRATION_STOP_TIMEOUT_MS: u64 = 20000;

/// What a data directory move does while background tasks stop: go on once
/// none runs, give up once the wait has lasted longer than
/// [`MIGRATION_STOP_TIMEOUT_MS`], otherwise wait a little more.
pub enum MigrationWaitStep {
    Proceed,
    TimedOut,
    Wait,
}

/// The next step of the wait for background tasks to stop (see
/// [`MigrationWaitStep`]).
pub fn next_migration_wait_step(any_running: bool, elapsed_ms: u64) -> (r: MigrationWaitStep)
    ensures
        !any_running ==> r is Proceed,
        any_running && elapsed_ms > MIGRATION_STOP_TIMEOUT_MS ==> r is TimedOut,
        any_running && elapsed_ms <= MIGRATION_STOP_TIMEOUT_MS ==> r is Wait,
{
    if !any_running {
        MigrationWaitStep::Proceed
    } else if elapsed_ms > MIGRATION_STOP_TIMEOUT_MS {
        MigrationWaitStep::TimedOut
    } else {
        MigrationWaitStep::Wait
    }
}

/// Once every worker has been asked to stop, a pause or a rerun request can
/// no longer keep one going: none is paused, and none of those that honour
/// stop requests (the scans) runs again.
pub proof fn law_stop_all_prevents_reruns(t: BackgroundTasks, t2: BackgroundTasks)
    requires
        t2.scan == stop_requested_flags(t.scan),
        t2.thumbnails == stop_requested_flags(t.thumbnails),
        t2.natural_language == stop_requested_flags(t.natural_language),
        t2.atmosphere == stop_requested_flags(t.atmosphere),
        t2.color_signatures == stop_requested_flags(t.color_signatures),
    ensures
        !t2.scan.pause_requested && !t2.thumbnails.pause_requested && !t2.natural_language.pause_requested
            && !t2.atmosphere.pause_requested && !t2.color_signatures.pause_requested,
        after_pass(t2.scan, true).0 == false,
        after_pass(t2.natural_language, true).0 == false,
{
}

} // verus!
