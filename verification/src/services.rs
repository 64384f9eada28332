use vstd::prelude::*;
use crate::clock::now_ms;

verus! {

/// How long the image encoder may stay unused before it is shut down, in
/// milliseconds (twenty minutes).
pub const CLIP_IMAGE_SERVICE_IDLE_RELEASE_MS: i64 = 1200000;

/// How often the idle watcher looks at the image encoder, in milliseconds.
pub const CLIP_IMAGE_SERVICE_IDLE_CHECK_INTERVAL_MS: u64 = 30000;

/// Whether a new idle watcher starts: not when one already runs. When one
/// starts it is marked running.
pub fn request_idle_watcher_start(watcher_running: &mut bool) -> (started: bool)
    ensures
        started == !*old(watcher_running),
        *final(watcher_running),
{
    if *watcher_running {
        false
    } else {
        *watcher_running = true;
        true
    }
}

/// How long the encoder has been unused: `now - last_used`, clamped to the
/// `i64` range as a saturating subtraction does.
pub open spec fn idle_for(now: i64, last_used: i64) -> int {
    let d = now - last_used;
    if d > i64::MAX {
        i64::MAX as int
    } else if d < i64::MIN {
        i64::MIN as int
    } else {
        d
    }
}

/// What the idle watcher does after a look at the encoder: while the
/// encoder was used recently it keeps watching if the encoder runs and ends
/// if it does not; once it has been unused long enough the watcher checks
/// once more before shutting it down.
pub enum IdleCheck {
    KeepWatching,
    Exit,
    ConfirmRelease,
}

/// How long the encoder has been unused (see [`idle_for`]).
fn idle_for_exec(now: i64, last_used: i64) -> (r: i64)
    ensures
        r == idle_for(now, last_used),
{
    if last_used < 0 && now > i64::MAX + last_used {
        i64::MAX
    } else if last_used > 0 && now < i64::MIN + last_used {
        i64::MIN
    } else {
        now - last_used
    }
}

/// What the idle watcher does after a look (see [`IdleCheck`]).
pub fn idle_watcher_check(now: i64, last_used: i64, service_running: bool) -> (r: IdleCheck)
    ensures
        idle_for(now, last_used) < CLIP_IMAGE_SERVICE_IDLE_RELEASE_MS && service_running ==> r is KeepWatching,
        idle_for(now, last_used) < CLIP_IMAGE_SERVICE_IDLE_RELEASE_MS && !service_running ==> r is Exit,
        idle_for(now, last_used) >= CLIP_IMAGE_SERVICE_IDLE_RELEASE_MS ==> r is ConfirmRelease,
{
    if idle_for_exec(now, last_used) < CLIP_IMAGE_SERVICE_IDLE_RELEASE_MS {
        if service_running {
            IdleCheck::KeepWatching
        } else {
            IdleCheck::Exit
        }
    } else {
        IdleCheck::ConfirmRelease
    }
}

/// The second look before shutting the encoder down: it is shut down only
/// if it has still not been used for long enough; otherwise watching goes on.
pub fn idle_release_confirmed(now: i64, latest_last_used: i64) -> (r: bool)
    ensures
        r == (idle_for(now, latest_last_used) >= CLIP_IMAGE_SERVICE_IDLE_RELEASE_MS),
{
    idle_for_exec(now, latest_last_used) >= CLIP_IMAGE_SERVICE_IDLE_RELEASE_MS
}

/// How many images the startup cleanup looks at per batch: the requested
/// size, but at least 32.
pub fn startup_cleanup_batch_limit(batch_size: usize) -> (r: i64)
    requires
        batch_size <= i64::MAX,
    ensures
        r == if batch_size < 32 {
            32
        } else {
            batch_size as int
        },
{
    if batch_size < 32 {
        32
    } else {
        batch_size as i64
    }
}

/// Whether the startup cleanup removes an image: its library folder is
/// known and reachable (a folder on a disconnected drive is left alone), and
/// its file is gone.
pub fn startup_cleanup_removes(folder_known: bool, folder_online: bool, file_exists: bool) -> (r: bool)
    ensures
        r == (folder_known && folder_online && !file_exists),
{
    folder_known && folder_online && !file_exists
}

/// Empties a cache, so that its next use loads it anew.
pub fn clear_optional_cache<T>(cache: &mut Option<T>)
    ensures
        *final(cache) is None,
{
    *cache = None;
}

/// Records `now` as the moment the image encoder was last used.
pub fn mark_clip_image_service_used(last_used_at: &mut i64, now: i64)
    ensures
        *final(last_used_at) == now,
{
    *last_used_at = now;
}

/// Records the current time (see [`now_ms`]) as the moment the image encoder
/// was last used; what the clock reads is not known here.
pub fn touch_clip_image_service_last_used(last_used_at: &mut i64) {
    mark_clip_image_service_used(last_used_at, now_ms());
}

} // verus!
