use vstd::prelude::*;

verus! {

/// How many tagging results are written to the database in one go.
pub const TAG_SAVE_BATCH_SIZE: usize = 100;

/// How many images may be waiting at the tagger at once: one being tagged
/// while the next is prepared.
pub const TAGGING_PIPELINE_DEPTH: usize = 2;

/// The bookkeeping of a tagging run over `total` images: the image whose
/// result is read next, the image sent next, whether reading the current
/// result already failed once, and how many results wait to be written.
pub struct TaggingPipeline {
    pub total: usize,
    pub read_idx: usize,
    pub send_idx: usize,
    pub retried_current: bool,
    pub pending_saves: usize,
}

impl TaggingPipeline {
    /// The bookkeeping stays within bounds: no more than
    /// [`TAGGING_PIPELINE_DEPTH`] images are ahead of the one read next, the
    /// indices stay within the run, and fewer than a full batch of results
    /// wait to be written.
    pub open spec fn wf(self) -> bool {
        &&& self.read_idx <= self.total
        &&& self.send_idx <= self.total
        &&& self.send_idx <= self.read_idx + TAGGING_PIPELINE_DEPTH
        &&& self.read_idx <= self.send_idx + 1
        &&& self.pending_saves <= TAG_SAVE_BATCH_SIZE
    }

    /// What is left to do, which every read (successful or not) lowers:
    /// two steps per unread image, one of which a first failed read uses up.
    pub open spec fn remaining(self) -> nat {
        (2 * (self.total - self.read_idx) + if self.retried_current {
            0int
        } else {
            1int
        }) as nat
    }

    /// A run over `total` images, nothing sent or read yet.
    pub fn new(total: usize) -> (r: Self)
        ensures
            r.wf(),
            r == (TaggingPipeline { total, read_idx: 0, send_idx: 0, retried_current: false, pending_saves: 0 }),
    {
        TaggingPipeline { total, read_idx: 0, send_idx: 0, retried_current: false, pending_saves: 0 }
    }

    /// The image to send next, if any: the next unsent one, unless the
    /// pipeline is full or every image has been sent.
    pub fn next_to_send(&self) -> (r: Option<usize>)
        requires
            self.wf(),
        ensures
            r == if self.send_idx < self.total && self.send_idx < self.read_idx + TAGGING_PIPELINE_DEPTH {
                Some(self.send_idx)
            } else {
                None
            },
    {
        if self.send_idx < self.total && (self.send_idx < self.read_idx || self.send_idx - self.read_idx
            < TAGGING_PIPELINE_DEPTH) {
            Some(self.send_idx)
        } else {
            None
        }
    }

    /// Records that the image to send next was handled: sent, or skipped
    /// because its file is gone or sending failed.
    pub fn mark_sent(&mut self)
        requires
            old(self).wf(),
            old(self).send_idx < old(self).total,
            old(self).send_idx < old(self).read_idx + TAGGING_PIPELINE_DEPTH,
        ensures
            final(self).wf(),
            *final(self) == (TaggingPipeline { send_idx: (old(self).send_idx + 1) as usize, ..*old(self) }),
    {
        self.send_idx = self.send_idx + 1;
    }

    /// Whether a result is awaited: some image was sent beyond the one read
    /// next. When none is, the run ends.
    pub fn can_read(&self) -> (r: bool)
        ensures
            r == (self.send_idx > self.read_idx),
    {
        self.send_idx > self.read_idx
    }

    /// Records a result read for the current image: it waits to be written,
    /// the next image becomes current, and the current image has no failed
    /// read. Returns whether a full batch now waits to be written.
    pub fn record_read_ok(&mut self) -> (flush: bool)
        requires
            old(self).wf(),
            old(self).send_idx > old(self).read_idx,
            old(self).pending_saves < TAG_SAVE_BATCH_SIZE,
        ensures
            final(self).wf(),
            *final(self) == (TaggingPipeline {
                read_idx: (old(self).read_idx + 1) as usize,
                retried_current: false,
                pending_saves: (old(self).pending_saves + 1) as usize,
                ..*old(self)
            }),
            flush == (final(self).pending_saves >= TAG_SAVE_BATCH_SIZE),
            final(self).remaining() < old(self).remaining(),
    {
        self.read_idx = self.read_idx + 1;
        self.retried_current = false;
        self.pending_saves = self.pending_saves + 1;
        self.pending_saves >= TAG_SAVE_BATCH_SIZE
    }

    /// Records that the waiting results were written; returns how many.
    pub fn record_flushed(&mut self) -> (saved: usize)
        requires
            old(self).wf(),
        ensures
            final(self).wf(),
            saved == old(self).pending_saves,
            *final(self) == (TaggingPipeline { pending_saves: 0, ..*old(self) }),
    {
        let saved = self.pending_saves;
        self.pending_saves = 0;
        saved
    }

    /// Records that reading the current result failed (the tagger is then
    /// restarted): everything not yet read is sent again from the current
    /// image's position. On a first failure the current image is tried
    /// again; on a second it is given up and the next one becomes current,
    /// while sending still resumes at the given-up position. Returns whether
    /// the image was given up.
    pub fn record_read_failure(&mut self) -> (gave_up: bool)
        requires
            old(self).wf(),
            old(self).send_idx > old(self).read_idx,
        ensures
            final(self).wf(),
            gave_up == old(self).retried_current,
            *final(self) == if gave_up {
                TaggingPipeline {
                    send_idx: old(self).read_idx,
                    read_idx: (old(self).read_idx + 1) as usize,
                    retried_current: false,
                    ..*old(self)
                }
            } else {
                TaggingPipeline { send_idx: old(self).read_idx, retried_current: true, ..*old(self) }
            },
            final(self).remaining() < old(self).remaining(),
    {
        self.send_idx = self.read_idx;
        if self.retried_current {
            self.read_idx = self.read_idx + 1;
            self.retried_current = false;
            true
        } else {
            self.retried_current = true;
            false
        }
    }

    /// Whether the run stopped with results still on their way, in which case
    /// the tagger is restarted so that a later run does not read them.
    pub fn results_in_flight(&self) -> (r: bool)
        ensures
            r == (self.read_idx < self.total && self.send_idx > self.read_idx),
    {
        self.read_idx < self.total && self.send_idx > self.read_idx
    }
}

/// A full round of the tagging loop (send what fits, then read one result)
/// keeps the bookkeeping in bounds and lowers what is left to do, so the run
/// ends; a round that can send nothing beyond the image read next ends it.
pub proof fn law_round_makes_progress(p: TaggingPipeline, q: TaggingPipeline, read_ok: bool)
    requires
        p.wf(),
        p.send_idx > p.read_idx,
        p.pending_saves < TAG_SAVE_BATCH_SIZE,
        read_ok ==> q == (TaggingPipeline {
            read_idx: (p.read_idx + 1) as usize,
            retried_current: false,
            pending_saves: (p.pending_saves + 1) as usize,
            ..p
        }),
        !read_ok ==> q == if p.retried_current {
            TaggingPipeline {
                send_idx: p.read_idx,
                read_idx: (p.read_idx + 1) as usize,
                retried_current: false,
                ..p
            }
        } else {
            TaggingPipeline { send_idx: p.read_idx, retried_current: true, ..p }
        },
    ensures
        q.wf(),
        q.remaining() < p.remaining(),
{
}

} // verus!
