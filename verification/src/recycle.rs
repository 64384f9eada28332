use vstd::prelude::*;
use crate::chars::push_str_chars;
use crate::text::{owned_string, str_eq, is_permission_denied_error_text, permission_denied_text};

verus! {

/// Why an image may not go to the system recycle bin, if it may not: it is
/// not indexed (`row` is `None`), it is not a library image, it is not in
/// the application's own recycle bin yet, or its file is gone. `row` holds the
/// image's source and its trashed flag.
pub open spec fn system_trash_refusal_of(row: Option<(Seq<char>, i64)>, file_exists: bool) -> Option<Seq<char>> {
    match row {
        None => Some("Image not found"@),
        Some((source, trashed)) => if source != "library"@ {
            Some("Only library images can be moved to system recycle bin"@)
        } else if trashed == 0 {
            Some("Image must be in app recycle bin before moving to system recycle bin"@)
        } else if !file_exists {
            Some("\u{6e90}\u{6587}\u{4ef6}\u{4e0d}\u{5b58}\u{5728}\u{ff0c}\u{65e0}\u{6cd5}\u{79fb}\u{5165}\u{7cfb}\u{7edf}\u{56de}\u{6536}\u{7ad9}\u{3002}"@)
        } else {
            None
        },
    }
}

/// Why an image may not go to the system recycle bin (see
/// [`system_trash_refusal_of`]); `None` when it may.
pub fn system_trash_refusal(row: &Option<(String, i64)>, file_exists: bool) -> (r: Option<String>)
    ensures
        match system_trash_refusal_of(
            match row {
                Some(p) => Some((p.0@, p.1)),
                None => None,
            },
            file_exists,
        ) {
            Some(m) => r matches Some(s) && s@ == m,
            None => r is None,
        },
{
    match row {
        None => Some(owned_string("Image not found")),
        Some(p) => {
            if !str_eq(p.0.as_str(), "library") {
                Some(owned_string("Only library images can be moved to system recycle bin"))
            } else if p.1 == 0 {
                Some(owned_string("Image must be in app recycle bin before moving to system recycle bin"))
            } else if !file_exists {
                Some(owned_string("\u{6e90}\u{6587}\u{4ef6}\u{4e0d}\u{5b58}\u{5728}\u{ff0c}\u{65e0}\u{6cd5}\u{79fb}\u{5165}\u{7cfb}\u{7edf}\u{56de}\u{6536}\u{7ad9}\u{3002}"))
            } else {
                None
            }
        },
    }
}

/// The message shown when the system recycle bin refused a file: a short
/// "no permission" message when the error reports missing permission (see
/// [`permission_denied_text`]), otherwise "moving to the system recycle bin
/// failed: " followed by the error.
pub open spec fn recycle_bin_failure_of(error_text: Seq<char>) -> Seq<char> {
    if permission_denied_text(error_text) {
        "\u{65e0}\u{6743}\u{9650}\u{ff0c}\u{65e0}\u{6cd5}\u{79fb}\u{5165}\u{7cfb}\u{7edf}\u{56de}\u{6536}\u{7ad9}\u{3002}"@
    } else {
        "\u{79fb}\u{52a8}\u{5230}\u{7cfb}\u{7edf}\u{56de}\u{6536}\u{7ad9}\u{5931}\u{8d25}\u{ff1a}"@ + error_text
    }
}

/// The message shown when the system recycle bin refused a file (see
/// [`recycle_bin_failure_of`]).
pub fn recycle_bin_failure_message(error_text: &str) -> (r: String)
    ensures
        r@ == recycle_bin_failure_of(error_text@),
{
    if is_permission_denied_error_text(error_text) {
        owned_string("\u{65e0}\u{6743}\u{9650}\u{ff0c}\u{65e0}\u{6cd5}\u{79fb}\u{5165}\u{7cfb}\u{7edf}\u{56de}\u{6536}\u{7ad9}\u{3002}")
    } else {
        let mut s = owned_string("\u{79fb}\u{52a8}\u{5230}\u{7cfb}\u{7edf}\u{56de}\u{6536}\u{7ad9}\u{5931}\u{8d25}\u{ff1a}");
        push_str_chars(&mut s, error_text);
        s
    }
}

/// The outcome of moving a batch of images to the system recycle bin: how
/// many moved, which failed (in order), and the first error met.
pub struct BatchTrashTally {
    pub moved_count: usize,
    pub failed_image_ids: Vec<String>,
    pub first_error: Option<String>,
}

impl BatchTrashTally {
    /// A tally of nothing done yet.
    pub fn new() -> (r: Self)
        ensures
            r.moved_count == 0,
            r.failed_image_ids@.len() == 0,
            r.first_error is None,
    {
        BatchTrashTally { moved_count: 0, failed_image_ids: Vec::new(), first_error: None }
    }

    /// Counts one image moved.
    pub fn record_moved(&mut self)
        requires
            old(self).moved_count < usize::MAX,
        ensures
            final(self).moved_count == old(self).moved_count + 1,
            final(self).failed_image_ids == old(self).failed_image_ids,
            final(self).first_error == old(self).first_error,
    {
        self.moved_count = self.moved_count + 1;
    }

    /// Counts one image that failed with `error`: it joins the failed ids,
    /// and `error` becomes the first error unless there already is one.
    pub fn record_failure(&mut self, image_id: String, error: String)
        ensures
            final(self).moved_count == old(self).moved_count,
            final(self).failed_image_ids@ == old(self).failed_image_ids@.push(image_id),
            final(self).first_error == match old(self).first_error {
                Some(e) => Some(e),
                None => Some(error),
            },
    {
        self.failed_image_ids.push(image_id);
        if self.first_error.is_none() {
            self.first_error = Some(error);
        }
    }
}

} // verus!
