use vstd::prelude::*;
use crate::chars::{trim, has_prefix, trim_chars, str_chars, chars_have_prefix, string_from_chars};
use crate::text::owned_string;

verus! {

/// Whether an external link may be opened: only the project's own page, over
/// `https` or `http`.
pub open spec fn allowed_url(url: Seq<char>) -> bool {
    has_prefix(url, "https://github.com/YazawaSunrise/illuTag"@) || has_prefix(
        url,
        "http://github.com/YazawaSunrise/illuTag"@,
    )
}

/// The link to open: the URL trimmed, when it is allowed (see
/// [`allowed_url`]); an error otherwise.
pub open spec fn external_url_of(url: Seq<char>) -> Result<Seq<char>, Seq<char>> {
    if allowed_url(trim(url)) {
        Ok(trim(url))
    } else {
        Err("Unsupported external URL"@)
    }
}

/// The link to open (see [`external_url_of`]).
pub fn checked_external_url(url: &str) -> (r: Result<String, String>)
    ensures
        match external_url_of(url@) {
            Ok(u) => r matches Ok(s) && s@ == u,
            Err(e) => r matches Err(s) && s@ == e,
        },
{
    let t = trim_chars(url);
    let https = str_chars("https://github.com/YazawaSunrise/illuTag");
    let http = str_chars("http://github.com/YazawaSunrise/illuTag");
    if chars_have_prefix(&t, &https) || chars_have_prefix(&t, &http) {
        Ok(string_from_chars(&t))
    } else {
        Err(owned_string("Unsupported external URL"))
    }
}

} // verus!
