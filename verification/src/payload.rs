use vstd::prelude::*;
use base64::Engine as _;
use crate::chars::{trim, trim_chars, string_from_range, push_str_chars, has_prefix};
use crate::text::owned_string;

verus! {

/// What the standard base64 engine of the `base64` crate (standard alphabet,
/// padding required) decodes a text to, or `None` when it rejects the text.
pub uninterp spec fn base64_standard_decoded(input: Seq<char>) -> Option<Seq<u8>>;

/// Calls `base64::engine::general_purpose::STANDARD.decode` on the text; the
/// decoded bytes are named by [`base64_standard_decoded`], and a rejected text
/// gives the crate's description of the fault.
#[verifier::external_body]
fn decode_base64_standard(input: &str) -> (r: Result<Vec<u8>, String>)
    ensures
        match base64_standard_decoded(input@) {
            Some(bytes) => r matches Ok(v) && v@ == bytes,
            None => r is Err,
        },
{
    match base64::engine::general_purpose::STANDARD.decode(input) {
        Ok(bytes) => Ok(bytes),
        Err(error) => Err(error.to_string()),
    }
}

/// Position of the first `,` in `s`, if any.
pub open spec fn first_comma(s: Seq<char>) -> Option<int> {
    if exists|i: int| 0 <= i < s.len() && s[i] == ',' {
        Some(choose|i: int| 0 <= i < s.len() && s[i] == ',' && forall|j: int| 0 <= j < i ==> s[j] != ',')
    } else {
        None
    }
}

/// The base64 part of an image text: what follows the first comma of a data
/// URL (`data:image/png;base64,...`), or the whole trimmed text.
pub open spec fn base64_payload(text: Seq<char>) -> Seq<char> {
    let t = trim(text);
    match first_comma(t) {
        Some(i) => t.subrange(i + 1, t.len() as int),
        None => t,
    }
}

/// The prefix of the error reported for a text that is not base64.
pub open spec fn base64_error_prefix() -> Seq<char> {
    "Failed to decode imageBase64: "@
}

/// The image bytes of an external image search: the given bytes when there
/// are any; else, when a non-blank base64 text (or data URL) is given, the
/// bytes it decodes to, or an error when it does not decode; else nothing.
pub fn decode_external_image_payload(image_bytes: Option<Vec<u8>>, image_base64: Option<String>) -> (r: Result<Option<Vec<u8>>, String>)
    ensures
        match image_bytes {
            Some(b) if b@.len() > 0 => r matches Ok(Some(v)) && v@ == b@,
            _ => match image_base64 {
                None => r matches Ok(None),
                Some(text) => if trim(text@).len() == 0 {
                    r matches Ok(None)
                } else {
                    match base64_standard_decoded(base64_payload(text@)) {
                        Some(bytes) => r matches Ok(Some(v)) && v@ == bytes,
                        None => r matches Err(e) && has_prefix(e@, base64_error_prefix()),
                    }
                },
            },
        },
{
    if let Some(bytes) = image_bytes {
        if bytes.len() > 0 {
            return Ok(Some(bytes));
        }
    }
    let raw = match image_base64 {
        None => return Ok(None),
        Some(text) => text,
    };
    let t = trim_chars(raw.as_str());
    if t.len() == 0 {
        return Ok(None);
    }
    let mut comma: usize = 0;
    while comma < t.len() && t[comma] != ','
        invariant
            comma <= t.len(),
            forall|j: int| 0 <= j < comma ==> t@[j] != ',',
        decreases t.len() - comma,
    {
        comma = comma + 1;
    }
    let payload = if comma < t.len() {
        proof {
            let c = choose|i: int| 0 <= i < t@.len() && t@[i] == ',' && forall|j: int| 0 <= j < i ==> t@[j] != ',';
            if c < comma {
            } else if c > comma {
                assert(t@[comma as int] == ',');
            }
        }
        string_from_range(&t, comma + 1, t.len())
    } else {
        let s = string_from_range(&t, 0, t.len());
        proof {
            assert(t@.subrange(0, t@.len() as int) == t@);
        }
        s
    };
    match decode_base64_standard(payload.as_str()) {
        Ok(bytes) => Ok(Some(bytes)),
        Err(error) => {
            let mut message = owned_string("Failed to decode imageBase64: ");
            let ghost prefix = message@;
            push_str_chars(&mut message, error.as_str());
            proof {
                assert(message@.subrange(0, prefix.len() as int) == prefix);
            }
            Err(message)
        },
    }
}

} // verus!
