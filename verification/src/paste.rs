use vstd::prelude::*;
use crate::chars::{has_prefix, push_str_chars};
use crate::model::ReferenceBoardPasteImageInput;
use crate::text::{clipboard_extension, clipboard_image_extension, owned_string};

verus! {

/// The width and height of the image that the `image` crate decodes from
/// `bytes` (format guessed from the bytes), or `None` when it cannot decode
/// them.
pub uninterp spec fn decoded_image_size(bytes: Seq<u8>) -> Option<(u32, u32)>;

/// Calls `image::load_from_memory` on the bytes and reads the width and
/// height of the decoded image; the size is named by
/// [`decoded_image_size`], and bytes it cannot decode give the crate's
/// description of the fault.
#[verifier::external_body]
fn decode_image_size(bytes: &[u8]) -> (r: Result<(u32, u32), String>)
    ensures
        match decoded_image_size(bytes@) {
            Some(d) => r matches Ok(v) && v == d,
            None => r is Err,
        },
{
    match image::load_from_memory(bytes) {
        Ok(decoded) => Ok((decoded.width(), decoded.height())),
        Err(error) => Err(error.to_string()),
    }
}

/// A pasted image ready to be saved: its bytes, the file extension its MIME
/// type calls for, and its size in pixels.
pub struct PreparedPastedImage {
    pub image_bytes: Vec<u8>,
    pub extension: String,
    pub width: u32,
    pub height: u32,
}

/// The error for a paste without image data.
pub open spec fn no_paste_data_error() -> Seq<char> {
    "No image data to paste"@
}

/// The start of the error for a pasted image that does not decode.
pub open spec fn paste_decode_error_prefix() -> Seq<char> {
    "Failed to read pasted reference image: "@
}

/// A pasted image can be used: it has bytes, and they decode.
pub open spec fn paste_usable(image: ReferenceBoardPasteImageInput) -> bool {
    image.image_bytes@.len() > 0 && decoded_image_size(image.image_bytes@) is Some
}

/// The images pasted at once, ready to be saved, in order. An empty paste
/// is refused, and so is the paste as a whole at its first image that has no
/// bytes (the same error) or does not decode (an error naming the fault).
pub fn prepare_pasted_reference_images(images: Vec<ReferenceBoardPasteImageInput>) -> (r: Result<Vec<PreparedPastedImage>, String>)
    ensures
        images@.len() == 0 ==> (r matches Err(e) && e@ == no_paste_data_error()),
        images@.len() > 0 && (forall|i: int| 0 <= i < images@.len() ==> #[trigger] paste_usable(images@[i]))
            ==> r is Ok,
        r matches Ok(v) ==> {
            &&& v@.len() == images@.len()
            &&& forall|i: int| 0 <= i < v@.len() ==> {
                &&& (#[trigger] v@[i]).image_bytes@ == images@[i].image_bytes@
                &&& v@[i].extension@ == clipboard_extension(images@[i].mime_type@)
                &&& decoded_image_size(images@[i].image_bytes@) == Some((v@[i].width, v@[i].height))
            }
        },
        r matches Err(e) ==> images@.len() == 0 || exists|k: int| {
            &&& 0 <= k < images@.len()
            &&& (forall|j: int| 0 <= j < k ==> #[trigger] paste_usable(images@[j]))
            &&& !paste_usable(images@[k])
            &&& images@[k].image_bytes@.len() == 0 ==> e@ == no_paste_data_error()
            &&& images@[k].image_bytes@.len() > 0 ==> has_prefix(e@, paste_decode_error_prefix())
        },
{
    if images.len() == 0 {
        return Err(owned_string("No image data to paste"));
    }
    let ghost input = images@;
    let mut prepared: Vec<PreparedPastedImage> = Vec::new();
    let mut rest = images;
    let mut k: usize = 0;
    let n = rest.len();
    while k < n
        invariant
            n == input.len(),
            input == images@,
            k <= n,
            rest@.len() == n,
            forall|j: int| 0 <= j < n ==> (#[trigger] rest@[j]).mime_type@ == input[j].mime_type@
                && (j >= k ==> rest@[j].image_bytes@ == input[j].image_bytes@),
            prepared@.len() == k,
            forall|j: int| 0 <= j < k ==> #[trigger] paste_usable(input[j]),
            forall|j: int| 0 <= j < k ==> {
                &&& (#[trigger] prepared@[j]).image_bytes@ == input[j].image_bytes@
                &&& prepared@[j].extension@ == clipboard_extension(input[j].mime_type@)
                &&& decoded_image_size(input[j].image_bytes@) == Some((prepared@[j].width, prepared@[j].height))
            },
        decreases n - k,
    {
        if rest[k].image_bytes.len() == 0 {
            proof {
                assert(!paste_usable(input[k as int]));
            }
            return Err(owned_string("No image data to paste"));
        }
        let size = decode_image_size(rest[k].image_bytes.as_slice());
        match size {
            Err(fault) => {
                let mut e = owned_string("Failed to read pasted reference image: ");
                push_str_chars(&mut e, fault.as_str());
                proof {
                    assert(!paste_usable(input[k as int]));
                    let pre = paste_decode_error_prefix();
                    assert(e@.subrange(0, pre.len() as int) =~= pre);
                    assert(has_prefix(e@, pre));
                }
                return Err(e);
            },
            Ok((width, height)) => {
                let extension = owned_string(clipboard_image_extension(rest[k].mime_type.as_str()));
                let mut bytes: Vec<u8> = Vec::new();
                std::mem::swap(&mut bytes, &mut rest[k].image_bytes);
                prepared.push(PreparedPastedImage { image_bytes: bytes, extension, width, height });
            },
        }
        k = k + 1;
    }
    Ok(prepared)
}

/// The error for a single paste without image data ("the clipboard holds
/// no usable image data").
pub open spec fn no_clipboard_image_error() -> Seq<char> {
    "\u{526a}\u{8d34}\u{677f}\u{91cc}\u{6ca1}\u{6709}\u{53ef}\u{7528}\u{7684}\u{56fe}\u{7247}\u{6570}\u{636e}"@
}

/// The start of the error for a single pasted image that does not decode
/// ("reading the clipboard image failed: ").
pub open spec fn clipboard_decode_error_prefix() -> Seq<char> {
    "\u{8bfb}\u{53d6}\u{526a}\u{8d34}\u{677f}\u{56fe}\u{7247}\u{5931}\u{8d25}\u{ff1a}"@
}

/// One image pasted from the clipboard, ready to be saved: refused when it
/// has no bytes, or when they do not decode (an error naming the fault).
pub fn prepare_pasted_reference_image(image: ReferenceBoardPasteImageInput) -> (r: Result<PreparedPastedImage, String>)
    ensures
        image.image_bytes@.len() == 0 ==> (r matches Err(e) && e@ == no_clipboard_image_error()),
        image.image_bytes@.len() > 0 ==> match decoded_image_size(image.image_bytes@) {
            Some((w, h)) => r matches Ok(p) && p.image_bytes@ == image.image_bytes@ && p.width == w
                && p.height == h && p.extension@ == clipboard_extension(image.mime_type@),
            None => r matches Err(e) && has_prefix(e@, clipboard_decode_error_prefix()),
        },
{
    if image.image_bytes.len() == 0 {
        return Err(owned_string("\u{526a}\u{8d34}\u{677f}\u{91cc}\u{6ca1}\u{6709}\u{53ef}\u{7528}\u{7684}\u{56fe}\u{7247}\u{6570}\u{636e}"));
    }
    match decode_image_size(image.image_bytes.as_slice()) {
        Err(fault) => {
            let mut e = owned_string("\u{8bfb}\u{53d6}\u{526a}\u{8d34}\u{677f}\u{56fe}\u{7247}\u{5931}\u{8d25}\u{ff1a}");
            push_str_chars(&mut e, fault.as_str());
            proof {
                let pre = clipboard_decode_error_prefix();
                assert(e@.subrange(0, pre.len() as int) =~= pre);
            }
            Err(e)
        },
        Ok((width, height)) => {
            let extension = owned_string(clipboard_image_extension(image.mime_type.as_str()));
            Ok(PreparedPastedImage { image_bytes: image.image_bytes, extension, width, height })
        },
    }
}

} // verus!
