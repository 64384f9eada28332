use vstd::prelude::*;
use crate::chars::{trim, str_chars, trim_chars, string_from_chars, chars_list_contains};
use crate::model::BatchSupplementTagInput;
use crate::chars::texts;
use crate::text::{normalized_ids, normalize_batch_image_ids, normalize_optional_tag_text, unicode_lowercase, to_lowercase};

verus! {

/// The custom tags added to a batch of images: trimmed, blank ones left out,
/// each kept once at its first occurrence (see [`normalized_ids`]).
pub fn normalize_batch_custom_tags(custom_tags: Vec<String>) -> (r: Vec<String>)
    ensures
        texts(r@) == normalized_ids(texts(custom_tags@)),
{
    normalize_batch_image_ids(custom_tags)
}

/// A translation trimmed; blank ones count as none.
pub open spec fn optional_tag_text(value: Option<Seq<char>>) -> Option<Seq<char>> {
    match value {
        None => None,
        Some(v) => if trim(v).len() == 0 {
            None
        } else {
            Some(trim(v))
        },
    }
}

/// A supplement tag as plain values: its English tag and its translation.
pub open spec fn supplement_view(t: BatchSupplementTagInput) -> (Seq<char>, Option<Seq<char>>) {
    (
        t.tag_en@,
        match t.tag_zh {
            Some(z) => Some(z@),
            None => None,
        },
    )
}

/// The supplement tags added to a batch of images: English tags trimmed,
/// blank ones left out, and each kept once at its first occurrence, tags
/// that differ only in (Unicode) case counting as one; translations trimmed,
/// blank ones dropped.
pub open spec fn normalized_supplements(tags: Seq<(Seq<char>, Option<Seq<char>>)>) -> Seq<(Seq<char>, Option<Seq<char>>)>
    decreases tags.len(),
{
    if tags.len() == 0 {
        Seq::empty()
    } else {
        let prev = normalized_supplements(tags.drop_last());
        let en = trim(tags.last().0);
        if en.len() == 0 || supplement_keys(prev).contains(unicode_lowercase(en)) {
            prev
        } else {
            prev.push((en, optional_tag_text(tags.last().1)))
        }
    }
}

/// The case-folded English tags of a list of supplement tags, by which
/// repeats are found.
pub open spec fn supplement_keys(tags: Seq<(Seq<char>, Option<Seq<char>>)>) -> Seq<Seq<char>> {
    tags.map_values(|t: (Seq<char>, Option<Seq<char>>)| unicode_lowercase(t.0))
}

/// The supplement tags of the result as plain values.
pub open spec fn supplement_pairs(v: Seq<(String, Option<String>)>) -> Seq<(Seq<char>, Option<Seq<char>>)> {
    v.map_values(|p: (String, Option<String>)| (
        p.0@,
        match p.1 {
            Some(z) => Some(z@),
            None => None,
        },
    ))
}

/// The supplement tags added to a batch of images (see
/// [`normalized_supplements`]).
pub fn normalize_batch_supplement_tags(supplement_tags: Vec<BatchSupplementTagInput>) -> (r: Vec<(String, Option<String>)>)
    ensures
        supplement_pairs(r@) == normalized_supplements(supplement_tags@.map_values(
            |t: BatchSupplementTagInput| supplement_view(t),
        )),
{
    let ghost all = supplement_tags@.map_values(|t: BatchSupplementTagInput| supplement_view(t));
    let mut r: Vec<(String, Option<String>)> = Vec::new();
    let mut keys: Vec<Vec<char>> = Vec::new();
    let mut i: usize = 0;
    let n = supplement_tags.len();
    let tags = supplement_tags;
    proof {
        assert(all.subrange(0, 0) =~= Seq::<(Seq<char>, Option<Seq<char>>)>::empty());
    }
    while i < n
        invariant
            i <= n,
            n == tags.len(),
            all == tags@.map_values(|t: BatchSupplementTagInput| supplement_view(t)),
            supplement_pairs(r@) == normalized_supplements(all.subrange(0, i as int)),
            keys@.map_values(|w: Vec<char>| w@) == supplement_keys(supplement_pairs(r@)),
        decreases n - i,
    {
        let ghost prefix = all.subrange(0, i + 1);
        proof {
            assert(prefix.drop_last() =~= all.subrange(0, i as int));
            assert(prefix.last() == supplement_view(tags@[i as int]));
        }
        let en = trim_chars(tags[i].tag_en.as_str());
        if en.len() > 0 {
            let en_string = string_from_chars(&en);
            let key = str_chars(to_lowercase(en_string.as_str()).as_str());
            if !chars_list_contains(&keys, &key) {
                let zh = normalize_optional_tag_text(tags[i].tag_zh.clone());
                proof {
                    assert(optional_tag_text(prefix.last().1) == match zh {
                        Some(z) => Some(z@),
                        None => None::<Seq<char>>,
                    }) by {
                        match tags@[i as int].tag_zh {
                            Some(z) => {},
                            None => {},
                        }
                    }
                }
                let ghost prev_pairs = supplement_pairs(r@);
                let ghost prev_keys = keys@.map_values(|w: Vec<char>| w@);
                r.push((en_string, zh));
                keys.push(key);
                proof {
                    assert(supplement_pairs(r@) =~= prev_pairs.push(
                        (en@, optional_tag_text(prefix.last().1)),
                    ));
                    assert(keys@.map_values(|w: Vec<char>| w@) =~= prev_keys.push(unicode_lowercase(en@)));
                    assert(supplement_keys(supplement_pairs(r@)) =~= supplement_keys(prev_pairs).push(
                        unicode_lowercase(en@),
                    ));
                }
            }
        }
        i = i + 1;
    }
    proof {
        assert(all.subrange(0, n as int) =~= all);
    }
    r
}

/// A name or tag as entered, trimmed; blank is refused with `empty_error`.
pub open spec fn required_text_of(value: Seq<char>, empty_error: Seq<char>) -> Result<Seq<char>, Seq<char>> {
    if trim(value).len() == 0 {
        Err(empty_error)
    } else {
        Ok(trim(value))
    }
}

/// A name or tag as entered (see [`required_text_of`]).
fn required_text(value: &str, empty_error: &str) -> (r: Result<String, String>)
    ensures
        match required_text_of(value@, empty_error@) {
            Ok(t) => r matches Ok(s) && s@ == t,
            Err(e) => r matches Err(s) && s@ == e,
        },
{
    let t = trim_chars(value);
    if t.len() == 0 {
        Err(crate::text::owned_string(empty_error))
    } else {
        Ok(string_from_chars(&t))
    }
}

/// The name of a user folder as entered ("enter a folder name" when blank).
pub fn user_folder_name(name: &str) -> (r: Result<String, String>)
    ensures
        match required_text_of(name@, "\u{8bf7}\u{8f93}\u{5165}\u{6587}\u{4ef6}\u{5939}\u{540d}\u{79f0}"@) {
            Ok(t) => r matches Ok(s) && s@ == t,
            Err(e) => r matches Err(s) && s@ == e,
        },
{
    required_text(name, "\u{8bf7}\u{8f93}\u{5165}\u{6587}\u{4ef6}\u{5939}\u{540d}\u{79f0}")
}

/// The name of a reference board as entered ("enter a board name" when
/// blank).
pub fn reference_board_name(name: &str) -> (r: Result<String, String>)
    ensures
        match required_text_of(name@, "\u{8bf7}\u{8f93}\u{5165}\u{53c2}\u{8003}\u{677f}\u{540d}\u{79f0}"@) {
            Ok(t) => r matches Ok(s) && s@ == t,
            Err(e) => r matches Err(s) && s@ == e,
        },
{
    required_text(name, "\u{8bf7}\u{8f93}\u{5165}\u{53c2}\u{8003}\u{677f}\u{540d}\u{79f0}")
}

/// The name of a reference board folder as entered ("enter a board folder
/// name" when blank).
pub fn reference_board_folder_name(name: &str) -> (r: Result<String, String>)
    ensures
        match required_text_of(
            name@,
            "\u{8bf7}\u{8f93}\u{5165}\u{53c2}\u{8003}\u{677f}\u{6587}\u{4ef6}\u{5939}\u{540d}\u{79f0}"@,
        ) {
            Ok(t) => r matches Ok(s) && s@ == t,
            Err(e) => r matches Err(s) && s@ == e,
        },
{
    required_text(name, "\u{8bf7}\u{8f93}\u{5165}\u{53c2}\u{8003}\u{677f}\u{6587}\u{4ef6}\u{5939}\u{540d}\u{79f0}")
}

/// The name of a tag folder as entered.
pub fn tag_folder_name(name: &str) -> (r: Result<String, String>)
    ensures
        match required_text_of(name@, "Folder name cannot be empty"@) {
            Ok(t) => r matches Ok(s) && s@ == t,
            Err(e) => r matches Err(s) && s@ == e,
        },
{
    required_text(name, "Folder name cannot be empty")
}

/// A user tag as entered in tag management.
pub fn managed_tag_text(tag: &str) -> (r: Result<String, String>)
    ensures
        match required_text_of(tag@, "Tag cannot be empty"@) {
            Ok(t) => r matches Ok(s) && s@ == t,
            Err(e) => r matches Err(s) && s@ == e,
        },
{
    required_text(tag, "Tag cannot be empty")
}

/// A tag as entered for one image.
pub fn image_tag_text(tag: &str) -> (r: Result<String, String>)
    ensures
        match required_text_of(tag@, "Tag text cannot be empty"@) {
            Ok(t) => r matches Ok(s) && s@ == t,
            Err(e) => r matches Err(s) && s@ == e,
        },
{
    required_text(tag, "Tag text cannot be empty")
}

/// Each supplement tag kept is non-blank, and no two of them differ only in
/// case.
pub proof fn law_supplements_distinct(tags: Seq<(Seq<char>, Option<Seq<char>>)>)
    ensures
        forall|a: int, b: int| 0 <= a < b < normalized_supplements(tags).len() ==> supplement_keys(
            normalized_supplements(tags),
        )[a] != supplement_keys(normalized_supplements(tags))[b],
        forall|a: int| 0 <= a < normalized_supplements(tags).len() ==> (#[trigger] normalized_supplements(tags)[a]).0.len() > 0,
    decreases tags.len(),
{
    if tags.len() > 0 {
        law_supplements_distinct(tags.drop_last());
        let prev = normalized_supplements(tags.drop_last());
        let en = trim(tags.last().0);
        if !(en.len() == 0 || supplement_keys(prev).contains(unicode_lowercase(en))) {
            let cur = prev.push((en, optional_tag_text(tags.last().1)));
            assert(supplement_keys(cur) =~= supplement_keys(prev).push(unicode_lowercase(en)));
            assert forall|a: int, b: int| 0 <= a < b < cur.len() implies supplement_keys(cur)[a] != supplement_keys(cur)[b] by {
                if b == cur.len() - 1 {
                    assert(supplement_keys(prev)[a] == supplement_keys(cur)[a]);
                } else {
                    assert(supplement_keys(prev)[a] == supplement_keys(cur)[a]);
                    assert(supplement_keys(prev)[b] == supplement_keys(cur)[b]);
                }
            }
            assert forall|a: int| 0 <= a < cur.len() implies (#[trigger] cur[a]).0.len() > 0 by {
                if a < prev.len() {
                    assert(cur[a] == prev[a]);
                }
            }
        }
    }
}

/// An accepted name or tag is non-blank and already trimmed.
pub proof fn law_required_text_trimmed(value: Seq<char>, empty_error: Seq<char>)
    ensures
        required_text_of(value, empty_error) matches Ok(t) ==> t.len() > 0 && trim(t) == t,
{
    crate::chars::law_trim_idempotent(value);
}

} // verus!
