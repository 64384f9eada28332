use vstd::prelude::*;
use crate::chars::{str_chars, string_from_chars, chars_list_contains};
use crate::csv::{TagDictionaryGroup, parse_selected_tag_sort_index, parse_fallback_groups_from_selected_tags, index_texts, selected_tag_sort_index, selected_tag_groups};
use crate::csv::text_lines;
use crate::dict::pair_texts;
use crate::chars::texts;
use crate::folder_sync::{id_entries, last_id, find_last_id};
use crate::model::TagDictionaryBrowserItem;
use crate::text::str_eq;

verus! {

/// The pairs of a list of string pairs as plain values.
pub open spec fn text_pairs(v: Seq<(String, String)>) -> Seq<(Seq<char>, Seq<char>)> {
    v.map_values(|e: (String, String)| (e.0@, e.1@))
}

/// The translation of `tag` among the dictionary rows: the last non-empty
/// one, as empty translations are never entered.
pub open spec fn translation_of(rows: Seq<(Seq<char>, Seq<char>)>, tag: Seq<char>) -> Option<Seq<char>>
    decreases rows.len(),
{
    if rows.len() == 0 {
        None
    } else if rows.last().0 == tag && rows.last().1.len() > 0 {
        Some(rows.last().1)
    } else {
        translation_of(rows.drop_last(), tag)
    }
}

/// Looks up the translation of `tag` (see [`translation_of`]).
fn find_translation(rows: &Vec<(String, String)>, tag: &str) -> (r: Option<String>)
    ensures
        match r {
            Some(s) => translation_of(text_pairs(rows@), tag@) == Some(s@),
            None => translation_of(text_pairs(rows@), tag@) is None,
        },
{
    let ghost all = text_pairs(rows@);
    let mut i: usize = rows.len();
    proof {
        assert(all.subrange(0, i as int) =~= all);
    }
    while i > 0
        invariant
            i <= rows.len(),
            all == text_pairs(rows@),
            translation_of(all, tag@) == translation_of(all.subrange(0, i as int), tag@),
        decreases i,
    {
        let ghost s = all.subrange(0, i as int);
        proof {
            assert(s.last() == (rows@[i - 1].0@, rows@[i - 1].1@));
            assert(s.drop_last() =~= all.subrange(0, i - 1));
        }
        let value = str_chars(rows[i - 1].1.as_str());
        if str_eq(rows[i - 1].0.as_str(), tag) && value.len() > 0 {
            return Some(string_from_chars(&value));
        }
        i = i - 1;
    }
    None
}

/// The browser entry for a tag of group `group`: its translation, how many
/// library images carry it (0 when unknown) and its place in the tagger's
/// tag list (`i64::MAX` when unknown).
pub open spec fn browser_item_matches(
    item: TagDictionaryBrowserItem,
    tag: Seq<char>,
    group: Seq<char>,
    translations: Seq<(Seq<char>, Seq<char>)>,
    counts: Seq<(Seq<char>, i64)>,
    sort_index: Seq<(Seq<char>, i64)>,
) -> bool {
    &&& item.tag_en@ == tag
    &&& item.group@ == group
    &&& match item.tag_zh {
        Some(z) => translation_of(translations, tag) == Some(z@),
        None => translation_of(translations, tag) is None,
    }
    &&& item.image_count == match last_id(counts, tag) {
        Some(n) => n,
        None => 0,
    }
    &&& item.sort_index == match last_id(sort_index, tag) {
        Some(n) => n,
        None => i64::MAX,
    }
}

/// The entries of the tag dictionary browser, one for each tag of
/// `group_by_tag` (tag, group), in that order (see [`browser_item_matches`]).
pub fn build_tag_dictionary_browser_items(
    group_by_tag: &Vec<(String, String)>,
    translations: &Vec<(String, String)>,
    counts: &Vec<(String, i64)>,
    sort_index: &Vec<(String, i64)>,
) -> (r: Vec<TagDictionaryBrowserItem>)
    ensures
        r.len() == group_by_tag.len(),
        forall|i: int| 0 <= i < r.len() ==> browser_item_matches(
            #[trigger] r@[i],
            group_by_tag@[i].0@,
            group_by_tag@[i].1@,
            text_pairs(translations@),
            id_entries(counts@),
            id_entries(sort_index@),
        ),
{
    let mut r: Vec<TagDictionaryBrowserItem> = Vec::new();
    let mut i: usize = 0;
    while i < group_by_tag.len()
        invariant
            i <= group_by_tag.len(),
            r.len() == i,
            forall|k: int| 0 <= k < i ==> browser_item_matches(
                #[trigger] r@[k],
                group_by_tag@[k].0@,
                group_by_tag@[k].1@,
                text_pairs(translations@),
                id_entries(counts@),
                id_entries(sort_index@),
            ),
        decreases group_by_tag.len() - i,
    {
        let tag = group_by_tag[i].0.as_str();
        let image_count = match find_last_id(counts, tag) {
            Some(n) => n,
            None => 0,
        };
        let index = match find_last_id(sort_index, tag) {
            Some(n) => n,
            None => i64::MAX,
        };
        let item = TagDictionaryBrowserItem {
            tag_en: string_from_chars(&str_chars(tag)),
            tag_zh: find_translation(translations, tag),
            group: string_from_chars(&str_chars(group_by_tag[i].1.as_str())),
            image_count,
            sort_index: index,
        };
        r.push(item);
        i = i + 1;
    }
    r
}

/// The groups added for the group names tags are filed under: each name
/// not yet among `known`, in order, once.
pub open spec fn added_groups(known: Seq<Seq<char>>, names: Seq<Seq<char>>) -> Seq<Seq<char>>
    decreases names.len(),
{
    if names.len() == 0 {
        Seq::empty()
    } else if known.contains(names[0]) {
        added_groups(known, names.drop_first())
    } else {
        seq![names[0]] + added_groups(known.push(names[0]), names.drop_first())
    }
}

/// The ids of a list of groups.
pub open spec fn group_ids(groups: Seq<TagDictionaryGroup>) -> Seq<Seq<char>> {
    groups.map_values(|g: TagDictionaryGroup| g.id@)
}

/// The groups of the tag dictionary: the taxonomy as read, then a group
/// named after each further group name that tags are filed under (see
/// [`added_groups`]), its display name being its id.
pub fn merge_tag_groups(taxonomy: Vec<TagDictionaryGroup>, tag_group_names: &Vec<String>) -> (r: Vec<TagDictionaryGroup>)
    ensures
        r@.subrange(0, taxonomy@.len() as int) == taxonomy@,
        group_ids(r@).subrange(taxonomy@.len() as int, r@.len() as int) == added_groups(
            group_ids(taxonomy@),
            texts(tag_group_names@),
        ),
        forall|i: int| taxonomy@.len() <= i < r@.len() ==> (#[trigger] r@[i]).zh@ == r@[i].id@,
{
    let ghost n0 = taxonomy@.len();
    let ghost names = texts(tag_group_names@);
    let mut seen: Vec<Vec<char>> = Vec::new();
    let mut j: usize = 0;
    while j < taxonomy.len()
        invariant
            j <= taxonomy.len(),
            seen@.map_values(|w: Vec<char>| w@) == group_ids(taxonomy@).subrange(0, j as int),
        decreases taxonomy.len() - j,
    {
        let ghost prev = seen@.map_values(|w: Vec<char>| w@);
        seen.push(str_chars(taxonomy[j].id.as_str()));
        proof {
            assert(seen@.map_values(|w: Vec<char>| w@) =~= prev.push(taxonomy@[j as int].id@));
            assert(group_ids(taxonomy@).subrange(0, j + 1) =~= group_ids(taxonomy@).subrange(
                0,
                j as int,
            ).push(taxonomy@[j as int].id@));
        }
        j = j + 1;
    }
    proof {
        assert(group_ids(taxonomy@).subrange(0, taxonomy@.len() as int) =~= group_ids(taxonomy@));
    }
    let mut r = taxonomy;
    let mut i: usize = 0;
    proof {
        assert(names.subrange(0, 0) =~= Seq::<Seq<char>>::empty());
        assert(group_ids(r@).subrange(n0 as int, r@.len() as int) =~= Seq::<Seq<char>>::empty());
        assert(names.subrange(0, names.len() as int) =~= names);
    }
    while i < tag_group_names.len()
        invariant
            i <= tag_group_names.len(),
            names == texts(tag_group_names@),
            n0 <= r@.len(),
            r@.subrange(0, n0 as int) == taxonomy@,
            forall|k: int| n0 <= k < r@.len() ==> (#[trigger] r@[k]).zh@ == r@[k].id@,
            group_ids(r@).subrange(n0 as int, r@.len() as int) + added_groups(
                seen@.map_values(|w: Vec<char>| w@),
                names.subrange(i as int, names.len() as int),
            ) == added_groups(group_ids(taxonomy@), names),
        decreases tag_group_names.len() - i,
    {
        let ghost known = seen@.map_values(|w: Vec<char>| w@);
        let ghost rest = names.subrange(i as int, names.len() as int);
        let name = str_chars(tag_group_names[i].as_str());
        proof {
            assert(rest[0] == name@);
            assert(rest.drop_first() =~= names.subrange(i + 1, names.len() as int));
        }
        if !chars_list_contains(&seen, &name) {
            let ghost before = group_ids(r@).subrange(n0 as int, r@.len() as int);
            let group = TagDictionaryGroup {
                id: string_from_chars(&name),
                zh: string_from_chars(&name),
            };
            r.push(group);
            seen.push(name);
            proof {
                assert(seen@.map_values(|w: Vec<char>| w@) =~= known.push(name@));
                assert(group_ids(r@).subrange(n0 as int, r@.len() as int) =~= before.push(name@));
                assert(r@.subrange(0, n0 as int) =~= taxonomy@);
                assert(before.push(name@) + added_groups(known.push(name@), rest.drop_first())
                    =~= before + (seq![name@] + added_groups(known.push(name@), rest.drop_first())));
            }
        }
        i = i + 1;
    }
    r
}

/// Every group name that tags are filed under ends up with a group, and the
/// added groups neither repeat a known id nor each other.
pub proof fn law_added_groups_cover_names(known: Seq<Seq<char>>, names: Seq<Seq<char>>)
    ensures
        forall|i: int| 0 <= i < names.len() ==> known.contains(#[trigger] names[i]) || added_groups(
            known,
            names,
        ).contains(names[i]),
        forall|a: int| 0 <= a < added_groups(known, names).len() ==> !known.contains(
            #[trigger] added_groups(known, names)[a],
        ),
        forall|a: int, b: int| 0 <= a < b < added_groups(known, names).len() ==> added_groups(known, names)[a]
            != added_groups(known, names)[b],
    decreases names.len(),
{
    if names.len() > 0 {
        let x = names[0];
        let tail = names.drop_first();
        if known.contains(x) {
            law_added_groups_cover_names(known, tail);
            assert(added_groups(known, names) == added_groups(known, tail));
            assert forall|i: int| 0 <= i < names.len() implies known.contains(#[trigger] names[i])
                || added_groups(known, names).contains(names[i]) by {
                if i > 0 {
                    assert(names[i] == tail[i - 1]);
                }
            }
        } else {
            let k2 = known.push(x);
            law_added_groups_cover_names(k2, tail);
            let rest = added_groups(k2, tail);
            let all = added_groups(known, names);
            assert(all == seq![x] + rest);
            assert(k2.contains(x)) by {
                assert(k2[known.len() as int] == x);
            }
            assert forall|i: int| 0 <= i < names.len() implies known.contains(#[trigger] names[i])
                || all.contains(names[i]) by {
                if i == 0 {
                    assert(all[0] == x);
                } else {
                    assert(names[i] == tail[i - 1]);
                    if k2.contains(names[i]) {
                        let t = choose|t: int| 0 <= t < k2.len() && k2[t] == names[i];
                        if t < known.len() {
                            assert(known[t] == names[i]);
                        } else {
                            assert(all[0] == names[i]);
                        }
                    } else {
                        let t = choose|t: int| 0 <= t < rest.len() && rest[t] == names[i];
                        assert(all[t + 1] == names[i]);
                    }
                }
            }
            assert forall|a: int| 0 <= a < all.len() implies !known.contains(#[trigger] all[a]) by {
                if a > 0 {
                    assert(all[a] == rest[a - 1]);
                    if known.contains(all[a]) {
                        let t = choose|t: int| 0 <= t < known.len() && known[t] == all[a];
                        assert(k2[t] == all[a]);
                    }
                }
            }
            assert forall|a: int, b: int| 0 <= a < b < all.len() implies all[a] != all[b] by {
                assert(all[b] == rest[b - 1]);
                if a == 0 {
                    assert(!k2.contains(rest[b - 1]));
                } else {
                    assert(all[a] == rest[a - 1]);
                }
            }
        }
    }
}


/// The group names of a list of `(tag, group)` entries, in order.
pub open spec fn entry_groups(tags: Seq<(String, String)>) -> Seq<Seq<char>> {
    tags.map_values(|e: (String, String)| e.1@)
}

/// The groups of the tag dictionary browser, the group of each tag and the
/// sort position of each tag. `selected_tags` is the text of the tagger's
/// `selected_tags.csv` when it has one; `tag_groups` the taxonomy and the
/// `(tag, group)` entries of its `tag_groups.json` when it has one. The groups
/// come from `tag_groups.json` (see [`merge_tag_groups`]) when it is there,
/// else from `selected_tags.csv`, else there are none; the sort positions come
/// from `selected_tags.csv`, or there are none.
pub fn load_tag_dictionary_browser_meta(
    selected_tags: &Option<String>,
    tag_groups: Option<(Vec<TagDictionaryGroup>, Vec<(String, String)>)>,
) -> (r: (Vec<TagDictionaryGroup>, Vec<(String, String)>, Vec<(String, i64)>))
    requires
        selected_tags matches Some(c) ==> c@.len() < i64::MAX,
    ensures
        match selected_tags {
            Some(c) => index_texts(r.2@) == selected_tag_sort_index(c@),
            None => r.2@.len() == 0,
        },
        match tag_groups {
            Some((taxonomy, tags)) => {
                &&& r.0@.subrange(0, taxonomy@.len() as int) == taxonomy@
                &&& group_ids(r.0@).subrange(taxonomy@.len() as int, r.0@.len() as int)
                    == added_groups(group_ids(taxonomy@), entry_groups(tags@))
                &&& forall|i: int| taxonomy@.len() <= i < r.0@.len() ==> (#[trigger] r.0@[i]).zh@
                    == r.0@[i].id@
                &&& r.1@ == tags@
            },
            None => match selected_tags {
                Some(c) => {
                    &&& r.0@.len() == 2
                    &&& r.0@[0].id@ == "character"@
                    &&& r.0@[0].zh@ == "\u{89d2}\u{8272}"@
                    &&& r.0@[1].id@ == "general"@
                    &&& r.0@[1].zh@ == "\u{901a}\u{7528}"@
                    &&& pair_texts(r.1@) == selected_tag_groups(
                        text_lines(c@),
                        text_lines(c@).len() as int,
                    )
                },
                None => r.0@.len() == 0 && r.1@.len() == 0,
            },
        },
{
    let sort_index = match selected_tags {
        Some(c) => parse_selected_tag_sort_index(c.as_str()),
        None => Vec::new(),
    };
    match tag_groups {
        Some((taxonomy, tags)) => {
            let mut names: Vec<String> = Vec::new();
            let mut i: usize = 0;
            while i < tags.len()
                invariant
                    i <= tags.len(),
                    texts(names@) == entry_groups(tags@).subrange(0, i as int),
                decreases tags.len() - i,
            {
                let ghost prev = names@;
                let group = tags[i].1.clone();
                names.push(group);
                proof {
                    assert(group@ == tags@[i as int].1@);
                    assert(names@ == prev.push(group));
                    assert(texts(names@) =~= texts(prev).push(group@));
                    assert(entry_groups(tags@)[i as int] == tags@[i as int].1@);
                    assert(entry_groups(tags@).subrange(0, i + 1) =~= entry_groups(tags@).subrange(
                        0,
                        i as int,
                    ).push(entry_groups(tags@)[i as int]));
                }
                i = i + 1;
            }
            proof {
                assert(entry_groups(tags@).subrange(0, tags@.len() as int) =~= entry_groups(tags@));
            }
            let groups = merge_tag_groups(taxonomy, &names);
            (groups, tags, sort_index)
        },
        None => match selected_tags {
            Some(c) => {
                let (groups, by_tag) = parse_fallback_groups_from_selected_tags(c.as_str());
                (groups, by_tag.entries, sort_index)
            },
            None => (Vec::new(), Vec::new(), sort_index),
        },
    }
}

} // verus!
