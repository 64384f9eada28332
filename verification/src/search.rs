use vstd::prelude::*;
use crate::chars::{trim, str_chars, trim_chars, string_from_chars, push_str_chars};
use crate::text::{
    like_escape, escape_like_pattern, unicode_lowercase, to_lowercase, strictly_sorted,
    insert_sorted_unique, strings_from_char_vecs, owned_string,
};
use crate::chars::texts;
use crate::chars::{lower_ascii_seq, lower_ascii_chars, chars_eq_str};

verus! {

/// A `LIKE` pattern matching texts that contain `value`.
pub open spec fn contains_pattern(value: Seq<char>) -> Seq<char> {
    "%"@ + like_escape(value) + "%"@
}

/// A `LIKE` pattern matching texts that start with `value`.
pub open spec fn prefix_pattern(value: Seq<char>) -> Seq<char> {
    like_escape(value) + "%"@
}

/// A `LIKE` pattern matching texts that contain `value` (see
/// [`contains_pattern`]).
pub fn like_contains_pattern(value: &str) -> (r: String)
    ensures
        r@ == contains_pattern(value@),
{
    let mut s = owned_string("%");
    let escaped = escape_like_pattern(value);
    push_str_chars(&mut s, escaped.as_str());
    s.push('%');
    proof {
        reveal_strlit("%");
        assert(s@ =~= contains_pattern(value@));
    }
    s
}

/// A `LIKE` pattern matching texts that start with `value` (see
/// [`prefix_pattern`]).
pub fn like_prefix_pattern(value: &str) -> (r: String)
    ensures
        r@ == prefix_pattern(value@),
{
    let mut s = escape_like_pattern(value);
    s.push('%');
    proof {
        reveal_strlit("%");
        assert(s@ =~= prefix_pattern(value@));
    }
    s
}

/// The file-name filter of a gallery search: the query trimmed and in
/// (Unicode) lower case, as a "contains" pattern; none for a blank query.
pub open spec fn file_name_filter_of(query: Seq<char>) -> Option<Seq<char>> {
    let q = unicode_lowercase(trim(query));
    if q.len() == 0 {
        None
    } else {
        Some(contains_pattern(q))
    }
}

/// The file-name filter of a gallery search (see [`file_name_filter_of`]).
pub fn file_name_filter(query: &str) -> (r: Option<String>)
    ensures
        match file_name_filter_of(query@) {
            Some(p) => r matches Some(s) && s@ == p,
            None => r is None,
        },
{
    let t = string_from_chars(&trim_chars(query));
    let lower = to_lowercase(t.as_str());
    if str_chars(lower.as_str()).len() == 0 {
        None
    } else {
        Some(like_contains_pattern(lower.as_str()))
    }
}

/// The tag filters a gallery search is restricted by, each trimmed, blank
/// ones left out, sorted and kept once: as a set, the trimmed non-blank
/// tags.
pub open spec fn tag_filter_set(tags: Seq<Seq<char>>) -> Set<Seq<char>> {
    Set::new(|t: Seq<char>| t.len() > 0 && exists|i: int| 0 <= i < tags.len() && trim(#[trigger] tags[i]) == t)
}

/// The tag filters of a gallery search (see [`tag_filter_set`]), sorted,
/// each once.
pub fn normalize_tag_filters(tags: &Vec<String>) -> (r: Vec<String>)
    ensures
        strictly_sorted(texts(r@)),
        texts(r@).to_set() == tag_filter_set(texts(tags@)),
{
    let ghost all = texts(tags@);
    let mut sorted: Vec<Vec<char>> = Vec::new();
    let mut i: usize = 0;
    proof {
        assert(sorted@.map_values(|w: Vec<char>| w@).to_set() =~= tag_filter_set(all.subrange(0, 0)));
    }
    while i < tags.len()
        invariant
            i <= tags.len(),
            all == texts(tags@),
            strictly_sorted(sorted@.map_values(|w: Vec<char>| w@)),
            sorted@.map_values(|w: Vec<char>| w@).to_set() == tag_filter_set(all.subrange(0, i as int)),
        decreases tags.len() - i,
    {
        let ghost before = tag_filter_set(all.subrange(0, i as int));
        let ghost after = tag_filter_set(all.subrange(0, i + 1));
        let ghost x = trim(all[i as int]);
        let t = trim_chars(tags[i].as_str());
        proof {
            assert(all[i as int] == tags@[i as int]@);
            let sub = all.subrange(0, i as int);
            let sub2 = all.subrange(0, i + 1);
            assert forall|u: Seq<char>| after.contains(u) <==> (before.contains(u) || (u == x && x.len() > 0)) by {
                if after.contains(u) {
                    let k = choose|k: int| 0 <= k < sub2.len() && trim(#[trigger] sub2[k]) == u;
                    if k < i {
                        assert(sub[k] == sub2[k]);
                    }
                }
                if before.contains(u) {
                    let k = choose|k: int| 0 <= k < sub.len() && trim(#[trigger] sub[k]) == u;
                    assert(sub2[k] == sub[k]);
                }
                if u == x && x.len() > 0 {
                    assert(sub2[i as int] == all[i as int]);
                }
            }
        }
        if t.len() > 0 {
            let ghost prev = sorted@.map_values(|w: Vec<char>| w@).to_set();
            insert_sorted_unique(&mut sorted, t);
            proof {
                assert(after =~= before.insert(x));
            }
        } else {
            proof {
                assert(after =~= before);
            }
        }
        i = i + 1;
    }
    proof {
        assert(all.subrange(0, tags@.len() as int) =~= all);
    }
    let r = strings_from_char_vecs(&sorted);
    proof {
        assert(texts(r@) == sorted@.map_values(|w: Vec<char>| w@));
    }
    r
}

/// How a tag suggestion lookup is run: the keyword in (Unicode) lower case
/// as a "contains" and a "starts with" pattern, and the number of
/// suggestions (20 unless asked, clamped to 1 ..= 80). A blank query is
/// looked up not at all.
pub open spec fn suggestion_lookup_of(query: Seq<char>, limit: Option<i64>) -> Option<(Seq<char>, Seq<char>, i64)> {
    let keyword = trim(query);
    if keyword.len() == 0 {
        None
    } else {
        let lower = unicode_lowercase(keyword);
        let n = match limit {
            Some(n) => n,
            None => 20,
        };
        Some((contains_pattern(lower), prefix_pattern(lower), if n < 1 {
            1
        } else if n > 80 {
            80
        } else {
            n
        }))
    }
}

/// How a tag suggestion lookup is run (see [`suggestion_lookup_of`]).
pub fn suggestion_lookup(query: &str, limit: Option<i64>) -> (r: Option<(String, String, i64)>)
    ensures
        match suggestion_lookup_of(query@, limit) {
            Some((a, b, n)) => r matches Some(t) && t.0@ == a && t.1@ == b && t.2 == n,
            None => r is None,
        },
{
    let keyword = trim_chars(query);
    if keyword.len() == 0 {
        return None;
    }
    let lower = to_lowercase(string_from_chars(&keyword).as_str());
    let n = match limit {
        Some(n) => n,
        None => 20,
    };
    let clamped = if n < 1 {
        1
    } else if n > 80 {
        80
    } else {
        n
    };
    Some((like_contains_pattern(lower.as_str()), like_prefix_pattern(lower.as_str()), clamped))
}

/// Normalizing tag filters that are already normalized changes nothing: the
/// filters kept are trimmed and non-blank, so they are their own set.
pub proof fn law_tag_filters_stable(tags: Seq<Seq<char>>, kept: Seq<Seq<char>>)
    requires
        kept.to_set() == tag_filter_set(tags),
    ensures
        tag_filter_set(kept) == tag_filter_set(tags),
{
    assert forall|t: Seq<char>| tag_filter_set(kept).contains(t) <==> tag_filter_set(tags).contains(t) by {
        if tag_filter_set(kept).contains(t) {
            let i = choose|i: int| 0 <= i < kept.len() && trim(#[trigger] kept[i]) == t;
            assert(kept.to_set().contains(kept[i]));
            let j = choose|j: int| 0 <= j < tags.len() && trim(#[trigger] tags[j]) == kept[i];
            crate::chars::law_trim_idempotent(tags[j]);
        }
        if tag_filter_set(tags).contains(t) {
            assert(kept.to_set().contains(t));
            let i = choose|i: int| 0 <= i < kept.len() && kept[i] == t;
            let j = choose|j: int| 0 <= j < tags.len() && trim(#[trigger] tags[j]) == t;
            crate::chars::law_trim_idempotent(tags[j]);
            assert(trim(kept[i]) == t);
        }
    }
    assert(tag_filter_set(kept) =~= tag_filter_set(tags));
}

/// How an external image is compared with the library: by colour, by
/// atmosphere, or by the image encoder's vectors.
#[derive(Clone, Copy, Debug, PartialEq, Eq)]
pub enum ExternalSearchMode {
    Color,
    Atmosphere,
    Vector,
}

/// The comparison asked for: the search type trimmed and in ASCII lower
/// case, `color` and `atmosphere` naming those comparisons; anything else,
/// a blank type or none compares by vectors.
pub open spec fn external_search_mode_of(search_type: Option<Seq<char>>) -> ExternalSearchMode {
    match search_type {
        Some(t) => {
            let m = lower_ascii_seq(trim(t));
            if m == "color"@ {
                ExternalSearchMode::Color
            } else if m == "atmosphere"@ {
                ExternalSearchMode::Atmosphere
            } else {
                ExternalSearchMode::Vector
            }
        },
        None => ExternalSearchMode::Vector,
    }
}

/// The comparison an external image search asks for (see
/// [`external_search_mode_of`]).
pub fn external_search_mode(search_type: &Option<String>) -> (r: ExternalSearchMode)
    ensures
        r == external_search_mode_of(match search_type {
            Some(t) => Some(t@),
            None => None,
        }),
{
    match search_type {
        Some(t) => {
            let m = lower_ascii_chars(&trim_chars(t.as_str()));
            proof {
                reveal_strlit("color");
                reveal_strlit("atmosphere");
            }
            if chars_eq_str(&m, "color") {
                ExternalSearchMode::Color
            } else if chars_eq_str(&m, "atmosphere") {
                ExternalSearchMode::Atmosphere
            } else {
                ExternalSearchMode::Vector
            }
        },
        None => ExternalSearchMode::Vector,
    }
}

} // verus!
