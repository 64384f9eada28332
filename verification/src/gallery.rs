use vstd::prelude::*;
use crate::chars::{trim, trim_chars, string_from_chars};
use crate::chars::texts;
use crate::folder_sync::{last_index_before, last_index_before_exec};

verus! {

/// The largest page of gallery images served at once.
pub const LARGE_LIBRARY_INITIAL_IMAGE_LIMIT: i64 = 5000;

/// The offset of a page: negative offsets count as 0.
pub open spec fn page_offset(offset: i64) -> int {
    if offset < 0 {
        0
    } else {
        offset as int
    }
}

/// The size of a page: clamped to 1 ..= [`LARGE_LIBRARY_INITIAL_IMAGE_LIMIT`].
pub open spec fn page_limit(limit: i64) -> int {
    if limit < 1 {
        1
    } else if limit > LARGE_LIBRARY_INITIAL_IMAGE_LIMIT {
        LARGE_LIBRARY_INITIAL_IMAGE_LIMIT as int
    } else {
        limit as int
    }
}

/// The texts of `ids` trimmed, blank ones left out.
pub open spec fn trimmed_nonblank(ids: Seq<Seq<char>>) -> Seq<Seq<char>>
    decreases ids.len(),
{
    if ids.len() == 0 {
        Seq::empty()
    } else {
        let rest = trimmed_nonblank(ids.drop_last());
        if trim(ids.last()).len() > 0 {
            rest.push(trim(ids.last()))
        } else {
            rest
        }
    }
}

/// The ids of one page: the ids from the page offset on, at most the page
/// size of them, trimmed, blank ones left out.
pub open spec fn page_ids(ids: Seq<Seq<char>>, offset: i64, limit: i64) -> Seq<Seq<char>> {
    let start = if page_offset(offset) < ids.len() {
        page_offset(offset)
    } else {
        ids.len() as int
    };
    let end = if start + page_limit(limit) < ids.len() {
        start + page_limit(limit)
    } else {
        ids.len() as int
    };
    trimmed_nonblank(ids.subrange(start, end))
}

/// The ids of one page of a list of image ids (see [`page_ids`]), with the
/// offset and size the page was cut with.
pub fn gallery_page_window(image_ids: &Vec<String>, offset: i64, limit: i64) -> (r: (Vec<String>, i64, i64))
    ensures
        texts(r.0@) == page_ids(texts(image_ids@), offset, limit),
        r.1 == page_offset(offset),
        r.2 == page_limit(limit),
{
    let off: i64 = if offset < 0 {
        0
    } else {
        offset
    };
    let lim: i64 = if limit < 1 {
        1
    } else if limit > LARGE_LIBRARY_INITIAL_IMAGE_LIMIT {
        LARGE_LIBRARY_INITIAL_IMAGE_LIMIT
    } else {
        limit
    };
    let len = image_ids.len();
    let start: usize = if (off as u64) < (len as u64) {
        off as usize
    } else {
        len
    };
    let lim_u: usize = lim as usize;
    let end: usize = if len - start > lim_u {
        start + lim_u
    } else {
        len
    };
    let ghost all = texts(image_ids@);
    let mut out: Vec<String> = Vec::new();
    let mut i: usize = start;
    proof {
        assert(all.subrange(start as int, start as int) =~= Seq::<Seq<char>>::empty());
    }
    while i < end
        invariant
            start <= i <= end <= image_ids.len(),
            all == texts(image_ids@),
            texts(out@) == trimmed_nonblank(all.subrange(start as int, i as int)),
        decreases end - i,
    {
        let tv = trim_chars(image_ids[i].as_str());
        proof {
            let sub = all.subrange(start as int, i + 1);
            assert(sub.drop_last() =~= all.subrange(start as int, i as int));
            assert(sub.last() == image_ids@[i as int]@);
        }
        if tv.len() > 0 {
            let t = string_from_chars(&tv);
            let ghost prev = out@;
            out.push(t);
            proof {
                assert(texts(out@) =~= texts(prev).push(t@));
            }
        }
        i = i + 1;
    }
    (out, off, lim)
}

/// Where each image of a page comes from in the rows read for it. `found`
/// holds the id of each row read; a row read later for the same id wins. The
/// ids of the first `k` page entries are taken in order, each one once: an id
/// met again, or one with no row, adds nothing.
pub open spec fn page_order(page: Seq<Seq<char>>, found: Seq<Seq<char>>, k: int) -> Seq<int>
    decreases k,
{
    if k <= 0 || k > page.len() {
        Seq::empty()
    } else {
        let prev = page_order(page, found, k - 1);
        let id = page[k - 1];
        if page.subrange(0, k - 1).contains(id) {
            prev
        } else {
            match last_index_before(found, found.len() as int, id) {
                Some(j) => prev.push(j),
                None => prev,
            }
        }
    }
}

/// Positions as integers.
pub open spec fn positions(v: Seq<usize>) -> Seq<int> {
    v.map_values(|j: usize| j as int)
}

/// The order of the images of a page (see [`page_order`]): for each image
/// shown, the position of its row in `found`.
pub fn page_image_order(page: &Vec<String>, found: &Vec<String>) -> (r: Vec<usize>)
    ensures
        positions(r@) == page_order(texts(page@), texts(found@), page@.len() as int),
{
    let ghost p = texts(page@);
    let ghost f = texts(found@);
    let mut r: Vec<usize> = Vec::new();
    let mut k: usize = 0;
    while k < page.len()
        invariant
            k <= page.len(),
            p == texts(page@),
            f == texts(found@),
            positions(r@) == page_order(p, f, k as int),
        decreases page.len() - k,
    {
        let before = last_index_before_exec(page, k, page[k].as_str());
        proof {
            assert(p[k as int] == page@[k as int]@);
            crate::folder_sync::lemma_last_index_before_found(p, k as int, p[k as int]);
        }
        if before.is_none() {
            let j = last_index_before_exec(found, found.len(), page[k].as_str());
            match j {
                Some(j) => {
                    let ghost prev = r@;
                    r.push(j);
                    proof {
                        assert(positions(r@) =~= positions(prev).push(j as int));
                    }
                },
                None => {},
            }
        }
        k = k + 1;
    }
    r
}

/// Trimming and dropping blank ids never lengthens a list.
proof fn lemma_trimmed_nonblank_len(ids: Seq<Seq<char>>)
    ensures
        trimmed_nonblank(ids).len() <= ids.len(),
    decreases ids.len(),
{
    if ids.len() > 0 {
        lemma_trimmed_nonblank_len(ids.drop_last());
    }
}

/// A page never holds more ids than the page size, which is between 1 and
/// [`LARGE_LIBRARY_INITIAL_IMAGE_LIMIT`].
pub proof fn law_page_within_limit(ids: Seq<Seq<char>>, offset: i64, limit: i64)
    ensures
        page_ids(ids, offset, limit).len() <= page_limit(limit),
        1 <= page_limit(limit) <= LARGE_LIBRARY_INITIAL_IMAGE_LIMIT,
        page_offset(offset) >= 0,
{
    let start = if page_offset(offset) < ids.len() {
        page_offset(offset)
    } else {
        ids.len() as int
    };
    let end = if start + page_limit(limit) < ids.len() {
        start + page_limit(limit)
    } else {
        ids.len() as int
    };
    lemma_trimmed_nonblank_len(ids.subrange(start, end));
}

/// Trimming and dropping blank ids keeps every non-blank id, adds none, and
/// changes nothing but the trimming when no id is blank.
proof fn lemma_trimmed_nonblank_members(w: Seq<Seq<char>>)
    ensures
        forall|k: int| 0 <= k < w.len() && trim(w[k]).len() > 0 ==> #[trigger] trimmed_nonblank(w).contains(
            trim(w[k]),
        ),
        forall|i: int| 0 <= i < trimmed_nonblank(w).len() ==> exists|k: int| 0 <= k < w.len() && #[trigger] trimmed_nonblank(
            w,
        )[i] == trim(w[k]) && trim(w[k]).len() > 0,
        (forall|k: int| 0 <= k < w.len() ==> trim(#[trigger] w[k]).len() > 0) ==> trimmed_nonblank(w).len()
            == w.len() && forall|i: int| 0 <= i < w.len() ==> #[trigger] trimmed_nonblank(w)[i] == trim(w[i]),
    decreases w.len(),
{
    if w.len() > 0 {
        let t = w.drop_last();
        lemma_trimmed_nonblank_members(t);
        let rest = trimmed_nonblank(t);
        let tn = trimmed_nonblank(w);
        assert forall|k: int| 0 <= k < w.len() && trim(w[k]).len() > 0 implies #[trigger] tn.contains(trim(w[k])) by {
            if k < w.len() - 1 {
                assert(t[k] == w[k]);
                assert(rest.contains(trim(t[k])));
                let j = choose|j: int| 0 <= j < rest.len() && rest[j] == trim(t[k]);
                if trim(w.last()).len() > 0 {
                    assert(tn[j] == rest[j]);
                } else {
                    assert(tn == rest);
                }
            } else {
                assert(tn[rest.len() as int] == trim(w.last()));
            }
        }
        assert forall|i: int| 0 <= i < tn.len() implies exists|k: int| 0 <= k < w.len() && #[trigger] tn[i] == trim(
            w[k],
        ) && trim(w[k]).len() > 0 by {
            if i < rest.len() {
                assert(tn[i] == rest[i]);
                let k = choose|k: int| 0 <= k < t.len() && rest[i] == trim(t[k]) && trim(t[k]).len() > 0;
                assert(t[k] == w[k]);
            } else {
                assert(tn[i] == trim(w[w.len() - 1]));
            }
        }
        if forall|k: int| 0 <= k < w.len() ==> trim(#[trigger] w[k]).len() > 0 {
            assert forall|k: int| 0 <= k < t.len() implies trim(#[trigger] t[k]).len() > 0 by {
                assert(t[k] == w[k]);
            }
            assert(trim(w[w.len() - 1]).len() > 0);
            assert forall|i: int| 0 <= i < w.len() implies #[trigger] tn[i] == trim(w[i]) by {
                if i < t.len() {
                    assert(t[i] == w[i]);
                }
            }
        }
    }
}

/// A page holds exactly the ids of its window: from the offset (negative
/// counts as 0) up to the page size (clamped to 1 ..= 5000) later, cut at the
/// end of the list. Every non-blank id of the window is on the page,
/// trimmed; the page holds nothing else; and when no id of the window is
/// blank, the page is the window, trimmed, in order, so a last page shorter
/// than the page size is served whole. The offset and page size reported
/// with the page are the ones it was cut with.
pub proof fn law_page_is_window(ids: Seq<Seq<char>>, offset: i64, limit: i64)
    ensures
        ({
            let s: int = if offset < 0 { 0 } else { offset as int };
            let l: int = if limit < 1 { 1 } else if limit > 5000 { 5000 } else { limit as int };
            let e: int = if s + l < ids.len() { s + l } else { ids.len() as int };
            let page = page_ids(ids, offset, limit);
            &&& page_offset(offset) == s && page_limit(limit) == l
            &&& forall|k: int| s <= k < e && trim(ids[k]).len() > 0 ==> #[trigger] page.contains(trim(ids[k]))
            &&& forall|i: int| 0 <= i < page.len() ==> exists|k: int| s <= k < e && #[trigger] page[i] == trim(ids[k])
                && trim(ids[k]).len() > 0
            &&& (forall|k: int| s <= k < e ==> trim(#[trigger] ids[k]).len() > 0) ==> page.len() == (if s < e {
                e - s
            } else {
                0
            }) && forall|i: int| 0 <= i < page.len() ==> #[trigger] page[i] == trim(ids[s + i])
        }),
{
    let s: int = if offset < 0 { 0 } else { offset as int };
    let l: int = if limit < 1 { 1 } else if limit > 5000 { 5000 } else { limit as int };
    let e: int = if s + l < ids.len() { s + l } else { ids.len() as int };
    let start = if page_offset(offset) < ids.len() {
        page_offset(offset)
    } else {
        ids.len() as int
    };
    let end = if start + page_limit(limit) < ids.len() {
        start + page_limit(limit)
    } else {
        ids.len() as int
    };
    let w = ids.subrange(start, end);
    lemma_trimmed_nonblank_members(w);
    let page = page_ids(ids, offset, limit);
    assert(page == trimmed_nonblank(w));
    assert forall|k: int| s <= k < e && trim(ids[k]).len() > 0 implies #[trigger] page.contains(trim(ids[k])) by {
        assert(w[k - start] == ids[k]);
    }
    assert forall|i: int| 0 <= i < page.len() implies exists|k: int| s <= k < e && #[trigger] page[i] == trim(ids[k])
        && trim(ids[k]).len() > 0 by {
        let j = choose|j: int| 0 <= j < w.len() && page[i] == trim(w[j]) && trim(w[j]).len() > 0;
        assert(w[j] == ids[start + j]);
    }
    if forall|k: int| s <= k < e ==> trim(#[trigger] ids[k]).len() > 0 {
        assert forall|k: int| 0 <= k < w.len() implies trim(#[trigger] w[k]).len() > 0 by {
            assert(w[k] == ids[start + k]);
        }
        assert forall|i: int| 0 <= i < page.len() implies #[trigger] page[i] == trim(ids[s + i]) by {
            assert(w[i] == ids[start + i]);
        }
    }
}

/// Each image of a page is shown once, for an id of the page, from a row
/// read for that id.
pub proof fn law_page_images_once(page: Seq<Seq<char>>, found: Seq<Seq<char>>, k: int)
    requires
        0 <= k <= page.len(),
    ensures
        forall|a: int, b: int| 0 <= a < b < page_order(page, found, k).len() ==> page_order(page, found, k)[a]
            != page_order(page, found, k)[b],
        forall|a: int| 0 <= a < page_order(page, found, k).len() ==> {
            let j = #[trigger] page_order(page, found, k)[a];
            0 <= j < found.len() && page.subrange(0, k).contains(found[j])
        },
    decreases k,
{
    if k > 0 {
        law_page_images_once(page, found, k - 1);
        let prev = page_order(page, found, k - 1);
        let id = page[k - 1];
        let sub = page.subrange(0, k);
        assert forall|a: int| 0 <= a < prev.len() implies sub.contains(found[#[trigger] prev[a]]) by {
            let j = prev[a];
            let pre = page.subrange(0, k - 1);
            assert(pre.contains(found[j]));
            let t = choose|t: int| 0 <= t < pre.len() && pre[t] == found[j];
            assert(sub[t] == found[j]);
        }
        if !page.subrange(0, k - 1).contains(id) {
            crate::folder_sync::lemma_last_index_before(found, found.len() as int, id);
            if let Some(j) = last_index_before(found, found.len() as int, id) {
                assert(sub[k - 1] == id);
                assert forall|a: int| 0 <= a < prev.len() implies prev[a] != j by {
                    let pre = page.subrange(0, k - 1);
                    assert(pre.contains(found[prev[a]]));
                }
            }
        }
    }
}

} // verus!
