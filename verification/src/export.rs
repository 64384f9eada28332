use vstd::prelude::*;
use crate::chars::push_all;
use crate::model::{UserFolder, GalleryImage, ImageFolderAssignment};
use crate::text::str_eq;
use crate::paths::{decimal, decimal_chars};
use crate::chars::texts;
use crate::text::{export_path_segment, sanitize_export_path_segment};

verus! {

/// The decimal digits of a signed number, with a leading `-` when negative.
pub open spec fn signed_decimal(n: int) -> Seq<char> {
    if n < 0 {
        seq!['-'] + decimal((-n) as nat)
    } else {
        decimal(n as nat)
    }
}

/// The stand-in name `folder-<id>` of a folder.
pub open spec fn folder_placeholder(id: i64) -> Seq<char> {
    "folder-"@ + signed_decimal(id as int)
}

/// The folder with id `id`: the last one listed with it.
pub open spec fn folder_at(folders: Seq<UserFolder>, id: i64) -> Option<UserFolder>
    decreases folders.len(),
{
    if folders.len() == 0 {
        None
    } else if folders.last().id == id {
        Some(folders.last())
    } else {
        folder_at(folders.drop_last(), id)
    }
}

/// Following parents from `id` reaches a folder without a parent, or an
/// unknown parent, within `fuel` steps.
pub open spec fn ancestors_end(folders: Seq<UserFolder>, id: i64, fuel: nat) -> bool
    decreases fuel,
{
    match folder_at(folders, id) {
        None => true,
        Some(f) => match f.parent_id {
            None => true,
            Some(p) => fuel > 0 && ancestors_end(folders, p, (fuel - 1) as nat),
        },
    }
}

/// The path segments of the export folder of folder `id`: the segments of its
/// parent followed by its own cleaned name; a folder that is not listed is
/// named `folder-<id>`, as is one whose name cleans to nothing.
pub open spec fn export_segments(folders: Seq<UserFolder>, id: i64, fuel: nat) -> Seq<Seq<char>>
    decreases fuel,
{
    match folder_at(folders, id) {
        None => seq![folder_placeholder(id)],
        Some(f) => {
            let seg = export_path_segment(f.name@, folder_placeholder(id));
            match f.parent_id {
                None => seq![seg],
                Some(p) => if fuel == 0 {
                    seq![seg]
                } else {
                    export_segments(folders, p, (fuel - 1) as nat).push(seg)
                },
            }
        },
    }
}

/// Appends the decimal form of `n` to `s`.
pub(crate) fn push_signed_decimal(s: &mut String, n: i64)
    ensures
        final(s)@ == old(s)@ + signed_decimal(n as int),
{
    if n < 0 {
        s.push('-');
        let magnitude: u64 = if n == i64::MIN {
            9223372036854775808u64
        } else {
            (-n) as u64
        };
        let digits = decimal_chars(magnitude);
        push_all(s, &digits);
        proof {
            assert(final(s)@ =~= old(s)@ + (seq!['-'] + decimal((-(n as int)) as nat)));
        }
    } else {
        let digits = decimal_chars(n as u64);
        push_all(s, &digits);
    }
}

/// The text `folder-<id>`.
fn folder_placeholder_exec(id: i64) -> (r: String)
    ensures
        r@ == folder_placeholder(id),
{
    let mut s = crate::text::owned_string("folder-");
    push_signed_decimal(&mut s, id);
    s
}

/// Position of the last folder with id `id`.
fn folder_index(folders: &Vec<UserFolder>, id: i64) -> (r: Option<usize>)
    ensures
        match r {
            Some(i) => i < folders@.len() && folder_at(folders@, id) == Some(folders@[i as int]),
            None => folder_at(folders@, id) is None,
        },
{
    let mut k = folders.len();
    proof {
        assert(folders@.subrange(0, k as int) == folders@);
    }
    while k > 0
        invariant
            k <= folders.len(),
            folder_at(folders@, id) == folder_at(folders@.subrange(0, k as int), id),
        decreases k,
    {
        let ghost s = folders@.subrange(0, k as int);
        if folders[k - 1].id == id {
            proof {
                assert(s.last() == folders@[k - 1]);
            }
            return Some(k - 1);
        }
        proof {
            assert(s.drop_last() == folders@.subrange(0, k - 1));
        }
        k = k - 1;
    }
    None
}

/// The folder ids an export folder cache holds.
pub open spec fn cache_ids(cache: Seq<(i64, Vec<String>)>) -> Set<i64> {
    cache_keys(cache).to_set()
}

/// The folder ids of the cache entries, in order.
pub open spec fn cache_keys(cache: Seq<(i64, Vec<String>)>) -> Seq<i64> {
    cache.map_values(|e: (i64, Vec<String>)| e.0)
}

/// Every entry of an export folder cache holds the export path segments of
/// its folder (see [`export_segments`]).
pub open spec fn cache_correct(folders: Seq<UserFolder>, cache: Seq<(i64, Vec<String>)>) -> bool {
    forall|i: int| 0 <= i < cache.len() ==> texts((#[trigger] cache[i]).1@) == export_segments(
        folders,
        cache[i].0,
        folders.len(),
    )
}

/// The folders a lookup of folder `id` adds to a cache that holds `known`:
/// none when `id` is cached or not a listed folder; else `id`, and what the
/// lookup of its parent adds.
pub open spec fn newly_cached(folders: Seq<UserFolder>, known: Set<i64>, id: i64, fuel: nat) -> Set<i64>
    decreases fuel,
{
    if known.contains(id) {
        Set::empty()
    } else {
        match folder_at(folders, id) {
            None => Set::empty(),
            Some(f) => match f.parent_id {
                Some(p) => if fuel == 0 {
                    set![id]
                } else {
                    set![id].union(newly_cached(folders, known, p, (fuel - 1) as nat))
                },
                None => set![id],
            },
        }
    }
}

/// Once the parent chain of `id` ends within `f` steps, more fuel neither
/// changes that nor the export path segments of `id`.
proof fn lemma_export_segments_fuel(folders: Seq<UserFolder>, id: i64, f: nat, g: nat)
    requires
        ancestors_end(folders, id, f),
        f <= g,
    ensures
        ancestors_end(folders, id, g),
        export_segments(folders, id, g) == export_segments(folders, id, f),
    decreases f,
{
    match folder_at(folders, id) {
        None => {},
        Some(fd) => match fd.parent_id {
            None => {},
            Some(p) => {
                lemma_export_segments_fuel(folders, p, (f - 1) as nat, (g - 1) as nat);
            },
        },
    }
}

/// A copy of a list of strings.
fn copy_strings(v: &Vec<String>) -> (r: Vec<String>)
    ensures
        r@ == v@,
{
    let mut r: Vec<String> = Vec::new();
    let mut i: usize = 0;
    while i < v.len()
        invariant
            i <= v.len(),
            r@ == v@.subrange(0, i as int),
        decreases v.len() - i,
    {
        r.push(v[i].clone());
        proof {
            assert(r@ =~= v@.subrange(0, i + 1));
        }
        i = i + 1;
    }
    proof {
        assert(v@.subrange(0, v@.len() as int) =~= v@);
    }
    r
}

/// Position of a cache entry for folder `id`, if there is one.
fn cache_index(cache: &Vec<(i64, Vec<String>)>, id: i64) -> (r: Option<usize>)
    ensures
        match r {
            Some(i) => i < cache@.len() && cache@[i as int].0 == id,
            None => !cache_ids(cache@).contains(id),
        },
{
    let mut i: usize = 0;
    while i < cache.len()
        invariant
            i <= cache.len(),
            forall|j: int| 0 <= j < i ==> (#[trigger] cache@[j]).0 != id,
        decreases cache.len() - i,
    {
        if cache[i].0 == id {
            return Some(i);
        }
        i = i + 1;
    }
    proof {
        if cache_ids(cache@).contains(id) {
            let k = choose|k: int| 0 <= k < cache@.len() && #[trigger] cache_keys(cache@)[k] == id;
            assert(cache@[k].0 == id);
        }
    }
    None
}

/// The export path segments of folder `id` (see [`export_segments`]) found
/// through the cache, which keeps what it learns (see [`newly_cached`]).
fn resolve_cached(folder_id: i64, folders: &Vec<UserFolder>, cache: &mut Vec<(i64, Vec<String>)>, fuel: usize) -> (r: Vec<String>)
    requires
        fuel <= folders@.len(),
        ancestors_end(folders@, folder_id, fuel as nat),
        cache_correct(folders@, old(cache)@),
    ensures
        texts(r@) == export_segments(folders@, folder_id, fuel as nat),
        cache_correct(folders@, final(cache)@),
        cache_ids(final(cache)@) == cache_ids(old(cache)@).union(
            newly_cached(folders@, cache_ids(old(cache)@), folder_id, fuel as nat),
        ),
    decreases fuel,
{
    let ghost known = cache_ids(cache@);
    if let Some(i) = cache_index(cache, folder_id) {
        proof {
            lemma_export_segments_fuel(folders@, folder_id, fuel as nat, folders@.len());
            assert(cache@[i as int] == cache@[i as int]);
            assert(known.contains(folder_id)) by {
                assert(cache_keys(cache@)[i as int] == folder_id);
            }
            assert(known.union(Set::empty()) =~= known);
        }
        return copy_strings(&cache[i].1);
    }
    let placeholder = folder_placeholder_exec(folder_id);
    match folder_index(folders, folder_id) {
        None => {
            let mut v: Vec<String> = Vec::new();
            v.push(placeholder);
            proof {
                assert(texts(v@) =~= seq![folder_placeholder(folder_id)]);
                assert(known.union(Set::empty()) =~= known);
            }
            v
        },
        Some(k) => {
            let seg = sanitize_export_path_segment(folders[k].name.as_str(), placeholder.as_str());
            let mut v: Vec<String> = match folders[k].parent_id {
                Some(p) => {
                    if fuel == 0 {
                        Vec::new()
                    } else {
                        resolve_cached(p, folders, cache, fuel - 1)
                    }
                },
                None => Vec::new(),
            };
            let ghost before = texts(v@);
            let ghost mid = cache@;
            v.push(seg);
            proof {
                assert(texts(v@) =~= before.push(seg@));
                assert(texts(v@) == export_segments(folders@, folder_id, fuel as nat)) by {
                    if folders@[k as int].parent_id is None || fuel == 0 {
                        assert(before =~= Seq::<Seq<char>>::empty());
                    }
                }
                lemma_export_segments_fuel(folders@, folder_id, fuel as nat, folders@.len());
            }
            let entry = copy_strings(&v);
            cache.push((folder_id, entry));
            proof {
                assert(cache_ids(cache@) =~= cache_ids(mid).insert(folder_id)) by {
                    let ks = cache_keys(cache@);
                    let km = cache_keys(mid);
                    assert(ks =~= km.push(folder_id));
                    assert forall|x: i64| ks.to_set().contains(x) <==> km.to_set().insert(folder_id).contains(x) by {
                        if ks.contains(x) && x != folder_id {
                            let j = choose|j: int| 0 <= j < ks.len() && ks[j] == x;
                            assert(km[j] == x);
                        }
                        if km.contains(x) {
                            let j = choose|j: int| 0 <= j < km.len() && km[j] == x;
                            assert(ks[j] == x);
                        }
                        if x == folder_id {
                            assert(ks[km.len() as int] == x);
                        }
                    }
                }
                assert(cache_ids(cache@) =~= known.union(newly_cached(folders@, known, folder_id, fuel as nat)));
                assert(cache_correct(folders@, cache@)) by {
                    assert forall|i: int| 0 <= i < cache@.len() implies texts((#[trigger] cache@[i]).1@)
                        == export_segments(folders@, cache@[i].0, folders@.len()) by {
                        if i < mid.len() {
                            assert(cache@[i] == mid[i]);
                        }
                    }
                }
            }
            v
        },
    }
}

/// The path segments, from the export root down, of the folder that holds
/// the images of user folder `folder_id` in an organised export (see
/// [`export_segments`]), found through `cache`: a cached folder is taken
/// from it, and every listed folder whose segments are worked out is added
/// to it (see [`newly_cached`]). The parent chain must end: a cycle of
/// parents has no export path.
pub fn resolve_organized_export_folder_path(
    folder_id: i64,
    folders: &Vec<UserFolder>,
    cache: &mut Vec<(i64, Vec<String>)>,
) -> (r: Vec<String>)
    requires
        ancestors_end(folders@, folder_id, folders@.len()),
        cache_correct(folders@, old(cache)@),
    ensures
        texts(r@) == export_segments(folders@, folder_id, folders@.len()),
        cache_correct(folders@, final(cache)@),
        cache_ids(final(cache)@) == cache_ids(old(cache)@).union(
            newly_cached(folders@, cache_ids(old(cache)@), folder_id, folders@.len()),
        ),
{
    resolve_cached(folder_id, folders, cache, folders.len())
}

/// The export path segments of every user folder, in the order of `folders`.
pub fn build_organized_export_folder_paths(folders: &Vec<UserFolder>) -> (r: Vec<(i64, Vec<String>)>)
    requires
        forall|i: int| 0 <= i < folders@.len() ==> ancestors_end(folders@, #[trigger] folders@[i].id, folders@.len()),
    ensures
        r@.len() == folders@.len(),
        forall|i: int| 0 <= i < folders@.len() ==> (#[trigger] r@[i]).0 == folders@[i].id
            && texts(r@[i].1@) == export_segments(folders@, folders@[i].id, folders@.len()),
{
    let mut cache: Vec<(i64, Vec<String>)> = Vec::new();
    let mut paths: Vec<(i64, Vec<String>)> = Vec::new();
    let mut i: usize = 0;
    while i < folders.len()
        invariant
            i <= folders.len(),
            paths@.len() == i,
            cache_correct(folders@, cache@),
            forall|j: int| 0 <= j < folders@.len() ==> ancestors_end(folders@, #[trigger] folders@[j].id, folders@.len()),
            forall|j: int| 0 <= j < i ==> (#[trigger] paths@[j]).0 == folders@[j].id
                && texts(paths@[j].1@) == export_segments(folders@, folders@[j].id, folders@.len()),
        decreases folders.len() - i,
    {
        let id = folders[i].id;
        let segments = resolve_organized_export_folder_path(id, folders, &mut cache);
        paths.push((id, segments));
        i = i + 1;
    }
    paths
}

/// Position of the last image with id `id` (the one a map built from the
/// list keeps).
pub open spec fn image_position(images: Seq<GalleryImage>, id: Seq<char>) -> Option<int>
    decreases images.len(),
{
    if images.len() == 0 {
        None
    } else if images.last().id@ == id {
        Some(images.len() - 1)
    } else {
        image_position(images.drop_last(), id)
    }
}

/// What an organized export copies, one entry per folder assignment that
/// is exported, in the order of the assignments: the position of the image
/// and the folder it goes to. An assignment is skipped when its image is not
/// listed, is in the recycle bin or is missing, or when its folder is not
/// listed.
pub open spec fn export_jobs(images: Seq<GalleryImage>, folders: Seq<UserFolder>, assignments: Seq<ImageFolderAssignment>) -> Seq<(int, i64)>
    decreases assignments.len(),
{
    if assignments.len() == 0 {
        Seq::empty()
    } else {
        let prev = export_jobs(images, folders, assignments.drop_last());
        let a = assignments.last();
        match image_position(images, a.image_id@) {
            None => prev,
            Some(k) => if images[k].trashed || images[k].missing || folder_at(folders, a.folder_id) is None {
                prev
            } else {
                prev.push((k, a.folder_id))
            },
        }
    }
}

/// Finds the last image with id `id` (see [`image_position`]).
fn image_index(images: &Vec<GalleryImage>, id: &str) -> (r: Option<usize>)
    ensures
        match r {
            Some(k) => image_position(images@, id@) == Some(k as int) && k < images@.len(),
            None => image_position(images@, id@) is None,
        },
{
    let mut k = images.len();
    proof {
        assert(images@.subrange(0, k as int) == images@);
    }
    while k > 0
        invariant
            k <= images.len(),
            image_position(images@, id@) == image_position(images@.subrange(0, k as int), id@),
        decreases k,
    {
        let ghost s = images@.subrange(0, k as int);
        proof {
            assert(s.last() == images@[k - 1]);
            assert(s.drop_last() == images@.subrange(0, k - 1));
        }
        if str_eq(images[k - 1].id.as_str(), id) {
            return Some(k - 1);
        }
        k = k - 1;
    }
    None
}

/// What an organized export copies (see [`export_jobs`]): for each exported
/// assignment, the position of its image in `images` and its folder.
pub fn organized_export_jobs(images: &Vec<GalleryImage>, folders: &Vec<UserFolder>, assignments: &Vec<ImageFolderAssignment>) -> (r: Vec<(usize, i64)>)
    ensures
        r@.map_values(|j: (usize, i64)| (j.0 as int, j.1)) == export_jobs(images@, folders@, assignments@),
{
    let mut r: Vec<(usize, i64)> = Vec::new();
    let mut i: usize = 0;
    proof {
        assert(assignments@.subrange(0, 0) =~= Seq::<ImageFolderAssignment>::empty());
    }
    while i < assignments.len()
        invariant
            i <= assignments.len(),
            r@.map_values(|j: (usize, i64)| (j.0 as int, j.1)) == export_jobs(images@, folders@, assignments@.subrange(0, i as int)),
        decreases assignments.len() - i,
    {
        let ghost sub = assignments@.subrange(0, i + 1);
        proof {
            assert(sub.drop_last() =~= assignments@.subrange(0, i as int));
            assert(sub.last() == assignments@[i as int]);
        }
        let a = &assignments[i];
        match image_index(images, a.image_id.as_str()) {
            None => {},
            Some(k) => {
                let image = &images[k];
                if !(image.trashed || image.missing || folder_index(folders, a.folder_id).is_none()) {
                    let ghost prev = r@.map_values(|j: (usize, i64)| (j.0 as int, j.1));
                    r.push((k, a.folder_id));
                    proof {
                        assert(r@.map_values(|j: (usize, i64)| (j.0 as int, j.1)) =~= prev.push((k as int, a.folder_id)));
                    }
                }
            },
        }
        i = i + 1;
    }
    proof {
        assert(assignments@.subrange(0, assignments@.len() as int) =~= assignments@);
    }
    r
}

} // verus!
