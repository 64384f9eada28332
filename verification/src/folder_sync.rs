use vstd::prelude::*;
use crate::paths::PathHost;
use crate::chars::{
    push_str_chars, has_prefix, str_chars, chars_have_prefix, string_from_chars, trim, trim_chars, chars_eq, texts,
};
use crate::paths::{is_separator, file_name_of, file_name_chars, separates, separates_exec};
use crate::text::{
    str_eq, text_less, lemma_text_less_total, lemma_text_less_transitive, chars_less,
    strings_from_char_vecs, owned_string,
};

verus! {

/// The prefix every path below `root` starts with: `root` itself when it
/// already ends with the separator, `root` and the separator otherwise.
pub open spec fn root_prefix(root: Seq<char>, sep: char) -> Seq<char> {
    if root.len() > 0 && root.last() == sep {
        root
    } else {
        root.push(sep)
    }
}

/// `p` is the library root or lies below it.
pub open spec fn under_root(p: Seq<char>, root: Seq<char>, sep: char) -> bool {
    p == root || has_prefix(p, root_prefix(root, sep))
}

/// The entries of a table from texts (paths, tags) to numbers as plain values.
pub open spec fn id_entries(v: Seq<(String, i64)>) -> Seq<(Seq<char>, i64)> {
    v.map_values(|e: (String, i64)| (e.0@, e.1))
}

/// The number a table from texts to numbers gives `key`; when a text occurs
/// more than once the last entry wins, as with repeated map inserts.
pub open spec fn last_id(entries: Seq<(Seq<char>, i64)>, key: Seq<char>) -> Option<i64>
    decreases entries.len(),
{
    if entries.len() == 0 {
        None
    } else if entries.last().0 == key {
        Some(entries.last().1)
    } else {
        last_id(entries.drop_last(), key)
    }
}

/// Climbs the ancestor chain from position `i`: the first ancestor with a
/// synced folder gives its id; the climb ends without one at the root or at
/// the end of the chain.
pub open spec fn climb(chain: Seq<Seq<char>>, i: int, root: Seq<char>, synced: Seq<(Seq<char>, i64)>) -> Option<i64>
    decreases chain.len() - i,
{
    if i < 0 || i >= chain.len() {
        None
    } else if last_id(synced, chain[i]) is Some {
        last_id(synced, chain[i])
    } else if chain[i] == root {
        None
    } else {
        climb(chain, i + 1, root, synced)
    }
}

/// The synced folder an image is assigned to. `ancestors` lists the image's
/// directory, then its parent, and so on; when it is empty the image counts
/// as lying in the root. An image outside the root gets no folder; otherwise
/// the nearest ancestor (up to the root) that has a synced folder gives it.
pub open spec fn nearest_folder(root: Seq<char>, sep: char, ancestors: Seq<Seq<char>>, synced: Seq<(Seq<char>, i64)>) -> Option<i64> {
    let chain = if ancestors.len() == 0 {
        seq![root]
    } else {
        ancestors
    };
    if !under_root(chain[0], root, sep) {
        None
    } else {
        climb(chain, 0, root, synced)
    }
}

/// The prefix below `root` (see [`root_prefix`]).
pub fn root_prefix_chars(root: &str, sep: char) -> (r: Vec<char>)
    ensures
        r@ == root_prefix(root@, sep),
{
    let mut v = str_chars(root);
    if !(v.len() > 0 && v[v.len() - 1] == sep) {
        v.push(sep);
    }
    v
}

/// Whether `p` is `root` or lies below it (see [`under_root`]).
pub fn is_under_root(p: &str, root: &str, sep: char) -> (r: bool)
    ensures
        r == under_root(p@, root@, sep),
{
    if str_eq(p, root) {
        return true;
    }
    let prefix = root_prefix_chars(root, sep);
    let pv = str_chars(p);
    chars_have_prefix(&pv, &prefix)
}

/// Looks a text up in a table from texts to numbers (see [`last_id`]).
pub fn find_last_id(entries: &Vec<(String, i64)>, key: &str) -> (r: Option<i64>)
    ensures
        r == last_id(id_entries(entries@), key@),
{
    let ghost all = id_entries(entries@);
    let mut i: usize = entries.len();
    proof {
        assert(all.subrange(0, i as int) =~= all);
    }
    while i > 0
        invariant
            i <= entries.len(),
            all == id_entries(entries@),
            last_id(all, key@) == last_id(all.subrange(0, i as int), key@),
        decreases i,
    {
        let ghost s = all.subrange(0, i as int);
        proof {
            assert(s.last() == (entries@[i - 1].0@, entries@[i - 1].1));
            assert(s.drop_last() =~= all.subrange(0, i - 1));
        }
        if str_eq(entries[i - 1].0.as_str(), key) {
            return Some(entries[i - 1].1);
        }
        i = i - 1;
    }
    proof {
        assert(all.subrange(0, 0).len() == 0);
    }
    None
}

/// The synced folder an image is assigned to during a scan (see
/// [`nearest_folder`]); `synced` lists each synced folder's path and id.
pub fn nearest_synced_folder(root: &str, sep: char, ancestors: &Vec<String>, synced: &Vec<(String, i64)>) -> (r: Option<i64>)
    ensures
        r == nearest_folder(root@, sep, texts(ancestors@), id_entries(synced@)),
{
    let ghost m = id_entries(synced@);
    let mut chain: Vec<String> = Vec::new();
    if ancestors.len() == 0 {
        chain.push(string_from_chars(&str_chars(root)));
    } else {
        chain = ancestors.clone();
        proof {
            assert(chain@ == ancestors@);
        }
    }
    let ghost c = texts(chain@);
    proof {
        if ancestors.len() == 0 {
            assert(c =~= seq![root@]);
        } else {
            assert(c =~= texts(ancestors@));
        }
        assert(c[0] == chain@[0]@);
    }
    if !is_under_root(chain[0].as_str(), root, sep) {
        return None;
    }
    let mut i: usize = 0;
    assert(nearest_folder(root@, sep, texts(ancestors@), m) == climb(c, 0, root@, m));
    while i < chain.len()
        invariant
            i <= chain.len(),
            c == texts(chain@),
            m == id_entries(synced@),
            nearest_folder(root@, sep, texts(ancestors@), m) == climb(c, i as int, root@, m),
        decreases chain.len() - i,
    {
        proof {
            assert(c[i as int] == chain@[i as int]@);
        }
        let found = find_last_id(synced, chain[i].as_str());
        if found.is_some() {
            return found;
        }
        if str_eq(chain[i].as_str(), root) {
            return None;
        }
        i = i + 1;
    }
    None
}

/// Whether a path starts with a drive prefix such as `C:` (on Windows only).
pub open spec fn has_drive_prefix(host: PathHost, p: Seq<char>) -> bool {
    host == PathHost::Windows && p.len() >= 2 && p[1] == ':' && (('a' <= p[0] && p[0] <= 'z') || ('A' <= p[0] && p[0] <= 'Z'))
}

/// How many characters the drive prefix takes.
pub open spec fn prefix_len(host: PathHost, p: Seq<char>) -> int {
    if has_drive_prefix(host, p) {
        2
    } else {
        0
    }
}

/// Whether the path has a root: a separator right after its prefix.
pub open spec fn has_root_dir(host: PathHost, p: Seq<char>) -> bool {
    prefix_len(host, p) < p.len() && separates(host, p[prefix_len(host, p)])
}

/// A counted part of the path starts at `k`: a run of non-separators after
/// the prefix, other than a `.` part, which counts only at the very start
/// of a path with no root.
pub open spec fn counted_part(host: PathHost, p: Seq<char>, k: int) -> bool {
    &&& prefix_len(host, p) <= k < p.len()
    &&& !separates(host, p[k])
    &&& (k == prefix_len(host, p) || separates(host, p[k - 1]))
    &&& (k == prefix_len(host, p) || !(p[k] == '.' && (k + 1 == p.len() || separates(host, p[k + 1]))))
}

/// How many counted parts start before position `i`.
pub open spec fn parts_before(host: PathHost, p: Seq<char>, i: int) -> nat
    decreases i,
{
    if i <= 0 {
        0
    } else {
        parts_before(host, p, i - 1) + (if counted_part(host, p, i - 1) {
            1nat
        } else {
            0nat
        })
    }
}

/// The depth of a path: how many components `Path::components` yields for
/// it by the rules of `host` (see [`separates`]): the drive prefix (on
/// Windows), the root, then every part, `.` parts dropped but for a leading
/// one. On Windows, paths that begin with two separators (UNC and verbatim
/// prefixes) are counted as a root followed by parts.
pub open spec fn path_depth(host: PathHost, p: Seq<char>) -> nat {
    (if has_drive_prefix(host, p) {
        1nat
    } else {
        0nat
    }) + (if has_root_dir(host, p) {
        1nat
    } else {
        0nat
    }) + parts_before(host, p, p.len() as int)
}

/// No part is counted within the prefix and the root.
proof fn lemma_no_parts_before(host: PathHost, p: Seq<char>, i: int)
    requires
        0 <= i <= prefix_len(host, p) + (if has_root_dir(host, p) {
            1int
        } else {
            0int
        }),
    ensures
        parts_before(host, p, i) == 0,
    decreases i,
{
    if i > 0 {
        lemma_no_parts_before(host, p, i - 1);
        assert(!counted_part(host, p, i - 1));
    }
}

/// The order in which synced folders are created: shallower paths first,
/// paths of one depth by their text.
pub open spec fn depth_less(host: PathHost, a: Seq<char>, b: Seq<char>) -> bool {
    path_depth(host, a) < path_depth(host, b) || (path_depth(host, a) == path_depth(host, b) && text_less(a, b))
}

/// Each path comes before every later one (see [`depth_less`]), so none occurs twice.
pub open spec fn sorted_by_depth(host: PathHost, s: Seq<Seq<char>>) -> bool {
    forall|i: int, j: int| 0 <= i < j < s.len() ==> depth_less(host, s[i], s[j])
}

/// The paths of `v` that are the root or lie below it.
pub open spec fn below_root(v: Seq<Seq<char>>, root: Seq<char>, sep: char) -> Set<Seq<char>> {
    Set::new(|p: Seq<char>| v.contains(p) && under_root(p, root, sep))
}

/// The directories that get a synced folder. `walked` is what a walk of the
/// root found (`None` when the root is not a directory): those below the
/// root, or the root alone when none is. The directories of the scanned
/// images that lie below the root are added.
pub open spec fn synced_dirs(root: Seq<char>, sep: char, walked: Option<Seq<Seq<char>>>, image_dirs: Seq<Seq<char>>) -> Set<Seq<char>> {
    let base = match walked {
        None => Set::empty(),
        Some(w) => if exists|i: int| 0 <= i < w.len() && under_root(#[trigger] w[i], root, sep) {
            below_root(w, root, sep)
        } else {
            set![root]
        },
    };
    base.union(below_root(image_dirs, root, sep))
}

/// Counts the components of a path (see [`path_depth`]).
fn path_depth_exec(host: PathHost, v: &Vec<char>) -> (r: usize)
    ensures
        r == path_depth(host, v@),
{
    let n = v.len();
    let drive = matches!(host, PathHost::Windows) && n >= 2 && v[1] == ':' && (('a' <= v[0] && v[0] <= 'z') || ('A' <= v[0] && v[0] <= 'Z'));
    let lo: usize = if drive {
        2
    } else {
        0
    };
    let root = lo < n && separates_exec(host, v[lo]);
    let start: usize = if root {
        lo + 1
    } else {
        lo
    };
    proof {
        lemma_no_parts_before(host, v@, start as int);
    }
    let mut parts: usize = 0;
    let mut i: usize = start;
    while i < n
        invariant
            n == v@.len(),
            lo as int == prefix_len(host, v@),
            lo <= start <= i <= n,
            start == lo + (if has_root_dir(host, v@) { 1int } else { 0int }),
            parts == parts_before(host, v@, i as int),
            parts <= i - start,
        decreases n - i,
    {
        let c = v[i];
        let begins = !separates_exec(host, c) && (i == lo || separates_exec(host, v[i - 1]));
        let dot = c == '.' && (i + 1 == n || separates_exec(host, v[i + 1]));
        if begins && (i == lo || !dot) {
            parts = parts + 1;
        }
        proof {
            assert(counted_part(host, v@, i as int) == (begins && (i == lo || !dot)));
        }
        i = i + 1;
    }
    let base: usize = if drive {
        1
    } else {
        0
    };
    let base = if root {
        base + 1
    } else {
        base
    };
    base + parts
}

/// The depth by which synced folders are ordered: the number of components
/// of the path by the rules of `host` (see [`path_depth`]).
pub fn path_depth_for_sort(host: PathHost, path_text: &str) -> (r: usize)
    ensures
        r == path_depth(host, path_text@),
{
    path_depth_exec(host, &str_chars(path_text))
}

/// Compares two paths by [`depth_less`].
fn depth_less_exec(host: PathHost, a: &Vec<char>, da: usize, b: &Vec<char>, db: usize) -> (r: bool)
    requires
        da == path_depth(host, a@),
        db == path_depth(host, b@),
    ensures
        r == depth_less(host, a@, b@),
{
    da < db || (da == db && chars_less(a, b))
}

/// [`depth_less`] is transitive.
proof fn lemma_depth_less_transitive(host: PathHost, a: Seq<char>, b: Seq<char>, c: Seq<char>)
    requires
        depth_less(host, a, b),
        depth_less(host, b, c),
    ensures
        depth_less(host, a, c),
{
    if path_depth(host, a) == path_depth(host, b) && path_depth(host, b) == path_depth(host, c) {
        lemma_text_less_transitive(a, b, c);
    }
}

/// Two different paths are ordered one way or the other by [`depth_less`].
proof fn lemma_depth_less_total(host: PathHost, a: Seq<char>, b: Seq<char>)
    requires
        a != b,
    ensures
        depth_less(host, a, b) || depth_less(host, b, a),
{
    lemma_text_less_total(a, b);
}

/// Inserts `t` into the list `v`, kept in [`depth_less`] order, unless it is
/// already there.
fn insert_by_depth(host: PathHost, v: &mut Vec<Vec<char>>, t: Vec<char>)
    requires
        sorted_by_depth(host, old(v)@.map_values(|w: Vec<char>| w@)),
    ensures
        sorted_by_depth(host, final(v)@.map_values(|w: Vec<char>| w@)),
        final(v)@.map_values(|w: Vec<char>| w@).to_set() == old(v)@.map_values(
            |w: Vec<char>| w@,
        ).to_set().insert(t@),
{
    let ghost old_view = v@.map_values(|w: Vec<char>| w@);
    let dt = path_depth_exec(host, &t);
    let mut i: usize = 0;
    while i < v.len() && depth_less_exec(host, &v[i], path_depth_exec(host, &v[i]), &t, dt)
        invariant
            i <= v.len(),
            dt == path_depth(host, t@),
            v@.map_values(|w: Vec<char>| w@) == old_view,
            sorted_by_depth(host, old_view),
            forall|k: int| 0 <= k < i ==> depth_less(host, old_view[k], t@),
        decreases v.len() - i,
    {
        i = i + 1;
    }
    if i < v.len() && chars_eq(&v[i], &t) {
        proof {
            assert(old_view[i as int] == t@);
            assert(old_view.to_set().insert(t@) =~= old_view.to_set());
        }
        return;
    }
    proof {
        if i < v.len() {
            assert(old_view[i as int] == v@[i as int]@);
            lemma_depth_less_total(host, old_view[i as int], t@);
            assert(depth_less(host, t@, old_view[i as int]));
        }
    }
    v.insert(i, t);
    proof {
        let nv = v@.map_values(|w: Vec<char>| w@);
        assert(nv =~= old_view.insert(i as int, t@));
        assert forall|a: int, b: int| 0 <= a < b < nv.len() implies depth_less(host, nv[a], nv[b]) by {
            if b < i {
            } else if b == i {
            } else if a < i {
                assert(nv[b] == old_view[b - 1]);
                if b - 1 > i {
                    lemma_depth_less_transitive(host, t@, old_view[i as int], old_view[b - 1]);
                }
                lemma_depth_less_transitive(host, nv[a], t@, nv[b]);
            } else if a == i {
                if b - 1 > i {
                    lemma_depth_less_transitive(host, t@, old_view[i as int], old_view[b - 1]);
                }
            } else {
            }
        }
        assert forall|x: Seq<char>| nv.to_set().contains(x) <==> old_view.to_set().insert(
            t@,
        ).contains(x) by {
            if nv.contains(x) {
                let k = choose|k: int| 0 <= k < nv.len() && nv[k] == x;
                if k < i {
                    assert(old_view[k] == x);
                } else if k > i {
                    assert(old_view[k - 1] == x);
                }
            }
            if old_view.contains(x) {
                let k = choose|k: int| 0 <= k < old_view.len() && old_view[k] == x;
                if k < i {
                    assert(nv[k] == x);
                } else {
                    assert(nv[k + 1] == x);
                }
            }
            if x == t@ {
                assert(nv[i as int] == x);
            }
        }
        assert(nv.to_set() =~= old_view.to_set().insert(t@));
    }
}

/// Adds to `sorted` the paths of `v` that lie below the root; returns whether
/// there was one.
fn insert_below_root(host: PathHost, sorted: &mut Vec<Vec<char>>, v: &Vec<String>, root: &str, sep: char) -> (found: bool)
    requires
        sorted_by_depth(host, old(sorted)@.map_values(|w: Vec<char>| w@)),
    ensures
        sorted_by_depth(host, final(sorted)@.map_values(|w: Vec<char>| w@)),
        final(sorted)@.map_values(|w: Vec<char>| w@).to_set() == old(sorted)@.map_values(
            |w: Vec<char>| w@,
        ).to_set().union(below_root(texts(v@), root@, sep)),
        found == exists|i: int| 0 <= i < v@.len() && under_root(#[trigger] texts(v@)[i], root@, sep),
{
    let ghost start = sorted@.map_values(|w: Vec<char>| w@).to_set();
    let ghost all = texts(v@);
    let mut found = false;
    let mut i: usize = 0;
    while i < v.len()
        invariant
            i <= v.len(),
            all == texts(v@),
            sorted_by_depth(host, sorted@.map_values(|w: Vec<char>| w@)),
            sorted@.map_values(|w: Vec<char>| w@).to_set() == start.union(
                below_root(all.subrange(0, i as int), root@, sep),
            ),
            found == exists|k: int| 0 <= k < i && under_root(#[trigger] all[k], root@, sep),
        decreases v.len() - i,
    {
        let ghost before = below_root(all.subrange(0, i as int), root@, sep);
        let ghost after = below_root(all.subrange(0, i + 1), root@, sep);
        let ghost x = all[i as int];
        proof {
            assert(x == v@[i as int]@);
            assert(all.subrange(0, i + 1) =~= all.subrange(0, i as int).push(x));
        }
        if is_under_root(v[i].as_str(), root, sep) {
            let ghost prev = sorted@.map_values(|w: Vec<char>| w@).to_set();
            insert_by_depth(host, sorted, str_chars(v[i].as_str()));
            found = true;
            proof {
                let sub = all.subrange(0, i as int);
                assert forall|p: Seq<char>| after.contains(p) <==> before.insert(x).contains(p) by {
                    if sub.push(x).contains(p) && p != x {
                        let k = choose|k: int| 0 <= k < sub.push(x).len() && sub.push(x)[k] == p;
                        assert(sub[k] == p);
                    }
                    if sub.contains(p) {
                        let k = choose|k: int| 0 <= k < sub.len() && sub[k] == p;
                        assert(sub.push(x)[k] == p);
                    }
                    assert(sub.push(x)[sub.len() as int] == x);
                }
                assert(after =~= before.insert(x));
                assert(prev.insert(x) == start.union(before).insert(x));
                assert(start.union(before).insert(x) =~= start.union(after));
            }
        } else {
            proof {
                let sub = all.subrange(0, i as int);
                assert forall|p: Seq<char>| after.contains(p) <==> before.contains(p) by {
                    if sub.push(x).contains(p) && p != x {
                        let k = choose|k: int| 0 <= k < sub.push(x).len() && sub.push(x)[k] == p;
                        assert(sub[k] == p);
                    }
                    if sub.contains(p) {
                        let k = choose|k: int| 0 <= k < sub.len() && sub[k] == p;
                        assert(sub.push(x)[k] == p);
                    }
                }
                assert(after =~= before);
            }
        }
        i = i + 1;
    }
    proof {
        assert(all.subrange(0, v@.len() as int) =~= all);
    }
    found
}

/// The directories that get a synced folder (see [`synced_dirs`]), in the
/// order their folders are created (see [`depth_less`]): each parent before its
/// children.
pub fn synced_folder_paths(host: PathHost, root: &str, sep: char, walked: &Option<Vec<String>>, image_dirs: &Vec<String>) -> (r: Vec<String>)
    ensures
        sorted_by_depth(host, texts(r@)),
        texts(r@).to_set() == synced_dirs(
            root@,
            sep,
            match walked {
                Some(w) => Some(texts(w@)),
                None => None,
            },
            texts(image_dirs@),
        ),
{
    let mut sorted: Vec<Vec<char>> = Vec::new();
    proof {
        assert(sorted@.map_values(|w: Vec<char>| w@).to_set() =~= Set::empty());
    }
    match walked {
        Some(w) => {
            let found = insert_below_root(host, &mut sorted, w, root, sep);
            if !found {
                let ghost prev = sorted@.map_values(|w: Vec<char>| w@).to_set();
                insert_by_depth(host, &mut sorted, str_chars(root));
                proof {
                    assert(below_root(texts(w@), root@, sep) =~= Set::empty());
                    assert(prev =~= Set::empty());
                    assert(Set::<Seq<char>>::empty().insert(root@) =~= set![root@]);
                }
            } else {
                proof {
                    assert(Set::<Seq<char>>::empty().union(below_root(texts(w@), root@, sep))
                        =~= below_root(texts(w@), root@, sep));
                }
            }
        },
        None => {},
    }
    let ghost base = sorted@.map_values(|w: Vec<char>| w@).to_set();
    insert_below_root(host, &mut sorted, image_dirs, root, sep);
    let r = strings_from_char_vecs(&sorted);
    proof {
        assert(texts(r@) == sorted@.map_values(|w: Vec<char>| w@));
        let ws = match walked {
            Some(w) => Some(texts(w@)),
            None => None,
        };
        assert(texts(r@).to_set() =~= synced_dirs(root@, sep, ws, texts(image_dirs@)));
    }
    r
}

/// Position of the last `key` among the first `n` paths.
pub open spec fn last_index_before(paths: Seq<Seq<char>>, n: int, key: Seq<char>) -> Option<int>
    decreases n,
{
    if n <= 0 || n > paths.len() {
        None
    } else if paths[n - 1] == key {
        Some(n - 1)
    } else {
        last_index_before(paths, n - 1, key)
    }
}

/// The parent of the synced folder for `paths[i]`, as a position in
/// `paths`: none for the root, nor when the directory has no parent path;
/// otherwise the folder made earlier for the parent path, if any.
pub open spec fn parent_position(paths: Seq<Seq<char>>, i: int, parent: Option<Seq<char>>, root: Seq<char>) -> Option<int> {
    if paths[i] == root {
        None
    } else {
        match parent {
            None => None,
            Some(pp) => last_index_before(paths, i, pp),
        }
    }
}

/// An optional position as an optional integer.
pub open spec fn opt_index(o: Option<usize>) -> Option<int> {
    match o {
        Some(j) => Some(j as int),
        None => None,
    }
}

/// The optional texts of a list of optional strings.
pub open spec fn opt_texts(v: Seq<Option<String>>) -> Seq<Option<Seq<char>>> {
    v.map_values(|o: Option<String>| match o {
        Some(s) => Some(s@),
        None => None,
    })
}

/// Finds the last `key` among the first `n` paths.
pub(crate) fn last_index_before_exec(paths: &Vec<String>, n: usize, key: &str) -> (r: Option<usize>)
    requires
        n <= paths.len(),
    ensures
        opt_index(r) == last_index_before(texts(paths@), n as int, key@),
{
    let ghost all = texts(paths@);
    let mut k: usize = n;
    while k > 0
        invariant
            k <= n <= paths.len(),
            all == texts(paths@),
            last_index_before(all, n as int, key@) == last_index_before(all, k as int, key@),
        decreases k,
    {
        proof {
            assert(all[k - 1] == paths@[k - 1]@);
        }
        if str_eq(paths[k - 1].as_str(), key) {
            return Some(k - 1);
        }
        k = k - 1;
    }
    None
}

/// The parent of each synced folder as a position in `paths` (see
/// [`parent_position`]); `parents[i]` is the parent path of `paths[i]`.
pub fn synced_folder_parent_positions(root: &str, paths: &Vec<String>, parents: &Vec<Option<String>>) -> (r: Vec<Option<usize>>)
    requires
        parents.len() == paths.len(),
    ensures
        r.len() == paths.len(),
        forall|i: int| 0 <= i < r.len() ==> opt_index(#[trigger] r@[i]) == parent_position(
            texts(paths@),
            i,
            opt_texts(parents@)[i],
            root@,
        ),
{
    let mut r: Vec<Option<usize>> = Vec::new();
    let mut i: usize = 0;
    while i < paths.len()
        invariant
            i <= paths.len(),
            parents.len() == paths.len(),
            r.len() == i,
            forall|k: int| 0 <= k < i ==> opt_index(#[trigger] r@[k]) == parent_position(
                texts(paths@),
                k,
                opt_texts(parents@)[k],
                root@,
            ),
        decreases paths.len() - i,
    {
        proof {
            assert(texts(paths@)[i as int] == paths@[i as int]@);
        }
        let pos = if str_eq(paths[i].as_str(), root) {
            None
        } else {
            match &parents[i] {
                None => None,
                Some(pp) => last_index_before_exec(paths, i, pp.as_str()),
            }
        };
        r.push(pos);
        i = i + 1;
    }
    r
}

/// The name of the synced folder for a directory: its last component, or the
/// whole path when that is missing or blank.
pub open spec fn synced_folder_name_of(host: PathHost, dir: Seq<char>) -> Seq<char> {
    match file_name_of(host, dir) {
        Some(n) => if trim(n).len() > 0 {
            n
        } else {
            dir
        },
        None => dir,
    }
}

/// The name of the synced folder for a directory (see
/// [`synced_folder_name_of`]).
pub fn synced_folder_name(host: PathHost, dir: &str) -> (r: String)
    ensures
        r@ == synced_folder_name_of(host, dir@),
{
    let v = str_chars(dir);
    match file_name_chars(host, &v) {
        Some(n) => {
            let s = string_from_chars(&n);
            let t = trim_chars(s.as_str());
            if t.len() > 0 {
                s
            } else {
                string_from_chars(&v)
            }
        },
        None => string_from_chars(&v),
    }
}

/// The last `key` among the first `n` paths is found exactly when `key` is
/// among them.
pub proof fn lemma_last_index_before_found(paths: Seq<Seq<char>>, n: int, key: Seq<char>)
    requires
        0 <= n <= paths.len(),
    ensures
        (last_index_before(paths, n, key) is Some) == paths.subrange(0, n).contains(key),
    decreases n,
{
    if n > 0 {
        let sub = paths.subrange(0, n);
        lemma_last_index_before_found(paths, n - 1, key);
        if paths[n - 1] == key {
            assert(sub[n - 1] == key);
        } else {
            assert forall|k: int| 0 <= k < sub.len() && sub[k] == key implies paths.subrange(0, n - 1).contains(key) by {
                assert(paths.subrange(0, n - 1)[k] == key);
            }
            let prefix = paths.subrange(0, n - 1);
            if prefix.contains(key) {
                let k = choose|k: int| 0 <= k < prefix.len() && prefix[k] == key;
                assert(sub[k] == key);
            }
        }
    }
}

/// Where the last `key` among the first `n` paths is found, it is one of
/// them and equals `key`.
pub proof fn lemma_last_index_before(paths: Seq<Seq<char>>, n: int, key: Seq<char>)
    ensures
        last_index_before(paths, n, key) matches Some(j) ==> 0 <= j < n && j < paths.len() && paths[j] == key,
    decreases n,
{
    if n > 0 && n <= paths.len() && paths[n - 1] != key {
        lemma_last_index_before(paths, n - 1, key);
    }
}

/// A synced folder's parent is made before it, for its parent path.
pub proof fn law_parent_folder_made_first(paths: Seq<Seq<char>>, i: int, parent: Option<Seq<char>>, root: Seq<char>)
    requires
        0 <= i < paths.len(),
    ensures
        parent_position(paths, i, parent, root) matches Some(j) ==> 0 <= j < i && parent == Some(paths[j]),
{
    if let Some(pp) = parent {
        lemma_last_index_before(paths, i, pp);
    }
}

/// An image whose directory lies outside the root is assigned no folder; one
/// whose own directory has a synced folder is assigned that folder.
pub proof fn law_nearest_folder_own_directory(root: Seq<char>, sep: char, ancestors: Seq<Seq<char>>, synced: Seq<(Seq<char>, i64)>)
    requires
        ancestors.len() > 0,
    ensures
        !under_root(ancestors[0], root, sep) ==> nearest_folder(root, sep, ancestors, synced) is None,
        under_root(ancestors[0], root, sep) && last_id(synced, ancestors[0]) is Some ==> nearest_folder(
            root,
            sep,
            ancestors,
            synced,
        ) == last_id(synced, ancestors[0]),
{
}

/// Every directory that gets a synced folder is the root or lies below it.
pub proof fn law_synced_dirs_under_root(root: Seq<char>, sep: char, walked: Option<Seq<Seq<char>>>, image_dirs: Seq<Seq<char>>, d: Seq<char>)
    requires
        synced_dirs(root, sep, walked, image_dirs).contains(d),
    ensures
        under_root(d, root, sep),
{
}

/// The error for a folder path that is not a directory ("choose a valid
/// folder").
pub open spec fn invalid_folder_error() -> Seq<char> {
    "\u{8bf7}\u{9009}\u{62e9}\u{4e00}\u{4e2a}\u{6709}\u{6548}\u{7684}\u{6587}\u{4ef6}\u{5939}"@
}

/// The prefix of the error for a folder whose full path could not be read
/// ("reading the folder failed: ").
pub open spec fn folder_read_error_prefix() -> Seq<char> {
    "\u{8bfb}\u{53d6}\u{6587}\u{4ef6}\u{5939}\u{5931}\u{8d25}\u{ff1a}"@
}

/// The folder path a chosen folder is stored under. `is_dir` tells whether
/// the chosen path is a directory, `canonical` its full, resolved path as
/// text or the reason that could not be read. A path that is no directory
/// is refused; otherwise the resolved path is kept, or its error reported.
pub fn normalize_folder_path(is_dir: bool, canonical: Result<String, String>) -> (r: Result<String, String>)
    ensures
        !is_dir ==> (r matches Err(e) && e@ == invalid_folder_error()),
        is_dir ==> match canonical {
            Ok(p) => r == Ok::<String, String>(p),
            Err(e) => r matches Err(m) && m@ == folder_read_error_prefix() + e@,
        },
{
    if !is_dir {
        return Err(owned_string("\u{8bf7}\u{9009}\u{62e9}\u{4e00}\u{4e2a}\u{6709}\u{6548}\u{7684}\u{6587}\u{4ef6}\u{5939}"));
    }
    match canonical {
        Ok(p) => Ok(p),
        Err(e) => {
            let mut m = owned_string("\u{8bfb}\u{53d6}\u{6587}\u{4ef6}\u{5939}\u{5931}\u{8d25}\u{ff1a}");
            push_str_chars(&mut m, e.as_str());
            Err(m)
        },
    }
}

} // verus!
