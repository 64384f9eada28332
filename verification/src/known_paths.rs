use vstd::prelude::*;
use crate::chars::{str_chars, chars_eq};
use crate::chars::texts;
use crate::text::{
    text_less, strictly_sorted, chars_less, lemma_text_less_irreflexive, lemma_text_less_total,
    lemma_text_less_transitive, owned_string,
};

verus! {

/// The set of image paths the library already knows, kept sorted so that
/// a path is found by halving.
pub struct KnownPaths {
    sorted: Vec<String>,
}

impl View for KnownPaths {
    type V = Set<Seq<char>>;

    closed spec fn view(&self) -> Set<Seq<char>> {
        texts(self.sorted@).to_set()
    }
}

/// What a scan does with an image it found: add it (its path was not
/// known), leave it (known and unchanged), or write its new details (known
/// but changed).
pub enum ScanOutcome {
    New,
    Unchanged,
    Updated,
}

impl KnownPaths {
    /// The paths are kept strictly sorted.
    pub closed spec fn wf(self) -> bool {
        strictly_sorted(texts(self.sorted@))
    }

    /// No known path.
    pub fn new() -> (r: Self)
        ensures
            r.wf(),
            r@ == Set::<Seq<char>>::empty(),
    {
        let r = KnownPaths { sorted: Vec::new() };
        proof {
            assert(texts(r.sorted@).to_set() =~= Set::<Seq<char>>::empty());
        }
        r
    }

    /// Where `t` belongs: every path before the position sorts before `t`,
    /// none from it on does.
    fn position(&self, t: &Vec<char>) -> (r: usize)
        requires
            self.wf(),
        ensures
            r <= self.sorted@.len(),
            forall|k: int| 0 <= k < r ==> text_less(#[trigger] texts(self.sorted@)[k], t@),
            forall|k: int| r <= k < self.sorted@.len() ==> !text_less(#[trigger] texts(self.sorted@)[k], t@),
    {
        let ghost s = texts(self.sorted@);
        let mut lo: usize = 0;
        let mut hi: usize = self.sorted.len();
        while lo < hi
            invariant
                lo <= hi <= self.sorted@.len(),
                s == texts(self.sorted@),
                strictly_sorted(s),
                forall|k: int| 0 <= k < lo ==> text_less(#[trigger] s[k], t@),
                forall|k: int| hi <= k < s.len() ==> !text_less(#[trigger] s[k], t@),
            decreases hi - lo,
        {
            let mid = lo + (hi - lo) / 2;
            let m = str_chars(self.sorted[mid].as_str());
            proof {
                assert(s[mid as int] == m@);
            }
            if chars_less(&m, t) {
                proof {
                    assert forall|k: int| 0 <= k < mid + 1 implies text_less(#[trigger] s[k], t@) by {
                        if k < mid {
                            lemma_text_less_transitive(s[k], s[mid as int], t@);
                        }
                    }
                }
                lo = mid + 1;
            } else {
                proof {
                    assert forall|k: int| mid <= k < s.len() implies !text_less(#[trigger] s[k], t@) by {
                        if k > mid && text_less(s[k], t@) {
                            lemma_text_less_transitive(s[mid as int], s[k], t@);
                        }
                    }
                }
                hi = mid;
            }
        }
        lo
    }

    /// Whether `path` is known.
    pub fn contains(&self, path: &str) -> (r: bool)
        requires
            self.wf(),
        ensures
            r == self@.contains(path@),
    {
        let t = str_chars(path);
        let i = self.position(&t);
        let ghost s = texts(self.sorted@);
        if i < self.sorted.len() {
            let m = str_chars(self.sorted[i].as_str());
            proof {
                assert(s[i as int] == m@);
            }
            if chars_eq(&m, &t) {
                proof {
                    assert(s.contains(path@));
                }
                return true;
            }
        }
        proof {
            assert forall|k: int| 0 <= k < s.len() implies s[k] != path@ by {
                if k < i {
                    lemma_text_less_irreflexive(path@);
                } else {
                    if s[k] == path@ {
                        if k > i {
                            lemma_text_less_total(s[i as int], path@);
                            lemma_text_less_transitive(path@, s[i as int], s[k]);
                            lemma_text_less_irreflexive(path@);
                        }
                    }
                }
            }
        }
        false
    }

    /// Adds `path`; returns whether it was new.
    pub fn insert(&mut self, path: &str) -> (added: bool)
        requires
            old(self).wf(),
        ensures
            final(self).wf(),
            added == !old(self)@.contains(path@),
            final(self)@ == old(self)@.insert(path@),
    {
        let t = str_chars(path);
        let i = self.position(&t);
        let ghost s = texts(self.sorted@);
        if i < self.sorted.len() {
            let m = str_chars(self.sorted[i].as_str());
            proof {
                assert(s[i as int] == m@);
            }
            if chars_eq(&m, &t) {
                proof {
                    assert(s.contains(path@));
                    assert(s.to_set().insert(path@) =~= s.to_set());
                }
                return false;
            }
            proof {
                lemma_text_less_total(s[i as int], path@);
            }
        }
        proof {
            assert forall|k: int| 0 <= k < s.len() implies s[k] != path@ by {
                if k < i {
                    lemma_text_less_irreflexive(path@);
                } else if s[k] == path@ && k > i {
                    lemma_text_less_transitive(path@, s[i as int], s[k]);
                    lemma_text_less_irreflexive(path@);
                }
            }
        }
        self.sorted.insert(i, owned_string(path));
        proof {
            let ns = texts(self.sorted@);
            assert(ns =~= s.insert(i as int, path@));
            assert forall|a: int, b: int| 0 <= a < b < ns.len() implies text_less(ns[a], ns[b]) by {
                if b < i {
                } else if b == i {
                } else if a < i {
                    assert(ns[b] == s[b - 1]);
                    if b - 1 > i {
                        lemma_text_less_transitive(path@, s[i as int], s[b - 1]);
                    }
                    lemma_text_less_transitive(ns[a], path@, ns[b]);
                } else if a == i {
                    if b - 1 > i {
                        lemma_text_less_transitive(path@, s[i as int], s[b - 1]);
                    }
                } else {
                }
            }
            assert forall|x: Seq<char>| ns.to_set().contains(x) <==> s.to_set().insert(path@).contains(x) by {
                if ns.contains(x) {
                    let k = choose|k: int| 0 <= k < ns.len() && ns[k] == x;
                    if k < i {
                        assert(s[k] == x);
                    } else if k > i {
                        assert(s[k - 1] == x);
                    }
                }
                if s.contains(x) {
                    let k = choose|k: int| 0 <= k < s.len() && s[k] == x;
                    if k < i {
                        assert(ns[k] == x);
                    } else {
                        assert(ns[k + 1] == x);
                    }
                }
                if x == path@ {
                    assert(ns[i as int] == x);
                }
            }
            assert(ns.to_set() =~= s.to_set().insert(path@));
        }
        true
    }

    /// The known paths of a list of paths.
    pub fn from_paths(paths: &Vec<String>) -> (r: Self)
        ensures
            r.wf(),
            r@ == texts(paths@).to_set(),
    {
        let mut r = KnownPaths::new();
        let mut i: usize = 0;
        while i < paths.len()
            invariant
                i <= paths.len(),
                r.wf(),
                r@ == texts(paths@).subrange(0, i as int).to_set(),
            decreases paths.len() - i,
        {
            r.insert(paths[i].as_str());
            proof {
                let all = texts(paths@);
                assert(all[i as int] == paths@[i as int]@);
                assert(all.subrange(0, i + 1) =~= all.subrange(0, i as int).push(all[i as int]));
                all.subrange(0, i as int).lemma_push_to_set_commute(all[i as int]);
            }
            i = i + 1;
        }
        proof {
            assert(texts(paths@).subrange(0, paths@.len() as int) =~= texts(paths@));
        }
        r
    }
}

/// What a scan does with an image it found (see [`ScanOutcome`]), and the
/// image's path becomes known.
pub fn classify_scanned_image(known: &mut KnownPaths, path: &str, unchanged: bool) -> (r: ScanOutcome)
    requires
        old(known).wf(),
    ensures
        final(known).wf(),
        final(known)@ == old(known)@.insert(path@),
        !old(known)@.contains(path@) ==> r is New,
        old(known)@.contains(path@) && unchanged ==> r is Unchanged,
        old(known)@.contains(path@) && !unchanged ==> r is Updated,
{
    if known.insert(path) {
        ScanOutcome::New
    } else if unchanged {
        ScanOutcome::Unchanged
    } else {
        ScanOutcome::Updated
    }
}

/// How many scanned images are written to the database in one go.
pub const SCAN_BATCH_SIZE: usize = 2000;

/// Whether the images collected so far make a full batch to write.
pub fn scan_batch_full(pending: usize) -> (r: bool)
    ensures
        r == (pending >= SCAN_BATCH_SIZE),
{
    pending >= SCAN_BATCH_SIZE
}

/// Whether the scan reports its file count (and checks for a pause) after
/// this many files: every twentieth.
pub fn scan_progress_tick(scanned_files: i64) -> (r: bool)
    ensures
        r == (scanned_files % 20 == 0),
{
    scanned_files % 20 == 0
}

/// An image path is reported new by a scan only the first time it is met:
/// once classified it is known (so [`classify_scanned_image`] no longer gives
/// [`ScanOutcome::New`] for it), and meeting it again leaves the known paths
/// as they are.
pub proof fn law_new_only_once(known: Set<Seq<char>>, after: Set<Seq<char>>, path: Seq<char>)
    requires
        after == known.insert(path),
    ensures
        after.contains(path),
        after.insert(path) == after,
{
    assert(after.insert(path) =~= after);
}

} // verus!
