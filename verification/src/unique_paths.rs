use vstd::prelude::*;
use crate::paths::PathHost;
use crate::known_paths::KnownPaths;
use crate::paths::{
    join_name, join_name_exec, export_file_candidate, export_file_name_candidate,
    reference_file_candidate, reference_file_name_candidate, clipboard_file_candidate,
    clipboard_file_name_candidate,
};
use crate::chars::str_chars;

verus! {

/// The path tried at attempt `index` when an image named `file_name` is
/// exported into `target_dir` (see [`export_file_candidate`]).
pub open spec fn export_path_candidate(host: PathHost, target_dir: Seq<char>, file_name: Seq<char>, index: nat) -> Seq<char> {
    join_name(host, target_dir, export_file_candidate(file_name, index))
}

/// The path tried at attempt `suffix` when a reference image named
/// `file_name` is copied into `folder` (see [`reference_file_candidate`]).
pub open spec fn reference_path_candidate(host: PathHost, folder: Seq<char>, file_name: Seq<char>, suffix: nat) -> Seq<char> {
    join_name(host, folder, reference_file_candidate(host, file_name, suffix))
}

/// The check `is_present` answered `true` for a path with the text `p`: the path
/// was found on disk.
pub open spec fn reported_present<F: Fn(&str) -> bool>(is_present: F, p: Seq<char>) -> bool {
    exists|s: &str| s@ == p && call_ensures(is_present, (s,), true)
}

/// The check `is_present` answered `false` for a path with the text `p`.
pub open spec fn reported_absent<F: Fn(&str) -> bool>(is_present: F, p: Seq<char>) -> bool {
    exists|s: &str| s@ == p && call_ensures(is_present, (s,), false)
}

/// The path an exported image named `file_name` is written to in
/// `target_dir`: the first candidate (see [`export_path_candidate`]) that no
/// earlier export of this run took (`used_export_paths`) and that `is_present`
/// does not find on disk; it is added to `used_export_paths`. `None`, with
/// nothing changed, when every attempt number of a `u64` was refused.
pub fn next_available_export_path<F: Fn(&str) -> bool>(
    host: PathHost,
    target_dir: &str,
    file_name: &str,
    used_export_paths: &mut KnownPaths,
    is_present: F,
) -> (r: Option<String>)
    requires
        old(used_export_paths).wf(),
        forall|s: &str| #[trigger] is_present.requires((s,)),
    ensures
        final(used_export_paths).wf(),
        match r {
            Some(p) => exists|k: nat| {
                &&& p@ == export_path_candidate(host, target_dir@, file_name@, k)
                &&& !old(used_export_paths)@.contains(p@)
                &&& reported_absent(is_present, p@)
                &&& final(used_export_paths)@ == old(used_export_paths)@.insert(p@)
                &&& forall|j: nat| j < k ==> old(used_export_paths)@.contains(
                    #[trigger] export_path_candidate(host, target_dir@, file_name@, j),
                ) || reported_present(is_present, export_path_candidate(host, target_dir@, file_name@, j))
            },
            None => {
                &&& final(used_export_paths)@ == old(used_export_paths)@
                &&& forall|j: nat| j <= u64::MAX ==> old(used_export_paths)@.contains(
                    #[trigger] export_path_candidate(host, target_dir@, file_name@, j),
                ) || reported_present(is_present, export_path_candidate(host, target_dir@, file_name@, j))
            },
        },
{
    let mut index: u64 = 0;
    loop
        invariant
            used_export_paths.wf(),
            *used_export_paths == *old(used_export_paths),
            forall|s: &str| #[trigger] is_present.requires((s,)),
            forall|j: nat| j < index ==> old(used_export_paths)@.contains(
                #[trigger] export_path_candidate(host, target_dir@, file_name@, j),
            ) || reported_present(is_present, export_path_candidate(host, target_dir@, file_name@, j)),
        decreases u64::MAX - index,
    {
        let name = export_file_name_candidate(file_name, index);
        let candidate = join_name_exec(host, target_dir, &str_chars(name.as_str()));
        let c: &str = candidate.as_str();
        if !used_export_paths.contains(c) {
            let found = is_present(c);
            if !found {
                used_export_paths.insert(c);
                proof {
                    let k = index as nat;
                    assert(reported_absent(is_present, candidate@));
                    assert(candidate@ == export_path_candidate(host, target_dir@, file_name@, k));
                    assert(forall|j: nat| j < k ==> old(used_export_paths)@.contains(
                        #[trigger] export_path_candidate(host, target_dir@, file_name@, j),
                    ) || reported_present(is_present, export_path_candidate(host, target_dir@, file_name@, j)));
                }
                return Some(candidate);
            }
            proof {
                assert(reported_present(is_present, candidate@));
            }
        }
        if index == u64::MAX {
            return None;
        }
        index = index + 1;
    }
}

/// The path a reference image named `file_name` is copied to in `folder`:
/// the first candidate (see [`reference_path_candidate`]) that `is_present` does
/// not find on disk. `None` when every attempt number of a `u64` was found
/// taken.
pub fn unique_file_path<F: Fn(&str) -> bool>(host: PathHost, folder_path: &str, file_name: &str, is_present: F) -> (r: Option<String>)
    requires
        forall|s: &str| #[trigger] is_present.requires((s,)),
    ensures
        match r {
            Some(p) => exists|k: nat| {
                &&& p@ == reference_path_candidate(host, folder_path@, file_name@, k)
                &&& reported_absent(is_present, p@)
                &&& forall|j: nat| j < k ==> reported_present(
                    is_present,
                    #[trigger] reference_path_candidate(host, folder_path@, file_name@, j),
                )
            },
            None => forall|j: nat| j <= u64::MAX ==> reported_present(
                is_present,
                #[trigger] reference_path_candidate(host, folder_path@, file_name@, j),
            ),
        },
{
    let mut suffix: u64 = 0;
    loop
        invariant
            forall|s: &str| #[trigger] is_present.requires((s,)),
            forall|j: nat| j < suffix ==> reported_present(
                is_present,
                #[trigger] reference_path_candidate(host, folder_path@, file_name@, j),
            ),
        decreases u64::MAX - suffix,
    {
        let name = reference_file_name_candidate(host, file_name, suffix);
        let candidate = join_name_exec(host, folder_path, &str_chars(name.as_str()));
        let found = is_present(candidate.as_str());
        if !found {
            proof {
                let k = suffix as nat;
                assert(reported_absent(is_present, candidate@));
                assert(candidate@ == reference_path_candidate(host, folder_path@, file_name@, k));
                assert(forall|j: nat| j < k ==> reported_present(
                    is_present,
                    #[trigger] reference_path_candidate(host, folder_path@, file_name@, j),
                ));
            }
            return Some(candidate);
        }
        proof {
            assert(reported_present(is_present, candidate@));
        }
        if suffix == u64::MAX {
            return None;
        }
        suffix = suffix + 1;
    }
}

/// The path tried at attempt `suffix` when a pasted image taken at time
/// `now` (number `index` of several pasted at once) is saved into `dir`
/// (see [`clipboard_file_candidate`]).
pub open spec fn pasted_image_path_candidate(
    host: PathHost,
    dir: Seq<char>,
    now: i64,
    index: Option<u64>,
    suffix: u64,
    ext: Seq<char>,
) -> Seq<char> {
    join_name(host, dir, clipboard_file_candidate(now, index, suffix, ext))
}

/// The path a pasted image is saved to in `clipboard_dir`: the first
/// candidate (see [`pasted_image_path_candidate`]) that `is_present` does not
/// find on disk. `None` when every attempt number of a `u64` was found taken.
pub fn pasted_image_path<F: Fn(&str) -> bool>(
    host: PathHost,
    clipboard_dir: &str,
    now: i64,
    index: Option<u64>,
    extension: &str,
    is_present: F,
) -> (r: Option<String>)
    requires
        forall|s: &str| #[trigger] is_present.requires((s,)),
    ensures
        match r {
            Some(p) => exists|k: u64| {
                &&& p@ == pasted_image_path_candidate(host, clipboard_dir@, now, index, k, extension@)
                &&& reported_absent(is_present, p@)
                &&& forall|j: u64| j < k ==> reported_present(
                    is_present,
                    #[trigger] pasted_image_path_candidate(host, clipboard_dir@, now, index, j, extension@),
                )
            },
            None => forall|j: u64| reported_present(
                is_present,
                #[trigger] pasted_image_path_candidate(host, clipboard_dir@, now, index, j, extension@),
            ),
        },
{
    let mut suffix: u64 = 0;
    loop
        invariant
            forall|s: &str| #[trigger] is_present.requires((s,)),
            forall|j: u64| j < suffix ==> reported_present(
                is_present,
                #[trigger] pasted_image_path_candidate(host, clipboard_dir@, now, index, j, extension@),
            ),
        decreases u64::MAX - suffix,
    {
        let name = clipboard_file_name_candidate(now, index, suffix, extension);
        let candidate = join_name_exec(host, clipboard_dir, &str_chars(name.as_str()));
        let found = is_present(candidate.as_str());
        if !found {
            proof {
                assert(reported_absent(is_present, candidate@));
                assert(candidate@ == pasted_image_path_candidate(host, clipboard_dir@, now, index, suffix, extension@));
            }
            return Some(candidate);
        }
        proof {
            assert(reported_present(is_present, candidate@));
        }
        if suffix == u64::MAX {
            return None;
        }
        suffix = suffix + 1;
    }
}

/// Export paths handed out in one run never repeat: a path handed out joins
/// the used paths (see [`next_available_export_path`]), and a later call only
/// hands out a path not among them, so it differs from every earlier one.
pub proof fn law_export_paths_not_repeated(
    used0: Set<Seq<char>>,
    p1: Seq<char>,
    used1: Set<Seq<char>>,
    p2: Seq<char>,
    used2: Set<Seq<char>>,
)
    requires
        !used0.contains(p1),
        used1 == used0.insert(p1),
        !used1.contains(p2),
        used2 == used1.insert(p2),
    ensures
        p1 != p2,
        used2.contains(p1) && used2.contains(p2),
        used2.len() == used0.len() + 2 || !used0.finite(),
{
    if used0.finite() {
        assert(used1.len() == used0.len() + 1);
    }
}

} // verus!
