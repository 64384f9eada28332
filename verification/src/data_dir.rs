use vstd::prelude::*;
use crate::paths::PathHost;
use crate::chars::{trim, trim_chars, string_from_chars, push_str_chars};
use crate::folder_sync::{under_root, is_under_root};
use crate::text::{owned_string, str_eq};
use crate::paths::join_name;
use crate::sources::join_str;

verus! {

/// The error for a blank migration target ("choose a target data
/// directory").
pub open spec fn blank_target_error() -> Seq<char> {
    "\u{8bf7}\u{9009}\u{62e9}\u{76ee}\u{6807}\u{6570}\u{636e}\u{76ee}\u{5f55}"@
}

/// The error for a migration target that is the current data directory.
pub open spec fn same_directory_error() -> Seq<char> {
    "\u{76ee}\u{6807}\u{76ee}\u{5f55}\u{4e0e}\u{5f53}\u{524d}\u{6570}\u{636e}\u{76ee}\u{5f55}\u{76f8}\u{540c}"@
}

/// The error for a migration target inside the current data directory.
pub open spec fn nested_directory_error() -> Seq<char> {
    "\u{76ee}\u{6807}\u{76ee}\u{5f55}\u{4e0d}\u{80fd}\u{4f4d}\u{4e8e}\u{5f53}\u{524d}\u{6570}\u{636e}\u{76ee}\u{5f55}\u{5185}\u{90e8}"@
}

/// The migration target as typed, trimmed; blank is an error.
pub open spec fn migration_target_of(input: Seq<char>) -> Result<Seq<char>, Seq<char>> {
    if trim(input).len() == 0 {
        Err(blank_target_error())
    } else {
        Ok(trim(input))
    }
}

/// The migration target as typed (see [`migration_target_of`]).
pub fn migration_target(input: &str) -> (r: Result<String, String>)
    ensures
        match migration_target_of(input@) {
            Ok(t) => r matches Ok(s) && s@ == t,
            Err(e) => r matches Err(s) && s@ == e,
        },
{
    let t = trim_chars(input);
    if t.len() == 0 {
        Err(owned_string("\u{8bf7}\u{9009}\u{62e9}\u{76ee}\u{6807}\u{6570}\u{636e}\u{76ee}\u{5f55}"))
    } else {
        Ok(string_from_chars(&t))
    }
}

/// Whether the data directory may move from `source` to `target` (both as
/// resolved on disk): not onto itself, and not into itself (`target` below
/// `source`, see [`under_root`]).
pub open spec fn migration_paths_check_of(source: Seq<char>, target: Seq<char>, sep: char) -> Option<Seq<char>> {
    if source == target {
        Some(same_directory_error())
    } else if under_root(target, source, sep) {
        Some(nested_directory_error())
    } else {
        None
    }
}

/// Why the data directory may not move from `source` to `target`, if it may
/// not (see [`migration_paths_check_of`]).
pub fn check_migration_paths(source: &str, target: &str, sep: char) -> (r: Option<String>)
    ensures
        match migration_paths_check_of(source@, target@, sep) {
            Some(e) => r matches Some(s) && s@ == e,
            None => r is None,
        },
{
    if str_eq(source, target) {
        Some(owned_string("\u{76ee}\u{6807}\u{76ee}\u{5f55}\u{4e0e}\u{5f53}\u{524d}\u{6570}\u{636e}\u{76ee}\u{5f55}\u{76f8}\u{540c}"))
    } else if is_under_root(target, source, sep) {
        Some(owned_string("\u{76ee}\u{6807}\u{76ee}\u{5f55}\u{4e0d}\u{80fd}\u{4f4d}\u{4e8e}\u{5f53}\u{524d}\u{6570}\u{636e}\u{76ee}\u{5f55}\u{5185}\u{90e8}"))
    } else {
        None
    }
}

/// What was found of one database file after copying the data directory:
/// its name, whether it is a file in the source and in the target, and its
/// size in each.
pub struct MigratedFileProbe {
    pub file_name: String,
    pub source_is_file: bool,
    pub target_is_file: bool,
    pub source_size: u64,
    pub target_size: u64,
}

/// The check of one database file after copying: a file the source lacks is
/// not checked; one the target lacks, or whose size differs, fails the move.
pub open spec fn migrated_file_error(p: MigratedFileProbe) -> Option<Seq<char>> {
    if !p.source_is_file {
        None
    } else if !p.target_is_file {
        Some("\u{8fc1}\u{79fb}\u{6821}\u{9a8c}\u{5931}\u{8d25}\u{ff1a}\u{76ee}\u{6807}\u{76ee}\u{5f55}\u{7f3a}\u{5c11} "@ + p.file_name@)
    } else if p.source_size != p.target_size {
        Some("\u{8fc1}\u{79fb}\u{6821}\u{9a8c}\u{5931}\u{8d25}\u{ff1a}"@ + p.file_name@ + " \u{6587}\u{4ef6}\u{5927}\u{5c0f}\u{4e0d}\u{4e00}\u{81f4}"@)
    } else {
        None
    }
}

/// The first failing check among the first `n` files.
pub open spec fn first_migration_error(probes: Seq<MigratedFileProbe>, n: int) -> Option<Seq<char>>
    decreases n,
{
    if n <= 0 || n > probes.len() {
        None
    } else {
        match first_migration_error(probes, n - 1) {
            Some(e) => Some(e),
            None => migrated_file_error(probes[n - 1]),
        }
    }
}

/// Checks the copied database files in order; the first failing check is
/// the error (see [`migrated_file_error`]).
pub fn validate_migrated_data_directory(probes: &Vec<MigratedFileProbe>) -> (r: Result<(), String>)
    ensures
        match first_migration_error(probes@, probes@.len() as int) {
            Some(e) => r matches Err(s) && s@ == e,
            None => r is Ok,
        },
{
    let mut i: usize = 0;
    while i < probes.len()
        invariant
            i <= probes.len(),
            first_migration_error(probes@, i as int) is None,
        decreases probes.len() - i,
    {
        let p = &probes[i];
        if p.source_is_file {
            if !p.target_is_file {
                let mut s = owned_string("\u{8fc1}\u{79fb}\u{6821}\u{9a8c}\u{5931}\u{8d25}\u{ff1a}\u{76ee}\u{6807}\u{76ee}\u{5f55}\u{7f3a}\u{5c11} ");
                push_str_chars(&mut s, p.file_name.as_str());
                proof {
                    lemma_first_error_stays(probes@, i as int + 1, probes@.len() as int);
                }
                return Err(s);
            }
            if p.source_size != p.target_size {
                let mut s = owned_string("\u{8fc1}\u{79fb}\u{6821}\u{9a8c}\u{5931}\u{8d25}\u{ff1a}");
                push_str_chars(&mut s, p.file_name.as_str());
                push_str_chars(&mut s, " \u{6587}\u{4ef6}\u{5927}\u{5c0f}\u{4e0d}\u{4e00}\u{81f4}");
                proof {
                    lemma_first_error_stays(probes@, i as int + 1, probes@.len() as int);
                }
                return Err(s);
            }
        }
        i = i + 1;
    }
    Ok(())
}

/// Once a check fails, the first failing check does not change as more
/// files are looked at.
proof fn lemma_first_error_stays(probes: Seq<MigratedFileProbe>, m: int, n: int)
    requires
        0 < m <= n <= probes.len(),
        first_migration_error(probes, m) is Some,
    ensures
        first_migration_error(probes, n) == first_migration_error(probes, m),
    decreases n - m,
{
    if n > m {
        lemma_first_error_stays(probes, m, n - 1);
    }
}

/// The data directory a portable configuration names: its value trimmed,
/// none when absent or blank.
pub open spec fn configured_data_dir_of(value: Option<Seq<char>>) -> Option<Seq<char>> {
    match value {
        Some(v) => if trim(v).len() == 0 {
            None
        } else {
            Some(trim(v))
        },
        None => None,
    }
}

/// The data directory a portable configuration names (see
/// [`configured_data_dir_of`]).
pub fn configured_data_dir(value: &Option<String>) -> (r: Option<String>)
    ensures
        match configured_data_dir_of(
            match value {
                Some(v) => Some(v@),
                None => None,
            },
        ) {
            Some(d) => r matches Some(s) && s@ == d,
            None => r is None,
        },
{
    match value {
        Some(v) => {
            let t = trim_chars(v.as_str());
            if t.len() == 0 {
                None
            } else {
                Some(string_from_chars(&t))
            }
        },
        None => None,
    }
}

/// Whether the old per-user data directory is kept in use: the directory
/// next to the executable holds no database yet while the old one does.
pub fn use_legacy_data_dir(portable_database_exists: bool, legacy_database_exists: bool) -> (r: bool)
    ensures
        r == (!portable_database_exists && legacy_database_exists),
{
    !portable_database_exists && legacy_database_exists
}

/// The note shown while the old per-user data directory stays in use.
pub open spec fn legacy_data_dir_note_of(dir: Seq<char>) -> Seq<char> {
    "\u{68c0}\u{6d4b}\u{5230}\u{65e7}\u{7248} AppData \u{6570}\u{636e}\u{5e93}\u{ff0c}\u{5f53}\u{524d}\u{6682}\u{65f6}\u{4f7f}\u{7528}\u{65e7}\u{6570}\u{636e}\u{76ee}\u{5f55} "@
        + dir + "\u{3002}\u{53ef}\u{5728}\u{8bbe}\u{7f6e}\u{4e2d}\u{8fc1}\u{79fb}\u{6570}\u{636e}\u{76ee}\u{5f55}\u{3002}"@
}

/// The note shown while the old per-user data directory stays in use (see
/// [`legacy_data_dir_note_of`]).
pub fn legacy_data_dir_note(dir: &str) -> (r: String)
    ensures
        r@ == legacy_data_dir_note_of(dir@),
{
    let mut s = owned_string("\u{68c0}\u{6d4b}\u{5230}\u{65e7}\u{7248} AppData \u{6570}\u{636e}\u{5e93}\u{ff0c}\u{5f53}\u{524d}\u{6682}\u{65f6}\u{4f7f}\u{7528}\u{65e7}\u{6570}\u{636e}\u{76ee}\u{5f55} ");
    push_str_chars(&mut s, dir);
    push_str_chars(&mut s, "\u{3002}\u{53ef}\u{5728}\u{8bbe}\u{7f6e}\u{4e2d}\u{8fc1}\u{79fb}\u{6570}\u{636e}\u{76ee}\u{5f55}\u{3002}");
    proof {
        assert(s@ =~= legacy_data_dir_note_of(dir@));
    }
    s
}

/// The note shown when the directory next to the executable could not be
/// made and the per-user directory is used instead.
pub open spec fn exe_data_dir_failure_note_of(data_dir: Seq<char>, error: Seq<char>, system_dir: Seq<char>) -> Seq<char> {
    "\u{65e0}\u{6cd5}\u{521b}\u{5efa} exe \u{540c}\u{7ea7} data \u{76ee}\u{5f55} "@ + data_dir + "\u{ff1a}"@ + error
        + "\u{3002}\u{5df2}\u{6539}\u{7528}\u{7cfb}\u{7edf}\u{6570}\u{636e}\u{76ee}\u{5f55} "@ + system_dir
}

/// The note shown when the directory next to the executable could not be
/// made (see [`exe_data_dir_failure_note_of`]).
pub fn exe_data_dir_failure_note(data_dir: &str, error: &str, system_dir: &str) -> (r: String)
    ensures
        r@ == exe_data_dir_failure_note_of(data_dir@, error@, system_dir@),
{
    let mut s = owned_string("\u{65e0}\u{6cd5}\u{521b}\u{5efa} exe \u{540c}\u{7ea7} data \u{76ee}\u{5f55} ");
    push_str_chars(&mut s, data_dir);
    push_str_chars(&mut s, "\u{ff1a}");
    push_str_chars(&mut s, error);
    push_str_chars(&mut s, "\u{3002}\u{5df2}\u{6539}\u{7528}\u{7cfb}\u{7edf}\u{6570}\u{636e}\u{76ee}\u{5f55} ");
    push_str_chars(&mut s, system_dir);
    proof {
        assert(s@ =~= exe_data_dir_failure_note_of(data_dir@, error@, system_dir@));
    }
    s
}

/// The note shown when the executable's directory is unknown and the
/// per-user directory is used instead.
pub open spec fn exe_dir_unknown_note_of(error: Seq<char>, system_dir: Seq<char>) -> Seq<char> {
    "\u{65e0}\u{6cd5}\u{5b9a}\u{4f4d} exe \u{6570}\u{636e}\u{76ee}\u{5f55}\u{ff1a}"@ + error
        + "\u{3002}\u{5df2}\u{6539}\u{7528}\u{7cfb}\u{7edf}\u{6570}\u{636e}\u{76ee}\u{5f55} "@ + system_dir
}

/// The note shown when the executable's directory is unknown (see
/// [`exe_dir_unknown_note_of`]).
pub fn exe_dir_unknown_note(error: &str, system_dir: &str) -> (r: String)
    ensures
        r@ == exe_dir_unknown_note_of(error@, system_dir@),
{
    let mut s = owned_string("\u{65e0}\u{6cd5}\u{5b9a}\u{4f4d} exe \u{6570}\u{636e}\u{76ee}\u{5f55}\u{ff1a}");
    push_str_chars(&mut s, error);
    push_str_chars(&mut s, "\u{3002}\u{5df2}\u{6539}\u{7528}\u{7cfb}\u{7edf}\u{6570}\u{636e}\u{76ee}\u{5f55} ");
    push_str_chars(&mut s, system_dir);
    proof {
        assert(s@ =~= exe_dir_unknown_note_of(error@, system_dir@));
    }
    s
}

/// The note logged when a configured data directory could not be made and
/// the default is used.
pub open spec fn configured_dir_failure_note_of(dir: Seq<char>, error: Seq<char>) -> Seq<char> {
    "\u{914d}\u{7f6e}\u{7684}\u{6570}\u{636e}\u{76ee}\u{5f55} "@ + dir + " \u{65e0}\u{6cd5}\u{521b}\u{5efa}\u{ff1a}"@ + error
        + "\u{3002}\u{5df2}\u{56de}\u{9000}\u{5230}\u{9ed8}\u{8ba4}\u{6570}\u{636e}\u{76ee}\u{5f55}\u{3002}"@
}

/// The note logged when a configured data directory could not be made (see
/// [`configured_dir_failure_note_of`]).
pub fn configured_dir_failure_note(dir: &str, error: &str) -> (r: String)
    ensures
        r@ == configured_dir_failure_note_of(dir@, error@),
{
    let mut s = owned_string("\u{914d}\u{7f6e}\u{7684}\u{6570}\u{636e}\u{76ee}\u{5f55} ");
    push_str_chars(&mut s, dir);
    push_str_chars(&mut s, " \u{65e0}\u{6cd5}\u{521b}\u{5efa}\u{ff1a}");
    push_str_chars(&mut s, error);
    push_str_chars(&mut s, "\u{3002}\u{5df2}\u{56de}\u{9000}\u{5230}\u{9ed8}\u{8ba4}\u{6570}\u{636e}\u{76ee}\u{5f55}\u{3002}");
    proof {
        assert(s@ =~= configured_dir_failure_note_of(dir@, error@));
    }
    s
}

/// The name of the portable configuration file, kept next to the executable.
pub open spec fn portable_config_file_name() -> Seq<char> {
    "illutag.portable.json"@
}

/// Where the portable configuration lies: in the executable's directory
/// (`exe_dir`, or the error met while finding it, which is passed on).
pub fn portable_config_path(host: PathHost, exe_dir: Result<String, String>) -> (r: Result<String, String>)
    ensures
        match exe_dir {
            Ok(d) => r matches Ok(p) && p@ == join_name(host, d@, portable_config_file_name()),
            Err(e) => r == Err::<String, String>(e),
        },
{
    match exe_dir {
        Ok(d) => {
            proof {
                reveal_strlit("illutag.portable.json");
            }
            Ok(join_str(host, d.as_str(), "illutag.portable.json"))
        },
        Err(e) => Err(e),
    }
}

} // verus!
