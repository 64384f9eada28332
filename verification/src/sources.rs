use vstd::prelude::*;
use crate::paths::PathHost;
use crate::chars::{lower_ascii_seq, str_chars, lower_ascii_chars, chars_eq_str, push_all, push_str_chars};
use crate::export::{signed_decimal, push_signed_decimal};
use crate::chars::texts;
use crate::paths::{join_name, join_name_exec, file_name_of, file_name_chars, name_extension, name_extension_chars, decimal, decimal_chars};
use crate::text::owned_string;
use crate::runtime_paths::{first_ready, probe_texts, first_ready_exec};

verus! {

/// `base` joined with the relative name `name` (see [`join_name`]).
pub(crate) fn join_str(host: PathHost, base: &str, name: &str) -> (r: String)
    ensures
        r@ == join_name(host, base@, name@),
{
    join_name_exec(host, base, &str_chars(name))
}

/// The directory the tagger's data is kept in, next to the application.
pub open spec fn tagger_dir() -> Seq<char> {
    "wd-swinv2-tagger-v3"@
}

/// `base\..`.
pub open spec fn up(host: PathHost, base: Seq<char>) -> Seq<char> {
    join_name(host, base, ".."@)
}

/// `base\<tagger dir>\name`.
pub open spec fn in_tagger_dir(host: PathHost, base: Seq<char>, name: Seq<char>) -> Seq<char> {
    join_name(host, join_name(host, base, tagger_dir()), name)
}

/// Where the tag dictionary source may lie, in the order they are tried: the
/// translated tag list, then the spreadsheet, in the tagger directory below the
/// working directory and below its parent; then the same below the
/// executable's directory, its parent and its grandparent.
pub open spec fn dictionary_source_candidates_of(host: PathHost, cwd: Option<Seq<char>>, exe_dir: Option<Seq<char>>) -> Seq<Seq<char>> {
    let csv = "selected_tags_full_translation.csv"@;
    let xlsx = "dictionary01.xlsx"@;
    let from_cwd = match cwd {
        Some(c) => seq![
            in_tagger_dir(host, c, csv),
            in_tagger_dir(host, up(host, c), csv),
            in_tagger_dir(host, c, xlsx),
            in_tagger_dir(host, up(host, c), xlsx),
        ],
        None => Seq::empty(),
    };
    let from_exe = match exe_dir {
        Some(e) => seq![
            in_tagger_dir(host, e, csv),
            in_tagger_dir(host, up(host, e), csv),
            in_tagger_dir(host, up(host, up(host, e)), csv),
            in_tagger_dir(host, e, xlsx),
            in_tagger_dir(host, up(host, e), xlsx),
            in_tagger_dir(host, up(host, up(host, e)), xlsx),
        ],
        None => Seq::empty(),
    };
    from_cwd + from_exe
}

/// The optional text of an optional string.
pub open spec fn opt_text(o: Option<String>) -> Option<Seq<char>> {
    match o {
        Some(s) => Some(s@),
        None => None,
    }
}

/// `base\<tagger dir>\name`, and `base\..` (see [`in_tagger_dir`], [`up`]).
fn in_tagger_dir_exec(host: PathHost, base: &str, name: &str) -> (r: String)
    ensures
        r@ == in_tagger_dir(host, base@, name@),
{
    let d = join_str(host, base, "wd-swinv2-tagger-v3");
    proof {
        reveal_strlit("wd-swinv2-tagger-v3");
    }
    join_str(host, d.as_str(), name)
}

/// The parent reference `base\..` (see [`up`]).
pub(crate) fn up_exec(host: PathHost, base: &str) -> (r: String)
    ensures
        r@ == up(host, base@),
{
    join_str(host, base, "..")
}

/// Where the tag dictionary source may lie (see
/// [`dictionary_source_candidates_of`]); the first that is a file is used.
pub fn dictionary_source_candidates(host: PathHost, cwd: &Option<String>, exe_dir: &Option<String>) -> (r: Vec<String>)
    ensures
        texts(r@) == dictionary_source_candidates_of(host, opt_text(*cwd), opt_text(*exe_dir)),
{
    let csv = "selected_tags_full_translation.csv";
    let xlsx = "dictionary01.xlsx";
    let mut r: Vec<String> = Vec::new();
    match cwd {
        Some(c) => {
            let c = c.as_str();
            let c_up = up_exec(host, c);
            r.push(in_tagger_dir_exec(host, c, csv));
            r.push(in_tagger_dir_exec(host, c_up.as_str(), csv));
            r.push(in_tagger_dir_exec(host, c, xlsx));
            r.push(in_tagger_dir_exec(host, c_up.as_str(), xlsx));
        },
        None => {},
    }
    let ghost n = r@.len();
    match exe_dir {
        Some(e) => {
            let e = e.as_str();
            let e_up = up_exec(host, e);
            let e_up2 = up_exec(host, e_up.as_str());
            r.push(in_tagger_dir_exec(host, e, csv));
            r.push(in_tagger_dir_exec(host, e_up.as_str(), csv));
            r.push(in_tagger_dir_exec(host, e_up2.as_str(), csv));
            r.push(in_tagger_dir_exec(host, e, xlsx));
            r.push(in_tagger_dir_exec(host, e_up.as_str(), xlsx));
            r.push(in_tagger_dir_exec(host, e_up2.as_str(), xlsx));
        },
        None => {},
    }
    proof {
        reveal_strlit("selected_tags_full_translation.csv");
        reveal_strlit("dictionary01.xlsx");
        assert(texts(r@) =~= dictionary_source_candidates_of(host, opt_text(*cwd), opt_text(*exe_dir)));
    }
    r
}

/// The directories the tagger's data files are looked for in, in order: the
/// tagger directory below the working directory and its parent, below the
/// executable's directory, its parent and its grandparent, and last the
/// directory of the tag dictionary source.
pub open spec fn tagger_data_dirs_of(host: PathHost, cwd: Option<Seq<char>>, exe_dir: Option<Seq<char>>, dictionary_dir: Option<Seq<char>>) -> Seq<Seq<char>> {
    let from_cwd = match cwd {
        Some(c) => seq![join_name(host, c, tagger_dir()), join_name(host, up(host, c), tagger_dir())],
        None => Seq::empty(),
    };
    let from_exe = match exe_dir {
        Some(e) => seq![
            join_name(host, e, tagger_dir()),
            join_name(host, up(host, e), tagger_dir()),
            join_name(host, up(host, up(host, e)), tagger_dir()),
        ],
        None => Seq::empty(),
    };
    let from_dictionary = match dictionary_dir {
        Some(d) => seq![d],
        None => Seq::empty(),
    };
    from_cwd + from_exe + from_dictionary
}

/// The directories the tagger's data files are looked for in (see
/// [`tagger_data_dirs_of`]).
pub fn tagger_data_dir_candidates(host: PathHost, cwd: &Option<String>, exe_dir: &Option<String>, dictionary_dir: &Option<String>) -> (r: Vec<String>)
    ensures
        texts(r@) == tagger_data_dirs_of(host, opt_text(*cwd), opt_text(*exe_dir), opt_text(*dictionary_dir)),
{
    let dir = "wd-swinv2-tagger-v3";
    let mut r: Vec<String> = Vec::new();
    match cwd {
        Some(c) => {
            let c = c.as_str();
            let c_up = up_exec(host, c);
            r.push(join_str(host, c, dir));
            r.push(join_str(host, c_up.as_str(), dir));
        },
        None => {},
    }
    match exe_dir {
        Some(e) => {
            let e = e.as_str();
            let e_up = up_exec(host, e);
            let e_up2 = up_exec(host, e_up.as_str());
            r.push(join_str(host, e, dir));
            r.push(join_str(host, e_up.as_str(), dir));
            r.push(join_str(host, e_up2.as_str(), dir));
        },
        None => {},
    }
    match dictionary_dir {
        Some(d) => {
            r.push(owned_string(d.as_str()));
        },
        None => {},
    }
    proof {
        reveal_strlit("wd-swinv2-tagger-v3");
        assert(texts(r@) =~= tagger_data_dirs_of(host, opt_text(*cwd), opt_text(*exe_dir), opt_text(*dictionary_dir)));
    }
    r
}

/// Whether a dictionary source is read as CSV: its file extension is `csv`
/// in any ASCII case; anything else is read as a spreadsheet.
pub open spec fn csv_source(host: PathHost, path: Seq<char>) -> bool {
    match file_name_of(host, path) {
        Some(n) => match name_extension(n) {
            Some(e) => lower_ascii_seq(e) == "csv"@,
            None => false,
        },
        None => false,
    }
}

/// Whether a dictionary source is read as CSV (see [`csv_source`]).
pub fn is_csv_dictionary_source(host: PathHost, path: &str) -> (r: bool)
    ensures
        r == csv_source(host, path@),
{
    let p = str_chars(path);
    match file_name_chars(host, &p) {
        Some(name) => match name_extension_chars(&name) {
            Some(ext) => {
                let e = lower_ascii_chars(&ext);
                chars_eq_str(&e, "csv")
            },
            None => false,
        },
        None => false,
    }
}

/// The version of the way dictionary sources are read; a change makes every
/// source be read again.
pub open spec fn source_schema_version() -> Seq<char> {
    "csv-col2-col5-v1"@
}

/// What identifies one state of the dictionary source: the reading version,
/// its path, its modification time and its size, joined by `|`.
pub open spec fn source_signature(path: Seq<char>, modified_at: i64, size: u64) -> Seq<char> {
    source_schema_version() + "|"@ + path + "|"@ + signed_decimal(modified_at as int) + "|"@ + decimal(size as nat)
}

/// What identifies one state of the dictionary source (see
/// [`source_signature`]); the dictionary is read again when it changes.
pub fn dictionary_source_signature(path: &str, modified_at: i64, size: u64) -> (r: String)
    ensures
        r@ == source_signature(path@, modified_at, size),
{
    let mut s = owned_string("csv-col2-col5-v1");
    s.push('|');
    push_str_chars(&mut s, path);
    s.push('|');
    push_signed_decimal(&mut s, modified_at);
    s.push('|');
    let digits = decimal_chars(size);
    push_all(&mut s, &digits);
    proof {
        reveal_strlit("csv-col2-col5-v1");
        reveal_strlit("|");
        assert(s@ =~= source_signature(path@, modified_at, size));
    }
    s
}


/// Where a tagger data file named `file_name` may lie: the file in each of the
/// candidate directories `dirs`, in order.
pub fn tagger_data_file_paths(host: PathHost, dirs: &Vec<String>, file_name: &str) -> (r: Vec<String>)
    ensures
        r@.len() == dirs@.len(),
        forall|i: int| 0 <= i < r@.len() ==> (#[trigger] r@[i])@ == join_name(host, dirs@[i]@, file_name@),
{
    let mut r: Vec<String> = Vec::new();
    let mut i: usize = 0;
    while i < dirs.len()
        invariant
            i <= dirs.len(),
            r@.len() == i,
            forall|k: int| 0 <= k < i ==> (#[trigger] r@[k])@ == join_name(host, dirs@[k]@, file_name@),
        decreases dirs.len() - i,
    {
        r.push(join_str(host, dirs[i].as_str(), file_name));
        i = i + 1;
    }
    r
}

/// The tagger data file in use: the first of the candidate paths (see
/// [`tagger_data_file_paths`]) that was found to be a file, each given with
/// whether it is one; `None` when none is.
pub fn find_tagger_data_file(candidates: &Vec<(String, bool)>) -> (r: Option<String>)
    ensures
        match first_ready(probe_texts(candidates@), 0) {
            Some(p) => r matches Some(s) && s@ == p,
            None => r is None,
        },
{
    first_ready_exec(candidates)
}

} // verus!
