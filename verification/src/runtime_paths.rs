use vstd::prelude::*;
use crate::paths::PathHost;
use crate::chars::push_str_chars;
use crate::chars::texts;
use crate::paths::join_name;
use crate::sources::{up, opt_text, join_str, up_exec};
use crate::text::owned_string;

verus! {

/// `base\a\b` (see [`join_name`]).
pub open spec fn join2(host: PathHost, base: Seq<char>, a: Seq<char>, b: Seq<char>) -> Seq<char> {
    join_name(host, join_name(host, base, a), b)
}

/// `base\a\b\c` (see [`join_name`]).
pub open spec fn join3(host: PathHost, base: Seq<char>, a: Seq<char>, b: Seq<char>, c: Seq<char>) -> Seq<char> {
    join_name(host, join2(host, base, a, b), c)
}

/// `base\a\b`.
fn join2_exec(host: PathHost, base: &str, a: &str, b: &str) -> (r: String)
    ensures
        r@ == join2(host, base@, a@, b@),
{
    let x = join_str(host, base, a);
    join_str(host, x.as_str(), b)
}

/// `base\a\b\c`.
fn join3_exec(host: PathHost, base: &str, a: &str, b: &str, c: &str) -> (r: String)
    ensures
        r@ == join3(host, base@, a@, b@, c@),
{
    let x = join2_exec(host, base, a, b);
    join_str(host, x.as_str(), c)
}

/// Where a helper script named `script` may lie, in the order tried:
/// `src-tauri\scripts` and `scripts` below the working directory, then
/// `scripts` below the executable's directory and its parent, and
/// `src-tauri\scripts` below its grandparent.
pub open spec fn script_candidates_of(host: PathHost, cwd: Option<Seq<char>>, exe_dir: Option<Seq<char>>, script: Seq<char>) -> Seq<Seq<char>> {
    let from_cwd = match cwd {
        Some(c) => seq![join3(host, c, "src-tauri"@, "scripts"@, script), join2(host, c, "scripts"@, script)],
        None => Seq::empty(),
    };
    let from_exe = match exe_dir {
        Some(e) => seq![
            join2(host, e, "scripts"@, script),
            join2(host, up(host, e), "scripts"@, script),
            join3(host, up(host, up(host, e)), "src-tauri"@, "scripts"@, script),
        ],
        None => Seq::empty(),
    };
    from_cwd + from_exe
}

/// Where a helper script may lie (see [`script_candidates_of`]); the first
/// that is a file is run.
pub fn service_script_candidates(host: PathHost, cwd: &Option<String>, exe_dir: &Option<String>, script: &str) -> (r: Vec<String>)
    ensures
        texts(r@) == script_candidates_of(host, opt_text(*cwd), opt_text(*exe_dir), script@),
{
    let mut r: Vec<String> = Vec::new();
    match cwd {
        Some(c) => {
            r.push(join3_exec(host, c.as_str(), "src-tauri", "scripts", script));
            r.push(join2_exec(host, c.as_str(), "scripts", script));
        },
        None => {},
    }
    match exe_dir {
        Some(e) => {
            let e_up = up_exec(host, e.as_str());
            let e_up2 = up_exec(host, e_up.as_str());
            r.push(join2_exec(host, e.as_str(), "scripts", script));
            r.push(join2_exec(host, e_up.as_str(), "scripts", script));
            r.push(join3_exec(host, e_up2.as_str(), "src-tauri", "scripts", script));
        },
        None => {},
    }
    proof {
        assert(texts(r@) =~= script_candidates_of(host, opt_text(*cwd), opt_text(*exe_dir), script@));
    }
    r
}

/// The error when no candidate of a helper script exists.
pub open spec fn missing_script_of(script: Seq<char>) -> Seq<char> {
    "Cannot find "@ + script + " under src-tauri/scripts"@
}

/// The error when no candidate of a helper script exists (see
/// [`missing_script_of`]).
pub fn missing_script_message(script: &str) -> (r: String)
    ensures
        r@ == missing_script_of(script@),
{
    let mut s = owned_string("Cannot find ");
    push_str_chars(&mut s, script);
    push_str_chars(&mut s, " under src-tauri/scripts");
    proof {
        assert(s@ =~= missing_script_of(script@));
    }
    s
}

/// Where the embedded Python may lie, in the order tried:
/// `runtime\python\python.exe` below the executable's directory, its parent
/// and its `resources` directory, then below the working directory and its
/// `src-tauri` directory. When none exists, `python` from the search path is
/// used.
pub open spec fn python_candidates_of(host: PathHost, exe_dir: Option<Seq<char>>, cwd: Option<Seq<char>>) -> Seq<Seq<char>> {
    let from_exe = match exe_dir {
        Some(e) => seq![
            join3(host, e, "runtime"@, "python"@, "python.exe"@),
            join3(host, up(host, e), "runtime"@, "python"@, "python.exe"@),
            join3(host, join_name(host, e, "resources"@), "runtime"@, "python"@, "python.exe"@),
        ],
        None => Seq::empty(),
    };
    let from_cwd = match cwd {
        Some(c) => seq![
            join3(host, c, "runtime"@, "python"@, "python.exe"@),
            join3(host, join_name(host, c, "src-tauri"@), "runtime"@, "python"@, "python.exe"@),
        ],
        None => Seq::empty(),
    };
    from_exe + from_cwd
}

/// Where the embedded Python may lie (see [`python_candidates_of`]).
pub fn python_executable_candidates(host: PathHost, exe_dir: &Option<String>, cwd: &Option<String>) -> (r: Vec<String>)
    ensures
        texts(r@) == python_candidates_of(host, opt_text(*exe_dir), opt_text(*cwd)),
{
    let mut r: Vec<String> = Vec::new();
    match exe_dir {
        Some(e) => {
            let e_up = up_exec(host, e.as_str());
            let e_res = join_str(host, e.as_str(), "resources");
            r.push(join3_exec(host, e.as_str(), "runtime", "python", "python.exe"));
            r.push(join3_exec(host, e_up.as_str(), "runtime", "python", "python.exe"));
            r.push(join3_exec(host, e_res.as_str(), "runtime", "python", "python.exe"));
        },
        None => {},
    }
    match cwd {
        Some(c) => {
            let c_src = join_str(host, c.as_str(), "src-tauri");
            r.push(join3_exec(host, c.as_str(), "runtime", "python", "python.exe"));
            r.push(join3_exec(host, c_src.as_str(), "runtime", "python", "python.exe"));
        },
        None => {},
    }
    proof {
        assert(texts(r@) =~= python_candidates_of(host, opt_text(*exe_dir), opt_text(*cwd)));
    }
    r
}

/// Where the Chinese-CLIP model directory may lie, in the order tried:
/// `model\chinese-clip-vit-base-patch16` below the working directory and its
/// parent, then below the executable's directory, its parent and its
/// grandparent.
pub open spec fn clip_model_candidates_of(host: PathHost, cwd: Option<Seq<char>>, exe_dir: Option<Seq<char>>) -> Seq<Seq<char>> {
    let m = "model"@;
    let d = "chinese-clip-vit-base-patch16"@;
    let from_cwd = match cwd {
        Some(c) => seq![join2(host, c, m, d), join2(host, up(host, c), m, d)],
        None => Seq::empty(),
    };
    let from_exe = match exe_dir {
        Some(e) => seq![join2(host, e, m, d), join2(host, up(host, e), m, d), join2(host, up(host, up(host, e)), m, d)],
        None => Seq::empty(),
    };
    from_cwd + from_exe
}

/// Where the Chinese-CLIP model directory may lie (see
/// [`clip_model_candidates_of`]).
pub fn chinese_clip_model_dir_candidates(host: PathHost, cwd: &Option<String>, exe_dir: &Option<String>) -> (r: Vec<String>)
    ensures
        texts(r@) == clip_model_candidates_of(host, opt_text(*cwd), opt_text(*exe_dir)),
{
    let m = "model";
    let d = "chinese-clip-vit-base-patch16";
    let mut r: Vec<String> = Vec::new();
    match cwd {
        Some(c) => {
            let c_up = up_exec(host, c.as_str());
            r.push(join2_exec(host, c.as_str(), m, d));
            r.push(join2_exec(host, c_up.as_str(), m, d));
        },
        None => {},
    }
    match exe_dir {
        Some(e) => {
            let e_up = up_exec(host, e.as_str());
            let e_up2 = up_exec(host, e_up.as_str());
            r.push(join2_exec(host, e.as_str(), m, d));
            r.push(join2_exec(host, e_up.as_str(), m, d));
            r.push(join2_exec(host, e_up2.as_str(), m, d));
        },
        None => {},
    }
    proof {
        assert(texts(r@) =~= clip_model_candidates_of(host, opt_text(*cwd), opt_text(*exe_dir)));
    }
    r
}

/// The two encoder files a Chinese-CLIP model directory must hold: the text
/// and the image encoder, under `onnx`.
pub open spec fn clip_onnx_files_of(host: PathHost, dir: Seq<char>) -> (Seq<char>, Seq<char>) {
    (join2(host, dir, "onnx"@, "chinese_clip_text_encoder.onnx"@), join2(host, dir, "onnx"@, "chinese_clip_image_encoder.onnx"@))
}

/// The two encoder files a Chinese-CLIP model directory must hold (see
/// [`clip_onnx_files_of`]).
pub fn chinese_clip_onnx_files(host: PathHost, dir: &str) -> (r: (String, String))
    ensures
        (r.0@, r.1@) == clip_onnx_files_of(host, dir@),
{
    (join2_exec(host, dir, "onnx", "chinese_clip_text_encoder.onnx"), join2_exec(host, dir, "onnx", "chinese_clip_image_encoder.onnx"))
}

/// The two files a tagger model directory must hold: the model and its tag
/// list.
pub open spec fn tagger_model_files_of(host: PathHost, dir: Seq<char>) -> (Seq<char>, Seq<char>) {
    (join_name(host, dir, "model.onnx"@), join_name(host, dir, "selected_tags.csv"@))
}

/// The two files a tagger model directory must hold (see
/// [`tagger_model_files_of`]).
pub fn wd_tagger_model_files(host: PathHost, dir: &str) -> (r: (String, String))
    ensures
        (r.0@, r.1@) == tagger_model_files_of(host, dir@),
{
    (join_str(host, dir, "model.onnx"), join_str(host, dir, "selected_tags.csv"))
}

/// The error for a configured model directory that does not exist.
pub open spec fn missing_model_dir_of(dir: Seq<char>) -> Seq<char> {
    "Configured model directory does not exist: "@ + dir
}

/// The error for a configured Chinese-CLIP directory without its encoders.
pub open spec fn missing_onnx_of(text: Seq<char>, image: Seq<char>) -> Seq<char> {
    "Configured model directory is missing ONNX files: "@ + text + " and "@ + image
}

/// The tagger model directory in use: a configured one when it exists (an
/// error when it does not); otherwise the first candidate that holds the
/// model and its tag list; otherwise an error. `configured` holds the
/// configured directory and whether it exists; `candidates` each candidate
/// and whether it holds both files.
pub open spec fn wd_model_dir_of(configured: Option<(Seq<char>, bool)>, candidates: Seq<(Seq<char>, bool)>) -> Result<Seq<char>, Seq<char>> {
    match configured {
        Some((dir, exists)) => if exists {
            Ok(dir)
        } else {
            Err(missing_model_dir_of(dir))
        },
        None => match first_ready(candidates, 0) {
            Some(d) => Ok(d),
            None => Err(
                "Cannot find wd-swinv2-tagger-v3 (model.onnx + selected_tags.csv). Put it at project root or pass modelDir."@,
            ),
        },
    }
}

/// The first candidate from position `i` on that is ready.
pub open spec fn first_ready(candidates: Seq<(Seq<char>, bool)>, i: int) -> Option<Seq<char>>
    decreases candidates.len() - i,
{
    if i < 0 || i >= candidates.len() {
        None
    } else if candidates[i].1 {
        Some(candidates[i].0)
    } else {
        first_ready(candidates, i + 1)
    }
}

/// The checked candidates as plain values.
pub open spec fn probe_texts(v: Seq<(String, bool)>) -> Seq<(Seq<char>, bool)> {
    v.map_values(|p: (String, bool)| (p.0@, p.1))
}

/// The first ready candidate (see [`first_ready`]).
pub(crate) fn first_ready_exec(candidates: &Vec<(String, bool)>) -> (r: Option<String>)
    ensures
        match first_ready(probe_texts(candidates@), 0) {
            Some(d) => r matches Some(s) && s@ == d,
            None => r is None,
        },
{
    let ghost c = probe_texts(candidates@);
    let mut i: usize = 0;
    while i < candidates.len()
        invariant
            i <= candidates.len(),
            c == probe_texts(candidates@),
            first_ready(c, 0) == first_ready(c, i as int),
        decreases candidates.len() - i,
    {
        proof {
            assert(c[i as int] == (candidates@[i as int].0@, candidates@[i as int].1));
        }
        if candidates[i].1 {
            return Some(owned_string(candidates[i].0.as_str()));
        }
        i = i + 1;
    }
    None
}

/// The tagger model directory in use (see [`wd_model_dir_of`]).
pub fn resolve_wd_tagger_model_dir(configured: &Option<(String, bool)>, candidates: &Vec<(String, bool)>) -> (r: Result<String, String>)
    ensures
        match wd_model_dir_of(
            match configured {
                Some(p) => Some((p.0@, p.1)),
                None => None,
            },
            probe_texts(candidates@),
        ) {
            Ok(d) => r matches Ok(s) && s@ == d,
            Err(e) => r matches Err(s) && s@ == e,
        },
{
    match configured {
        Some(p) => {
            if p.1 {
                Ok(owned_string(p.0.as_str()))
            } else {
                let mut s = owned_string("Configured model directory does not exist: ");
                push_str_chars(&mut s, p.0.as_str());
                Err(s)
            }
        },
        None => match first_ready_exec(candidates) {
            Some(d) => Ok(d),
            None => Err(
                owned_string(
                    "Cannot find wd-swinv2-tagger-v3 (model.onnx + selected_tags.csv). Put it at project root or pass modelDir.",
                ),
            ),
        },
    }
}

/// The Chinese-CLIP model directory in use: a configured one when it
/// exists and holds both encoders (an error naming what is missing
/// otherwise); else the first candidate that holds both encoders; else an
/// error. `configured` holds the configured directory, whether it exists and
/// whether it holds both encoders.
pub open spec fn clip_model_dir_of(host: PathHost, configured: Option<(Seq<char>, bool, bool)>, candidates: Seq<(Seq<char>, bool)>) -> Result<Seq<char>, Seq<char>> {
    match configured {
        Some((dir, exists, ready)) => if !exists {
            Err(missing_model_dir_of(dir))
        } else if ready {
            Ok(dir)
        } else {
            Err(missing_onnx_of(clip_onnx_files_of(host, dir).0, clip_onnx_files_of(host, dir).1))
        },
        None => match first_ready(candidates, 0) {
            Some(d) => Ok(d),
            None => Err(
                "Cannot find Chinese-CLIP ONNX model directory (expected model/chinese-clip-vit-base-patch16/onnx)"@,
            ),
        },
    }
}

/// The Chinese-CLIP model directory in use (see [`clip_model_dir_of`]).
pub fn resolve_chinese_clip_model_dir(host: PathHost, configured: &Option<(String, bool, bool)>, candidates: &Vec<(String, bool)>) -> (r: Result<String, String>)
    ensures
        match clip_model_dir_of(host, 
            match configured {
                Some(p) => Some((p.0@, p.1, p.2)),
                None => None,
            },
            probe_texts(candidates@),
        ) {
            Ok(d) => r matches Ok(s) && s@ == d,
            Err(e) => r matches Err(s) && s@ == e,
        },
{
    match configured {
        Some(p) => {
            if !p.1 {
                let mut s = owned_string("Configured model directory does not exist: ");
                push_str_chars(&mut s, p.0.as_str());
                Err(s)
            } else if p.2 {
                Ok(owned_string(p.0.as_str()))
            } else {
                let (text, image) = chinese_clip_onnx_files(host, p.0.as_str());
                let mut s = owned_string("Configured model directory is missing ONNX files: ");
                push_str_chars(&mut s, text.as_str());
                push_str_chars(&mut s, " and ");
                push_str_chars(&mut s, image.as_str());
                proof {
                    assert(s@ =~= missing_onnx_of(text@, image@));
                }
                Err(s)
            }
        },
        None => match first_ready_exec(candidates) {
            Some(d) => Ok(d),
            None => Err(
                owned_string(
                    "Cannot find Chinese-CLIP ONNX model directory (expected model/chinese-clip-vit-base-patch16/onnx)",
                ),
            ),
        },
    }
}

} // verus!
