use vstd::prelude::*;
use crate::chars::{
    str_chars, string_from_chars, string_from_range, push_all, push_str_chars, has_prefix,
    chars_have_prefix, eq_ignore_ascii_case, lower_ascii_seq, lower_ascii_chars, chars_eq, texts,
};
use crate::text::owned_string;

verus! {

/// The Windows long-path marker `\\?\`.
pub open spec fn long_path_marker() -> Seq<char> {
    seq!['\\', '\\', '?', '\\']
}

/// The Windows long UNC path marker `\\?\UNC\`.
pub open spec fn long_unc_marker() -> Seq<char> {
    seq!['\\', '\\', '?', '\\', 'U', 'N', 'C', '\\']
}

/// `p` without a leading `\\?\` marker.
pub open spec fn strip_long_path(p: Seq<char>) -> Seq<char> {
    if has_prefix(p, long_path_marker()) {
        p.subrange(4, p.len() as int)
    } else {
        p
    }
}

/// The characters of the long-path marker.
fn long_path_marker_chars() -> (r: Vec<char>)
    ensures
        r@ == long_path_marker(),
{
    let mut r: Vec<char> = Vec::new();
    r.push('\\');
    r.push('\\');
    r.push('?');
    r.push('\\');
    proof {
        assert(r@ =~= long_path_marker());
    }
    r
}

/// The characters of `v` from position `from` on.
fn chars_from(v: &Vec<char>, from: usize) -> (r: Vec<char>)
    requires
        from <= v.len(),
    ensures
        r@ == v@.subrange(from as int, v@.len() as int),
{
    let mut r: Vec<char> = Vec::new();
    let mut i = from;
    while i < v.len()
        invariant
            from <= i <= v.len(),
            r@ == v@.subrange(from as int, i as int),
        decreases v.len() - i,
    {
        r.push(v[i]);
        i = i + 1;
    }
    r
}

/// `path` without a leading Windows long-path marker `\\?\`.
pub fn strip_windows_long_path_prefix(path: &str) -> (r: String)
    ensures
        r@ == strip_long_path(path@),
{
    let v = str_chars(path);
    let marker = long_path_marker_chars();
    if chars_have_prefix(&v, &marker) {
        string_from_range(&v, 4, v.len())
    } else {
        string_from_chars(&v)
    }
}

/// The form of a path that the Windows recycle bin accepts: `\\?\UNC\x`
/// becomes `\\x`, `\\?\x` becomes `x`, anything else stays.
pub open spec fn recycle_bin_path(p: Seq<char>) -> Seq<char> {
    if has_prefix(p, long_unc_marker()) {
        seq!['\\', '\\'] + p.subrange(8, p.len() as int)
    } else {
        strip_long_path(p)
    }
}

/// The path handed to the recycle bin: on Windows in the form it accepts
/// (see [`recycle_bin_path`]), elsewhere the path as it is.
pub fn normalize_windows_path_for_recycle_bin(host: PathHost, path: &str) -> (r: String)
    ensures
        host == PathHost::Windows ==> r@ == recycle_bin_path(path@),
        host == PathHost::Unix ==> r@ == path@,
{
    if matches!(host, PathHost::Unix) {
        return owned_string(path);
    }
    let v = str_chars(path);
    let unc = str_chars("\\\\?\\UNC\\");
    proof {
        reveal_strlit("\\\\?\\UNC\\");
        assert(unc@ =~= long_unc_marker());
    }
    if chars_have_prefix(&v, &unc) {
        let mut r = String::new();
        r.push('\\');
        r.push('\\');
        let rest = chars_from(&v, 8);
        push_all(&mut r, &rest);
        proof {
            assert(r@ =~= seq!['\\', '\\'] + v@.subrange(8, v@.len() as int));
        }
        r
    } else {
        strip_windows_long_path_prefix(path)
    }
}

/// `s` with every `\` turned into `/`.
pub open spec fn forward_slashes(s: Seq<char>) -> Seq<char> {
    Seq::new(s.len(), |i: int| if s[i] == '\\' { '/' } else { s[i] })
}

/// Turns every `\` into `/`.
fn forward_slash_chars(v: &Vec<char>) -> (r: Vec<char>)
    ensures
        r@ == forward_slashes(v@),
{
    let mut r: Vec<char> = Vec::new();
    let mut i: usize = 0;
    while i < v.len()
        invariant
            i <= v.len(),
            r@ == Seq::new(i as nat, |k: int| if v@[k] == '\\' { '/' } else { v@[k] }),
        decreases v.len() - i,
    {
        if v[i] == '\\' {
            r.push('/');
        } else {
            r.push(v[i]);
        }
        i = i + 1;
        proof {
            assert(r@ =~= Seq::new(i as nat, |k: int| if v@[k] == '\\' { '/' } else { v@[k] }));
        }
    }
    r
}

/// The four spellings of a directory that stored paths may start with: as
/// given, without the long-path marker, and both with `/` separators.
pub open spec fn prefix_candidates(p: Seq<char>) -> Seq<Seq<char>> {
    seq![p, strip_long_path(p), forward_slashes(p), forward_slashes(strip_long_path(p))]
}

/// All candidate spellings of all directories, in order.
pub open spec fn all_prefix_candidates(paths: Seq<Seq<char>>) -> Seq<Seq<char>>
    decreases paths.len(),
{
    if paths.len() == 0 {
        Seq::empty()
    } else {
        all_prefix_candidates(paths.drop_last()) + prefix_candidates(paths.last())
    }
}

/// Non-empty texts of `s`, each kept only at its first occurrence when
/// compared without ASCII case.
pub open spec fn distinct_ignoring_case(s: Seq<Seq<char>>) -> Seq<Seq<char>>
    decreases s.len(),
{
    if s.len() == 0 {
        Seq::empty()
    } else {
        let prev = distinct_ignoring_case(s.drop_last());
        let x = s.last();
        if x.len() == 0 || (exists|j: int| 0 <= j < prev.len() && eq_ignore_ascii_case(prev[j], x)) {
            prev
        } else {
            prev.push(x)
        }
    }
}

/// The length of the UTF-8 encoding of `s` (`str::len`).
pub open spec fn byte_len(s: Seq<char>) -> nat {
    vstd::utf8::encode_utf8(s).len()
}

/// Inserts `x` into `sorted` after every element at least as long (in bytes):
/// one step of a stable sort by decreasing length.
pub open spec fn insert_by_length(sorted: Seq<Seq<char>>, x: Seq<char>) -> Seq<Seq<char>>
    decreases sorted.len(),
{
    if sorted.len() == 0 {
        seq![x]
    } else if byte_len(sorted.last()) >= byte_len(x) {
        sorted.push(x)
    } else {
        insert_by_length(sorted.drop_last(), x).push(sorted.last())
    }
}

/// `s` sorted by decreasing length in bytes, keeping the order of texts of
/// equal length (a stable sort).
pub open spec fn sort_by_length_desc(s: Seq<Seq<char>>) -> Seq<Seq<char>>
    decreases s.len(),
{
    if s.len() == 0 {
        Seq::empty()
    } else {
        insert_by_length(sort_by_length_desc(s.drop_last()), s.last())
    }
}

/// The prefixes under which stored paths may name the given directories:
/// their candidate spellings, without blanks or case-insensitive repeats,
/// longest first.
pub open spec fn path_variants(paths: Seq<Seq<char>>) -> Seq<Seq<char>> {
    sort_by_length_desc(distinct_ignoring_case(all_prefix_candidates(paths)))
}

/// Length of a text in bytes.
fn text_byte_len(s: &String) -> (r: usize)
    ensures
        r == byte_len(s@),
{
    s.as_str().as_bytes().len()
}

/// Appends `x` unless it is blank or equal, without ASCII case, to an earlier entry.
fn push_distinct_ignoring_case(list: &mut Vec<String>, x: Vec<char>)
    ensures
        texts(final(list)@) == if x@.len() == 0 || (exists|j: int|
            0 <= j < texts(old(list)@).len() && eq_ignore_ascii_case(
                texts(old(list)@)[j],
                x@,
            )) {
            texts(old(list)@)
        } else {
            texts(old(list)@).push(x@)
        },
{
    if x.len() == 0 {
        return;
    }
    let lx = lower_ascii_chars(&x);
    let mut k: usize = 0;
    while k < list.len()
        invariant
            k <= list.len(),
            lx@ == lower_ascii_seq(x@),
            forall|j: int| 0 <= j < k ==> !eq_ignore_ascii_case(list@[j]@, x@),
        decreases list.len() - k,
    {
        let item = str_chars(list[k].as_str());
        let li = lower_ascii_chars(&item);
        if chars_eq(&li, &lx) {
            proof {
                assert(texts(list@)[k as int] == list@[k as int]@);
            }
            return;
        }
        k = k + 1;
    }
    let ghost before = texts(list@);
    let s = string_from_chars(&x);
    list.push(s);
    proof {
        assert(texts(list@) =~= before.push(x@));
        assert forall|j: int| 0 <= j < before.len() implies !eq_ignore_ascii_case(before[j], x@) by {
            assert(before[j] == old(list)@[j]@);
        }
    }
}

/// Inserts `x` into a list sorted by decreasing byte length (see [`insert_by_length`]).
fn insert_sorted_by_length(sorted: &mut Vec<String>, x: String)
    ensures
        texts(final(sorted)@) == insert_by_length(texts(old(sorted)@), x@),
    decreases old(sorted)@.len(),
{
    let ghost s = texts(sorted@);
    if sorted.len() == 0 {
        sorted.push(x);
        proof {
            assert(texts(sorted@) =~= seq![x@]);
        }
        return;
    }
    let last_len = text_byte_len(&sorted[sorted.len() - 1]);
    let x_len = text_byte_len(&x);
    proof {
        assert(s.last() == sorted@[sorted@.len() - 1]@);
    }
    if last_len >= x_len {
        sorted.push(x);
        proof {
            assert(texts(sorted@) =~= s.push(x@));
        }
    } else {
        let last = sorted.pop().unwrap();
        proof {
            assert(texts(sorted@) =~= s.drop_last());
        }
        insert_sorted_by_length(sorted, x);
        let ghost mid = texts(sorted@);
        sorted.push(last);
        proof {
            assert(texts(sorted@) =~= mid.push(last@));
        }
    }
}

/// The prefixes under which stored paths may name the given directories
/// (see [`path_variants`]).
pub fn path_prefix_variants(paths: &Vec<String>) -> (r: Vec<String>)
    ensures
        texts(r@) == path_variants(texts(paths@)),
{
    let ghost ps = texts(paths@);
    let mut distinct: Vec<String> = Vec::new();
    let mut i: usize = 0;
    proof {
        assert(texts(distinct@) =~= Seq::<Seq<char>>::empty());
        assert(ps.subrange(0, 0) =~= Seq::<Seq<char>>::empty());
    }
    while i < paths.len()
        invariant
            i <= paths.len(),
            ps == texts(paths@),
            texts(distinct@) == distinct_ignoring_case(all_prefix_candidates(ps.subrange(0, i as int))),
        decreases paths.len() - i,
    {
        let value = str_chars(paths[i].as_str());
        let marker = long_path_marker_chars();
        let stripped = if chars_have_prefix(&value, &marker) {
            chars_from(&value, 4)
        } else {
            chars_from(&value, 0)
        };
        proof {
            assert(value@.subrange(0, value@.len() as int) == value@);
            assert(stripped@ == strip_long_path(value@));
        }
        let slashed = forward_slash_chars(&value);
        let stripped_slashed = forward_slash_chars(&stripped);
        let ghost c = all_prefix_candidates(ps.subrange(0, i as int));
        let ghost cands = prefix_candidates(value@);
        proof {
            let p = ps.subrange(0, i + 1);
            assert(p.drop_last() == ps.subrange(0, i as int));
            assert(p.last() == value@);
            assert(all_prefix_candidates(p) == c + cands);
            lemma_distinct_push(c, cands[0]);
            lemma_distinct_push(c.push(cands[0]), cands[1]);
            lemma_distinct_push(c.push(cands[0]).push(cands[1]), cands[2]);
            lemma_distinct_push(c.push(cands[0]).push(cands[1]).push(cands[2]), cands[3]);
            assert(c + cands =~= c.push(cands[0]).push(cands[1]).push(cands[2]).push(cands[3]));
        }
        push_distinct_ignoring_case(&mut distinct, value);
        push_distinct_ignoring_case(&mut distinct, stripped);
        push_distinct_ignoring_case(&mut distinct, slashed);
        push_distinct_ignoring_case(&mut distinct, stripped_slashed);
        i = i + 1;
    }
    proof {
        assert(ps.subrange(0, ps.len() as int) == ps);
    }
    let ghost d = texts(distinct@);
    let mut sorted: Vec<String> = Vec::new();
    let mut k: usize = 0;
    proof {
        assert(texts(sorted@) =~= Seq::<Seq<char>>::empty());
        assert(d.subrange(0, 0) =~= Seq::<Seq<char>>::empty());
    }
    while k < distinct.len()
        invariant
            k <= distinct.len(),
            d == texts(distinct@),
            texts(sorted@) == sort_by_length_desc(d.subrange(0, k as int)),
        decreases distinct.len() - k,
    {
        let item = distinct[k].clone();
        proof {
            let p = d.subrange(0, k + 1);
            assert(p.drop_last() == d.subrange(0, k as int));
            assert(p.last() == item@);
        }
        insert_sorted_by_length(&mut sorted, item);
        k = k + 1;
    }
    proof {
        assert(d.subrange(0, d.len() as int) == d);
    }
    sorted
}

/// `distinct_ignoring_case` of a sequence with one more element.
proof fn lemma_distinct_push(s: Seq<Seq<char>>, x: Seq<char>)
    ensures
        distinct_ignoring_case(s.push(x)) == {
            let prev = distinct_ignoring_case(s);
            if x.len() == 0 || (exists|j: int| 0 <= j < prev.len() && eq_ignore_ascii_case(prev[j], x)) {
                prev
            } else {
                prev.push(x)
            }
        },
{
    assert(s.push(x).drop_last() == s);
}


/// `s` holds the character `c`.
pub open spec fn has_char(s: Seq<char>, c: char) -> bool {
    exists|i: int| 0 <= i < s.len() && s[i] == c
}

/// Whether `v` holds `c`.
fn chars_have_char(v: &Vec<char>, c: char) -> (r: bool)
    ensures
        r == has_char(v@, c),
{
    let mut i: usize = 0;
    while i < v.len()
        invariant
            i <= v.len(),
            forall|k: int| 0 <= k < i ==> v@[k] != c,
        decreases v.len() - i,
    {
        if v[i] == c {
            return true;
        }
        i = i + 1;
    }
    false
}

/// The spelling of the target directory that replaces a source prefix: with
/// `/` separators and no long-path marker when the source uses only `/`, as
/// given when the source carries the long-path marker, else without marker.
pub open spec fn target_prefix(source_variant: Seq<char>, target: Seq<char>) -> Seq<char> {
    if has_char(source_variant, '/') && !has_char(source_variant, '\\') {
        forward_slashes(strip_long_path(target))
    } else if has_prefix(source_variant, long_path_marker()) {
        target
    } else {
        strip_long_path(target)
    }
}

/// The spelling of the target directory that replaces `source_variant`
/// (see [`target_prefix`]).
pub fn target_prefix_for_source_variant(source_variant: &str, target_dir: &str) -> (r: String)
    ensures
        r@ == target_prefix(source_variant@, target_dir@),
{
    let sv = str_chars(source_variant);
    if chars_have_char(&sv, '/') && !chars_have_char(&sv, '\\') {
        let stripped = strip_windows_long_path_prefix(target_dir);
        let v = str_chars(stripped.as_str());
        let slashed = forward_slash_chars(&v);
        string_from_chars(&slashed)
    } else {
        let marker = long_path_marker_chars();
        if chars_have_prefix(&sv, &marker) {
            owned_string(target_dir)
        } else {
            strip_windows_long_path_prefix(target_dir)
        }
    }
}

/// `value` starts with `prefix` when ASCII letters are compared without case.
pub open spec fn starts_with_ignoring_case(value: Seq<char>, prefix: Seq<char>) -> bool {
    prefix.len() <= value.len() && eq_ignore_ascii_case(value.subrange(0, prefix.len() as int), prefix)
}

/// `value` rewritten by the first prefix of `prefixes` (from position `i` on)
/// that it starts with, ignoring ASCII case.
pub open spec fn replaced_prefix_from(
    value: Seq<char>,
    prefixes: Seq<Seq<char>>,
    target: Seq<char>,
    i: int,
) -> Option<Seq<char>>
    decreases prefixes.len() - i,
{
    if i < 0 || i >= prefixes.len() {
        None
    } else if starts_with_ignoring_case(value, prefixes[i]) {
        Some(target_prefix(prefixes[i], target) + value.subrange(prefixes[i].len() as int, value.len() as int))
    } else {
        replaced_prefix_from(value, prefixes, target, i + 1)
    }
}

/// `value` with the first matching source prefix replaced by the matching
/// spelling of the target directory, or `None` when no prefix matches.
pub open spec fn replaced_prefix(value: Seq<char>, prefixes: Seq<Seq<char>>, target: Seq<char>) -> Option<Seq<char>> {
    replaced_prefix_from(value, prefixes, target, 0)
}

/// Rewrites a stored path that starts with one of `source_prefixes`
/// (ignoring ASCII case) to start with the target directory instead
/// (see [`replaced_prefix`]). Comparing the first characters without ASCII
/// case is the same as comparing the first bytes so: ASCII bytes are exactly
/// the one-byte characters.
pub fn replace_path_prefix(value: &str, source_prefixes: &Vec<String>, target_dir: &str) -> (r: Option<String>)
    ensures
        match replaced_prefix(value@, texts(source_prefixes@), target_dir@) {
            Some(t) => r matches Some(s) && s@ == t,
            None => r is None,
        },
{
    let v = str_chars(value);
    let ghost ps = texts(source_prefixes@);
    let mut i: usize = 0;
    while i < source_prefixes.len()
        invariant
            i <= source_prefixes.len(),
            v@ == value@,
            ps == texts(source_prefixes@),
            replaced_prefix(value@, ps, target_dir@) == replaced_prefix_from(value@, ps, target_dir@, i as int),
        decreases source_prefixes.len() - i,
    {
        let prefix = str_chars(source_prefixes[i].as_str());
        proof {
            assert(ps[i as int] == prefix@);
        }
        if prefix.len() <= v.len() {
            let head = string_from_range(&v, 0, prefix.len());
            let head_chars = str_chars(head.as_str());
            let lh = lower_ascii_chars(&head_chars);
            let lp = lower_ascii_chars(&prefix);
            if chars_eq(&lh, &lp) {
                let mut out = target_prefix_for_source_variant(source_prefixes[i].as_str(), target_dir);
                let tail = chars_from(&v, prefix.len());
                push_all(&mut out, &tail);
                return Some(out);
            }
        }
        i = i + 1;
    }
    None
}

/// Number of bytes in the UTF-8 encoding of `c` (`char::len_utf8`).
pub open spec fn char_width(c: char) -> nat {
    vstd::utf8::encode_scalar(c as u32).len()
}

/// Number of bytes in the UTF-8 encoding of `c`.
fn char_width_exec(c: char) -> (w: usize)
    ensures
        w == char_width(c),
        1 <= w <= 4,
{
    let code = c as u32;
    proof {
        vstd::utf8::char_is_scalar(c);
    }
    if code <= 0x7f {
        1
    } else if code <= 0x7ff {
        2
    } else if code <= 0xffff {
        3
    } else {
        4
    }
}

/// The UTF-8 encoding of a concatenation is the concatenation of encodings.
pub proof fn lemma_encode_utf8_concat(a: Seq<char>, b: Seq<char>)
    ensures
        vstd::utf8::encode_utf8(a + b) == vstd::utf8::encode_utf8(a) + vstd::utf8::encode_utf8(b),
    decreases a.len(),
{
    if a.len() == 0 {
        assert(a + b == b);
    } else {
        assert((a + b)[0] == a[0]);
        assert((a + b).drop_first() == a.drop_first() + b);
        lemma_encode_utf8_concat(a.drop_first(), b);
    }
}

/// One more character adds its width to the byte length of a prefix.
pub proof fn lemma_byte_len_step(s: Seq<char>, k: int)
    requires
        0 <= k < s.len(),
    ensures
        byte_len(s.subrange(0, k + 1)) == byte_len(s.subrange(0, k)) + char_width(s[k]),
{
    let a = s.subrange(0, k);
    let c = seq![s[k]];
    assert(s.subrange(0, k + 1) == a + c);
    lemma_encode_utf8_concat(a, c);
    assert(c.drop_first() == Seq::<char>::empty());
    assert(vstd::utf8::encode_utf8(c) == vstd::utf8::encode_scalar(s[k] as u32) + vstd::utf8::encode_utf8(Seq::<char>::empty()));
}

/// The rest of `path` after its first `n` bytes, when a character starts
/// there (`str::get(n..)`).
pub open spec fn byte_suffix(path: Seq<char>, n: nat) -> Option<Seq<char>> {
    if exists|k: int| 0 <= k <= path.len() && byte_len(path.subrange(0, k)) == n {
        let k = choose|k: int| 0 <= k <= path.len() && byte_len(path.subrange(0, k)) == n;
        Some(path.subrange(k, path.len() as int))
    } else {
        None
    }
}

/// Byte lengths of prefixes grow strictly with the prefix.
proof fn lemma_byte_len_strict(s: Seq<char>, j: int, k: int)
    requires
        0 <= j < k <= s.len(),
    ensures
        byte_len(s.subrange(0, j)) < byte_len(s.subrange(0, k)),
    decreases k - j,
{
    lemma_byte_len_step(s, k - 1);
    vstd::utf8::char_is_scalar(s[k - 1]);
    if j < k - 1 {
        lemma_byte_len_strict(s, j, k - 1);
    }
}

/// The characters of `path` after its first `n` bytes, if a character starts there.
fn chars_after_bytes(path: &Vec<char>, n: usize) -> (r: Option<Vec<char>>)
    ensures
        match byte_suffix(path@, n as nat) {
            Some(t) => r matches Some(v) && v@ == t,
            None => r is None,
        },
{
    let mut k: usize = 0;
    let mut acc: usize = 0;
    proof {
        assert(path@.subrange(0, 0) == Seq::<char>::empty());
    }
    while k < path.len() && acc < n
        invariant
            k <= path.len(),
            acc == byte_len(path@.subrange(0, k as int)),
            forall|j: int| 0 <= j < k ==> byte_len(path@.subrange(0, j)) < n,
        decreases path.len() - k,
    {
        let w = char_width_exec(path[k]);
        proof {
            lemma_byte_len_step(path@, k as int);
        }
        if w > n - acc {
            proof {
                assert forall|c: int| 0 <= c <= path@.len() implies byte_len(path@.subrange(0, c)) != n by {
                    if c < k {
                    } else if c > k + 1 {
                        lemma_byte_len_strict(path@, k + 1, c);
                    } else {
                    }
                }
            }
            return None;
        }
        acc = acc + w;
        k = k + 1;
    }
    if acc == n {
        proof {
            assert(byte_len(path@.subrange(0, k as int)) == n);
            let c = choose|c: int| 0 <= c <= path@.len() && byte_len(path@.subrange(0, c)) == n;
            if c < k {
                lemma_byte_len_strict(path@, c, k as int);
            } else if c > k {
                lemma_byte_len_strict(path@, k as int, c);
            }
        }
        Some(chars_from(path, k))
    } else {
        proof {
            assert forall|c: int| 0 <= c <= path@.len() implies byte_len(path@.subrange(0, c)) != n by {
                if c < k {
                } else if c > k {
                    lemma_byte_len_strict(path@, k as int, c);
                } else {
                }
            }
        }
        None
    }
}

/// A path mapping given when a backup is imported: stored paths under `from`
/// move under `to`.
pub struct BackupPathMapping {
    pub from: String,
    pub to: String,
}

/// A `\` or `/`.
pub open spec fn is_separator(c: char) -> bool {
    c == '\\' || c == '/'
}

/// The path rules of the system the library runs on: on Windows `\` and `/`
/// both separate, `\` joins and `C:` is a drive prefix; on Unix `/` alone
/// separates and joins.
#[derive(Clone, Copy, Debug, PartialEq, Eq)]
pub enum PathHost {
    Windows,
    Unix,
}

/// `c` separates the parts of a path on `host`.
pub open spec fn separates(host: PathHost, c: char) -> bool {
    match host {
        PathHost::Windows => is_separator(c),
        PathHost::Unix => c == '/',
    }
}

/// Whether `c` separates the parts of a path on `host` (see [`separates`]).
pub fn separates_exec(host: PathHost, c: char) -> (r: bool)
    ensures
        r == separates(host, c),
{
    match host {
        PathHost::Windows => c == '\\' || c == '/',
        PathHost::Unix => c == '/',
    }
}

/// `s` without separators at its start.
pub open spec fn strip_leading_separators(s: Seq<char>) -> Seq<char>
    decreases s.len(),
{
    if s.len() > 0 && is_separator(s[0]) {
        strip_leading_separators(s.drop_first())
    } else {
        s
    }
}

/// `s` without separators at its end.
pub open spec fn strip_trailing_separators(s: Seq<char>) -> Seq<char>
    decreases s.len(),
{
    if s.len() > 0 && is_separator(s.last()) {
        strip_trailing_separators(s.drop_last())
    } else {
        s
    }
}

/// Mapping `m` is usable: both of its ends are non-blank.
pub open spec fn mapping_usable(m: (Seq<char>, Seq<char>)) -> bool {
    crate::chars::trim(m.0).len() > 0 && crate::chars::trim(m.1).len() > 0
}

/// The lower-cased path equals the lower-cased `from`, or continues it with a
/// separator.
pub open spec fn mapping_matches(path_lower: Seq<char>, from: Seq<char>) -> bool {
    let fl = crate::text::unicode_lowercase(from);
    path_lower == fl || (has_prefix(path_lower, fl) && path_lower.len() > fl.len() && is_separator(
        path_lower[fl.len() as int],
    ))
}

/// Position of the mapping among the first `n` that applies to `path` with
/// the longest `from` in bytes (the first of equally long ones).
pub open spec fn best_mapping(path: Seq<char>, ms: Seq<(Seq<char>, Seq<char>)>, n: int) -> Option<int>
    decreases n,
{
    if n <= 0 || n > ms.len() {
        None
    } else {
        let prev = best_mapping(path, ms, n - 1);
        let m = ms[n - 1];
        let from = crate::chars::trim(m.0);
        if mapping_usable(m) && mapping_matches(crate::text::unicode_lowercase(path), from) {
            match prev {
                Some(b) => if byte_len(from) > byte_len(crate::chars::trim(ms[b].0)) {
                    Some(n - 1)
                } else {
                    prev
                },
                None => Some(n - 1),
            }
        } else {
            prev
        }
    }
}

/// The texts of a list of mappings.
pub open spec fn mapping_texts(v: Seq<BackupPathMapping>) -> Seq<(Seq<char>, Seq<char>)> {
    v.map_values(|m: BackupPathMapping| (m.from@, m.to@))
}

/// `path` moved by the best matching mapping: the rest of the path after the
/// mapping's `from` (counted in bytes), without leading separators, joined to
/// the mapping's `to` (without trailing separators) with `\`.
pub open spec fn remapped_path(path: Seq<char>, ms: Seq<(Seq<char>, Seq<char>)>) -> Seq<char> {
    match best_mapping(path, ms, ms.len() as int) {
        None => path,
        Some(b) => {
            let from = crate::chars::trim(ms[b].0);
            let to = strip_trailing_separators(crate::chars::trim(ms[b].1));
            match byte_suffix(path, byte_len(from)) {
                None => path,
                Some(suffix) => {
                    let rest = strip_leading_separators(suffix);
                    if suffix.len() == 0 || rest.len() == 0 {
                        to
                    } else {
                        to + seq!['\\'] + rest
                    }
                },
            }
        },
    }
}

proof fn lemma_strip_leading_at(s: Seq<char>, k: int)
    requires
        0 <= k <= s.len(),
        forall|j: int| 0 <= j < k ==> is_separator(#[trigger] s[j]),
        k == s.len() || !is_separator(s[k]),
    ensures
        strip_leading_separators(s) == s.subrange(k, s.len() as int),
    decreases k,
{
    if k == 0 {
        assert(s.subrange(0, s.len() as int) == s);
    } else {
        let t = s.drop_first();
        assert forall|j: int| 0 <= j < k - 1 implies is_separator(#[trigger] t[j]) by {
            assert(t[j] == s[j + 1]);
        }
        if k - 1 < t.len() {
            assert(t[k - 1] == s[k]);
        }
        lemma_strip_leading_at(t, k - 1);
        assert(t.subrange(k - 1, t.len() as int) == s.subrange(k, s.len() as int));
    }
}

proof fn lemma_strip_trailing_sep_at(s: Seq<char>, k: int)
    requires
        0 <= k <= s.len(),
        forall|j: int| k <= j < s.len() ==> is_separator(#[trigger] s[j]),
        k == 0 || !is_separator(s[k - 1]),
    ensures
        strip_trailing_separators(s) == s.subrange(0, k),
    decreases s.len() - k,
{
    if k == s.len() {
        assert(s.subrange(0, s.len() as int) == s);
    } else {
        let t = s.drop_last();
        assert forall|j: int| k <= j < t.len() implies is_separator(#[trigger] t[j]) by {
            assert(t[j] == s[j]);
        }
        if k > 0 {
            assert(t[k - 1] == s[k - 1]);
        }
        lemma_strip_trailing_sep_at(t, k);
        assert(t.subrange(0, k) == s.subrange(0, k));
    }
}

/// `v` without leading separators.
fn chars_strip_leading_separators(v: &Vec<char>) -> (r: Vec<char>)
    ensures
        r@ == strip_leading_separators(v@),
{
    let mut k: usize = 0;
    while k < v.len() && (v[k] == '\\' || v[k] == '/')
        invariant
            k <= v.len(),
            forall|j: int| 0 <= j < k ==> is_separator(#[trigger] v@[j]),
        decreases v.len() - k,
    {
        k = k + 1;
    }
    proof {
        lemma_strip_leading_at(v@, k as int);
    }
    chars_from(v, k)
}

/// `v` without trailing separators.
fn chars_strip_trailing_separators(v: &Vec<char>) -> (r: Vec<char>)
    ensures
        r@ == strip_trailing_separators(v@),
{
    let mut k: usize = v.len();
    while k > 0 && (v[k - 1] == '\\' || v[k - 1] == '/')
        invariant
            k <= v.len(),
            forall|j: int| k <= j < v.len() ==> is_separator(#[trigger] v@[j]),
        decreases k,
    {
        k = k - 1;
    }
    proof {
        lemma_strip_trailing_sep_at(v@, k as int);
    }
    let mut r: Vec<char> = Vec::new();
    let mut i: usize = 0;
    while i < k
        invariant
            i <= k <= v.len(),
            r@ == v@.subrange(0, i as int),
        decreases k - i,
    {
        r.push(v[i]);
        i = i + 1;
    }
    r
}

/// Whether mapping `from` applies to the lower-cased path.
fn chars_mapping_matches(path_lower: &Vec<char>, from: &str) -> (r: bool)
    ensures
        r == mapping_matches(path_lower@, from@),
{
    let fl_s = crate::text::to_lowercase(from);
    let fl = str_chars(fl_s.as_str());
    if chars_eq(path_lower, &fl) {
        return true;
    }
    chars_have_prefix(path_lower, &fl) && path_lower.len() > fl.len() && (path_lower[fl.len()] == '\\'
        || path_lower[fl.len()] == '/')
}

/// Moves a stored path from an old location to a new one by the best
/// matching mapping (see [`remapped_path`]).
pub fn remap_backup_path(path: &str, mappings: &Vec<BackupPathMapping>) -> (r: String)
    ensures
        r@ == remapped_path(path@, mapping_texts(mappings@)),
{
    let ghost ms = mapping_texts(mappings@);
    let lower_s = crate::text::to_lowercase(path);
    let path_lower = str_chars(lower_s.as_str());
    let mut best: Option<usize> = None;
    let mut best_len: usize = 0;
    let mut n: usize = 0;
    while n < mappings.len()
        invariant
            n <= mappings.len(),
            ms == mapping_texts(mappings@),
            path_lower@ == crate::text::unicode_lowercase(path@),
            best_mapping(path@, ms, n as int) == match best {
                Some(b) => Some(b as int),
                None => None::<int>,
            },
            match best {
                Some(b) => b < n && best_len == byte_len(crate::chars::trim(ms[b as int].0)),
                None => true,
            },
        decreases mappings.len() - n,
    {
        let from = crate::chars::trim_str(mappings[n].from.as_str());
        let to = crate::chars::trim_chars(mappings[n].to.as_str());
        proof {
            assert(ms[n as int] == (mappings@[n as int].from@, mappings@[n as int].to@));
        }
        let from_chars = str_chars(from.as_str());
        if from_chars.len() > 0 && to.len() > 0 && chars_mapping_matches(&path_lower, from.as_str()) {
            let from_len = from.as_str().as_bytes().len();
            match best {
                Some(_) => {
                    if from_len > best_len {
                        best = Some(n);
                        best_len = from_len;
                    }
                },
                None => {
                    best = Some(n);
                    best_len = from_len;
                },
            }
        }
        n = n + 1;
    }
    let path_chars = str_chars(path);
    match best {
        None => owned_string(path),
        Some(b) => {
            let from = crate::chars::trim_str(mappings[b].from.as_str());
            let to_trimmed = crate::chars::trim_chars(mappings[b].to.as_str());
            let to = chars_strip_trailing_separators(&to_trimmed);
            let from_len = from.as_str().as_bytes().len();
            match chars_after_bytes(&path_chars, from_len) {
                None => owned_string(path),
                Some(suffix) => {
                    let rest = chars_strip_leading_separators(&suffix);
                    if suffix.len() == 0 || rest.len() == 0 {
                        string_from_chars(&to)
                    } else {
                        let mut out = string_from_chars(&to);
                        out.push('\\');
                        push_all(&mut out, &rest);
                        proof {
                            assert(out@ =~= to@ + seq!['\\'] + rest@);
                        }
                        out
                    }
                },
            }
        },
    }
}


/// Continues reading the components of a path from position `i`: `last` is
/// the last complete component, `cur` the one being read. Components are
/// separated as on `host` (see [`separates`]); empty ones and `.` do not
/// count.
pub open spec fn component_scan(host: PathHost, p: Seq<char>, i: int, last: Option<Seq<char>>, cur: Seq<char>) -> Option<Seq<char>>
    decreases p.len() - i,
{
    let closed = if cur.len() > 0 && cur != seq!['.'] {
        Some(cur)
    } else {
        last
    };
    if i < 0 || i >= p.len() {
        closed
    } else if separates(host, p[i]) {
        component_scan(host, p, i + 1, closed, Seq::empty())
    } else {
        component_scan(host, p, i + 1, last, cur.push(p[i]))
    }
}

/// `p` is the bare drive `X:` at position `at`, followed by separators only.
pub open spec fn drive_root_at(p: Seq<char>, at: int) -> bool {
    &&& 0 <= at
    &&& p.len() >= at + 2
    &&& (('a' <= p[at] && p[at] <= 'z') || ('A' <= p[at] && p[at] <= 'Z'))
    &&& p[at + 1] == ':'
    &&& forall|j: int| at + 2 <= j < p.len() ==> is_separator(#[trigger] p[j])
}

/// `p` names only a drive, as `X:` or `\\?\X:`, perhaps with separators
/// after it: Windows sees a prefix there, and no name.
pub open spec fn drive_root(p: Seq<char>) -> bool {
    drive_root_at(p, 0) || (has_prefix(p, long_path_marker()) && drive_root_at(p, 4))
}

/// The final name of a path (`Path::file_name`) by the rules of `host`:
/// its last component, unless that is `..` or there is none; on Windows a
/// path that names only a drive (see [`drive_root`]) has none.
pub open spec fn file_name_of(host: PathHost, p: Seq<char>) -> Option<Seq<char>> {
    if host == PathHost::Windows && drive_root(p) {
        None
    } else {
        last_name_of(host, p)
    }
}

/// The last component of `p`, unless that is `..` or there is none.
pub open spec fn last_name_of(host: PathHost, p: Seq<char>) -> Option<Seq<char>> {
    match component_scan(host, p, 0, None, Seq::empty()) {
        Some(c) => if c == seq!['.', '.'] {
            None
        } else {
            Some(c)
        },
        None => None,
    }
}

/// Position of the last `.` in `name`, if any.
pub open spec fn last_dot(name: Seq<char>) -> Option<int>
    decreases name.len(),
{
    if name.len() == 0 {
        None
    } else if name.last() == '.' {
        Some(name.len() - 1)
    } else {
        last_dot(name.drop_last())
    }
}

/// Dropping a dot-free end does not move the last dot.
proof fn lemma_last_dot_prefix(name: Seq<char>, k: int)
    requires
        0 <= k <= name.len(),
        forall|e: int| k <= e < name.len() ==> name[e] != '.',
    ensures
        last_dot(name) == last_dot(name.subrange(0, k)),
    decreases name.len() - k,
{
    if k == name.len() {
        assert(name.subrange(0, k) == name);
    } else {
        let t = name.drop_last();
        assert forall|e: int| k <= e < t.len() implies t[e] != '.' by {
            assert(t[e] == name[e]);
        }
        lemma_last_dot_prefix(t, k);
        assert(t.subrange(0, k) == name.subrange(0, k));
    }
}

/// A last dot lies inside the name.
proof fn lemma_last_dot_bound(name: Seq<char>)
    ensures
        last_dot(name) matches Some(d) ==> 0 <= d < name.len() && name[d] == '.',
    decreases name.len(),
{
    if name.len() > 0 && name.last() != '.' {
        lemma_last_dot_bound(name.drop_last());
    }
}

/// The extension of a file name (`Path::extension`): what follows its last
/// `.`, unless that `.` starts the name or there is none.
pub open spec fn name_extension(name: Seq<char>) -> Option<Seq<char>> {
    match last_dot(name) {
        Some(d) => if d == 0 || name == seq!['.', '.'] {
            None
        } else {
            Some(name.subrange(d + 1, name.len() as int))
        },
        None => None,
    }
}

/// The stem of a file name (`Path::file_stem`): what precedes its last `.`,
/// or the whole name when that `.` starts it or there is none.
pub open spec fn name_stem(name: Seq<char>) -> Seq<char> {
    match last_dot(name) {
        Some(d) => if d == 0 || name == seq!['.', '.'] {
            name
        } else {
            name.subrange(0, d)
        },
        None => name,
    }
}

/// Whether `p` is the bare drive `X:` at position `at`, followed by
/// separators only (see [`drive_root_at`]).
fn drive_root_at_exec(p: &Vec<char>, at: usize) -> (r: bool)
    ensures
        r == drive_root_at(p@, at as int),
{
    if p.len() < 2 || at > p.len() - 2 {
        return false;
    }
    let c = p[at];
    if !((('a' <= c && c <= 'z') || ('A' <= c && c <= 'Z')) && p[at + 1] == ':') {
        return false;
    }
    let mut j: usize = at + 2;
    while j < p.len()
        invariant
            at + 2 <= j <= p.len(),
            forall|k: int| at + 2 <= k < j ==> is_separator(#[trigger] p@[k]),
        decreases p.len() - j,
    {
        if !(p[j] == '\\' || p[j] == '/') {
            return false;
        }
        j = j + 1;
    }
    true
}

/// The final name of `p` on `host` (see [`file_name_of`]).
pub fn file_name_chars(host: PathHost, p: &Vec<char>) -> (r: Option<Vec<char>>)
    ensures
        match file_name_of(host, p@) {
            Some(n) => r matches Some(v) && v@ == n,
            None => r is None,
        },
{
    if matches!(host, PathHost::Windows) {
        let marker = long_path_marker_chars();
        if drive_root_at_exec(p, 0) || (chars_have_prefix(p, &marker) && drive_root_at_exec(p, 4)) {
            return None;
        }
    }
    last_name_chars(host, p)
}

/// The last component of `p` (see [`last_name_of`]).
fn last_name_chars(host: PathHost, p: &Vec<char>) -> (r: Option<Vec<char>>)
    ensures
        match last_name_of(host, p@) {
            Some(n) => r matches Some(v) && v@ == n,
            None => r is None,
        },
{
    let mut last: Option<Vec<char>> = None;
    let mut cur: Vec<char> = Vec::new();
    let mut i: usize = 0;
    proof {
        assert(cur@ =~= Seq::<char>::empty());
    }
    while i < p.len()
        invariant
            i <= p.len(),
            component_scan(host, p@, i as int, match last { Some(v) => Some(v@), None => None }, cur@)
                == component_scan(host, p@, 0, None, Seq::empty()),
        decreases p.len() - i,
    {
        if separates_exec(host, p[i]) {
            let is_dot = cur.len() == 1 && cur[0] == '.';
            proof {
                if cur@.len() == 1 {
                    assert(is_dot == (cur@ =~= seq!['.']));
                } else {
                    assert(cur@ != seq!['.']);
                }
            }
            if cur.len() > 0 && !is_dot {
                last = Some(cur);
            }
            cur = Vec::new();
            proof {
                assert(cur@ =~= Seq::<char>::empty());
            }
        } else {
            cur.push(p[i]);
        }
        i = i + 1;
    }
    let is_dot = cur.len() == 1 && cur[0] == '.';
    proof {
        if cur@.len() == 1 {
            assert(is_dot == (cur@ =~= seq!['.']));
        } else {
            assert(cur@ != seq!['.']);
        }
    }
    if cur.len() > 0 && !is_dot {
        last = Some(cur);
    }
    match last {
        Some(c) => {
            let is_dotdot = c.len() == 2 && c[0] == '.' && c[1] == '.';
            proof {
                if c@.len() == 2 {
                    assert(is_dotdot == (c@ =~= seq!['.', '.']));
                } else {
                    assert(c@ != seq!['.', '.']);
                }
            }
            if is_dotdot {
                None
            } else {
                Some(c)
            }
        },
        None => None,
    }
}

/// Position of the last `.` of `name` (see [`last_dot`]).
fn last_dot_exec(name: &Vec<char>) -> (r: Option<usize>)
    ensures
        match r {
            Some(d) => last_dot(name@) == Some(d as int) && d < name@.len(),
            None => last_dot(name@) is None,
        },
{
    let mut k = name.len();
    while k > 0
        invariant
            k <= name.len(),
            forall|e: int| k <= e < name.len() ==> name@[e] != '.',
        decreases k,
    {
        if name[k - 1] == '.' {
            proof {
                lemma_last_dot_prefix(name@, k as int);
                assert(name@.subrange(0, k as int).last() == '.');
            }
            return Some(k - 1);
        }
        k = k - 1;
    }
    proof {
        lemma_last_dot_prefix(name@, 0);
    }
    None
}

/// Whether `name` is `..`.
fn is_dotdot(name: &Vec<char>) -> (r: bool)
    ensures
        r == (name@ == seq!['.', '.']),
{
    let r = name.len() == 2 && name[0] == '.' && name[1] == '.';
    proof {
        if name@.len() == 2 {
            assert(r == (name@ =~= seq!['.', '.']));
        }
    }
    r
}

/// The extension of a file name (see [`name_extension`]).
pub fn name_extension_chars(name: &Vec<char>) -> (r: Option<Vec<char>>)
    ensures
        match name_extension(name@) {
            Some(e) => r matches Some(v) && v@ == e,
            None => r is None,
        },
{
    let ld = last_dot_exec(name);
    proof {
        lemma_last_dot_bound(name@);
    }
    match ld {
        Some(d) => {
            proof {
                assert(last_dot(name@) == Some(d as int));
            }
            let len = name.len();
            if d == 0 || is_dotdot(name) {
                None
            } else {
                Some(chars_from(name, d + 1))
            }
        },
        None => None,
    }
}

/// The stem of a file name (see [`name_stem`]).
pub fn name_stem_chars(name: &Vec<char>) -> (r: Vec<char>)
    ensures
        r@ == name_stem(name@),
{
    let ld = last_dot_exec(name);
    proof {
        lemma_last_dot_bound(name@);
    }
    match ld {
        Some(d) => {
            proof {
                assert(last_dot(name@) == Some(d as int));
            }
            if d == 0 || is_dotdot(name) {
                let r = chars_from(name, 0);
                proof {
                    assert(name@.subrange(0, name@.len() as int) == name@);
                }
                r
            } else {
                let mut r: Vec<char> = Vec::new();
                let mut i: usize = 0;
                while i < d
                    invariant
                        i <= d < name.len(),
                        r@ == name@.subrange(0, i as int),
                    decreases d - i,
                {
                    r.push(name[i]);
                    i = i + 1;
                }
                r
            }
        },
        None => {
            let r = chars_from(name, 0);
            proof {
                assert(name@.subrange(0, name@.len() as int) == name@);
            }
            r
        },
    }
}

/// Whether a file extension names an image format the library reads.
pub open spec fn supported_image_extension(ext: Seq<char>) -> bool {
    let e = lower_ascii_seq(ext);
    ||| e == "jpg"@
    ||| e == "jpeg"@
    ||| e == "png"@
    ||| e == "webp"@
    ||| e == "gif"@
    ||| e == "bmp"@
    ||| e == "tif"@
    ||| e == "tiff"@
    ||| e == "avif"@
}

/// Whether the file at `path` is an image the library reads, judged by the
/// extension of its final name on `host`.
pub open spec fn supported_image_path(host: PathHost, path: Seq<char>) -> bool {
    match file_name_of(host, path) {
        Some(n) => match name_extension(n) {
            Some(e) => supported_image_extension(e),
            None => false,
        },
        None => false,
    }
}

/// Whether the file at `path` is an image the library reads (see
/// [`supported_image_path`]).
pub fn is_supported_image(host: PathHost, path: &str) -> (r: bool)
    ensures
        r == supported_image_path(host, path@),
{
    let p = str_chars(path);
    match file_name_chars(host, &p) {
        Some(name) => match name_extension_chars(&name) {
            Some(ext) => {
                let e = lower_ascii_chars(&ext);
                crate::chars::chars_eq_str(&e, "jpg") || crate::chars::chars_eq_str(&e, "jpeg")
                    || crate::chars::chars_eq_str(&e, "png") || crate::chars::chars_eq_str(&e, "webp")
                    || crate::chars::chars_eq_str(&e, "gif") || crate::chars::chars_eq_str(&e, "bmp")
                    || crate::chars::chars_eq_str(&e, "tif") || crate::chars::chars_eq_str(&e, "tiff")
                    || crate::chars::chars_eq_str(&e, "avif")
            },
            None => false,
        },
        None => false,
    }
}

/// `base` joined with the relative name `name` by the rules of `host`
/// (`PathBuf::push`, see [`join_name_windows`] and [`join_name_unix`]).
pub open spec fn join_name(host: PathHost, base: Seq<char>, name: Seq<char>) -> Seq<char> {
    match host {
        PathHost::Windows => join_name_windows(base, name),
        PathHost::Unix => join_name_unix(base, name),
    }
}

/// `base` joined with the relative name `name` on Windows: no separator is
/// added after an empty base, a base that ends in `\` or `/`, or a bare drive
/// like `C:`; `\` otherwise.
pub open spec fn join_name_windows(base: Seq<char>, name: Seq<char>) -> Seq<char> {
    if base.len() == 0 || is_separator(base.last()) || (base.len() == 2 && base[1] == ':'
        && (('a' <= base[0] && base[0] <= 'z') || ('A' <= base[0] && base[0] <= 'Z'))) {
        base + name
    } else {
        base + seq!['\\'] + name
    }
}

/// `base` joined with the relative name `name` on Unix: no separator is added
/// after an empty base or a base that ends in `/`; `/` otherwise.
pub open spec fn join_name_unix(base: Seq<char>, name: Seq<char>) -> Seq<char> {
    if base.len() == 0 || base.last() == '/' {
        base + name
    } else {
        base + seq!['/'] + name
    }
}

/// `base` joined with the relative name `name` on `host` (see [`join_name`]).
pub fn join_name_exec(host: PathHost, base: &str, name: &Vec<char>) -> (r: String)
    ensures
        r@ == join_name(host, base@, name@),
{
    let b = str_chars(base);
    let mut out = string_from_chars(&b);
    let add = match host {
        PathHost::Windows => {
            let bare_drive = b.len() == 2 && b[1] == ':' && (('a' <= b[0] && b[0] <= 'z') || ('A' <= b[0]
                && b[0] <= 'Z'));
            !(b.len() == 0 || b[b.len() - 1] == '\\' || b[b.len() - 1] == '/' || bare_drive)
        },
        PathHost::Unix => !(b.len() == 0 || b[b.len() - 1] == '/'),
    };
    if add {
        match host {
            PathHost::Windows => out.push('\\'),
            PathHost::Unix => out.push('/'),
        }
    }
    push_all(&mut out, name);
    out
}

/// The decimal digits of `n`.
pub open spec fn decimal(n: nat) -> Seq<char>
    decreases n,
{
    if n < 10 {
        seq![(48 + n) as char]
    } else {
        decimal(n / 10).push((48 + n % 10) as char)
    }
}

/// The decimal digits of `n`.
pub fn decimal_chars(n: u64) -> (r: Vec<char>)
    ensures
        r@ == decimal(n as nat),
    decreases n,
{
    let d = n % 10;
    let c = crate::chars::char_from_ascii_code((48 + d) as u32);
    if n < 10 {
        let mut r: Vec<char> = Vec::new();
        r.push(c);
        proof {
            assert(r@ =~= seq![(48 + n) as char]);
        }
        r
    } else {
        let mut r = decimal_chars(n / 10);
        r.push(c);
        r
    }
}

/// The thumbnail file for an image: the FNV-1a hash of its id in hex with
/// extension `.webp`, inside the thumbnail directory.
pub open spec fn thumbnail_path(host: PathHost, thumb_root: Seq<char>, image_id: Seq<char>) -> Seq<char> {
    join_name(
        host,
        thumb_root,
        crate::text::hex16(crate::text::fnv1a64(vstd::utf8::encode_utf8(image_id))) + ".webp"@,
    )
}

/// The thumbnail file for an image (see [`thumbnail_path`]).
pub fn expected_thumbnail_path_for_image_id(host: PathHost, thumb_root: &str, image_id: &str) -> (r: String)
    ensures
        r@ == thumbnail_path(host, thumb_root@, image_id@),
{
    let hash = crate::text::stable_hash_hex(image_id);
    let mut name = str_chars(hash.as_str());
    let ext = str_chars(".webp");
    let ghost h = name@;
    let mut k: usize = 0;
    while k < ext.len()
        invariant
            k <= ext.len(),
            name@ == h + ext@.subrange(0, k as int),
        decreases ext.len() - k,
    {
        name.push(ext[k]);
        k = k + 1;
        proof {
            assert(name@ =~= h + ext@.subrange(0, k as int));
        }
    }
    proof {
        assert(ext@.subrange(0, ext@.len() as int) == ext@);
    }
    join_name_exec(host, thumb_root, &name)
}

/// The name tried at attempt `suffix` when a reference image is copied into
/// a folder: `stem.ext`, then `stem-1.ext`, `stem-2.ext`, ...; the stem is
/// `reference` when the file name has none and the extension `png`.
pub open spec fn reference_file_candidate(host: PathHost, file_name: Seq<char>, suffix: nat) -> Seq<char> {
    let name = file_name_of(host, file_name);
    let stem = match name {
        Some(n) => name_stem(n),
        None => Seq::empty(),
    };
    let base = if stem.len() > 0 {
        stem
    } else {
        "reference"@
    };
    let ext = match name {
        Some(n) => match name_extension(n) {
            Some(e) => e,
            None => "png"@,
        },
        None => "png"@,
    };
    if suffix == 0 {
        base + seq!['.'] + ext
    } else {
        base + seq!['-'] + decimal(suffix) + seq!['.'] + ext
    }
}

/// The file name tried at attempt `suffix` when a reference image is copied
/// into a folder (see [`reference_file_candidate`]).
pub fn reference_file_name_candidate(host: PathHost, file_name: &str, suffix: u64) -> (r: String)
    ensures
        r@ == reference_file_candidate(host, file_name@, suffix as nat),
{
    let f = str_chars(file_name);
    let name = file_name_chars(host, &f);
    let stem = match &name {
        Some(n) => name_stem_chars(n),
        None => Vec::new(),
    };
    let base = if stem.len() > 0 {
        stem
    } else {
        str_chars("reference")
    };
    let ext = match &name {
        Some(n) => match name_extension_chars(n) {
            Some(e) => e,
            None => str_chars("png"),
        },
        None => str_chars("png"),
    };
    let mut out = string_from_chars(&base);
    if suffix > 0 {
        out.push('-');
        let digits = decimal_chars(suffix);
        push_all(&mut out, &digits);
    }
    out.push('.');
    push_all(&mut out, &ext);
    proof {
        if suffix == 0 {
            assert(out@ =~= base@ + seq!['.'] + ext@);
        } else {
            assert(out@ =~= base@ + seq!['-'] + decimal(suffix as nat) + seq!['.'] + ext@);
        }
    }
    out
}

/// The file name tried at attempt `index` when an image is exported into a
/// folder: the cleaned name itself, then `stem (1).ext`, `stem (2).ext`, ...
/// (`stem (n)` when the cleaned name has no extension).
pub open spec fn export_file_candidate(file_name: Seq<char>, index: nat) -> Seq<char> {
    let clean = crate::text::export_path_segment(file_name, "image"@);
    let stem0 = name_stem(clean);
    let stem = if stem0.len() > 0 {
        stem0
    } else {
        "image"@
    };
    if index == 0 {
        clean
    } else {
        match name_extension(clean) {
            Some(e) => stem + seq![' ', '('] + decimal(index) + seq![')', '.'] + e,
            None => stem + seq![' ', '('] + decimal(index) + seq![')'],
        }
    }
}

/// The file name tried at attempt `index` when an image is exported into a
/// folder (see [`export_file_candidate`]).
pub fn export_file_name_candidate(file_name: &str, index: u64) -> (r: String)
    ensures
        r@ == export_file_candidate(file_name@, index as nat),
{
    let clean = crate::text::sanitize_export_path_segment(file_name, "image");
    if index == 0 {
        return clean;
    }
    let c = str_chars(clean.as_str());
    let stem0 = name_stem_chars(&c);
    let stem = if stem0.len() > 0 {
        stem0
    } else {
        str_chars("image")
    };
    let mut out = string_from_chars(&stem);
    out.push(' ');
    out.push('(');
    let digits = decimal_chars(index);
    push_all(&mut out, &digits);
    out.push(')');
    match name_extension_chars(&c) {
        Some(e) => {
            out.push('.');
            push_all(&mut out, &e);
            proof {
                assert(out@ =~= stem@ + seq![' ', '('] + decimal(index as nat) + seq![')', '.'] + e@);
            }
        },
        None => {
            proof {
                assert(out@ =~= stem@ + seq![' ', '('] + decimal(index as nat) + seq![')']);
            }
        },
    }
    out
}

/// The name tried at attempt `suffix` for a pasted image saved at time
/// `now`: `clipboard-<now>`, then `-<index>` when several images are pasted
/// at once, then `-<suffix>` from the second attempt on, then `.ext`.
pub open spec fn clipboard_file_candidate(now: i64, index: Option<u64>, suffix: u64, ext: Seq<char>) -> Seq<char> {
    let base = "clipboard-"@ + crate::export::signed_decimal(now as int);
    let with_index = match index {
        Some(i) => base + seq!['-'] + decimal(i as nat),
        None => base,
    };
    let with_suffix = if suffix == 0 {
        with_index
    } else {
        with_index + seq!['-'] + decimal(suffix as nat)
    };
    with_suffix + seq!['.'] + ext
}

/// The name tried at attempt `suffix` for a pasted image (see
/// [`clipboard_file_candidate`]).
pub fn clipboard_file_name_candidate(now: i64, index: Option<u64>, suffix: u64, ext: &str) -> (r: String)
    ensures
        r@ == clipboard_file_candidate(now, index, suffix, ext@),
{
    let mut s = owned_string("clipboard-");
    crate::export::push_signed_decimal(&mut s, now);
    match index {
        Some(i) => {
            s.push('-');
            push_all(&mut s, &decimal_chars(i));
        },
        None => {},
    }
    if suffix != 0 {
        s.push('-');
        push_all(&mut s, &decimal_chars(suffix));
    }
    s.push('.');
    push_str_chars(&mut s, ext);
    proof {
        reveal_strlit("clipboard-");
        assert(s@ =~= clipboard_file_candidate(now, index, suffix, ext@));
    }
    s
}

/// The name of the temporary file an external query image is kept in: `query-`
/// and the stable hash of `<now>-<size>`, with extension `img`.
pub open spec fn external_query_file(now: i64, size: u64) -> Seq<char> {
    "query-"@ + crate::text::hex16(crate::text::fnv1a64(vstd::utf8::encode_utf8(
        crate::export::signed_decimal(now as int) + seq!['-'] + decimal(size as nat),
    ))) + ".img"@
}

/// The name of the temporary file an external query image is kept in (see
/// [`external_query_file`]).
pub fn external_image_temp_file_name(now: i64, size: u64) -> (r: String)
    ensures
        r@ == external_query_file(now, size),
{
    let mut seed = String::new();
    crate::export::push_signed_decimal(&mut seed, now);
    seed.push('-');
    push_all(&mut seed, &decimal_chars(size));
    let hash = crate::text::stable_hash_hex(seed.as_str());
    let mut s = owned_string("query-");
    push_str_chars(&mut s, hash.as_str());
    push_str_chars(&mut s, ".img");
    proof {
        assert(seed@ =~= crate::export::signed_decimal(now as int) + seq!['-'] + decimal(size as nat));
        assert(s@ =~= external_query_file(now, size));
    }
    s
}

/// The mapping a backup path is moved by is one that applies to it, and no
/// other applying mapping has a longer `from`; when none is chosen, none
/// applies.
pub proof fn law_longest_mapping_wins(path: Seq<char>, ms: Seq<(Seq<char>, Seq<char>)>, n: int)
    requires
        0 <= n <= ms.len(),
    ensures
        best_mapping(path, ms, n) matches Some(b) ==> {
            &&& 0 <= b < n
            &&& mapping_usable(ms[b])
            &&& mapping_matches(crate::text::unicode_lowercase(path), crate::chars::trim(ms[b].0))
            &&& forall|i: int|
                0 <= i < n && mapping_usable(#[trigger] ms[i]) && mapping_matches(
                    crate::text::unicode_lowercase(path),
                    crate::chars::trim(ms[i].0),
                ) ==> byte_len(crate::chars::trim(ms[i].0)) <= byte_len(crate::chars::trim(ms[b].0))
        },
        best_mapping(path, ms, n) is None ==> forall|i: int|
            0 <= i < n ==> !(mapping_usable(#[trigger] ms[i]) && mapping_matches(
                crate::text::unicode_lowercase(path),
                crate::chars::trim(ms[i].0),
            )),
    decreases n,
{
    if n > 0 {
        law_longest_mapping_wins(path, ms, n - 1);
    }
}

} // verus!
