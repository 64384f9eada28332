use vstd::prelude::*;
use crate::chars::{
    trim, trim_str, trim_chars, string_from_chars, str_chars, char_lower_ascii, lower_ascii,
    lower_ascii_seq, is_space, char_is_space, lower_ascii_chars, chars_eq, chars_eq_str,
    contains_text, chars_contain_str, trim_bounds, string_from_range, trim_start,
};

verus! {

/// Model identifier of the Chinese CLIP model used for embeddings.
pub const CHINESE_CLIP_MODEL_ID: &'static str = "cn_clip_vit_base_patch16";

/// Lower-casing by the Unicode rules of `str::to_lowercase`.
pub uninterp spec fn unicode_lowercase(s: Seq<char>) -> Seq<char>;

/// Upper-casing by the Unicode rules of `str::to_uppercase`.
pub uninterp spec fn unicode_uppercase(s: Seq<char>) -> Seq<char>;

/// Calls `str::to_lowercase`; its result is named by [`unicode_lowercase`].
#[verifier::external_body]
pub(crate) fn to_lowercase(s: &str) -> (r: String)
    ensures
        r@ == unicode_lowercase(s@),
{
    s.to_lowercase()
}

/// Calls `str::to_uppercase`; its result is named by [`unicode_uppercase`].
#[verifier::external_body]
pub(crate) fn to_uppercase(s: &str) -> (r: String)
    ensures
        r@ == unicode_uppercase(s@),
{
    s.to_uppercase()
}

/// Trims a tag text.
pub fn normalize_tag_text(value: &str) -> (r: String)
    ensures
        r@ == trim(value@),
{
    trim_str(value)
}

/// Trims an optional tag text; a text that is blank after trimming becomes `None`.
pub fn normalize_optional_tag_text(value: Option<String>) -> (r: Option<String>)
    ensures
        match value {
            None => r is None,
            Some(v) => if trim(v@).len() == 0 {
                r is None
            } else {
                r matches Some(t) && t@ == trim(v@)
            },
        },
{
    match value {
        None => None,
        Some(item) => {
            let trimmed = trim_chars(item.as_str());
            if trimmed.len() == 0 {
                None
            } else {
                Some(string_from_chars(&trimmed))
            }
        },
    }
}

/// One character of a dictionary key: ASCII lower case, with `-` and space
/// turned into `_`.
pub open spec fn tag_key_char(c: char) -> char {
    let l = lower_ascii(c);
    if l == '-' || l == ' ' {
        '_'
    } else {
        l
    }
}

/// The dictionary key of a tag: trimmed, ASCII lower case, `-` and space as `_`.
pub open spec fn tag_key(tag: Seq<char>) -> Seq<char> {
    Seq::new(trim(tag).len(), |i: int| tag_key_char(trim(tag)[i]))
}

/// The dictionary key of a tag (see [`tag_key`]).
pub fn normalize_tag_key(tag: &str) -> (r: String)
    ensures
        r@ == tag_key(tag@),
{
    let t = trim_chars(tag);
    let mut out: Vec<char> = Vec::new();
    let mut i: usize = 0;
    while i < t.len()
        invariant
            i <= t.len(),
            t@ == trim(tag@),
            out@ == Seq::new(i as nat, |k: int| tag_key_char(t@[k])),
        decreases t.len() - i,
    {
        let l = char_lower_ascii(t[i]);
        let c = if l == '-' || l == ' ' {
            '_'
        } else {
            l
        };
        out.push(c);
        i = i + 1;
        proof {
            assert(out@ =~= Seq::new(i as nat, |k: int| tag_key_char(t@[k])));
        }
    }
    proof {
        assert(out@ =~= tag_key(tag@));
    }
    string_from_chars(&out)
}

/// How one character is written inside a `LIKE ... ESCAPE '\'` pattern.
pub open spec fn like_escape_char(c: char) -> Seq<char> {
    if c == '%' {
        seq!['\\', '%']
    } else if c == '_' {
        seq!['\\', '_']
    } else if c == '\\' {
        seq!['\\', '\\']
    } else {
        seq![c]
    }
}

/// `s` with the `LIKE` wildcards `%`, `_` and the escape `\` escaped.
pub open spec fn like_escape(s: Seq<char>) -> Seq<char>
    decreases s.len(),
{
    if s.len() == 0 {
        Seq::empty()
    } else {
        like_escape(s.drop_last()) + like_escape_char(s.last())
    }
}

/// Escapes `value` for use inside a `LIKE` pattern with `\` as escape.
pub fn escape_like_pattern(value: &str) -> (r: String)
    ensures
        r@ == like_escape(value@),
{
    let v = str_chars(value);
    let mut out = String::new();
    let mut i: usize = 0;
    while i < v.len()
        invariant
            i <= v.len(),
            v@ == value@,
            out@ == like_escape(v@.subrange(0, i as int)),
        decreases v.len() - i,
    {
        let c = v[i];
        if c == '%' {
            out.push('\\');
            out.push('%');
        } else if c == '_' {
            out.push('\\');
            out.push('_');
        } else if c == '\\' {
            out.push('\\');
            out.push('\\');
        } else {
            out.push(c);
        }
        proof {
            let p = v@.subrange(0, i + 1);
            assert(p.drop_last() == v@.subrange(0, i as int));
            assert(p.last() == c);
            assert(out@ =~= like_escape(p));
        }
        i = i + 1;
    }
    proof {
        assert(v@.subrange(0, v@.len() as int) == v@);
    }
    out
}

/// Reads an escaped `LIKE` pattern back into the text it escapes.
pub open spec fn like_unescape(s: Seq<char>) -> Seq<char>
    decreases s.len(),
{
    if s.len() == 0 {
        Seq::empty()
    } else if s[0] == '\\' && s.len() >= 2 {
        seq![s[1]] + like_unescape(s.subrange(2, s.len() as int))
    } else {
        seq![s[0]] + like_unescape(s.drop_first())
    }
}

proof fn lemma_like_unescape_concat(a: Seq<char>, c: char)
    ensures
        like_unescape(like_escape(a) + like_escape_char(c)) == like_unescape(like_escape(a)) + seq![c],
    decreases a.len(),
{
    if a.len() == 0 {
        assert(like_escape(a) == Seq::<char>::empty());
        assert(like_escape(a) + like_escape_char(c) == like_escape_char(c));
        let e = like_escape_char(c);
        if c == '%' || c == '_' || c == '\\' {
            assert(e.subrange(2, e.len() as int) == Seq::<char>::empty());
        } else {
            assert(e.drop_first() == Seq::<char>::empty());
        }
    } else {
        let x = a[0];
        let rest = a.drop_first();
        lemma_like_escape_first(a);
        let ex = like_escape_char(x);
        let tail = like_escape(rest) + like_escape_char(c);
        assert(like_escape(a) + like_escape_char(c) == ex + tail);
        lemma_like_unescape_prefix(x, tail);
        lemma_like_unescape_prefix(x, like_escape(rest));
        lemma_like_unescape_concat(rest, c);
    }
}

proof fn lemma_like_escape_first(a: Seq<char>)
    requires
        a.len() > 0,
    ensures
        like_escape(a) == like_escape_char(a[0]) + like_escape(a.drop_first()),
    decreases a.len(),
{
    if a.len() == 1 {
        assert(a.drop_last() == Seq::<char>::empty());
        assert(a.drop_first() == Seq::<char>::empty());
    } else {
        lemma_like_escape_first(a.drop_last());
        assert(a.drop_last().drop_first() == a.drop_first().drop_last());
        assert(a.drop_first().last() == a.last());
        assert(a.drop_last()[0] == a[0]);
    }
}

proof fn lemma_like_unescape_prefix(x: char, t: Seq<char>)
    ensures
        like_unescape(like_escape_char(x) + t) == seq![x] + like_unescape(t),
{
    let s = like_escape_char(x) + t;
    if x == '%' || x == '_' || x == '\\' {
        assert(s[0] == '\\');
        assert(s[1] == x);
        assert(s.subrange(2, s.len() as int) == t);
    } else {
        assert(s[0] == x);
        assert(s.drop_first() == t);
    }
}

/// Escaping for `LIKE` loses nothing: unescaping gives the text back.
pub proof fn law_like_escape_roundtrip(s: Seq<char>)
    ensures
        like_unescape(like_escape(s)) == s,
    decreases s.len(),
{
    if s.len() == 0 {
    } else {
        law_like_escape_roundtrip(s.drop_last());
        lemma_like_unescape_concat(s.drop_last(), s.last());
        assert(s.drop_last() + seq![s.last()] == s);
    }
}

/// State of a left-to-right split at white space: the words completed so far
/// and the word being read.
pub open spec fn split_state(s: Seq<char>) -> (Seq<Seq<char>>, Seq<char>)
    decreases s.len(),
{
    if s.len() == 0 {
        (Seq::empty(), Seq::empty())
    } else {
        let (done, cur) = split_state(s.drop_last());
        let c = s.last();
        if is_space(c) {
            if cur.len() > 0 {
                (done.push(cur), Seq::empty())
            } else {
                (done, Seq::empty())
            }
        } else {
            (done, cur.push(c))
        }
    }
}

/// The maximal runs of non-white-space characters of `s`
/// (`str::split_whitespace`).
pub open spec fn words(s: Seq<char>) -> Seq<Seq<char>> {
    let (done, cur) = split_state(s);
    if cur.len() > 0 {
        done.push(cur)
    } else {
        done
    }
}

/// `a` sorts strictly before `b`: character by character, and a proper prefix
/// first (the order of `String`, since UTF-8 keeps the order of code points).
pub open spec fn text_less(a: Seq<char>, b: Seq<char>) -> bool
    decreases a.len(),
{
    if a.len() == 0 {
        b.len() > 0
    } else if b.len() == 0 {
        false
    } else if a[0] != b[0] {
        a[0] < b[0]
    } else {
        text_less(a.drop_first(), b.drop_first())
    }
}

/// `s` is sorted strictly ascending by [`text_less`].
pub open spec fn strictly_sorted(s: Seq<Seq<char>>) -> bool {
    forall|i: int, j: int| 0 <= i < j < s.len() ==> text_less(s[i], s[j])
}

/// The search tokens of a query: its white-space separated words in ASCII
/// lower case.
pub open spec fn search_tokens(input: Seq<char>) -> Seq<Seq<char>> {
    words(input).map_values(|w: Seq<char>| lower_ascii_seq(w))
}

/// Compares two texts by [`text_less`].
pub fn chars_less(a: &Vec<char>, b: &Vec<char>) -> (r: bool)
    ensures
        r == text_less(a@, b@),
{
    let mut i: usize = 0;
    proof {
        assert(a@.subrange(0, a@.len() as int) == a@);
        assert(b@.subrange(0, b@.len() as int) == b@);
    }
    while i < a.len() && i < b.len() && a[i] == b[i]
        invariant
            i <= a.len(),
            i <= b.len(),
            text_less(a@, b@) == text_less(a@.subrange(i as int, a@.len() as int), b@.subrange(i as int, b@.len() as int)),
        decreases a.len() - i,
    {
        proof {
            let sa = a@.subrange(i as int, a@.len() as int);
            let sb = b@.subrange(i as int, b@.len() as int);
            assert(sa.drop_first() == a@.subrange(i + 1, a@.len() as int));
            assert(sb.drop_first() == b@.subrange(i + 1, b@.len() as int));
        }
        i = i + 1;
    }
    if i == a.len() {
        i < b.len()
    } else if i == b.len() {
        false
    } else {
        a[i] < b[i]
    }
}

/// `text_less` is irreflexive.
pub proof fn lemma_text_less_irreflexive(a: Seq<char>)
    ensures
        !text_less(a, a),
    decreases a.len(),
{
    if a.len() > 0 {
        lemma_text_less_irreflexive(a.drop_first());
    }
}

/// `text_less` is transitive.
pub proof fn lemma_text_less_transitive(a: Seq<char>, b: Seq<char>, c: Seq<char>)
    requires
        text_less(a, b),
        text_less(b, c),
    ensures
        text_less(a, c),
    decreases a.len(),
{
    if a.len() > 0 && b.len() > 0 && c.len() > 0 && a[0] == b[0] && b[0] == c[0] {
        lemma_text_less_transitive(a.drop_first(), b.drop_first(), c.drop_first());
    }
}

/// Two different texts are ordered one way or the other.
pub proof fn lemma_text_less_total(a: Seq<char>, b: Seq<char>)
    requires
        a != b,
    ensures
        text_less(a, b) || text_less(b, a),
    decreases a.len(),
{
    if a.len() > 0 && b.len() > 0 && a[0] == b[0] {
        if a.drop_first() == b.drop_first() {
            assert(a =~= seq![a[0]] + a.drop_first());
            assert(b =~= seq![b[0]] + b.drop_first());
        }
        lemma_text_less_total(a.drop_first(), b.drop_first());
    } else if a.len() > 0 && b.len() > 0 {
    } else if a.len() == 0 && b.len() == 0 {
        assert(a =~= b);
    }
}

/// The texts of `v` as strings, in order.
pub(crate) fn strings_from_char_vecs(v: &Vec<Vec<char>>) -> (r: Vec<String>)
    ensures
        r@.map_values(|s: String| s@) == v@.map_values(|w: Vec<char>| w@),
{
    let mut r: Vec<String> = Vec::new();
    let mut k: usize = 0;
    while k < v.len()
        invariant
            k <= v.len(),
            r@.map_values(|s: String| s@) == v@.map_values(|w: Vec<char>| w@).subrange(
                0,
                k as int,
            ),
        decreases v.len() - k,
    {
        let s = string_from_chars(&v[k]);
        let ghost prev = r@;
        r.push(s);
        k = k + 1;
        proof {
            assert(r@ == prev.push(s));
            assert(r@.map_values(|s: String| s@) =~= prev.map_values(|s: String| s@).push(s@));
            assert(r@.map_values(|s: String| s@) =~= v@.map_values(|w: Vec<char>| w@).subrange(
                0,
                k as int,
            ));
        }
    }
    proof {
        assert(v@.map_values(|w: Vec<char>| w@).subrange(0, v@.len() as int)
            =~= v@.map_values(|w: Vec<char>| w@));
    }
    r
}

/// Inserts `t` into the strictly v list `v` unless it is already there.
pub(crate) fn insert_sorted_unique(v: &mut Vec<Vec<char>>, t: Vec<char>)
    requires
        strictly_sorted(old(v)@.map_values(|w: Vec<char>| w@)),
    ensures
        strictly_sorted(final(v)@.map_values(|w: Vec<char>| w@)),
        final(v)@.map_values(|w: Vec<char>| w@).to_set() == old(v)@.map_values(
            |w: Vec<char>| w@,
        ).to_set().insert(t@),
{
    let ghost old_view = v@.map_values(|w: Vec<char>| w@);
    let mut i: usize = 0;
    while i < v.len() && chars_less(&v[i], &t)
        invariant
            i <= v.len(),
            v@.map_values(|w: Vec<char>| w@) == old_view,
            strictly_sorted(old_view),
            forall|k: int| 0 <= k < i ==> text_less(old_view[k], t@),
        decreases v.len() - i,
    {
        i = i + 1;
    }
    if i < v.len() && chars_eq(&v[i], &t) {
        proof {
            assert(old_view[i as int] == t@);
            assert(old_view.to_set().insert(t@) =~= old_view.to_set());
        }
        return;
    }
    proof {
        if i < v.len() {
            assert(old_view[i as int] == v@[i as int]@);
            lemma_text_less_total(old_view[i as int], t@);
            assert(text_less(t@, old_view[i as int]));
        }
    }
    v.insert(i, t);
    proof {
        let nv = v@.map_values(|w: Vec<char>| w@);
        assert(nv =~= old_view.insert(i as int, t@));
        assert forall|a: int, b: int| 0 <= a < b < nv.len() implies text_less(nv[a], nv[b]) by {
            if b < i {
            } else if b == i {
            } else if a < i {
                assert(nv[b] == old_view[b - 1]);
                if b - 1 > i {
                    lemma_text_less_transitive(t@, old_view[i as int], old_view[b - 1]);
                }
                lemma_text_less_transitive(nv[a], t@, nv[b]);
            } else if a == i {
                if b - 1 > i {
                    lemma_text_less_transitive(t@, old_view[i as int], old_view[b - 1]);
                }
            } else {
            }
        }
        assert forall|x: Seq<char>| nv.to_set().contains(x) <==> old_view.to_set().insert(
            t@,
        ).contains(x) by {
            if nv.contains(x) {
                let k = choose|k: int| 0 <= k < nv.len() && nv[k] == x;
                if k < i {
                    assert(old_view[k] == x);
                } else if k > i {
                    assert(old_view[k - 1] == x);
                }
            }
            if old_view.contains(x) {
                let k = choose|k: int| 0 <= k < old_view.len() && old_view[k] == x;
                if k < i {
                    assert(nv[k] == x);
                } else {
                    assert(nv[k + 1] == x);
                }
            }
            if x == t@ {
                assert(nv[i as int] == x);
            }
        }
        assert(nv.to_set() =~= old_view.to_set().insert(t@));
    }
}

/// The distinct search tokens of a query, sorted: its white-space separated
/// words in ASCII lower case, each once, in ascending order.
pub fn split_search_tokens(input: &str) -> (r: Vec<String>)
    ensures
        strictly_sorted(r@.map_values(|s: String| s@)),
        r@.map_values(|s: String| s@).to_set() == search_tokens(input@).to_set(),
{
    let v = str_chars(input);
    let mut sorted: Vec<Vec<char>> = Vec::new();
    let mut cur: Vec<char> = Vec::new();
    let mut i: usize = 0;
    while i < v.len()
        invariant
            i <= v.len(),
            v@ == input@,
            split_state(v@.subrange(0, i as int)).1 == cur@,
            strictly_sorted(sorted@.map_values(|w: Vec<char>| w@)),
            sorted@.map_values(|w: Vec<char>| w@).to_set() == split_state(
                v@.subrange(0, i as int),
            ).0.map_values(|w: Seq<char>| lower_ascii_seq(w)).to_set(),
        decreases v.len() - i,
    {
        let c = v[i];
        let ghost prefix = v@.subrange(0, i + 1);
        let ghost prev_done = split_state(v@.subrange(0, i as int)).0;
        proof {
            assert(prefix.drop_last() == v@.subrange(0, i as int));
            assert(prefix.last() == c);
        }
        if char_is_space(c) {
            if cur.len() > 0 {
                let lowered = lower_ascii_chars(&cur);
                insert_sorted_unique(&mut sorted, lowered);
                cur = Vec::new();
                proof {
                    let f = |w: Seq<char>| lower_ascii_seq(w);
                    assert(prev_done.push(split_state(v@.subrange(0, i as int)).1).map_values(f)
                        =~= prev_done.map_values(f).push(lowered@));
                    prev_done.map_values(f).lemma_push_to_set_commute(lowered@);
                }
            } else {
                cur = Vec::new();
            }
        } else {
            cur.push(c);
        }
        i = i + 1;
    }
    if cur.len() > 0 {
        let lowered = lower_ascii_chars(&cur);
        insert_sorted_unique(&mut sorted, lowered);
        proof {
            let f = |w: Seq<char>| lower_ascii_seq(w);
            let prev_done = split_state(v@.subrange(0, i as int)).0;
            assert(prev_done.push(cur@).map_values(f) =~= prev_done.map_values(f).push(lowered@));
            prev_done.map_values(f).lemma_push_to_set_commute(lowered@);
        }
    }
    proof {
        assert(v@.subrange(0, v@.len() as int) == v@);
    }
    strings_from_char_vecs(&sorted)
}


/// The model identifier a legacy model name maps to: every legacy name maps
/// to the Chinese CLIP model.
pub fn legacy_model_name_to_model_id(legacy: &str) -> (r: &'static str)
    ensures
        r == CHINESE_CLIP_MODEL_ID,
{
    CHINESE_CLIP_MODEL_ID
}

/// Whether an error message reports missing permission: its Unicode lower
/// case mentions "permission denied", "access is denied" or "operation not
/// permitted", or the message itself holds one of the Chinese phrases for
/// "access denied" / "no permission".
pub open spec fn permission_denied_text(e: Seq<char>) -> bool {
    let lower = unicode_lowercase(e);
    ||| contains_text(lower, "permission denied"@)
    ||| contains_text(lower, "access is denied"@)
    ||| contains_text(lower, "operation not permitted"@)
    ||| contains_text(e, "\u{62d2}\u{7edd}\u{8bbf}\u{95ee}"@)
    ||| contains_text(e, "\u{65e0}\u{6743}\u{9650}"@)
}

/// Whether an error message reports missing permission (see
/// [`permission_denied_text`]).
pub fn is_permission_denied_error_text(error_text: &str) -> (r: bool)
    ensures
        r == permission_denied_text(error_text@),
{
    let lower_string = to_lowercase(error_text);
    let lower = str_chars(lower_string.as_str());
    let original = str_chars(error_text);
    chars_contain_str(&lower, "permission denied") || chars_contain_str(&lower, "access is denied")
        || chars_contain_str(&lower, "operation not permitted") || chars_contain_str(
        &original,
        "\u{62d2}\u{7edd}\u{8bbf}\u{95ee}",
    ) || chars_contain_str(&original, "\u{65e0}\u{6743}\u{9650}")
}

/// A control character (general category `Cc`, `char::is_control`).
pub open spec fn is_control(c: char) -> bool {
    c <= '\u{1f}' || ('\u{7f}' <= c && c <= '\u{9f}')
}

/// A character that cannot stand in a file or folder name on Windows.
pub open spec fn is_forbidden_in_file_name(c: char) -> bool {
    c == '<' || c == '>' || c == ':' || c == '"' || c == '/' || c == '\\' || c == '|' || c == '?'
        || c == '*' || is_control(c)
}

/// One character of an exported path segment: forbidden characters become `_`.
pub open spec fn segment_char(c: char) -> char {
    if is_forbidden_in_file_name(c) {
        '_'
    } else {
        c
    }
}

/// `s` without the characters `ch` at its end (`str::trim_end_matches`).
pub open spec fn strip_trailing(s: Seq<char>, ch: char) -> Seq<char>
    decreases s.len(),
{
    if s.len() > 0 && s.last() == ch {
        strip_trailing(s.drop_last(), ch)
    } else {
        s
    }
}

/// The cleaned form of a name for use as a path segment: forbidden characters
/// replaced by `_`, then trimmed, then trailing dots removed.
pub open spec fn cleaned_segment(value: Seq<char>) -> Seq<char> {
    strip_trailing(trim(Seq::new(value.len(), |i: int| segment_char(value[i]))), '.')
}

/// The path segment for `value`, or `fallback` when nothing is left of it.
pub open spec fn export_path_segment(value: Seq<char>, fallback: Seq<char>) -> Seq<char> {
    if cleaned_segment(value).len() == 0 {
        fallback
    } else {
        cleaned_segment(value)
    }
}

/// If the characters from `k` on all equal `ch` and the one before does not,
/// stripping `ch` at the end keeps the first `k` characters.
proof fn lemma_strip_trailing_at(s: Seq<char>, ch: char, k: int)
    requires
        0 <= k <= s.len(),
        forall|j: int| k <= j < s.len() ==> #[trigger] s[j] == ch,
        k == 0 || s[k - 1] != ch,
    ensures
        strip_trailing(s, ch) == s.subrange(0, k),
    decreases s.len() - k,
{
    if k == s.len() {
        assert(s.subrange(0, s.len() as int) == s);
    } else {
        let t = s.drop_last();
        assert forall|j: int| k <= j < t.len() implies #[trigger] t[j] == ch by {
            assert(t[j] == s[j]);
        }
        if k > 0 {
            assert(t[k - 1] == s[k - 1]);
        }
        lemma_strip_trailing_at(t, ch, k);
        assert(t.subrange(0, k) == s.subrange(0, k));
    }
}

/// Tests one character for [`is_forbidden_in_file_name`].
fn char_forbidden_in_file_name(c: char) -> (r: bool)
    ensures
        r == is_forbidden_in_file_name(c),
{
    c == '<' || c == '>' || c == ':' || c == '"' || c == '/' || c == '\\' || c == '|' || c == '?'
        || c == '*' || c <= '\u{1f}' || ('\u{7f}' <= c && c <= '\u{9f}')
}

/// Turns a folder or file name into a safe path segment (see
/// [`export_path_segment`]).
pub fn sanitize_export_path_segment(value: &str, fallback: &str) -> (r: String)
    ensures
        r@ == export_path_segment(value@, fallback@),
{
    let v = str_chars(value);
    let mut mapped: Vec<char> = Vec::new();
    let mut i: usize = 0;
    while i < v.len()
        invariant
            i <= v.len(),
            v@ == value@,
            mapped@ == Seq::new(i as nat, |k: int| segment_char(v@[k])),
        decreases v.len() - i,
    {
        let c = v[i];
        if char_forbidden_in_file_name(c) {
            mapped.push('_');
        } else {
            mapped.push(c);
        }
        i = i + 1;
        proof {
            assert(mapped@ =~= Seq::new(i as nat, |k: int| segment_char(v@[k])));
        }
    }
    let (start, end) = trim_bounds(&mapped);
    let mut stop = end;
    while stop > start && mapped[stop - 1] == '.'
        invariant
            start <= stop <= end <= mapped.len(),
            forall|j: int| stop <= j < end ==> #[trigger] mapped@[j] == '.',
        decreases stop - start,
    {
        stop = stop - 1;
    }
    proof {
        let t = mapped@.subrange(start as int, end as int);
        let k = stop - start;
        assert forall|j: int| k <= j < t.len() implies #[trigger] t[j] == '.' by {
            assert(t[j] == mapped@[j + start]);
        }
        if k > 0 {
            assert(t[k - 1] == mapped@[stop - 1]);
        }
        lemma_strip_trailing_at(t, '.', k as int);
        assert(t.subrange(0, k as int) == mapped@.subrange(start as int, stop as int));
        assert(mapped@ == Seq::new(value@.len(), |k: int| segment_char(value@[k])));
    }
    if stop == start {
        owned_string(fallback)
    } else {
        string_from_range(&mapped, start, stop)
    }
}

/// A fresh string holding `s`.
pub fn owned_string(s: &str) -> (r: String)
    ensures
        r@ == s@,
{
    let v = str_chars(s);
    string_from_chars(&v)
}

/// Equality of two texts.
pub fn str_eq(a: &str, b: &str) -> (r: bool)
    ensures
        r == (a@ == b@),
{
    let v = str_chars(a);
    chars_eq_str(&v, b)
}

/// The file extension used for a pasted image of the given MIME type.
pub open spec fn clipboard_extension(mime: Seq<char>) -> Seq<char> {
    if mime == "image/jpeg"@ || mime == "image/jpg"@ {
        "jpg"@
    } else if mime == "image/webp"@ {
        "webp"@
    } else if mime == "image/gif"@ {
        "gif"@
    } else {
        "png"@
    }
}

/// The file extension used for a pasted image of the given MIME type
/// (see [`clipboard_extension`]).
pub fn clipboard_image_extension(mime_type: &str) -> (r: &'static str)
    ensures
        r@ == clipboard_extension(mime_type@),
{
    if str_eq(mime_type, "image/jpeg") || str_eq(mime_type, "image/jpg") {
        "jpg"
    } else if str_eq(mime_type, "image/webp") {
        "webp"
    } else if str_eq(mime_type, "image/gif") {
        "gif"
    } else {
        "png"
    }
}

/// The MIME type served for a file extension (compared in ASCII lower case).
pub open spec fn extension_mime(ext: Seq<char>) -> Seq<char> {
    let e = lower_ascii_seq(ext);
    if e == "jpg"@ || e == "jpeg"@ {
        "image/jpeg"@
    } else if e == "webp"@ {
        "image/webp"@
    } else if e == "gif"@ {
        "image/gif"@
    } else if e == "bmp"@ {
        "image/bmp"@
    } else {
        "image/png"@
    }
}

/// The MIME type served for a file extension (see [`extension_mime`]).
pub fn mime_type_for_extension(ext: &str) -> (r: &'static str)
    ensures
        r@ == extension_mime(ext@),
{
    let v = str_chars(ext);
    let e = lower_ascii_chars(&v);
    if chars_eq_str(&e, "jpg") || chars_eq_str(&e, "jpeg") {
        "image/jpeg"
    } else if chars_eq_str(&e, "webp") {
        "image/webp"
    } else if chars_eq_str(&e, "gif") {
        "image/gif"
    } else if chars_eq_str(&e, "bmp") {
        "image/bmp"
    } else {
        "image/png"
    }
}

/// The SQL parameter list `?, ?, ..., ?` with `n` placeholders.
pub open spec fn placeholders(n: nat) -> Seq<char>
    decreases n,
{
    if n == 0 {
        Seq::empty()
    } else if n == 1 {
        seq!['?']
    } else {
        placeholders((n - 1) as nat) + seq![',', ' ', '?']
    }
}

/// The SQL parameter list `?, ?, ..., ?` with `count` placeholders.
pub fn build_in_placeholders(count: usize) -> (r: String)
    ensures
        r@ == placeholders(count as nat),
{
    let mut out = String::new();
    let mut i: usize = 0;
    while i < count
        invariant
            i <= count,
            out@ == placeholders(i as nat),
        decreases count - i,
    {
        if i > 0 {
            out.push(',');
            out.push(' ');
        }
        out.push('?');
        i = i + 1;
        proof {
            if i > 1 {
                assert(out@ =~= placeholders((i - 1) as nat) + seq![',', ' ', '?']);
            } else {
                assert(out@ =~= seq!['?']);
            }
        }
    }
    out
}

/// The 64-bit FNV-1a hash of a byte sequence.
pub open spec fn fnv1a64(bytes: Seq<u8>) -> u64
    decreases bytes.len(),
{
    if bytes.len() == 0 {
        0xcbf29ce484222325u64
    } else {
        vstd::wrapping::u64_specs::wrapping_mul(
            fnv1a64(bytes.drop_last()) ^ (bytes.last() as u64),
            0x100000001b3u64,
        )
    }
}

/// The lower-case hexadecimal digit of `d` (`d < 16`).
pub open spec fn hex_digit(d: u64) -> char {
    if d < 10 {
        (48 + d) as char
    } else {
        (87 + d) as char
    }
}

/// The last `n` hexadecimal digits of `x`, zero padded, most significant first.
pub open spec fn hex_fixed(x: u64, n: nat) -> Seq<char>
    decreases n,
{
    if n == 0 {
        Seq::empty()
    } else {
        hex_fixed(x / 16, (n - 1) as nat).push(hex_digit(x % 16))
    }
}

/// The 16 hexadecimal digits of `x` (`format!("{x:016x}")`).
pub open spec fn hex16(x: u64) -> Seq<char> {
    hex_fixed(x, 16)
}

fn hex_fixed_exec(x: u64, n: u32) -> (r: Vec<char>)
    ensures
        r@ == hex_fixed(x, n as nat),
    decreases n,
{
    if n == 0 {
        Vec::new()
    } else {
        let mut r = hex_fixed_exec(x / 16, n - 1);
        let d = x % 16;
        let code: u32 = if d < 10 {
            (48 + d) as u32
        } else {
            (87 + d) as u32
        };
        let c = crate::chars::char_from_ascii_code(code);
        r.push(c);
        r
    }
}

/// The FNV-1a hash of the UTF-8 bytes of `value`, as 16 lower-case hex digits.
pub fn stable_hash_hex(value: &str) -> (r: String)
    ensures
        r@ == hex16(fnv1a64(vstd::utf8::encode_utf8(value@))),
{
    let bytes = value.as_bytes();
    let mut hash: u64 = 0xcbf29ce484222325u64;
    let mut i: usize = 0;
    while i < bytes.len()
        invariant
            i <= bytes@.len(),
            bytes@ == vstd::utf8::encode_utf8(value@),
            hash == fnv1a64(bytes@.subrange(0, i as int)),
        decreases bytes.len() - i,
    {
        let b = bytes[i];
        proof {
            let p = bytes@.subrange(0, i + 1);
            assert(p.drop_last() == bytes@.subrange(0, i as int));
            assert(p.last() == b);
        }
        hash = hash ^ (b as u64);
        hash = hash.wrapping_mul(0x100000001b3u64);
        i = i + 1;
    }
    proof {
        assert(bytes@.subrange(0, bytes@.len() as int) == bytes@);
    }
    let digits = hex_fixed_exec(hash, 16);
    string_from_chars(&digits)
}

/// The pseudo-random positive number derived from `value` for generated test data.
pub open spec fn dev_hash(value: i64) -> i64 {
    let x0 = vstd::wrapping::i64_specs::wrapping_add(
        vstd::wrapping::i64_specs::wrapping_mul(value, 6364136223846793005i64),
        1442695040888963407i64,
    );
    let x = x0 ^ (x0 >> 33);
    let m = x & i64::MAX;
    if m < 1 {
        1
    } else {
        m
    }
}

/// A pseudo-random positive number derived from `value` (see [`dev_hash`]).
pub fn dev_hash_i64(value: i64) -> (r: i64)
    ensures
        r == dev_hash(value),
        r >= 1,
{
    let mut x = value.wrapping_mul(6364136223846793005i64).wrapping_add(1442695040888963407i64);
    x = x ^ (x >> 33);
    let m = x & i64::MAX;
    if m < 1 {
        1
    } else {
        m
    }
}

/// Trimmed, non-blank image ids, each kept once at its first occurrence.
pub open spec fn normalized_ids(ids: Seq<Seq<char>>) -> Seq<Seq<char>>
    decreases ids.len(),
{
    if ids.len() == 0 {
        Seq::empty()
    } else {
        let prev = normalized_ids(ids.drop_last());
        let t = trim(ids.last());
        if t.len() == 0 || prev.contains(t) {
            prev
        } else {
            prev.push(t)
        }
    }
}

/// Trims image ids, drops blank ones and keeps each id once, at its first
/// occurrence (see [`normalized_ids`]).
pub fn normalize_batch_image_ids(image_ids: Vec<String>) -> (r: Vec<String>)
    ensures
        crate::chars::texts(r@) == normalized_ids(crate::chars::texts(image_ids@)),
{
    let ghost input = crate::chars::texts(image_ids@);
    let mut normalized: Vec<String> = Vec::new();
    let mut i: usize = 0;
    while i < image_ids.len()
        invariant
            i <= image_ids.len(),
            input == crate::chars::texts(image_ids@),
            crate::chars::texts(normalized@) == normalized_ids(input.subrange(0, i as int)),
        decreases image_ids.len() - i,
    {
        let ghost prev = crate::chars::texts(normalized@);
        proof {
            let p = input.subrange(0, i + 1);
            assert(p.drop_last() == input.subrange(0, i as int));
            assert(p.last() == image_ids@[i as int]@);
        }
        let trimmed = trim_chars(image_ids[i].as_str());
        if trimmed.len() > 0 {
            let owned = string_from_chars(&trimmed);
            let mut found = false;
            let mut k: usize = 0;
            while k < normalized.len()
                invariant
                    k <= normalized.len(),
                    prev == crate::chars::texts(normalized@),
                    owned@ == trimmed@,
                    found == exists|j: int| 0 <= j < k && prev[j] == owned@,
                decreases normalized.len() - k,
            {
                let same = normalized[k] == owned;
                proof {
                    assert(prev[k as int] == normalized@[k as int]@);
                    if found || same {
                        if !found {
                            assert(prev[k as int] == owned@);
                        }
                    } else {
                        assert forall|j: int| 0 <= j < k + 1 implies prev[j] != owned@ by {
                            if j < k {
                            }
                        }
                    }
                }
                if same {
                    found = true;
                }
                k = k + 1;
            }
            if !found {
                normalized.push(owned);
                proof {
                    assert(!prev.contains(trimmed@));
                    assert(crate::chars::texts(normalized@) =~= prev.push(trimmed@));
                }
            } else {
                proof {
                    let j = choose|j: int| 0 <= j < normalized.len() && prev[j] == owned@;
                    assert(prev.contains(trimmed@));
                }
            }
        }
        i = i + 1;
    }
    proof {
        assert(input.subrange(0, input.len() as int) == input);
    }
    normalized
}


/// Normalised image ids hold no blank and no repeated id, and every id is
/// already trimmed.
pub proof fn law_normalized_ids_clean(ids: Seq<Seq<char>>)
    ensures
        forall|i: int| 0 <= i < normalized_ids(ids).len() ==> (#[trigger] normalized_ids(ids)[i]).len() > 0
            && trim(normalized_ids(ids)[i]) == normalized_ids(ids)[i],
        forall|i: int, j: int| 0 <= i < j < normalized_ids(ids).len() ==> normalized_ids(ids)[i] != normalized_ids(ids)[j],
    decreases ids.len(),
{
    if ids.len() > 0 {
        let prev = normalized_ids(ids.drop_last());
        let t = trim(ids.last());
        law_normalized_ids_clean(ids.drop_last());
        crate::chars::law_trim_idempotent(ids.last());
        if !(t.len() == 0 || prev.contains(t)) {
            let r = prev.push(t);
            assert(normalized_ids(ids) == r);
            assert forall|i: int| 0 <= i < r.len() implies (#[trigger] r[i]).len() > 0 && trim(r[i]) == r[i] by {
                if i < prev.len() {
                    assert(r[i] == prev[i]);
                }
            }
            assert forall|i: int, j: int| 0 <= i < j < r.len() implies r[i] != r[j] by {
                if j < prev.len() {
                    assert(r[i] == prev[i]);
                    assert(r[j] == prev[j]);
                } else {
                    assert(r[i] == prev[i]);
                    assert(r[j] == t);
                    if prev[i] == t {
                        assert(prev.contains(t));
                    }
                }
            }
        }
    }
}

/// Normalising already normalised ids changes nothing.
pub proof fn law_normalize_ids_idempotent(ids: Seq<Seq<char>>)
    ensures
        normalized_ids(normalized_ids(ids)) == normalized_ids(ids),
{
    law_normalized_ids_clean(ids);
    lemma_normalized_fixpoint(normalized_ids(ids));
}

proof fn lemma_normalized_fixpoint(y: Seq<Seq<char>>)
    requires
        forall|i: int| 0 <= i < y.len() ==> (#[trigger] y[i]).len() > 0 && trim(y[i]) == y[i],
        forall|i: int, j: int| 0 <= i < j < y.len() ==> y[i] != y[j],
    ensures
        normalized_ids(y) == y,
    decreases y.len(),
{
    if y.len() > 0 {
        let p = y.drop_last();
        assert forall|i: int| 0 <= i < p.len() implies (#[trigger] p[i]).len() > 0 && trim(p[i]) == p[i] by {
            assert(p[i] == y[i]);
        }
        lemma_normalized_fixpoint(p);
        assert(y[y.len() - 1] == y.last());
        assert(!p.contains(y.last())) by {
            if p.contains(y.last()) {
                let k = choose|k: int| 0 <= k < p.len() && p[k] == y.last();
                assert(y[k] == p[k]);
            }
        }
        assert(p.push(y.last()) == y);
    }
}

proof fn lemma_tag_key_char_space(c: char)
    ensures
        is_space(tag_key_char(c)) ==> is_space(c),
        tag_key_char(tag_key_char(c)) == tag_key_char(c),
{
}

/// The key of a key is the key itself: normalising a dictionary key again
/// changes nothing.
pub proof fn law_tag_key_idempotent(tag: Seq<char>)
    ensures
        tag_key(tag_key(tag)) == tag_key(tag),
{
    let t = trim(tag);
    let k = tag_key(tag);
    crate::chars::lemma_trim_ends(tag);
    if k.len() > 0 {
        lemma_tag_key_char_space(t[0]);
        lemma_tag_key_char_space(t[t.len() - 1]);
        assert(k[0] == tag_key_char(t[0]));
        assert(k[k.len() - 1] == tag_key_char(t[t.len() - 1]));
    }
    assert forall|j: int| 0 <= j < 0 implies is_space(#[trigger] k[j]) by {}
    crate::chars::lemma_trim_start_at(k, 0);
    assert(k.subrange(0, k.len() as int) == k);
    assert forall|j: int| k.len() <= j < k.len() implies is_space(#[trigger] k[j]) by {}
    crate::chars::lemma_trim_end_at(k, k.len() as int);
    assert(trim(k) == k);
    assert forall|i: int| 0 <= i < k.len() implies tag_key_char(k[i]) == k[i] by {
        lemma_tag_key_char_space(t[i]);
    }
    assert(tag_key(k) =~= k);
}

/// A lower-case hexadecimal digit.
pub open spec fn is_hex_digit(c: char) -> bool {
    ('0' <= c && c <= '9') || ('a' <= c && c <= 'f')
}

proof fn lemma_hex_fixed_shape(x: u64, n: nat)
    ensures
        hex_fixed(x, n).len() == n,
        forall|i: int| 0 <= i < n ==> is_hex_digit(#[trigger] hex_fixed(x, n)[i]),
    decreases n,
{
    if n > 0 {
        lemma_hex_fixed_shape(x / 16, (n - 1) as nat);
        let d = x % 16;
        assert(is_hex_digit(hex_digit(d)));
    }
}

/// A thumbnail hash is always sixteen lower-case hexadecimal digits.
pub proof fn law_hex16_shape(x: u64)
    ensures
        hex16(x).len() == 16,
        forall|i: int| 0 <= i < 16 ==> is_hex_digit(#[trigger] hex16(x)[i]),
{
    lemma_hex_fixed_shape(x, 16);
}

/// The placeholder list for `n > 0` parameters has `3 n - 2` characters,
/// starts with `?` and ends with `?`.
pub proof fn law_placeholders_shape(n: nat)
    ensures
        n == 0 ==> placeholders(n).len() == 0,
        n > 0 ==> placeholders(n).len() == 3 * n - 2 && placeholders(n)[0] == '?' && placeholders(n).last() == '?',
    decreases n,
{
    if n > 1 {
        law_placeholders_shape((n - 1) as nat);
    }
}

proof fn lemma_allowed_trim_start(s: Seq<char>)
    requires
        forall|i: int| 0 <= i < s.len() ==> !is_forbidden_in_file_name(#[trigger] s[i]),
    ensures
        forall|i: int| 0 <= i < trim_start(s).len() ==> !is_forbidden_in_file_name(#[trigger] trim_start(s)[i]),
    decreases s.len(),
{
    if s.len() > 0 && is_space(s[0]) {
        let t = s.drop_first();
        assert forall|i: int| 0 <= i < t.len() implies !is_forbidden_in_file_name(#[trigger] t[i]) by {
            assert(t[i] == s[i + 1]);
        }
        lemma_allowed_trim_start(t);
        assert(trim_start(s) == trim_start(t));
    }
}

proof fn lemma_allowed_prefix(s: Seq<char>, k: int)
    requires
        0 <= k <= s.len(),
        forall|i: int| 0 <= i < s.len() ==> !is_forbidden_in_file_name(#[trigger] s[i]),
    ensures
        forall|i: int| 0 <= i < k ==> !is_forbidden_in_file_name(#[trigger] s.subrange(0, k)[i]),
{
    assert forall|i: int| 0 <= i < k implies !is_forbidden_in_file_name(#[trigger] s.subrange(0, k)[i]) by {
        assert(s.subrange(0, k)[i] == s[i]);
    }
}

proof fn lemma_strip_trailing_prefix(s: Seq<char>, ch: char)
    ensures
        strip_trailing(s, ch) == s.subrange(0, strip_trailing(s, ch).len() as int),
        strip_trailing(s, ch).len() <= s.len(),
        strip_trailing(s, ch).len() > 0 ==> strip_trailing(s, ch).last() != ch,
    decreases s.len(),
{
    if s.len() > 0 && s.last() == ch {
        lemma_strip_trailing_prefix(s.drop_last(), ch);
        let t = strip_trailing(s.drop_last(), ch);
        assert(s.drop_last().subrange(0, t.len() as int) == s.subrange(0, t.len() as int));
    } else {
        assert(s.subrange(0, s.len() as int) == s);
    }
}

/// A cleaned path segment holds no character that Windows forbids in names
/// and does not end with a dot.
pub proof fn law_cleaned_segment_safe(value: Seq<char>)
    ensures
        forall|i: int| 0 <= i < cleaned_segment(value).len() ==> !is_forbidden_in_file_name(#[trigger] cleaned_segment(value)[i]),
        cleaned_segment(value).len() > 0 ==> cleaned_segment(value).last() != '.',
{
    let m = Seq::new(value.len(), |i: int| segment_char(value[i]));
    assert forall|i: int| 0 <= i < m.len() implies !is_forbidden_in_file_name(#[trigger] m[i]) by {}
    lemma_allowed_trim_start(m);
    let u = crate::chars::trim_start(m);
    crate::chars::lemma_trim_end_prefix(u);
    let t = trim(m);
    lemma_allowed_prefix(u, t.len() as int);
    assert forall|i: int| 0 <= i < t.len() implies !is_forbidden_in_file_name(#[trigger] t[i]) by {
        assert(t[i] == u.subrange(0, t.len() as int)[i]);
    }
    lemma_strip_trailing_prefix(t, '.');
    let c = cleaned_segment(value);
    lemma_allowed_prefix(t, c.len() as int);
    assert forall|i: int| 0 <= i < c.len() implies !is_forbidden_in_file_name(#[trigger] c[i]) by {
        assert(c[i] == t.subrange(0, c.len() as int)[i]);
    }
}

} // verus!
