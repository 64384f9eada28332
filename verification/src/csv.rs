use vstd::prelude::*;
use crate::chars::{
    trim, str_chars, string_from_chars, trim_bounds, string_from_range, eq_ignore_ascii_case,
    lower_ascii_chars, chars_eq_str, contains_text, chars_contain_str, lower_ascii_seq,
};
use crate::dict::{TextMap, pair_texts, entries_map};
use crate::chars::texts;
use crate::text::{tag_key, normalize_tag_key, owned_string};

verus! {

/// Continues reading a CSV line from position `i`: `fields` are the fields
/// read so far, `current` the field being read, `quoted` whether a quoted
/// section is open. A doubled quote inside quotes stands for one quote, a
/// comma outside quotes ends a field, and every field is trimmed.
pub open spec fn csv_scan(
    s: Seq<char>,
    i: int,
    fields: Seq<Seq<char>>,
    current: Seq<char>,
    quoted: bool,
) -> Seq<Seq<char>>
    decreases s.len() - i,
{
    if i < 0 || i >= s.len() {
        fields.push(trim(current))
    } else if s[i] == '"' {
        if quoted {
            if i + 1 < s.len() && s[i + 1] == '"' {
                csv_scan(s, i + 2, fields, current.push('"'), true)
            } else {
                csv_scan(s, i + 1, fields, current, false)
            }
        } else {
            csv_scan(s, i + 1, fields, current, true)
        }
    } else if s[i] == ',' && !quoted {
        csv_scan(s, i + 1, fields.push(trim(current)), Seq::empty(), false)
    } else {
        csv_scan(s, i + 1, fields, current.push(s[i]), quoted)
    }
}

/// The fields of one CSV line.
pub open spec fn csv_fields(line: Seq<char>) -> Seq<Seq<char>> {
    csv_scan(line, 0, Seq::empty(), Seq::empty(), false)
}

/// Reading `x` from `off + j` on is reading `b` from `j` on, when `b` is what
/// `x` holds from `off` on.
proof fn lemma_csv_scan_shift(x: Seq<char>, b: Seq<char>, off: int, j: int, fields: Seq<Seq<char>>, cur: Seq<char>, quoted: bool)
    requires
        0 <= off <= x.len(),
        x.subrange(off, x.len() as int) == b,
        0 <= j <= b.len(),
    ensures
        csv_scan(x, off + j, fields, cur, quoted) == csv_scan(b, j, fields, cur, quoted),
    decreases b.len() - j,
{
    if j < b.len() {
        assert(x[off + j] == b[j]);
        if j + 1 < b.len() {
            assert(x[off + j + 1] == b[j + 1]);
        }
        if b[j] == '"' {
            if quoted {
                if j + 1 < b.len() && b[j + 1] == '"' {
                    lemma_csv_scan_shift(x, b, off, j + 2, fields, cur.push('"'), true);
                } else {
                    lemma_csv_scan_shift(x, b, off, j + 1, fields, cur, false);
                }
            } else {
                lemma_csv_scan_shift(x, b, off, j + 1, fields, cur, true);
            }
        } else if b[j] == ',' && !quoted {
            lemma_csv_scan_shift(x, b, off, j + 1, fields.push(trim(cur)), Seq::empty(), false);
        } else {
            lemma_csv_scan_shift(x, b, off, j + 1, fields, cur.push(b[j]), quoted);
        }
    }
}

/// The fields read so far only come first.
proof fn lemma_csv_scan_fields(s: Seq<char>, i: int, fields: Seq<Seq<char>>, cur: Seq<char>, quoted: bool)
    requires
        0 <= i <= s.len(),
    ensures
        csv_scan(s, i, fields, cur, quoted) == fields + csv_scan(s, i, Seq::empty(), cur, quoted),
    decreases s.len() - i,
{
    if i < s.len() {
        if s[i] == '"' {
            if quoted {
                if i + 1 < s.len() && s[i + 1] == '"' {
                    lemma_csv_scan_fields(s, i + 2, fields, cur.push('"'), true);
                    lemma_csv_scan_fields(s, i + 2, Seq::empty(), cur.push('"'), true);
                } else {
                    lemma_csv_scan_fields(s, i + 1, fields, cur, false);
                    lemma_csv_scan_fields(s, i + 1, Seq::empty(), cur, false);
                }
            } else {
                lemma_csv_scan_fields(s, i + 1, fields, cur, true);
                lemma_csv_scan_fields(s, i + 1, Seq::empty(), cur, true);
            }
        } else if s[i] == ',' && !quoted {
            let f = trim(cur);
            lemma_csv_scan_fields(s, i + 1, fields.push(f), Seq::empty(), false);
            lemma_csv_scan_fields(s, i + 1, seq![f], Seq::empty(), false);
            assert(fields.push(f) =~= fields + seq![f]);
            assert(Seq::<Seq<char>>::empty().push(f) =~= seq![f]);
            assert((fields + seq![f]) + csv_scan(s, i + 1, Seq::empty(), Seq::empty(), false) =~= fields + (seq![f]
                + csv_scan(s, i + 1, Seq::empty(), Seq::empty(), false)));
        } else {
            lemma_csv_scan_fields(s, i + 1, fields, cur.push(s[i]), quoted);
            lemma_csv_scan_fields(s, i + 1, Seq::empty(), cur.push(s[i]), quoted);
        }
    } else {
        assert(fields.push(trim(cur)) =~= fields + Seq::<Seq<char>>::empty().push(trim(cur)));
    }
}

/// Reading a stretch without quotes or commas outside quotes only extends
/// the current field.
proof fn lemma_csv_scan_plain(s: Seq<char>, i: int, e: int, fields: Seq<Seq<char>>, cur: Seq<char>)
    requires
        0 <= i <= e <= s.len(),
        forall|k: int| i <= k < e ==> s[k] != '"' && s[k] != ',',
    ensures
        csv_scan(s, i, fields, cur, false) == csv_scan(s, e, fields, cur + s.subrange(i, e), false),
    decreases e - i,
{
    if i < e {
        lemma_csv_scan_plain(s, i + 1, e, fields, cur.push(s[i]));
        assert(cur.push(s[i]) + s.subrange(i + 1, e) =~= cur + s.subrange(i, e));
    } else {
        assert(cur + s.subrange(i, e) =~= cur);
    }
}

/// The fields of a CSV line without quotes: a text without a comma is one
/// field, trimmed; a comma ends the first field, which is trimmed, and the
/// fields of the rest follow.
pub proof fn law_csv_fields(a: Seq<char>, b: Seq<char>)
    requires
        forall|k: int| 0 <= k < a.len() ==> a[k] != '"' && a[k] != ',',
    ensures
        csv_fields(a) == seq![trim(a)],
        csv_fields(a + seq![','] + b) == seq![trim(a)] + csv_fields(b),
{
    lemma_csv_scan_plain(a, 0, a.len() as int, Seq::empty(), Seq::empty());
    assert(Seq::<char>::empty() + a.subrange(0, a.len() as int) =~= a);
    assert(Seq::<Seq<char>>::empty().push(trim(a)) =~= seq![trim(a)]);
    let x = a + seq![','] + b;
    assert forall|k: int| 0 <= k < a.len() implies x[k] != '"' && x[k] != ',' by {
        assert(x[k] == a[k]);
    }
    lemma_csv_scan_plain(x, 0, a.len() as int, Seq::empty(), Seq::empty());
    assert(Seq::<char>::empty() + x.subrange(0, a.len() as int) =~= a);
    assert(x[a.len() as int] == ',');
    assert(csv_scan(x, a.len() as int, Seq::empty(), a, false) == csv_scan(x, a.len() as int + 1, seq![trim(a)], Seq::empty(), false));
    assert(x.subrange(a.len() as int + 1, x.len() as int) =~= b);
    lemma_csv_scan_shift(x, b, a.len() as int + 1, 0, seq![trim(a)], Seq::empty(), false);
    lemma_csv_scan_fields(b, 0, seq![trim(a)], Seq::empty(), false);
}

/// Splits one CSV line into its trimmed fields (see [`csv_fields`]).
pub fn parse_csv_line(line: &str) -> (r: Vec<String>)
    ensures
        texts(r@) == csv_fields(line@),
{
    let v = str_chars(line);
    let mut fields: Vec<String> = Vec::new();
    let mut current: Vec<char> = Vec::new();
    let mut quoted = false;
    let mut i: usize = 0;
    proof {
        assert(texts(fields@) =~= Seq::<Seq<char>>::empty());
        assert(current@ =~= Seq::<char>::empty());
    }
    while i < v.len()
        invariant
            i <= v.len(),
            v@ == line@,
            csv_scan(v@, i as int, texts(fields@), current@, quoted) == csv_fields(line@),
        decreases v.len() - i,
    {
        let c = v[i];
        if c == '"' {
            if quoted {
                if i + 1 < v.len() && v[i + 1] == '"' {
                    current.push('"');
                    i = i + 2;
                } else {
                    quoted = false;
                    i = i + 1;
                }
            } else {
                quoted = true;
                i = i + 1;
            }
        } else if c == ',' && !quoted {
            let (start, end) = trim_bounds(&current);
            let field = string_from_range(&current, start, end);
            let ghost before = texts(fields@);
            fields.push(field);
            proof {
                assert(texts(fields@) =~= before.push(trim(current@)));
            }
            current = Vec::new();
            i = i + 1;
        } else {
            current.push(c);
            i = i + 1;
        }
    }
    let (start, end) = trim_bounds(&current);
    let field = string_from_range(&current, start, end);
    let ghost before = texts(fields@);
    fields.push(field);
    proof {
        assert(texts(fields@) =~= before.push(trim(current@)));
    }
    fields
}

/// Continues splitting `s` into lines from position `i` (`str::lines`): a
/// line ends at `\n`, a `\r` right before that `\n` is dropped, and a last
/// line without `\n` is kept as it is unless it is empty.
pub open spec fn lines_scan(s: Seq<char>, i: int, done: Seq<Seq<char>>, cur: Seq<char>) -> Seq<
    Seq<char>,
>
    decreases s.len() - i,
{
    if i < 0 || i >= s.len() {
        if cur.len() > 0 {
            done.push(cur)
        } else {
            done
        }
    } else if s[i] == '\n' {
        let line = if cur.len() > 0 && cur.last() == '\r' {
            cur.drop_last()
        } else {
            cur
        };
        lines_scan(s, i + 1, done.push(line), Seq::empty())
    } else {
        lines_scan(s, i + 1, done, cur.push(s[i]))
    }
}

/// The lines of a text (`str::lines`).
pub open spec fn text_lines(s: Seq<char>) -> Seq<Seq<char>> {
    lines_scan(s, 0, Seq::empty(), Seq::empty())
}

/// Reading the lines of `x` from `off + j` on is reading those of `b` from `j`
/// on, when `b` is what `x` holds from `off` on.
proof fn lemma_lines_scan_shift(x: Seq<char>, b: Seq<char>, off: int, j: int, done: Seq<Seq<char>>, cur: Seq<char>)
    requires
        0 <= off <= x.len(),
        x.subrange(off, x.len() as int) == b,
        0 <= j <= b.len(),
    ensures
        lines_scan(x, off + j, done, cur) == lines_scan(b, j, done, cur),
    decreases b.len() - j,
{
    if j < b.len() {
        assert(x[off + j] == b[j]);
        if b[j] == '\n' {
            let line = if cur.len() > 0 && cur.last() == '\r' { cur.drop_last() } else { cur };
            lemma_lines_scan_shift(x, b, off, j + 1, done.push(line), Seq::empty());
        } else {
            lemma_lines_scan_shift(x, b, off, j + 1, done, cur.push(b[j]));
        }
    }
}

/// The lines read so far only come first.
proof fn lemma_lines_scan_done(s: Seq<char>, i: int, done: Seq<Seq<char>>, cur: Seq<char>)
    requires
        0 <= i <= s.len(),
    ensures
        lines_scan(s, i, done, cur) == done + lines_scan(s, i, Seq::empty(), cur),
    decreases s.len() - i,
{
    if i < s.len() {
        if s[i] == '\n' {
            let line = if cur.len() > 0 && cur.last() == '\r' { cur.drop_last() } else { cur };
            lemma_lines_scan_done(s, i + 1, done.push(line), Seq::empty());
            lemma_lines_scan_done(s, i + 1, seq![line], Seq::empty());
            assert(done.push(line) =~= done + seq![line]);
            assert(Seq::<Seq<char>>::empty().push(line) =~= seq![line]);
            assert((done + seq![line]) + lines_scan(s, i + 1, Seq::empty(), Seq::empty()) =~= done + (seq![line]
                + lines_scan(s, i + 1, Seq::empty(), Seq::empty())));
        } else {
            lemma_lines_scan_done(s, i + 1, done, cur.push(s[i]));
            lemma_lines_scan_done(s, i + 1, Seq::empty(), cur.push(s[i]));
        }
    } else {
        if cur.len() > 0 {
            assert(done.push(cur) =~= done + Seq::<Seq<char>>::empty().push(cur));
        } else {
            assert(done =~= done + Seq::<Seq<char>>::empty());
        }
    }
}

/// Reading a stretch without a line break only extends the current line.
proof fn lemma_lines_scan_plain(s: Seq<char>, i: int, e: int, done: Seq<Seq<char>>, cur: Seq<char>)
    requires
        0 <= i <= e <= s.len(),
        forall|k: int| i <= k < e ==> s[k] != '\n',
    ensures
        lines_scan(s, i, done, cur) == lines_scan(s, e, done, cur + s.subrange(i, e)),
    decreases e - i,
{
    if i < e {
        lemma_lines_scan_plain(s, i + 1, e, done, cur.push(s[i]));
        assert(cur.push(s[i]) + s.subrange(i + 1, e) =~= cur + s.subrange(i, e));
    } else {
        assert(cur + s.subrange(i, e) =~= cur);
    }
}

/// The lines of a text: a text without a line break is one line, or none
/// when it is empty; a line break ends the first line, which loses a `\r`
/// right before the break, and the lines of the rest follow.
pub proof fn law_text_lines(a: Seq<char>, b: Seq<char>)
    requires
        forall|k: int| 0 <= k < a.len() ==> a[k] != '\n',
    ensures
        text_lines(a) == if a.len() > 0 {
            seq![a]
        } else {
            Seq::<Seq<char>>::empty()
        },
        text_lines(a + seq!['\n'] + b) == seq![if a.len() > 0 && a.last() == '\r' { a.drop_last() } else { a }]
            + text_lines(b),
{
    lemma_lines_scan_plain(a, 0, a.len() as int, Seq::empty(), Seq::empty());
    assert(Seq::<char>::empty() + a.subrange(0, a.len() as int) =~= a);
    if a.len() > 0 {
        assert(Seq::<Seq<char>>::empty().push(a) =~= seq![a]);
    }
    let x = a + seq!['\n'] + b;
    assert forall|k: int| 0 <= k < a.len() implies x[k] != '\n' by {
        assert(x[k] == a[k]);
    }
    lemma_lines_scan_plain(x, 0, a.len() as int, Seq::empty(), Seq::empty());
    assert(Seq::<char>::empty() + x.subrange(0, a.len() as int) =~= a);
    assert(x[a.len() as int] == '\n');
    let line = if a.len() > 0 && a.last() == '\r' { a.drop_last() } else { a };
    assert(lines_scan(x, a.len() as int, Seq::empty(), a) == lines_scan(x, a.len() as int + 1, seq![line], Seq::empty())) by {
        assert(Seq::<Seq<char>>::empty().push(line) =~= seq![line]);
    }
    assert(x.subrange(a.len() as int + 1, x.len() as int) =~= b);
    lemma_lines_scan_shift(x, b, a.len() as int + 1, 0, seq![line], Seq::empty());
    lemma_lines_scan_done(b, 0, seq![line], Seq::empty());
}

/// Splits a text into its lines (see [`text_lines`]).
pub fn split_lines(content: &str) -> (r: Vec<Vec<char>>)
    ensures
        r@.map_values(|l: Vec<char>| l@) == text_lines(content@),
{
    let v = str_chars(content);
    let mut done: Vec<Vec<char>> = Vec::new();
    let mut cur: Vec<char> = Vec::new();
    let mut i: usize = 0;
    proof {
        assert(done@.map_values(|l: Vec<char>| l@) =~= Seq::<Seq<char>>::empty());
        assert(cur@ =~= Seq::<char>::empty());
    }
    while i < v.len()
        invariant
            i <= v.len(),
            v@ == content@,
            lines_scan(v@, i as int, done@.map_values(|l: Vec<char>| l@), cur@) == text_lines(
                content@,
            ),
        decreases v.len() - i,
    {
        if v[i] == '\n' {
            let ghost before = done@.map_values(|l: Vec<char>| l@);
            let ghost cur_view = cur@;
            if cur.len() > 0 && cur[cur.len() - 1] == '\r' {
                cur.pop();
            }
            done.push(cur);
            proof {
                assert(done@.map_values(|l: Vec<char>| l@) =~= before.push(
                    if cur_view.len() > 0 && cur_view.last() == '\r' {
                        cur_view.drop_last()
                    } else {
                        cur_view
                    },
                ));
            }
            cur = Vec::new();
        } else {
            cur.push(v[i]);
        }
        i = i + 1;
    }
    if cur.len() > 0 {
        let ghost before = done@.map_values(|l: Vec<char>| l@);
        let ghost cur_view = cur@;
        done.push(cur);
        proof {
            assert(done@.map_values(|l: Vec<char>| l@) =~= before.push(cur_view));
        }
    }
    done
}

/// Field `k` of a parsed line, trimmed, or the empty text when there is none.
pub open spec fn field_or_empty(fields: Seq<Seq<char>>, k: int) -> Seq<char> {
    if 0 <= k < fields.len() {
        trim(fields[k])
    } else {
        Seq::empty()
    }
}

/// Whether the first line of a dictionary file is a header rather than a
/// translation.
pub open spec fn dictionary_header(tag_en: Seq<char>, tag_zh: Seq<char>) -> bool {
    ||| eq_ignore_ascii_case(tag_en, "tag"@)
    ||| eq_ignore_ascii_case(tag_en, "url"@)
    ||| eq_ignore_ascii_case(tag_en, "english"@)
    ||| eq_ignore_ascii_case(tag_en, "en"@)
    ||| contains_text(tag_zh, "\u{7ffb}\u{8bd1}"@)
    ||| contains_text(tag_zh, "\u{4e2d}\u{6587}"@)
}

/// The `(English, Chinese)` pair that line number `index` of a dictionary CSV
/// gives: the second and fifth fields, when both are non-blank and the line
/// is not a header.
pub open spec fn dictionary_line_pair(index: int, line: Seq<char>) -> Option<(Seq<char>, Seq<char>)> {
    let t = trim(line);
    let fields = csv_fields(t);
    let en = field_or_empty(fields, 1);
    let zh = field_or_empty(fields, 4);
    if t.len() == 0 || en.len() == 0 || zh.len() == 0 {
        None
    } else if index == 0 && dictionary_header(en, zh) {
        None
    } else {
        Some((en, zh))
    }
}

/// The translation pairs of the first `n` lines, in order.
pub open spec fn dictionary_entries(lines: Seq<Seq<char>>, n: int) -> Seq<(Seq<char>, Seq<char>)>
    decreases n,
{
    if n <= 0 || n > lines.len() {
        Seq::empty()
    } else {
        let prev = dictionary_entries(lines, n - 1);
        match dictionary_line_pair(n - 1, lines[n - 1]) {
            Some(p) => prev.push(p),
            None => prev,
        }
    }
}

/// The translation pairs of a dictionary CSV text, in order of the lines.
pub open spec fn csv_dictionary(content: Seq<char>) -> Seq<(Seq<char>, Seq<char>)> {
    dictionary_entries(text_lines(content), text_lines(content).len() as int)
}

/// The English header words are their own ASCII lower case.
proof fn lemma_header_words_lower()
    ensures
        lower_ascii_seq("tag"@) == "tag"@,
        lower_ascii_seq("url"@) == "url"@,
        lower_ascii_seq("english"@) == "english"@,
        lower_ascii_seq("en"@) == "en"@,
        lower_ascii_seq("name"@) == "name"@,
{
    reveal_strlit("tag");
    reveal_strlit("url");
    reveal_strlit("english");
    reveal_strlit("en");
    reveal_strlit("name");
    assert(lower_ascii_seq("tag"@) =~= "tag"@);
    assert(lower_ascii_seq("url"@) =~= "url"@);
    assert(lower_ascii_seq("english"@) =~= "english"@);
    assert(lower_ascii_seq("en"@) =~= "en"@);
    assert(lower_ascii_seq("name"@) =~= "name"@);
}

/// A field of a parsed line, trimmed, or an empty text when there is none.
fn field_trimmed(fields: &Vec<String>, k: usize) -> (r: Vec<char>)
    ensures
        r@ == field_or_empty(texts(fields@), k as int),
{
    if k < fields.len() {
        crate::chars::trim_chars(fields[k].as_str())
    } else {
        Vec::new()
    }
}

/// Reads the translation pairs of a Chinese tag dictionary in CSV form (see
/// [`csv_dictionary`]); a later pair for the same English tag wins.
pub fn parse_cn_tag_dictionary_csv(content: &str) -> (r: TextMap)
    ensures
        pair_texts(r.entries@) == csv_dictionary(content@),
{
    let lines = split_lines(content);
    let ghost ls = lines@.map_values(|l: Vec<char>| l@);
    let mut pairs = TextMap::new();
    let mut n: usize = 0;
    proof {
        assert(pair_texts(pairs.entries@) =~= Seq::<(Seq<char>, Seq<char>)>::empty());
    }
    while n < lines.len()
        invariant
            n <= lines.len(),
            ls == lines@.map_values(|l: Vec<char>| l@),
            ls == text_lines(content@),
            pair_texts(pairs.entries@) == dictionary_entries(ls, n as int),
        decreases lines.len() - n,
    {
        let line = &lines[n];
        let (start, end) = trim_bounds(line);
        if start < end {
            let trimmed = string_from_range(line, start, end);
            let fields = parse_csv_line(trimmed.as_str());
            let en = field_trimmed(&fields, 1);
            let zh = field_trimmed(&fields, 4);
            if en.len() > 0 && zh.len() > 0 {
                let mut header = false;
                if n == 0 {
                    let lower = lower_ascii_chars(&en);
                    proof {
                        lemma_header_words_lower();
                    }
                    header = chars_eq_str(&lower, "tag") || chars_eq_str(&lower, "url")
                        || chars_eq_str(&lower, "english") || chars_eq_str(&lower, "en")
                        || chars_contain_str(&zh, "\u{7ffb}\u{8bd1}") || chars_contain_str(
                        &zh,
                        "\u{4e2d}\u{6587}",
                    );
                }
                if !header {
                    let ghost before = pair_texts(pairs.entries@);
                    let en_s = string_from_chars(&en);
                    let zh_s = string_from_chars(&zh);
                    pairs.entries.push((en_s, zh_s));
                    proof {
                        assert(pair_texts(pairs.entries@) =~= before.push((en@, zh@)));
                    }
                }
            }
        }
        n = n + 1;
    }
    pairs
}


/// The tag name that line number `index` of `selected_tags.csv` counts: its
/// second field, when non-blank and not the `name` header of the first line.
pub open spec fn selected_tag_name(index: int, line: Seq<char>) -> Option<Seq<char>> {
    let name = field_or_empty(csv_fields(trim(line)), 1);
    if name.len() == 0 {
        None
    } else if index == 0 && eq_ignore_ascii_case(name, "name"@) {
        None
    } else {
        Some(name)
    }
}

/// The counted tag names of the first `n` lines, in order.
pub open spec fn selected_tag_names(lines: Seq<Seq<char>>, n: int) -> Seq<Seq<char>>
    decreases n,
{
    if n <= 0 || n > lines.len() {
        Seq::empty()
    } else {
        let prev = selected_tag_names(lines, n - 1);
        match selected_tag_name(n - 1, lines[n - 1]) {
            Some(name) => prev.push(name),
            None => prev,
        }
    }
}

/// `entries` has an entry with key `k`.
pub open spec fn has_key<V>(entries: Seq<(Seq<char>, V)>, k: Seq<char>) -> bool {
    exists|j: int| 0 <= j < entries.len() && entries[j].0 == k
}

/// Each name with the position of its first occurrence in `names`.
pub open spec fn first_positions(names: Seq<Seq<char>>) -> Seq<(Seq<char>, int)>
    decreases names.len(),
{
    if names.len() == 0 {
        Seq::empty()
    } else {
        let prev = first_positions(names.drop_last());
        if has_key(prev, names.last()) {
            prev
        } else {
            prev.push((names.last(), names.len() - 1))
        }
    }
}

/// The sort position of each tag of a `selected_tags.csv` text: the count of
/// tag lines before the first line that names it.
pub open spec fn selected_tag_sort_index(content: Seq<char>) -> Seq<(Seq<char>, int)> {
    first_positions(selected_tag_names(text_lines(content), text_lines(content).len() as int))
}

/// The texts and numbers of a list of `(String, i64)` entries.
pub open spec fn index_texts(v: Seq<(String, i64)>) -> Seq<(Seq<char>, int)> {
    v.map_values(|e: (String, i64)| (e.0@, e.1 as int))
}

/// The counted tag name of a line, as characters.
fn selected_tag_name_exec(index: usize, line: &Vec<char>) -> (r: Option<Vec<char>>)
    ensures
        match r {
            Some(v) => selected_tag_name(index as int, line@) == Some(v@),
            None => selected_tag_name(index as int, line@) is None,
        },
{
    let (start, end) = trim_bounds(line);
    let trimmed = string_from_range(line, start, end);
    let fields = parse_csv_line(trimmed.as_str());
    let name = field_trimmed(&fields, 1);
    if name.len() == 0 {
        return None;
    }
    if index == 0 {
        let lower = lower_ascii_chars(&name);
        proof {
            lemma_header_words_lower();
        }
        if chars_eq_str(&lower, "name") {
            return None;
        }
    }
    Some(name)
}

/// Reads the sort position of each tag from a `selected_tags.csv` text (see
/// [`selected_tag_sort_index`]).
pub fn parse_selected_tag_sort_index(content: &str) -> (r: Vec<(String, i64)>)
    requires
        content@.len() < i64::MAX,
    ensures
        index_texts(r@) == selected_tag_sort_index(content@),
{
    let lines = split_lines(content);
    let ghost ls = lines@.map_values(|l: Vec<char>| l@);
    proof {
        lemma_lines_len(content@);
    }
    let mut entries: Vec<(String, i64)> = Vec::new();
    let mut counted: i64 = 0;
    let mut n: usize = 0;
    proof {
        assert(index_texts(entries@) =~= Seq::<(Seq<char>, int)>::empty());
    }
    while n < lines.len()
        invariant
            n <= lines.len(),
            lines.len() <= content@.len() + 1,
            content@.len() < i64::MAX,
            ls == lines@.map_values(|l: Vec<char>| l@),
            ls == text_lines(content@),
            counted == selected_tag_names(ls, n as int).len(),
            counted <= n,
            index_texts(entries@) == first_positions(selected_tag_names(ls, n as int)),
        decreases lines.len() - n,
    {
        let ghost names = selected_tag_names(ls, n as int);
        match selected_tag_name_exec(n, &lines[n]) {
            Some(name) => {
                let ghost prev = index_texts(entries@);
                let mut seen = false;
                let mut k: usize = 0;
                while k < entries.len()
                    invariant
                        k <= entries.len(),
                        prev == index_texts(entries@),
                        seen == exists|j: int| 0 <= j < k && prev[j].0 == name@,
                    decreases entries.len() - k,
                {
                    let same = chars_eq_str(&name, entries[k].0.as_str());
                    proof {
                        assert(prev[k as int].0 == entries@[k as int].0@);
                        if !seen && !same {
                            assert forall|j: int| 0 <= j < k + 1 implies prev[j].0 != name@ by {
                                if j < k {
                                }
                            }
                        }
                    }
                    if same {
                        seen = true;
                    }
                    k = k + 1;
                }
                proof {
                    assert(names.push(name@).drop_last() == names);
                    assert(names.push(name@).last() == name@);
                }
                if !seen {
                    let owned = string_from_chars(&name);
                    entries.push((owned, counted));
                    proof {
                        assert(index_texts(entries@) =~= prev.push((name@, names.len() as int)));
                    }
                }
                counted = counted + 1;
            },
            None => {},
        }
        n = n + 1;
    }
    entries
}

/// A text has at most one line more than characters.
proof fn lemma_lines_len(s: Seq<char>)
    ensures
        text_lines(s).len() <= s.len() + 1,
{
    lemma_lines_scan_len(s, 0, Seq::empty(), Seq::empty());
}

proof fn lemma_lines_scan_len(s: Seq<char>, i: int, done: Seq<Seq<char>>, cur: Seq<char>)
    requires
        0 <= i <= s.len(),
        done.len() <= i,
    ensures
        lines_scan(s, i, done, cur).len() <= s.len() + 1,
    decreases s.len() - i,
{
    if i < s.len() {
        if s[i] == '\n' {
            let line = if cur.len() > 0 && cur.last() == '\r' {
                cur.drop_last()
            } else {
                cur
            };
            lemma_lines_scan_len(s, i + 1, done.push(line), Seq::empty());
        } else {
            lemma_lines_scan_len(s, i + 1, done, cur.push(s[i]));
        }
    }
}

/// The group a `selected_tags.csv` line puts its tag in: category `4` is
/// `character`, anything else (or a missing category, read as `0`) `general`.
pub open spec fn selected_tag_group(line: Seq<char>) -> Seq<char> {
    let fields = csv_fields(trim(line));
    let category = if 2 < fields.len() {
        trim(fields[2])
    } else {
        "0"@
    };
    if category == "4"@ {
        "character"@
    } else {
        "general"@
    }
}

/// The `(tag, group)` updates of the first `n` lines, in order.
pub open spec fn selected_tag_groups(lines: Seq<Seq<char>>, n: int) -> Seq<(Seq<char>, Seq<char>)>
    decreases n,
{
    if n <= 0 || n > lines.len() {
        Seq::empty()
    } else {
        let prev = selected_tag_groups(lines, n - 1);
        match selected_tag_name(n - 1, lines[n - 1]) {
            Some(name) => prev.push((name, selected_tag_group(lines[n - 1]))),
            None => prev,
        }
    }
}

/// A tag group of the tag dictionary browser.
#[derive(Clone, Debug)]
pub struct TagDictionaryGroup {
    pub id: String,
    pub zh: String,
}

/// The two groups (`character`, `general`) and the group of each tag, read
/// from a `selected_tags.csv` text when no `tag_groups.json` exists.
pub fn parse_fallback_groups_from_selected_tags(content: &str) -> (r: (
    Vec<TagDictionaryGroup>,
    TextMap,
))
    ensures
        r.0@.len() == 2,
        r.0@[0].id@ == "character"@,
        r.0@[0].zh@ == "\u{89d2}\u{8272}"@,
        r.0@[1].id@ == "general"@,
        r.0@[1].zh@ == "\u{901a}\u{7528}"@,
        pair_texts(r.1.entries@) == selected_tag_groups(
            text_lines(content@),
            text_lines(content@).len() as int,
        ),
{
    let lines = split_lines(content);
    let ghost ls = lines@.map_values(|l: Vec<char>| l@);
    let mut groups = TextMap::new();
    let mut n: usize = 0;
    proof {
        assert(pair_texts(groups.entries@) =~= Seq::<(Seq<char>, Seq<char>)>::empty());
    }
    while n < lines.len()
        invariant
            n <= lines.len(),
            ls == lines@.map_values(|l: Vec<char>| l@),
            ls == text_lines(content@),
            pair_texts(groups.entries@) == selected_tag_groups(ls, n as int),
        decreases lines.len() - n,
    {
        let line = &lines[n];
        match selected_tag_name_exec(n, line) {
            Some(name) => {
                let (start, end) = trim_bounds(line);
                let trimmed = string_from_range(line, start, end);
                let fields = parse_csv_line(trimmed.as_str());
                let ghost fs = csv_fields(trim(line@));
                proof {
                    assert(trimmed@ == trim(line@));
                    assert(texts(fields@) == fs);
                }
                let is_character = if 2 < fields.len() {
                    let category = crate::chars::trim_chars(fields[2].as_str());
                    proof {
                        assert(fields@[2]@ == fs[2]);
                    }
                    chars_eq_str(&category, "4")
                } else {
                    proof {
                        reveal_strlit("0");
                        reveal_strlit("4");
                        assert("0"@ != "4"@) by {
                            assert("0"@[0] != "4"@[0]);
                        }
                    }
                    false
                };
                proof {
                    let category = if 2 < fs.len() {
                        trim(fs[2])
                    } else {
                        "0"@
                    };
                    assert(is_character == (category == "4"@));
                }
                let group = if is_character {
                    owned_string("character")
                } else {
                    owned_string("general")
                };
                let ghost before = pair_texts(groups.entries@);
                let owned = string_from_chars(&name);
                groups.entries.push((owned, group));
                proof {
                    assert(pair_texts(groups.entries@) =~= before.push(
                        (name@, selected_tag_group(ls[n as int])),
                    ));
                }
            },
            None => {},
        }
        n = n + 1;
    }
    let mut list: Vec<TagDictionaryGroup> = Vec::new();
    list.push(TagDictionaryGroup { id: owned_string("character"), zh: owned_string("\u{89d2}\u{8272}") });
    list.push(TagDictionaryGroup { id: owned_string("general"), zh: owned_string("\u{901a}\u{7528}") });
    (list, groups)
}

/// The lookup entries built from translation pairs: each pair under its
/// English tag and then under the tag's dictionary key.
pub open spec fn lookup_entries(pairs: Seq<(Seq<char>, Seq<char>)>) -> Seq<(Seq<char>, Seq<char>)>
    decreases pairs.len(),
{
    if pairs.len() == 0 {
        Seq::empty()
    } else {
        let p = pairs.last();
        lookup_entries(pairs.drop_last()).push((p.0, p.1)).push((tag_key(p.0), p.1))
    }
}

/// Builds the lookup dictionary: every pair is entered under its English tag
/// and under its dictionary key (see [`lookup_entries`]).
pub fn build_lookup_dictionary_map(pairs: &TextMap) -> (r: TextMap)
    ensures
        pair_texts(r.entries@) == lookup_entries(pair_texts(pairs.entries@)),
{
    let ghost ps = pair_texts(pairs.entries@);
    let mut map = TextMap::new();
    let mut i: usize = 0;
    proof {
        assert(pair_texts(map.entries@) =~= Seq::<(Seq<char>, Seq<char>)>::empty());
    }
    while i < pairs.entries.len()
        invariant
            i <= pairs.entries.len(),
            ps == pair_texts(pairs.entries@),
            pair_texts(map.entries@) == lookup_entries(ps.subrange(0, i as int)),
        decreases pairs.entries.len() - i,
    {
        let tag_en = pairs.entries[i].0.clone();
        let tag_zh = pairs.entries[i].1.clone();
        let key = normalize_tag_key(tag_en.as_str());
        let zh2 = tag_zh.clone();
        let ghost before = pair_texts(map.entries@);
        map.entries.push((tag_en, tag_zh));
        map.entries.push((key, zh2));
        proof {
            let p = ps.subrange(0, i + 1);
            assert(p.drop_last() == ps.subrange(0, i as int));
            assert(p.last() == ps[i as int]);
            assert(pair_texts(map.entries@) =~= lookup_entries(p));
        }
        i = i + 1;
    }
    proof {
        assert(ps.subrange(0, ps.len() as int) == ps);
    }
    map
}

/// The Chinese name of an English tag: the entry under the tag itself, or
/// else the entry under its dictionary key.
pub open spec fn cn_tag_of(dictionary: Map<Seq<char>, Seq<char>>, tag_en: Seq<char>) -> Option<
    Seq<char>,
> {
    if dictionary.contains_key(tag_en) {
        Some(dictionary[tag_en])
    } else if dictionary.contains_key(tag_key(tag_en)) {
        Some(dictionary[tag_key(tag_en)])
    } else {
        None
    }
}

/// Looks up the Chinese name of an English tag (see [`cn_tag_of`]).
pub fn lookup_cn_tag(dictionary: &TextMap, tag_en: &str) -> (r: Option<String>)
    ensures
        match cn_tag_of(dictionary@, tag_en@) {
            Some(v) => r matches Some(s) && s@ == v,
            None => r is None,
        },
{
    match dictionary.get(tag_en) {
        Some(value) => Some(value),
        None => {
            let key = normalize_tag_key(tag_en);
            dictionary.get(key.as_str())
        },
    }
}


proof fn lemma_lookup_entries_keys(pairs: Seq<(Seq<char>, Seq<char>)>, i: int)
    requires
        0 <= i < pairs.len(),
    ensures
        exists|j: int| 0 <= j < lookup_entries(pairs).len() && (#[trigger] lookup_entries(pairs)[j]).0 == pairs[i].0,
    decreases pairs.len(),
{
    let prev = lookup_entries(pairs.drop_last());
    let p = pairs.last();
    let all = prev.push((p.0, p.1)).push((tag_key(p.0), p.1));
    assert(lookup_entries(pairs) == all);
    if i == pairs.len() - 1 {
        assert(all[prev.len() as int].0 == pairs[i].0);
    } else {
        lemma_lookup_entries_keys(pairs.drop_last(), i);
        let j = choose|j: int| 0 <= j < prev.len() && (#[trigger] prev[j]).0 == pairs.drop_last()[i].0;
        assert(all[j] == prev[j]);
        assert(pairs.drop_last()[i] == pairs[i]);
    }
}

/// Every English tag of the dictionary gets a Chinese name from the lookup
/// dictionary built from it.
pub proof fn law_lookup_covers_dictionary(pairs: Seq<(Seq<char>, Seq<char>)>, i: int)
    requires
        0 <= i < pairs.len(),
    ensures
        cn_tag_of(entries_map(lookup_entries(pairs)), pairs[i].0) is Some,
{
    lemma_lookup_entries_keys(pairs, i);
    crate::dict::lemma_entries_map_domain(lookup_entries(pairs), pairs[i].0);
}

/// Which lines of a dictionary CSV give a translation pair: the pair is the
/// trimmed second and fifth fields of the trimmed line; a line with either
/// of them blank gives none; any other line gives its pair, except that the
/// first line gives none when it is a header, that is when its English field
/// is `tag`, `url`, `english` or `en` in any ASCII case or its Chinese field
/// contains 翻译 or 中文.
pub proof fn law_dictionary_line_pair(index: int, line: Seq<char>)
    ensures
        ({
            let f = csv_fields(trim(line));
            let en = if 1 < f.len() { trim(f[1]) } else { Seq::empty() };
            let zh = if 4 < f.len() { trim(f[4]) } else { Seq::empty() };
            let header = lower_ascii_seq(en) == "tag"@ || lower_ascii_seq(en) == "url"@ || lower_ascii_seq(en)
                == "english"@ || lower_ascii_seq(en) == "en"@ || contains_text(zh, "\u{7ffb}\u{8bd1}"@)
                || contains_text(zh, "\u{4e2d}\u{6587}"@);
            &&& (en.len() == 0 || zh.len() == 0) ==> dictionary_line_pair(index, line) is None
            &&& (en.len() > 0 && zh.len() > 0 && (index != 0 || !header)) ==> dictionary_line_pair(index, line)
                == Some((en, zh))
            &&& (index == 0 && header) ==> dictionary_line_pair(index, line) is None
        }),
{
    lemma_header_words_lower();
    let t = trim(line);
    if t.len() == 0 {
        lemma_csv_scan_nonempty(t, 0, Seq::empty(), Seq::empty(), false);
    }
}

/// A dictionary CSV keeps the pair of every line that gives one (see
/// [`law_dictionary_line_pair`]), in the order of the lines, and nothing
/// else: each pair comes from some line.
pub proof fn law_dictionary_keeps_line_pairs(lines: Seq<Seq<char>>, n: int)
    requires
        0 <= n <= lines.len(),
    ensures
        forall|k: int| 0 <= k < n && dictionary_line_pair(k, lines[k]) is Some ==> #[trigger] dictionary_entries(
            lines,
            n,
        ).contains(dictionary_line_pair(k, lines[k])->0),
        forall|i: int| #![trigger dictionary_entries(lines, n)[i]] 0 <= i < dictionary_entries(lines, n).len() ==> exists|k: int|
            #![trigger dictionary_line_pair(k, lines[k])] 0 <= k < n && dictionary_line_pair(k, lines[k]) == Some(
                dictionary_entries(lines, n)[i],
            ),
        forall|j: int, k: int| 0 <= j < k < n && dictionary_line_pair(j, lines[j]) is Some && dictionary_line_pair(k, lines[k]) is Some
            ==> exists|a: int, b: int| 0 <= a < b < dictionary_entries(lines, n).len()
                && dictionary_entries(lines, n)[a] == dictionary_line_pair(j, lines[j])->0
                && dictionary_entries(lines, n)[b] == dictionary_line_pair(k, lines[k])->0,
    decreases n,
{
    if n > 0 {
        law_dictionary_keeps_line_pairs(lines, n - 1);
        let prev = dictionary_entries(lines, n - 1);
        let cur = dictionary_entries(lines, n);
        match dictionary_line_pair(n - 1, lines[n - 1]) {
            Some(p) => {
                assert(cur == prev.push(p));
            },
            None => {
                assert(cur == prev);
            },
        }
        assert forall|k: int| 0 <= k < n && dictionary_line_pair(k, lines[k]) is Some implies #[trigger] cur.contains(
            dictionary_line_pair(k, lines[k])->0,
        ) by {
            if k < n - 1 {
                assert(prev.contains(dictionary_line_pair(k, lines[k])->0));
                let j = choose|j: int| 0 <= j < prev.len() && prev[j] == dictionary_line_pair(k, lines[k])->0;
                assert(cur[j] == prev[j]);
            } else {
                assert(cur[prev.len() as int] == dictionary_line_pair(k, lines[k])->0);
            }
        }
        assert forall|i: int| #![trigger cur[i]] 0 <= i < cur.len() implies exists|k: int|
            #![trigger dictionary_line_pair(k, lines[k])] 0 <= k < n && dictionary_line_pair(k, lines[k]) == Some(cur[i]) by {
            if i < prev.len() {
                assert(cur[i] == prev[i]);
            } else {
                assert(dictionary_line_pair(n - 1, lines[n - 1]) == Some(cur[i]));
            }
        }
        assert forall|j: int, k: int| 0 <= j < k < n && dictionary_line_pair(j, lines[j]) is Some && dictionary_line_pair(
            k,
            lines[k],
        ) is Some implies exists|a: int, b: int| 0 <= a < b < cur.len() && cur[a] == dictionary_line_pair(j, lines[j])->0
            && cur[b] == dictionary_line_pair(k, lines[k])->0 by {
            if k < n - 1 {
                let (a, b) = choose|a: int, b: int| 0 <= a < b < prev.len() && prev[a] == dictionary_line_pair(j, lines[j])->0
                    && prev[b] == dictionary_line_pair(k, lines[k])->0;
                assert(cur[a] == prev[a] && cur[b] == prev[b]);
            } else {
                assert(prev.contains(dictionary_line_pair(j, lines[j])->0));
                let a = choose|a: int| 0 <= a < prev.len() && prev[a] == dictionary_line_pair(j, lines[j])->0;
                assert(cur[a] == prev[a]);
                assert(cur[prev.len() as int] == dictionary_line_pair(k, lines[k])->0);
            }
        }
    }
}

/// A dictionary CSV text holds the pair of each of its lines (see
/// [`law_text_lines`] and [`law_dictionary_line_pair`]) that gives one, the
/// first line counted as line 0, and nothing else.
pub proof fn law_csv_dictionary(content: Seq<char>)
    ensures
        ({
            let lines = text_lines(content);
            let d = csv_dictionary(content);
            &&& forall|k: int| 0 <= k < lines.len() && dictionary_line_pair(k, lines[k]) is Some ==> #[trigger] d.contains(
                dictionary_line_pair(k, lines[k])->0,
            )
            &&& forall|i: int| #![trigger d[i]] 0 <= i < d.len() ==> exists|k: int| #![trigger dictionary_line_pair(k, lines[k])]
                0 <= k < lines.len() && dictionary_line_pair(k, lines[k]) == Some(d[i])
        }),
{
    let lines = text_lines(content);
    law_dictionary_keeps_line_pairs(lines, lines.len() as int);
}

/// The lookup dictionary holds a dictionary value under its English tag and
/// under the tag's key, when no other English tag of the dictionary shares
/// the tag's key or is the tag or its key.
proof fn lemma_lookup_round_trip(pairs: Seq<(Seq<char>, Seq<char>)>, k: Seq<char>)
    requires
        entries_map(pairs).contains_key(k),
        forall|k2: Seq<char>| #[trigger] entries_map(pairs).contains_key(k2) && k2 != k ==> tag_key(k2) != k
            && tag_key(k2) != tag_key(k) && k2 != tag_key(k),
    ensures
        entries_map(lookup_entries(pairs)).contains_key(k),
        entries_map(lookup_entries(pairs))[k] == entries_map(pairs)[k],
        entries_map(lookup_entries(pairs)).contains_key(tag_key(k)),
        entries_map(lookup_entries(pairs))[tag_key(k)] == entries_map(pairs)[k],
    decreases pairs.len(),
{
    if pairs.len() > 0 {
        let prev = pairs.drop_last();
        let p = pairs.last();
        let lp = lookup_entries(prev);
        let mid = lp.push((p.0, p.1));
        let all = mid.push((tag_key(p.0), p.1));
        assert(lookup_entries(pairs) == all);
        assert(all.drop_last() == mid);
        assert(mid.drop_last() == lp);
        assert(entries_map(mid) == entries_map(lp).insert(p.0, p.1));
        assert(entries_map(all) == entries_map(mid).insert(tag_key(p.0), p.1));
        assert(entries_map(pairs) == entries_map(prev).insert(p.0, p.1));
        if p.0 != k {
            assert(entries_map(pairs).contains_key(p.0));
            assert(entries_map(prev).contains_key(k));
            assert forall|k2: Seq<char>| #[trigger] entries_map(prev).contains_key(k2) && k2 != k implies tag_key(
                k2,
            ) != k && tag_key(k2) != tag_key(k) && k2 != tag_key(k) by {
                assert(entries_map(pairs).contains_key(k2));
            }
            lemma_lookup_round_trip(prev, k);
        }
    }
}

/// Looking up a tag of the dictionary gives back its dictionary value, both
/// by the tag and by its key, when no other English tag of the dictionary
/// shares the tag's key or is the tag or its key.
pub proof fn law_lookup_round_trip(pairs: Seq<(Seq<char>, Seq<char>)>, k: Seq<char>)
    requires
        entries_map(pairs).contains_key(k),
        forall|k2: Seq<char>| #[trigger] entries_map(pairs).contains_key(k2) && k2 != k ==> tag_key(k2) != k
            && tag_key(k2) != tag_key(k) && k2 != tag_key(k),
    ensures
        cn_tag_of(entries_map(lookup_entries(pairs)), k) == Some(entries_map(pairs)[k]),
        cn_tag_of(entries_map(lookup_entries(pairs)), tag_key(k)) == Some(entries_map(pairs)[k]),
{
    lemma_lookup_round_trip(pairs, k);
}

proof fn lemma_csv_scan_nonempty(s: Seq<char>, i: int, fields: Seq<Seq<char>>, current: Seq<char>, quoted: bool)
    ensures
        csv_scan(s, i, fields, current, quoted).len() >= fields.len() + 1,
    decreases s.len() - i,
{
    if 0 <= i < s.len() {
        if s[i] == '"' {
            if quoted {
                if i + 1 < s.len() && s[i + 1] == '"' {
                    lemma_csv_scan_nonempty(s, i + 2, fields, current.push('"'), true);
                } else {
                    lemma_csv_scan_nonempty(s, i + 1, fields, current, false);
                }
            } else {
                lemma_csv_scan_nonempty(s, i + 1, fields, current, true);
            }
        } else if s[i] == ',' && !quoted {
            lemma_csv_scan_nonempty(s, i + 1, fields.push(trim(current)), Seq::empty(), false);
        } else {
            lemma_csv_scan_nonempty(s, i + 1, fields, current.push(s[i]), quoted);
        }
    }
}

/// Every CSV line has at least one field, even an empty line.
pub proof fn law_csv_fields_nonempty(line: Seq<char>)
    ensures
        csv_fields(line).len() >= 1,
{
    lemma_csv_scan_nonempty(line, 0, Seq::empty(), Seq::empty(), false);
}

} // verus!
