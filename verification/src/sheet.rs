use vstd::prelude::*;
use crate::chars::{
    trim, lower_ascii_seq, eq_ignore_ascii_case, contains_text, occurs_at, str_chars, trim_chars,
    lower_ascii_chars, chars_eq_str, chars_contain_str, chars_occur_at, string_from_chars,
};
use crate::dict::{TextMap, pair_texts};
use crate::text::owned_string;
use crate::csv::{csv_dictionary, parse_cn_tag_dictionary_csv, lookup_entries, build_lookup_dictionary_map};

verus! {

/// A spreadsheet row as plain values: the text of each cell, none for an
/// empty one.
pub open spec fn row_cells(row: Seq<Option<String>>) -> Seq<Option<Seq<char>>> {
    row.map_values(|c: Option<String>| match c {
        Some(s) => Some(s@),
        None => None,
    })
}

/// The text of cell `k` of a row, trimmed; empty when the cell is empty or
/// the row is shorter.
pub open spec fn cell_text(row: Seq<Option<Seq<char>>>, k: int) -> Seq<char> {
    if 0 <= k < row.len() {
        match row[k] {
            Some(t) => trim(t),
            None => Seq::empty(),
        }
    } else {
        Seq::empty()
    }
}

/// `suffix` ends `s` (`str::ends_with`).
pub open spec fn has_suffix(s: Seq<char>, suffix: Seq<char>) -> bool {
    suffix.len() <= s.len() && s.subrange(s.len() - suffix.len(), s.len() as int) == suffix
}

/// The column names of a header row: the cell texts in ASCII lower case.
pub open spec fn header_name(header: Seq<Option<Seq<char>>>, k: int) -> Seq<char> {
    lower_ascii_seq(cell_text(header, k))
}

/// The first column before `n` whose header name is `name`.
pub open spec fn first_named(header: Seq<Option<Seq<char>>>, name: Seq<char>, n: int) -> Option<int>
    decreases n,
{
    if n <= 0 {
        None
    } else {
        match first_named(header, name, n - 1) {
            Some(k) => Some(k),
            None => if header_name(header, n - 1) == name {
                Some(n - 1)
            } else {
                None
            },
        }
    }
}

/// A header name that marks the Chinese column.
pub open spec fn chinese_column_name(name: Seq<char>) -> bool {
    contains_text(name, "right_tag_cn"@) || has_suffix(name, "_cn"@) || name == "cn"@
}

/// The first column before `n` that [`chinese_column_name`] marks.
pub open spec fn first_chinese(header: Seq<Option<Seq<char>>>, n: int) -> Option<int>
    decreases n,
{
    if n <= 0 {
        None
    } else {
        match first_chinese(header, n - 1) {
            Some(k) => Some(k),
            None => if chinese_column_name(header_name(header, n - 1)) {
                Some(n - 1)
            } else {
                None
            },
        }
    }
}

/// The column of English tags: the first named `tag`, else the first named
/// `url`, else the third.
pub open spec fn tag_column(header: Seq<Option<Seq<char>>>) -> int {
    match first_named(header, "tag"@, header.len() as int) {
        Some(k) => k,
        None => match first_named(header, "url"@, header.len() as int) {
            Some(k) => k,
            None => 2,
        },
    }
}

/// The column of Chinese translations: the first marked by
/// [`chinese_column_name`], else the fourth.
pub open spec fn chinese_column(header: Seq<Option<Seq<char>>>) -> int {
    match first_chinese(header, header.len() as int) {
        Some(k) => k,
        None => 3,
    }
}

/// The translation pair of one row: both cells non-blank, and the English
/// one not a header word.
pub open spec fn sheet_row_pair(row: Seq<Option<Seq<char>>>, tag_col: int, cn_col: int) -> Option<(Seq<char>, Seq<char>)> {
    let en = cell_text(row, tag_col);
    let zh = cell_text(row, cn_col);
    if en.len() == 0 || zh.len() == 0 {
        None
    } else if eq_ignore_ascii_case(en, "tag"@) || eq_ignore_ascii_case(en, "url"@) || eq_ignore_ascii_case(
        en,
        "english"@,
    ) || eq_ignore_ascii_case(en, "en"@) {
        None
    } else {
        Some((en, zh))
    }
}

/// The translation pairs of rows `1 .. n`, in order.
pub open spec fn sheet_entries(rows: Seq<Seq<Option<Seq<char>>>>, tag_col: int, cn_col: int, n: int) -> Seq<(Seq<char>, Seq<char>)>
    decreases n,
{
    if n <= 1 || n > rows.len() {
        Seq::empty()
    } else {
        let prev = sheet_entries(rows, tag_col, cn_col, n - 1);
        match sheet_row_pair(rows[n - 1], tag_col, cn_col) {
            Some(p) => prev.push(p),
            None => prev,
        }
    }
}

/// The translation pairs of a dictionary sheet: its first row is the
/// header, which picks the two columns; an empty sheet has none.
pub open spec fn sheet_dictionary(rows: Seq<Seq<Option<Seq<char>>>>) -> Option<Seq<(Seq<char>, Seq<char>)>> {
    if rows.len() == 0 {
        None
    } else {
        let header = rows[0];
        Some(sheet_entries(rows, tag_column(header), chinese_column(header), rows.len() as int))
    }
}

/// The first marked column, or none, among the first `n`.
proof fn lemma_first_chinese(header: Seq<Option<Seq<char>>>, n: int)
    ensures
        match first_chinese(header, n) {
            Some(j) => 0 <= j < n && chinese_column_name(header_name(header, j)) && forall|i: int| 0 <= i < j
                ==> !chinese_column_name(#[trigger] header_name(header, i)),
            None => forall|i: int| 0 <= i < n ==> !chinese_column_name(#[trigger] header_name(header, i)),
        },
    decreases n,
{
    if n > 0 {
        lemma_first_chinese(header, n - 1);
    }
}

/// A name ends in `_cn` exactly when its last three characters are `_`,
/// `c` and `n`.
proof fn lemma_cn_suffix(name: Seq<char>)
    ensures
        has_suffix(name, "_cn"@) <==> (name.len() >= 3 && name[name.len() - 3] == '_' && name[name.len() - 2] == 'c'
            && name[name.len() - 1] == 'n'),
{
    reveal_strlit("_cn");
    if name.len() >= 3 {
        let tail = name.subrange(name.len() - 3, name.len() as int);
        if name[name.len() - 3] == '_' && name[name.len() - 2] == 'c' && name[name.len() - 1] == 'n' {
            assert(tail =~= "_cn"@);
        }
        if has_suffix(name, "_cn"@) {
            assert(tail[0] == "_cn"@[0] && tail[1] == "_cn"@[1] && tail[2] == "_cn"@[2]);
        }
    }
}

/// The column of Chinese translations in a dictionary sheet is the first
/// column whose header, trimmed and in ASCII lower case, contains
/// `right_tag_cn`, ends with `_cn` or is `cn`; when no column's header is
/// such, it is the fourth column.
pub proof fn law_chinese_column(header: Seq<Option<Seq<char>>>)
    ensures
        forall|k: int| #![trigger cell_text(header, k)] 0 <= k < header.len() && ({
            let name = lower_ascii_seq(cell_text(header, k));
            contains_text(name, "right_tag_cn"@) || (name.len() >= 3 && name[name.len() - 3] == '_'
                && name[name.len() - 2] == 'c' && name[name.len() - 1] == 'n') || name == "cn"@
        }) ==> 0 <= chinese_column(header) <= k && ({
            let name = lower_ascii_seq(cell_text(header, chinese_column(header)));
            contains_text(name, "right_tag_cn"@) || (name.len() >= 3 && name[name.len() - 3] == '_'
                && name[name.len() - 2] == 'c' && name[name.len() - 1] == 'n') || name == "cn"@
        }),
        (forall|k: int| #![trigger cell_text(header, k)] 0 <= k < header.len() ==> !({
            let name = lower_ascii_seq(cell_text(header, k));
            contains_text(name, "right_tag_cn"@) || (name.len() >= 3 && name[name.len() - 3] == '_'
                && name[name.len() - 2] == 'c' && name[name.len() - 1] == 'n') || name == "cn"@
        })) ==> chinese_column(header) == 3,
{
    lemma_first_chinese(header, header.len() as int);
    assert forall|k: int| 0 <= k < header.len() implies (chinese_column_name(#[trigger] header_name(header, k)) <==> ({
        let name = lower_ascii_seq(cell_text(header, k));
        contains_text(name, "right_tag_cn"@) || (name.len() >= 3 && name[name.len() - 3] == '_'
            && name[name.len() - 2] == 'c' && name[name.len() - 1] == 'n') || name == "cn"@
    })) by {
        lemma_cn_suffix(header_name(header, k));
    }
    match first_chinese(header, header.len() as int) {
        Some(j) => {
            lemma_cn_suffix(header_name(header, j));
            assert forall|k: int| #![trigger cell_text(header, k)] 0 <= k < header.len() && ({
                let name = lower_ascii_seq(cell_text(header, k));
                contains_text(name, "right_tag_cn"@) || (name.len() >= 3 && name[name.len() - 3] == '_'
                    && name[name.len() - 2] == 'c' && name[name.len() - 1] == 'n') || name == "cn"@
            }) implies j <= k by {
                assert(chinese_column_name(header_name(header, k)));
            }
        },
        None => {
            assert forall|k: int| #![trigger cell_text(header, k)] 0 <= k < header.len() implies !({
                let name = lower_ascii_seq(cell_text(header, k));
                contains_text(name, "right_tag_cn"@) || (name.len() >= 3 && name[name.len() - 3] == '_'
                    && name[name.len() - 2] == 'c' && name[name.len() - 1] == 'n') || name == "cn"@
            }) by {
                assert(!chinese_column_name(header_name(header, k)));
            }
        },
    }
}

/// The first column named `name`, or none, among the first `n`.
proof fn lemma_first_named(header: Seq<Option<Seq<char>>>, name: Seq<char>, n: int)
    ensures
        match first_named(header, name, n) {
            Some(j) => 0 <= j < n && header_name(header, j) == name && forall|i: int| 0 <= i < j
                ==> #[trigger] header_name(header, i) != name,
            None => forall|i: int| 0 <= i < n ==> #[trigger] header_name(header, i) != name,
        },
    decreases n,
{
    if n > 0 {
        lemma_first_named(header, name, n - 1);
    }
}

/// The column of English tags in a dictionary sheet is the first column
/// whose header, trimmed and in ASCII lower case, is `tag`; when there is
/// none, the first whose header is `url`; when there is none either, the
/// third column.
pub proof fn law_tag_column(header: Seq<Option<Seq<char>>>)
    ensures
        (exists|k: int| 0 <= k < header.len() && lower_ascii_seq(#[trigger] cell_text(header, k)) == "tag"@) ==> {
            &&& 0 <= tag_column(header) < header.len()
            &&& lower_ascii_seq(cell_text(header, tag_column(header))) == "tag"@
            &&& forall|i: int| 0 <= i < tag_column(header) ==> lower_ascii_seq(#[trigger] cell_text(header, i)) != "tag"@
        },
        (forall|k: int| 0 <= k < header.len() ==> lower_ascii_seq(#[trigger] cell_text(header, k)) != "tag"@) && (exists|k: int|
            0 <= k < header.len() && lower_ascii_seq(#[trigger] cell_text(header, k)) == "url"@) ==> {
            &&& 0 <= tag_column(header) < header.len()
            &&& lower_ascii_seq(cell_text(header, tag_column(header))) == "url"@
            &&& forall|i: int| 0 <= i < tag_column(header) ==> lower_ascii_seq(#[trigger] cell_text(header, i)) != "url"@
        },
        (forall|k: int| 0 <= k < header.len() ==> lower_ascii_seq(#[trigger] cell_text(header, k)) != "tag"@ && lower_ascii_seq(
            cell_text(header, k),
        ) != "url"@) ==> tag_column(header) == 2,
{
    lemma_first_named(header, "tag"@, header.len() as int);
    lemma_first_named(header, "url"@, header.len() as int);
    assert forall|k: int| 0 <= k < header.len() implies #[trigger] header_name(header, k) == lower_ascii_seq(
        cell_text(header, k),
    ) by {}
    if exists|k: int| 0 <= k < header.len() && lower_ascii_seq(#[trigger] cell_text(header, k)) == "tag"@ {
        let k = choose|k: int| 0 <= k < header.len() && lower_ascii_seq(#[trigger] cell_text(header, k)) == "tag"@;
        assert(header_name(header, k) == "tag"@);
        let j = first_named(header, "tag"@, header.len() as int)->0;
        assert forall|i: int| 0 <= i < j implies lower_ascii_seq(#[trigger] cell_text(header, i)) != "tag"@ by {
            assert(header_name(header, i) != "tag"@);
        }
    }
    if (forall|k: int| 0 <= k < header.len() ==> lower_ascii_seq(#[trigger] cell_text(header, k)) != "tag"@) && (exists|k: int|
        0 <= k < header.len() && lower_ascii_seq(#[trigger] cell_text(header, k)) == "url"@) {
        let k = choose|k: int| 0 <= k < header.len() && lower_ascii_seq(#[trigger] cell_text(header, k)) == "url"@;
        assert(header_name(header, k) == "url"@);
        assert forall|i: int| 0 <= i < header.len() implies #[trigger] header_name(header, i) != "tag"@ by {
            assert(lower_ascii_seq(cell_text(header, i)) != "tag"@);
        }
        assert(first_named(header, "tag"@, header.len() as int) is None);
        let j = first_named(header, "url"@, header.len() as int)->0;
        assert forall|i: int| 0 <= i < j implies lower_ascii_seq(#[trigger] cell_text(header, i)) != "url"@ by {
            assert(header_name(header, i) != "url"@);
        }
    }
    if forall|k: int| 0 <= k < header.len() ==> lower_ascii_seq(#[trigger] cell_text(header, k)) != "tag"@ && lower_ascii_seq(
        cell_text(header, k),
    ) != "url"@ {
        assert forall|i: int| 0 <= i < header.len() implies #[trigger] header_name(header, i) != "tag"@ && header_name(
            header,
            i,
        ) != "url"@ by {
            assert(lower_ascii_seq(cell_text(header, i)) != "tag"@);
        }
    }
}

/// Which rows of a dictionary sheet give a translation pair: the trimmed
/// cells of the English and Chinese columns, when both are non-blank and the
/// English one is not `tag`, `url`, `english` or `en` in any ASCII case; the
/// sheet keeps the pair of every row after the header row that gives one, in
/// row order, and nothing else.
pub proof fn law_sheet_rows(rows: Seq<Seq<Option<Seq<char>>>>, tag_col: int, cn_col: int, n: int)
    requires
        0 <= n <= rows.len(),
    ensures
        forall|k: int| #![trigger rows[k]] 0 <= k < rows.len() ==> ({
            let en = cell_text(rows[k], tag_col);
            let zh = cell_text(rows[k], cn_col);
            let word = lower_ascii_seq(en) == "tag"@ || lower_ascii_seq(en) == "url"@ || lower_ascii_seq(en)
                == "english"@ || lower_ascii_seq(en) == "en"@;
            &&& (en.len() > 0 && zh.len() > 0 && !word) ==> sheet_row_pair(rows[k], tag_col, cn_col) == Some((en, zh))
            &&& (en.len() == 0 || zh.len() == 0 || word) ==> sheet_row_pair(rows[k], tag_col, cn_col) is None
        }),
        forall|k: int| 1 <= k < n && sheet_row_pair(rows[k], tag_col, cn_col) is Some ==> #[trigger] sheet_entries(
            rows,
            tag_col,
            cn_col,
            n,
        ).contains(sheet_row_pair(rows[k], tag_col, cn_col)->0),
        forall|i: int| #![trigger sheet_entries(rows, tag_col, cn_col, n)[i]] 0 <= i < sheet_entries(rows, tag_col, cn_col, n).len()
            ==> exists|k: int| #![trigger rows[k]] 1 <= k < n && sheet_row_pair(rows[k], tag_col, cn_col) == Some(
                sheet_entries(rows, tag_col, cn_col, n)[i],
            ),
    decreases n,
{
    lemma_words_lower();
    if n > 1 {
        law_sheet_rows(rows, tag_col, cn_col, n - 1);
        let prev = sheet_entries(rows, tag_col, cn_col, n - 1);
        let cur = sheet_entries(rows, tag_col, cn_col, n);
        match sheet_row_pair(rows[n - 1], tag_col, cn_col) {
            Some(p) => {
                assert(cur == prev.push(p));
            },
            None => {
                assert(cur == prev);
            },
        }
        assert forall|k: int| 1 <= k < n && sheet_row_pair(rows[k], tag_col, cn_col) is Some implies #[trigger] cur.contains(
            sheet_row_pair(rows[k], tag_col, cn_col)->0,
        ) by {
            if k < n - 1 {
                assert(prev.contains(sheet_row_pair(rows[k], tag_col, cn_col)->0));
                let j = choose|j: int| 0 <= j < prev.len() && prev[j] == sheet_row_pair(rows[k], tag_col, cn_col)->0;
                assert(cur[j] == prev[j]);
            } else {
                assert(cur[prev.len() as int] == sheet_row_pair(rows[k], tag_col, cn_col)->0);
            }
        }
        assert forall|i: int| #![trigger cur[i]] 0 <= i < cur.len() implies exists|k: int| #![trigger rows[k]] 1 <= k < n
            && sheet_row_pair(rows[k], tag_col, cn_col) == Some(cur[i]) by {
            if i < prev.len() {
                assert(cur[i] == prev[i]);
            } else {
                assert(sheet_row_pair(rows[n - 1], tag_col, cn_col) == Some(cur[i]));
            }
        }
    }
}

/// A dictionary sheet: an empty one is refused; otherwise its first row is
/// the header that picks the English and Chinese columns (see
/// [`law_tag_column`] and [`law_chinese_column`]), and the pairs are those of
/// the later rows under those columns (see [`law_sheet_rows`]), the header
/// row giving none.
pub proof fn law_sheet_dictionary(rows: Seq<Seq<Option<Seq<char>>>>)
    ensures
        rows.len() == 0 <==> sheet_dictionary(rows) is None,
        rows.len() > 0 ==> ({
            let tc = tag_column(rows[0]);
            let cc = chinese_column(rows[0]);
            let e = sheet_dictionary(rows)->0;
            &&& forall|k: int| 1 <= k < rows.len() && sheet_row_pair(rows[k], tc, cc) is Some ==> #[trigger] e.contains(
                sheet_row_pair(rows[k], tc, cc)->0,
            )
            &&& forall|i: int| #![trigger e[i]] 0 <= i < e.len() ==> exists|k: int| #![trigger rows[k]] 1 <= k < rows.len()
                && sheet_row_pair(rows[k], tc, cc) == Some(e[i])
        }),
{
    if rows.len() > 0 {
        law_sheet_rows(rows, tag_column(rows[0]), chinese_column(rows[0]), rows.len() as int);
    }
}

/// The trimmed text of cell `k` (see [`cell_text`]).
fn cell_text_exec(row: &Vec<Option<String>>, k: usize) -> (r: Vec<char>)
    ensures
        r@ == cell_text(row_cells(row@), k as int),
{
    if k < row.len() {
        match &row[k] {
            Some(s) => trim_chars(s.as_str()),
            None => Vec::new(),
        }
    } else {
        Vec::new()
    }
}

/// Whether `name` marks the Chinese column (see [`chinese_column_name`]).
fn is_chinese_column_name(name: &Vec<char>) -> (r: bool)
    ensures
        r == chinese_column_name(name@),
{
    let suffix = str_chars("_cn");
    let ends = if suffix.len() <= name.len() {
        chars_occur_at(name, &suffix, name.len() - suffix.len())
    } else {
        false
    };
    proof {
        if suffix.len() <= name.len() {
            assert(occurs_at(name@, suffix@, name.len() - suffix.len()) == has_suffix(name@, "_cn"@));
        }
    }
    chars_contain_str(name, "right_tag_cn") || ends || chars_eq_str(name, "cn")
}

/// Finds the column of English tags and of translations (see
/// [`tag_column`], [`chinese_column`]).
fn sheet_columns(header: &Vec<Option<String>>) -> (r: (usize, usize))
    ensures
        r.0 as int == tag_column(row_cells(header@)),
        r.1 as int == chinese_column(row_cells(header@)),
{
    let ghost h = row_cells(header@);
    let mut tag_at: Option<usize> = None;
    let mut url_at: Option<usize> = None;
    let mut cn_at: Option<usize> = None;
    let mut k: usize = 0;
    while k < header.len()
        invariant
            k <= header.len(),
            h == row_cells(header@),
            h.len() == header.len(),
            match tag_at {
                Some(j) => first_named(h, "tag"@, k as int) == Some(j as int),
                None => first_named(h, "tag"@, k as int) is None,
            },
            match url_at {
                Some(j) => first_named(h, "url"@, k as int) == Some(j as int),
                None => first_named(h, "url"@, k as int) is None,
            },
            match cn_at {
                Some(j) => first_chinese(h, k as int) == Some(j as int),
                None => first_chinese(h, k as int) is None,
            },
        decreases header.len() - k,
    {
        let name = lower_ascii_chars(&cell_text_exec(header, k));
        if tag_at.is_none() && chars_eq_str(&name, "tag") {
            tag_at = Some(k);
        }
        if url_at.is_none() && chars_eq_str(&name, "url") {
            url_at = Some(k);
        }
        if cn_at.is_none() && is_chinese_column_name(&name) {
            cn_at = Some(k);
        }
        k = k + 1;
    }
    let tag_col = match tag_at {
        Some(j) => j,
        None => match url_at {
            Some(j) => j,
            None => 2,
        },
    };
    let cn_col = match cn_at {
        Some(j) => j,
        None => 3,
    };
    (tag_col, cn_col)
}

/// Whether `en` is one of the English header words, in any ASCII case.
fn is_header_word(en: &Vec<char>) -> (r: bool)
    ensures
        r == (eq_ignore_ascii_case(en@, "tag"@) || eq_ignore_ascii_case(en@, "url"@)
            || eq_ignore_ascii_case(en@, "english"@) || eq_ignore_ascii_case(en@, "en"@)),
{
    let l = lower_ascii_chars(en);
    proof {
        lemma_words_lower();
    }
    chars_eq_str(&l, "tag") || chars_eq_str(&l, "url") || chars_eq_str(&l, "english") || chars_eq_str(
        &l,
        "en",
    )
}

/// The English header words are their own ASCII lower case.
proof fn lemma_words_lower()
    ensures
        lower_ascii_seq("tag"@) == "tag"@,
        lower_ascii_seq("url"@) == "url"@,
        lower_ascii_seq("english"@) == "english"@,
        lower_ascii_seq("en"@) == "en"@,
{
    reveal_strlit("tag");
    reveal_strlit("url");
    reveal_strlit("english");
    reveal_strlit("en");
    assert(lower_ascii_seq("tag"@) =~= "tag"@);
    assert(lower_ascii_seq("url"@) =~= "url"@);
    assert(lower_ascii_seq("english"@) =~= "english"@);
    assert(lower_ascii_seq("en"@) =~= "en"@);
}

/// Reads the translation pairs of a Chinese tag dictionary sheet (see
/// [`sheet_dictionary`]); each row holds its cells' texts. A later pair for
/// the same English tag wins. An empty sheet is an error.
pub fn parse_cn_tag_dictionary_sheet(rows: &Vec<Vec<Option<String>>>) -> (r: Result<TextMap, String>)
    ensures
        match sheet_dictionary(rows@.map_values(|row: Vec<Option<String>>| row_cells(row@))) {
            Some(entries) => r matches Ok(m) && pair_texts(m.entries@) == entries,
            None => r matches Err(e) && e@ == "Dictionary sheet is empty"@,
        },
{
    let ghost all = rows@.map_values(|row: Vec<Option<String>>| row_cells(row@));
    if rows.len() == 0 {
        return Err(owned_string("Dictionary sheet is empty"));
    }
    let (tag_col, cn_col) = sheet_columns(&rows[0]);
    proof {
        assert(all[0] == row_cells(rows@[0]@));
    }
    let mut pairs = TextMap::new();
    let mut n: usize = 1;
    proof {
        assert(pair_texts(pairs.entries@) =~= Seq::<(Seq<char>, Seq<char>)>::empty());
    }
    while n < rows.len()
        invariant
            1 <= n <= rows.len(),
            all == rows@.map_values(|row: Vec<Option<String>>| row_cells(row@)),
            tag_col as int == tag_column(all[0]),
            cn_col as int == chinese_column(all[0]),
            pair_texts(pairs.entries@) == sheet_entries(all, tag_col as int, cn_col as int, n as int),
        decreases rows.len() - n,
    {
        proof {
            assert(all[n as int] == row_cells(rows@[n as int]@));
        }
        let en = cell_text_exec(&rows[n], tag_col);
        let zh = cell_text_exec(&rows[n], cn_col);
        if en.len() > 0 && zh.len() > 0 && !is_header_word(&en) {
            let ghost before = pair_texts(pairs.entries@);
            let key = string_from_chars(&en);
            let value = string_from_chars(&zh);
            pairs.entries.push((key, value));
            proof {
                assert(pair_texts(pairs.entries@) =~= before.push((en@, zh@)));
            }
        }
        n = n + 1;
    }
    Ok(pairs)
}


/// A tag dictionary source as read: the text of a CSV file, or the rows of
/// the first sheet of a workbook, each cell's text or none for an empty one.
pub enum DictionarySource {
    Csv(String),
    Sheet(Vec<Vec<Option<String>>>),
}

/// The translation pairs a dictionary source holds, in order (see
/// [`csv_dictionary`] and [`sheet_dictionary`]); none for an empty sheet.
pub open spec fn source_pairs(source: DictionarySource) -> Option<Seq<(Seq<char>, Seq<char>)>> {
    match source {
        DictionarySource::Csv(content) => Some(csv_dictionary(content@)),
        DictionarySource::Sheet(rows) => sheet_dictionary(
            rows@.map_values(|row: Vec<Option<String>>| row_cells(row@)),
        ),
    }
}

/// Reads the translation pairs of a dictionary source (see [`source_pairs`]);
/// a sheet without rows is an error.
pub fn load_cn_tag_dictionary_pairs_from_source(source: &DictionarySource) -> (r: Result<TextMap, String>)
    ensures
        match source_pairs(*source) {
            Some(entries) => r matches Ok(m) && pair_texts(m.entries@) == entries,
            None => r matches Err(e) && e@ == "Dictionary sheet is empty"@,
        },
{
    match source {
        DictionarySource::Csv(content) => Ok(parse_cn_tag_dictionary_csv(content.as_str())),
        DictionarySource::Sheet(rows) => parse_cn_tag_dictionary_sheet(rows),
    }
}

/// The lookup dictionary of tag translations: empty when no dictionary source
/// file exists (`None`), else every pair of the source under its English tag
/// and its dictionary key (see [`lookup_entries`]).
pub fn load_cn_tag_dictionary_map(source: &Option<DictionarySource>) -> (r: Result<TextMap, String>)
    ensures
        match source {
            None => r matches Ok(m) && m.entries@.len() == 0,
            Some(src) => match source_pairs(*src) {
                Some(entries) => r matches Ok(m) && pair_texts(m.entries@) == lookup_entries(entries),
                None => r matches Err(e) && e@ == "Dictionary sheet is empty"@,
            },
        },
{
    match source {
        None => Ok(TextMap::new()),
        Some(src) => {
            match load_cn_tag_dictionary_pairs_from_source(src) {
                Ok(pairs) => Ok(build_lookup_dictionary_map(&pairs)),
                Err(e) => Err(e),
            }
        },
    }
}

} // verus!
