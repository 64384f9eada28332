use vstd::prelude::*;
use crate::chars::{trim, trim_chars, trim_str, str_chars, chars_eq_str, push_str_chars, string_from_chars, contains_text, chars_contain};
use crate::text::{unicode_lowercase, unicode_uppercase, to_lowercase, to_uppercase, owned_string, str_eq};
use crate::chars::texts;
use crate::chars::occurs_at;

verus! {

/// One condition of a user folder rule: how it combines (`AND`, `OR`,
/// `NOT`), what it looks at (`danbooru`, `custom`, `filename`) and the keyword.
pub struct UserFolderRuleCondition {
    pub logic: String,
    pub source: String,
    pub keyword: String,
}

/// The automatic filing rule of a user folder.
pub struct UserFolderRule {
    pub folder_id: i64,
    pub conditions: Vec<UserFolderRuleCondition>,
    pub updated_at: i64,
}

/// The texts of a condition.
pub open spec fn condition_view(c: UserFolderRuleCondition) -> (Seq<char>, Seq<char>, Seq<char>) {
    (c.logic@, c.source@, c.keyword@)
}

/// The texts of a list of conditions.
pub open spec fn conditions_view(v: Seq<UserFolderRuleCondition>) -> Seq<(Seq<char>, Seq<char>, Seq<char>)> {
    v.map_values(|c: UserFolderRuleCondition| condition_view(c))
}

/// The canonical logic word of a rule condition: its trimmed Unicode upper
/// case must be `AND`, `OR` or `NOT`.
pub open spec fn rule_logic(logic: Seq<char>) -> Option<Seq<char>> {
    let u = unicode_uppercase(trim(logic));
    if u == "AND"@ {
        Some("AND"@)
    } else if u == "OR"@ {
        Some("OR"@)
    } else if u == "NOT"@ {
        Some("NOT"@)
    } else {
        None
    }
}

/// The canonical source word of a rule condition: its trimmed Unicode lower
/// case must be `danbooru`, `custom` or `filename`.
pub open spec fn rule_source(source: Seq<char>) -> Option<Seq<char>> {
    let l = unicode_lowercase(trim(source));
    if l == "danbooru"@ {
        Some("danbooru"@)
    } else if l == "custom"@ {
        Some("custom"@)
    } else if l == "filename"@ {
        Some("filename"@)
    } else {
        None
    }
}

/// The canonical logic word of a rule condition (see [`rule_logic`]).
pub fn normalize_user_folder_rule_logic(logic: &str) -> (r: Option<&'static str>)
    ensures
        match rule_logic(logic@) {
            Some(w) => r matches Some(s) && s@ == w,
            None => r is None,
        },
{
    let t = trim_str(logic);
    let u = to_uppercase(t.as_str());
    if str_eq(u.as_str(), "AND") {
        Some("AND")
    } else if str_eq(u.as_str(), "OR") {
        Some("OR")
    } else if str_eq(u.as_str(), "NOT") {
        Some("NOT")
    } else {
        None
    }
}

/// The canonical source word of a rule condition (see [`rule_source`]).
pub fn normalize_user_folder_rule_source(source: &str) -> (r: Option<&'static str>)
    ensures
        match rule_source(source@) {
            Some(w) => r matches Some(s) && s@ == w,
            None => r is None,
        },
{
    let t = trim_str(source);
    let l = to_lowercase(t.as_str());
    if str_eq(l.as_str(), "danbooru") {
        Some("danbooru")
    } else if str_eq(l.as_str(), "custom") {
        Some("custom")
    } else if str_eq(l.as_str(), "filename") {
        Some("filename")
    } else {
        None
    }
}

/// The error for the first unusable condition among the first `n`, if any.
pub open spec fn conditions_error(cs: Seq<(Seq<char>, Seq<char>, Seq<char>)>, n: int) -> Option<Seq<char>>
    decreases n,
{
    if n <= 0 || n > cs.len() {
        None
    } else {
        match conditions_error(cs, n - 1) {
            Some(e) => Some(e),
            None => {
                let c = cs[n - 1];
                if rule_logic(c.0) is None {
                    Some("Unsupported rule logic: "@ + c.0)
                } else if rule_source(c.1) is None {
                    Some("Unsupported rule source: "@ + c.1)
                } else if trim(c.2).len() == 0 {
                    Some("Rule keyword cannot be empty"@)
                } else {
                    None
                }
            },
        }
    }
}

/// A condition in canonical form: canonical logic and source words and the
/// trimmed keyword.
pub open spec fn normalized_condition(c: (Seq<char>, Seq<char>, Seq<char>)) -> (Seq<char>, Seq<char>, Seq<char>) {
    (rule_logic(c.0).unwrap(), rule_source(c.1).unwrap(), trim(c.2))
}

/// Checks the conditions of a rule and puts them in canonical form; the first
/// condition with an unknown logic word, an unknown source or a blank keyword
/// is reported (see [`conditions_error`]).
pub fn normalize_user_folder_rule_conditions(conditions: Vec<UserFolderRuleCondition>) -> (r: Result<
    Vec<UserFolderRuleCondition>,
    String,
>)
    ensures
        match conditions_error(conditions_view(conditions@), conditions@.len() as int) {
            Some(e) => r matches Err(msg) && msg@ == e,
            None => r matches Ok(v) && conditions_view(v@) == conditions_view(conditions@).map_values(
                |c: (Seq<char>, Seq<char>, Seq<char>)| normalized_condition(c),
            ),
        },
{
    let ghost cs = conditions_view(conditions@);
    let mut normalized: Vec<UserFolderRuleCondition> = Vec::new();
    let mut i: usize = 0;
    while i < conditions.len()
        invariant
            i <= conditions.len(),
            cs == conditions_view(conditions@),
            conditions_error(cs, i as int) is None,
            conditions_view(normalized@) == cs.subrange(0, i as int).map_values(
                |c: (Seq<char>, Seq<char>, Seq<char>)| normalized_condition(c),
            ),
        decreases conditions.len() - i,
    {
        let condition = &conditions[i];
        proof {
            assert(cs[i as int] == condition_view(conditions@[i as int]));
        }
        let logic = match normalize_user_folder_rule_logic(condition.logic.as_str()) {
            Some(l) => l,
            None => {
                let mut msg = owned_string("Unsupported rule logic: ");
                push_str_chars(&mut msg, condition.logic.as_str());
                proof {
                    lemma_error_persists(cs, i as int + 1, conditions@.len() as int);
                }
                return Err(msg);
            },
        };
        let source = match normalize_user_folder_rule_source(condition.source.as_str()) {
            Some(s) => s,
            None => {
                let mut msg = owned_string("Unsupported rule source: ");
                push_str_chars(&mut msg, condition.source.as_str());
                proof {
                    lemma_error_persists(cs, i as int + 1, conditions@.len() as int);
                }
                return Err(msg);
            },
        };
        let keyword = trim_chars(condition.keyword.as_str());
        if keyword.len() == 0 {
            proof {
                lemma_error_persists(cs, i as int + 1, conditions@.len() as int);
            }
            return Err(owned_string("Rule keyword cannot be empty"));
        }
        let ghost before = conditions_view(normalized@);
        normalized.push(
            UserFolderRuleCondition {
                logic: owned_string(logic),
                source: owned_string(source),
                keyword: string_from_chars(&keyword),
            },
        );
        i = i + 1;
        proof {
            let f = |c: (Seq<char>, Seq<char>, Seq<char>)| normalized_condition(c);
            assert(cs.subrange(0, i as int) =~= cs.subrange(0, i - 1).push(cs[i - 1]));
            assert(conditions_view(normalized@) =~= before.push(normalized_condition(cs[i - 1])));
            assert(cs.subrange(0, i as int).map_values(f) =~= cs.subrange(0, i - 1).map_values(f).push(
                normalized_condition(cs[i - 1]),
            ));
        }
    }
    proof {
        assert(cs.subrange(0, cs.len() as int) == cs);
    }
    Ok(normalized)
}

/// Once an error is found among the first `n` conditions it stays the
/// reported error for every longer prefix.
proof fn lemma_error_persists(cs: Seq<(Seq<char>, Seq<char>, Seq<char>)>, n: int, m: int)
    requires
        0 < n <= m <= cs.len(),
        conditions_error(cs, n) is Some,
    ensures
        conditions_error(cs, m) == conditions_error(cs, n),
    decreases m - n,
{
    if m > n {
        lemma_error_persists(cs, n, m - 1);
    }
}

/// What a rule condition is tested against for one image: its file name in
/// lower case, its tag terms (automatic and supplement tags, English and
/// Chinese) and its custom tag terms, all trimmed and lower-cased.
pub struct ImageFolderRuleMatchContext {
    pub file_name_lower: String,
    pub danbooru_terms: Vec<String>,
    pub custom_terms: Vec<String>,
}

/// The lower-cased terms of tag rows: for each row its trimmed, lower-cased
/// English and Chinese text, the non-empty ones.
pub open spec fn tag_row_terms(rows: Seq<(Seq<char>, Seq<char>)>) -> Set<Seq<char>> {
    Set::new(|t: Seq<char>| t.len() > 0 && exists|i: int| 0 <= i < rows.len() && (t == unicode_lowercase(trim(rows[i].0)) || t == unicode_lowercase(trim(rows[i].1))))
}

/// The lower-cased terms of custom tag texts: each trimmed and lower-cased,
/// the non-empty ones.
pub open spec fn custom_terms(tags: Seq<Seq<char>>) -> Set<Seq<char>> {
    Set::new(|t: Seq<char>| t.len() > 0 && exists|i: int| 0 <= i < tags.len() && t == unicode_lowercase(trim(tags[i])))
}

/// Appends the trimmed, lower-cased `text` unless it is empty.
fn push_term(terms: &mut Vec<String>, text: &str)
    ensures
        texts(final(terms)@).to_set() == if unicode_lowercase(trim(text@)).len() > 0 {
            texts(old(terms)@).to_set().insert(unicode_lowercase(trim(text@)))
        } else {
            texts(old(terms)@).to_set()
        },
{
    let t = trim_str(text);
    let l = to_lowercase(t.as_str());
    let lc = str_chars(l.as_str());
    if lc.len() > 0 {
        let ghost before = texts(terms@);
        terms.push(l);
        proof {
            assert(texts(terms@) =~= before.push(unicode_lowercase(trim(text@))));
            before.lemma_push_to_set_commute(unicode_lowercase(trim(text@)));
        }
    }
}

/// The texts of tag rows.
pub open spec fn row_texts(v: Seq<(String, String)>) -> Seq<(Seq<char>, Seq<char>)> {
    v.map_values(|r: (String, String)| (r.0@, r.1@))
}

/// Gathers the terms of tag rows into `terms`.
fn push_row_terms(terms: &mut Vec<String>, rows: &Vec<(String, String)>)
    ensures
        texts(final(terms)@).to_set() == texts(old(terms)@).to_set().union(tag_row_terms(row_texts(rows@))),
{
    let ghost start = texts(terms@).to_set();
    let ghost rs = row_texts(rows@);
    let mut i: usize = 0;
    while i < rows.len()
        invariant
            i <= rows.len(),
            rs == row_texts(rows@),
            texts(terms@).to_set() == start.union(tag_row_terms(rs.subrange(0, i as int))),
        decreases rows.len() - i,
    {
        push_term(terms, rows[i].0.as_str());
        push_term(terms, rows[i].1.as_str());
        i = i + 1;
        proof {
            let p = rs.subrange(0, i as int);
            let q = rs.subrange(0, i - 1);
            let r = rs[i - 1];
            assert(r == (rows@[i - 1].0@, rows@[i - 1].1@));
            assert forall|t: Seq<char>| tag_row_terms(p).contains(t) <==> (tag_row_terms(q).contains(t)
                || (t.len() > 0 && (t == unicode_lowercase(trim(r.0)) || t == unicode_lowercase(trim(r.1))))) by {
                if tag_row_terms(p).contains(t) {
                    let k = choose|k: int| 0 <= k < p.len() && (t == unicode_lowercase(trim(p[k].0)) || t == unicode_lowercase(trim(p[k].1)));
                    if k < q.len() {
                        assert(p[k] == q[k]);
                    }
                }
                if tag_row_terms(q).contains(t) {
                    let k = choose|k: int| 0 <= k < q.len() && (t == unicode_lowercase(trim(q[k].0)) || t == unicode_lowercase(trim(q[k].1)));
                    assert(p[k] == q[k]);
                }
                if t.len() > 0 && (t == unicode_lowercase(trim(r.0)) || t == unicode_lowercase(trim(r.1))) {
                    assert(p[i - 1] == r);
                }
            }
            assert(texts(terms@).to_set() =~= start.union(tag_row_terms(p)));
        }
    }
    proof {
        assert(rs.subrange(0, rs.len() as int) == rs);
    }
}

/// The rule context of a library image from its file name, its automatic and
/// supplement tag rows `(English, Chinese)` and its custom tag texts.
pub fn build_image_folder_rule_match_context(
    file_name: &str,
    auto_tags: &Vec<(String, String)>,
    supplement_tags: &Vec<(String, String)>,
    custom_tags: &Vec<String>,
) -> (r: ImageFolderRuleMatchContext)
    ensures
        r.file_name_lower@ == unicode_lowercase(file_name@),
        texts(r.danbooru_terms@).to_set() == tag_row_terms(row_texts(auto_tags@)).union(
            tag_row_terms(row_texts(supplement_tags@)),
        ),
        texts(r.custom_terms@).to_set() == custom_terms(texts(custom_tags@)),
{
    let mut danbooru: Vec<String> = Vec::new();
    proof {
        assert(texts(danbooru@).to_set() =~= Set::<Seq<char>>::empty());
    }
    push_row_terms(&mut danbooru, auto_tags);
    push_row_terms(&mut danbooru, supplement_tags);
    proof {
        assert(texts(danbooru@).to_set() =~= tag_row_terms(row_texts(auto_tags@)).union(
            tag_row_terms(row_texts(supplement_tags@)),
        ));
    }
    let ghost cs = texts(custom_tags@);
    let mut custom: Vec<String> = Vec::new();
    let mut i: usize = 0;
    proof {
        assert(texts(custom@).to_set() =~= custom_terms(cs.subrange(0, 0)));
    }
    while i < custom_tags.len()
        invariant
            i <= custom_tags.len(),
            cs == texts(custom_tags@),
            texts(custom@).to_set() == custom_terms(cs.subrange(0, i as int)),
        decreases custom_tags.len() - i,
    {
        push_term(&mut custom, custom_tags[i].as_str());
        i = i + 1;
        proof {
            let p = cs.subrange(0, i as int);
            let q = cs.subrange(0, i - 1);
            assert(cs[i - 1] == custom_tags@[i - 1]@);
            assert forall|t: Seq<char>| custom_terms(p).contains(t) <==> (custom_terms(q).contains(t)
                || (t.len() > 0 && t == unicode_lowercase(trim(cs[i - 1])))) by {
                if custom_terms(p).contains(t) {
                    let k = choose|k: int| 0 <= k < p.len() && t == unicode_lowercase(trim(p[k]));
                    if k < q.len() {
                        assert(p[k] == q[k]);
                    }
                }
                if custom_terms(q).contains(t) {
                    let k = choose|k: int| 0 <= k < q.len() && t == unicode_lowercase(trim(q[k]));
                    assert(p[k] == q[k]);
                }
                if t.len() > 0 && t == unicode_lowercase(trim(cs[i - 1])) {
                    assert(p[i - 1] == cs[i - 1]);
                }
            }
            assert(texts(custom@).to_set() =~= custom_terms(p));
        }
    }
    proof {
        assert(cs.subrange(0, cs.len() as int) == cs);
    }
    ImageFolderRuleMatchContext {
        file_name_lower: to_lowercase(file_name),
        danbooru_terms: danbooru,
        custom_terms: custom,
    }
}

/// Whether one condition holds for an image: its trimmed, lower-cased
/// keyword is one of the image's tag terms (`danbooru`), one of its custom
/// terms (`custom`) or occurs in its lower-cased file name (`filename`); a
/// blank keyword or another source never holds.
pub open spec fn condition_holds(
    file_name_lower: Seq<char>,
    danbooru: Set<Seq<char>>,
    custom: Set<Seq<char>>,
    c: (Seq<char>, Seq<char>, Seq<char>),
) -> bool {
    let keyword = unicode_lowercase(trim(c.2));
    if keyword.len() == 0 {
        false
    } else if c.1 == "danbooru"@ {
        danbooru.contains(keyword)
    } else if c.1 == "custom"@ {
        custom.contains(keyword)
    } else if c.1 == "filename"@ {
        contains_text(file_name_lower, keyword)
    } else {
        false
    }
}

/// The context's view for [`condition_holds`].
pub open spec fn context_holds(ctx: ImageFolderRuleMatchContext, c: (Seq<char>, Seq<char>, Seq<char>)) -> bool {
    condition_holds(ctx.file_name_lower@, texts(ctx.danbooru_terms@).to_set(), texts(ctx.custom_terms@).to_set(), c)
}

/// Whether `terms` holds `t`.
fn terms_contain(terms: &Vec<String>, t: &Vec<char>) -> (r: bool)
    ensures
        r == texts(terms@).to_set().contains(t@),
{
    let mut k: usize = 0;
    while k < terms.len()
        invariant
            k <= terms.len(),
            forall|j: int| 0 <= j < k ==> terms@[j]@ != t@,
        decreases terms.len() - k,
    {
        if chars_eq_str(t, terms[k].as_str()) {
            proof {
                assert(texts(terms@)[k as int] == t@);
            }
            return true;
        }
        k = k + 1;
    }
    proof {
        assert(!texts(terms@).contains(t@)) by {
            if texts(terms@).contains(t@) {
                let j = choose|j: int| 0 <= j < texts(terms@).len() && texts(terms@)[j] == t@;
                assert(terms@[j]@ == t@);
            }
        }
    }
    false
}

/// Whether one condition holds for an image (see [`condition_holds`]).
pub fn evaluate_user_folder_rule_condition(
    context: &ImageFolderRuleMatchContext,
    condition: &UserFolderRuleCondition,
) -> (r: bool)
    ensures
        r == context_holds(*context, condition_view(*condition)),
{
    let t = trim_str(condition.keyword.as_str());
    let l = to_lowercase(t.as_str());
    let keyword = str_chars(l.as_str());
    if keyword.len() == 0 {
        return false;
    }
    if str_eq(condition.source.as_str(), "danbooru") {
        terms_contain(&context.danbooru_terms, &keyword)
    } else if str_eq(condition.source.as_str(), "custom") {
        terms_contain(&context.custom_terms, &keyword)
    } else if str_eq(condition.source.as_str(), "filename") {
        let name = str_chars(context.file_name_lower.as_str());
        chars_contain(&name, &keyword)
    } else {
        false
    }
}

/// Whether the first `n` conditions of a rule hold: the first one (negated
/// when its logic is `NOT`), then each further one combined by its logic —
/// `AND` and, `OR` or, `NOT` and-not, anything else leaves the result.
pub open spec fn conditions_hold(ctx: ImageFolderRuleMatchContext, cs: Seq<(Seq<char>, Seq<char>, Seq<char>)>, n: int) -> bool
    decreases n,
{
    if n <= 0 || n > cs.len() {
        false
    } else if n == 1 {
        let first = context_holds(ctx, cs[0]);
        if cs[0].0 == "NOT"@ {
            !first
        } else {
            first
        }
    } else {
        let prev = conditions_hold(ctx, cs, n - 1);
        let c = cs[n - 1];
        let matched = context_holds(ctx, c);
        if c.0 == "AND"@ {
            prev && matched
        } else if c.0 == "OR"@ {
            prev || matched
        } else if c.0 == "NOT"@ {
            prev && !matched
        } else {
            prev
        }
    }
}

/// Whether a whole rule holds for an image (see [`conditions_hold`]); a rule
/// without conditions never holds.
pub fn evaluate_user_folder_rule_conditions(
    context: &ImageFolderRuleMatchContext,
    conditions: &Vec<UserFolderRuleCondition>,
) -> (r: bool)
    ensures
        r == conditions_hold(*context, conditions_view(conditions@), conditions@.len() as int),
{
    let ghost cs = conditions_view(conditions@);
    if conditions.len() == 0 {
        return false;
    }
    let first = evaluate_user_folder_rule_condition(context, &conditions[0]);
    proof {
        assert(cs[0] == condition_view(conditions@[0]));
    }
    let mut result = if str_eq(conditions[0].logic.as_str(), "NOT") {
        !first
    } else {
        first
    };
    let mut i: usize = 1;
    while i < conditions.len()
        invariant
            1 <= i <= conditions.len(),
            cs == conditions_view(conditions@),
            result == conditions_hold(*context, cs, i as int),
        decreases conditions.len() - i,
    {
        let condition = &conditions[i];
        proof {
            assert(cs[i as int] == condition_view(conditions@[i as int]));
        }
        let matched = evaluate_user_folder_rule_condition(context, condition);
        if str_eq(condition.logic.as_str(), "AND") {
            result = result && matched;
        } else if str_eq(condition.logic.as_str(), "OR") {
            result = result || matched;
        } else if str_eq(condition.logic.as_str(), "NOT") {
            result = result && !matched;
        }
        i = i + 1;
    }
    result
}


/// A rule of one condition holds exactly when that condition holds, or,
/// when its logic is `NOT`, exactly when it does not.
pub proof fn law_single_condition_rule(ctx: ImageFolderRuleMatchContext, c: (Seq<char>, Seq<char>, Seq<char>))
    ensures
        conditions_hold(ctx, seq![c], 1) == if c.0 == "NOT"@ {
            !context_holds(ctx, c)
        } else {
            context_holds(ctx, c)
        },
{
}

/// Adding an `OR` condition never turns a holding rule off, and adding an
/// `AND` or `NOT` condition never turns a failing rule on.
pub proof fn law_rule_monotone(ctx: ImageFolderRuleMatchContext, cs: Seq<(Seq<char>, Seq<char>, Seq<char>)>, c: (Seq<char>, Seq<char>, Seq<char>))
    requires
        cs.len() >= 1,
    ensures
        c.0 == "OR"@ && conditions_hold(ctx, cs, cs.len() as int) ==> conditions_hold(ctx, cs.push(c), cs.len() as int + 1),
        (c.0 == "AND"@ || c.0 == "NOT"@) && !conditions_hold(ctx, cs, cs.len() as int) ==> !conditions_hold(ctx, cs.push(c), cs.len() as int + 1),
{
    lemma_conditions_hold_prefix(ctx, cs, c, cs.len() as int);
    reveal_strlit("AND");
    reveal_strlit("OR");
    reveal_strlit("NOT");
    assert("OR"@ != "AND"@) by {
        assert("OR"@.len() != "AND"@.len());
    }
    assert("NOT"@ != "AND"@) by {
        assert("NOT"@[0] != "AND"@[0]);
    }
    assert("NOT"@ != "OR"@) by {
        assert("NOT"@.len() != "OR"@.len());
    }
    assert(cs.push(c)[cs.len() as int] == c);
}

/// How a rule's result changes when one more condition is added after its
/// first: an `OR` condition turns the result on exactly when it holds itself
/// (a holding rule stays on, a failing one is on exactly when the new
/// condition holds); an `AND` condition keeps the result only when it holds;
/// a `NOT` condition keeps it only when it does not hold; a condition of any
/// other logic leaves the result as it was.
pub proof fn law_rule_append(ctx: ImageFolderRuleMatchContext, cs: Seq<(Seq<char>, Seq<char>, Seq<char>)>, c: (Seq<char>, Seq<char>, Seq<char>))
    requires
        cs.len() >= 1,
    ensures
        c.0 == "OR"@ ==> (conditions_hold(ctx, cs.push(c), cs.len() as int + 1) <==> (conditions_hold(ctx, cs, cs.len() as int)
            || context_holds(ctx, c))),
        c.0 == "OR"@ && !context_holds(ctx, c) ==> conditions_hold(ctx, cs.push(c), cs.len() as int + 1) == conditions_hold(
            ctx,
            cs,
            cs.len() as int,
        ),
        c.0 == "AND"@ ==> (conditions_hold(ctx, cs.push(c), cs.len() as int + 1) <==> (conditions_hold(ctx, cs, cs.len() as int)
            && context_holds(ctx, c))),
        c.0 == "NOT"@ ==> (conditions_hold(ctx, cs.push(c), cs.len() as int + 1) <==> (conditions_hold(ctx, cs, cs.len() as int)
            && !context_holds(ctx, c))),
        c.0 != "OR"@ && c.0 != "AND"@ && c.0 != "NOT"@ ==> conditions_hold(ctx, cs.push(c), cs.len() as int + 1)
            == conditions_hold(ctx, cs, cs.len() as int),
{
    lemma_conditions_hold_prefix(ctx, cs, c, cs.len() as int);
    reveal_strlit("AND");
    reveal_strlit("OR");
    reveal_strlit("NOT");
    assert("OR"@ != "AND"@) by {
        assert("OR"@.len() != "AND"@.len());
    }
    assert("NOT"@ != "AND"@) by {
        assert("NOT"@[0] != "AND"@[0]);
    }
    assert("NOT"@ != "OR"@) by {
        assert("NOT"@.len() != "OR"@.len());
    }
    assert(cs.push(c)[cs.len() as int] == c);
}

/// A rule of two conditions, the first with logic `AND` and the second with
/// `OR`, holds exactly when one of the two conditions holds.
pub proof fn law_two_condition_or_rule(ctx: ImageFolderRuleMatchContext, a: (Seq<char>, Seq<char>, Seq<char>), b: (Seq<char>, Seq<char>, Seq<char>))
    requires
        a.0 == "AND"@,
        b.0 == "OR"@,
    ensures
        conditions_hold(ctx, seq![a, b], 2) <==> (context_holds(ctx, a) || context_holds(ctx, b)),
{
    reveal_strlit("AND");
    reveal_strlit("NOT");
    assert("NOT"@ != "AND"@) by {
        assert("NOT"@[0] != "AND"@[0]);
    }
    law_rule_append(ctx, seq![a], b);
    assert(seq![a].push(b) =~= seq![a, b]);
}

/// A rule whose first condition is not negated and whose further
/// conditions are all `OR` holds exactly when one of its conditions holds;
/// one whose further conditions are all `AND` holds exactly when every
/// condition holds.
pub proof fn law_any_and_all_rules(ctx: ImageFolderRuleMatchContext, cs: Seq<(Seq<char>, Seq<char>, Seq<char>)>, n: int)
    requires
        1 <= n <= cs.len(),
        cs[0].0 != "NOT"@,
    ensures
        (forall|i: int| 1 <= i < n ==> (#[trigger] cs[i]).0 == "OR"@) ==> (conditions_hold(ctx, cs, n) <==> exists|i: int|
            0 <= i < n && context_holds(ctx, #[trigger] cs[i])),
        (forall|i: int| 1 <= i < n ==> (#[trigger] cs[i]).0 == "AND"@) ==> (conditions_hold(ctx, cs, n) <==> forall|i: int|
            0 <= i < n ==> context_holds(ctx, #[trigger] cs[i])),
    decreases n,
{
    reveal_strlit("AND");
    reveal_strlit("OR");
    assert("OR"@ != "AND"@) by {
        assert("OR"@.len() != "AND"@.len());
    }
    if n > 1 {
        law_any_and_all_rules(ctx, cs, n - 1);
        if forall|i: int| 1 <= i < n ==> (#[trigger] cs[i]).0 == "OR"@ {
            assert(cs[n - 1].0 == "OR"@);
            if conditions_hold(ctx, cs, n) {
                if !context_holds(ctx, cs[n - 1]) {
                    let i = choose|i: int| 0 <= i < n - 1 && context_holds(ctx, #[trigger] cs[i]);
                }
            } else {
                assert forall|i: int| 0 <= i < n implies !context_holds(ctx, #[trigger] cs[i]) by {
                    if i < n - 1 {
                        if context_holds(ctx, cs[i]) {
                            assert(exists|j: int| 0 <= j < n - 1 && context_holds(ctx, #[trigger] cs[j]));
                        }
                    }
                }
            }
        }
        if forall|i: int| 1 <= i < n ==> (#[trigger] cs[i]).0 == "AND"@ {
            assert(cs[n - 1].0 == "AND"@);
            if conditions_hold(ctx, cs, n) {
                assert forall|i: int| 0 <= i < n implies context_holds(ctx, #[trigger] cs[i]) by {
                }
            } else if forall|i: int| 0 <= i < n ==> context_holds(ctx, #[trigger] cs[i]) {
                assert(forall|i: int| 0 <= i < n - 1 ==> context_holds(ctx, #[trigger] cs[i]));
                assert(context_holds(ctx, cs[n - 1]));
            }
        }
    }
}

/// What one condition matches, for the terms gathered from an image's tag
/// rows `(English, Chinese)`, its custom tag texts and its lower-cased file
/// name: with the keyword trimmed and lower-cased, a `danbooru` condition
/// holds exactly when some tag row's English or Chinese text, trimmed and
/// lower-cased, is the keyword; a `custom` condition exactly when some custom
/// tag, trimmed and lower-cased, is; a `filename` condition exactly when the
/// keyword occurs in the file name. A blank keyword, or any other source,
/// never holds.
pub proof fn law_condition_matches(
    file_name_lower: Seq<char>,
    rows: Seq<(Seq<char>, Seq<char>)>,
    custom: Seq<Seq<char>>,
    c: (Seq<char>, Seq<char>, Seq<char>),
)
    ensures
        ({
            let key = unicode_lowercase(trim(c.2));
            let holds = condition_holds(file_name_lower, tag_row_terms(rows), custom_terms(custom), c);
            &&& key.len() == 0 ==> !holds
            &&& (key.len() > 0 && c.1 == "danbooru"@) ==> (holds <==> exists|i: int| 0 <= i < rows.len() && (key
                == unicode_lowercase(trim(#[trigger] rows[i].0)) || key == unicode_lowercase(trim(rows[i].1))))
            &&& (key.len() > 0 && c.1 == "custom"@) ==> (holds <==> exists|i: int| 0 <= i < custom.len() && key
                == unicode_lowercase(trim(#[trigger] custom[i])))
            &&& (key.len() > 0 && c.1 == "filename"@) ==> (holds <==> exists|j: int| 0 <= j && j + key.len()
                <= file_name_lower.len() && #[trigger] file_name_lower.subrange(j, j + key.len()) == key)
            &&& (c.1 != "danbooru"@ && c.1 != "custom"@ && c.1 != "filename"@) ==> !holds
        }),
{
    let key = unicode_lowercase(trim(c.2));
    reveal_strlit("danbooru");
    reveal_strlit("custom");
    reveal_strlit("filename");
    assert("danbooru"@ != "custom"@) by {
        assert("danbooru"@[0] != "custom"@[0]);
    }
    assert("danbooru"@ != "filename"@) by {
        assert("danbooru"@[0] != "filename"@[0]);
    }
    assert("custom"@ != "filename"@) by {
        assert("custom"@[0] != "filename"@[0]);
    }
    if key.len() > 0 {
        if c.1 == "filename"@ {
            if contains_text(file_name_lower, key) {
                let j = choose|j: int| occurs_at(file_name_lower, key, j);
                assert(file_name_lower.subrange(j, j + key.len()) == key);
            }
            if exists|j: int| 0 <= j && j + key.len() <= file_name_lower.len() && #[trigger] file_name_lower.subrange(
                j,
                j + key.len(),
            ) == key {
                let j = choose|j: int| 0 <= j && j + key.len() <= file_name_lower.len() && #[trigger] file_name_lower.subrange(
                    j,
                    j + key.len(),
                ) == key;
                assert(occurs_at(file_name_lower, key, j));
            }
        }
    }
}

/// A rule without conditions never holds, whatever the image.
pub proof fn law_empty_rule(ctx: ImageFolderRuleMatchContext, cs: Seq<(Seq<char>, Seq<char>, Seq<char>)>)
    ensures
        cs.len() == 0 ==> !conditions_hold(ctx, cs, cs.len() as int),
{
}

proof fn lemma_conditions_hold_prefix(ctx: ImageFolderRuleMatchContext, cs: Seq<(Seq<char>, Seq<char>, Seq<char>)>, c: (Seq<char>, Seq<char>, Seq<char>), n: int)
    requires
        0 <= n <= cs.len(),
    ensures
        conditions_hold(ctx, cs.push(c), n) == conditions_hold(ctx, cs, n),
    decreases n,
{
    if n > 1 {
        lemma_conditions_hold_prefix(ctx, cs, c, n - 1);
        assert(cs.push(c)[n - 1] == cs[n - 1]);
    } else if n == 1 {
        assert(cs.push(c)[0] == cs[0]);
    }
}

} // verus!
