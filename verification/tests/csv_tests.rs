use illutag_core::csv::{
    build_lookup_dictionary_map, lookup_cn_tag, parse_cn_tag_dictionary_csv, parse_csv_line,
    parse_fallback_groups_from_selected_tags, parse_selected_tag_sort_index, split_lines,
};
use illutag_core::dict::TextMap;

fn strings(v: &[&str]) -> Vec<String> {
    v.iter().map(|s| s.to_string()).collect()
}

fn pairs(m: &TextMap) -> Vec<(String, String)> {
    m.entries.clone()
}

#[test]
fn csv_line_plain_fields_trimmed() {
    assert_eq!(parse_csv_line("a, b ,c"), strings(&["a", "b", "c"]));
    assert_eq!(parse_csv_line(""), strings(&[""]));
    assert_eq!(parse_csv_line("x,"), strings(&["x", ""]));
}

#[test]
fn csv_line_quotes_and_escaped_quotes() {
    assert_eq!(parse_csv_line("1,\"a, b\",c"), strings(&["1", "a, b", "c"]));
    assert_eq!(parse_csv_line("\"say \"\"hi\"\"\",z"), strings(&["say \"hi\"", "z"]));
}

#[test]
fn lines_split_on_newlines() {
    let lines: Vec<String> = split_lines("a\r\nb\n\nc").into_iter().map(|l| l.into_iter().collect()).collect();
    assert_eq!(lines, strings(&["a", "b", "", "c"]));
    assert!(split_lines("").is_empty());
}

#[test]
fn dictionary_csv_reads_second_and_fifth_columns() {
    let content = "id,tag,x,y,翻译\n1,long_hair,0,0,长发\n2,blue_eyes,0,0,蓝眼\n3,empty,0,0,\n";
    let m = parse_cn_tag_dictionary_csv(content);
    assert_eq!(
        pairs(&m),
        vec![
            ("long_hair".to_string(), "长发".to_string()),
            ("blue_eyes".to_string(), "蓝眼".to_string()),
        ]
    );
    assert_eq!(m.get("long_hair"), Some("长发".to_string()));
    assert!(!m.contains_key("empty"));
}

#[test]
fn dictionary_csv_header_only_skipped_on_first_line() {
    let content = "1,tag,0,0,标签\n2,en,0,0,英文\n";
    let m = parse_cn_tag_dictionary_csv(content);
    assert_eq!(pairs(&m), vec![("en".to_string(), "英文".to_string())]);
}

#[test]
fn dictionary_csv_later_pair_wins() {
    let m = parse_cn_tag_dictionary_csv("1,cat,0,0,猫\n2,cat,0,0,猫咪\n");
    assert_eq!(m.get("cat"), Some("猫咪".to_string()));
}

#[test]
fn sort_index_counts_named_rows_and_keeps_first() {
    let content = "tag_id,name,category\n1,a,0\n2,,0\n3,b,4\n4,a,0\n";
    let index = parse_selected_tag_sort_index(content);
    let find = |k: &str| index.iter().rev().find(|(n, _)| n == k).map(|(_, i)| *i);
    assert_eq!(find("a"), Some(0));
    assert_eq!(find("b"), Some(1));
    assert_eq!(find("name"), None);
}

#[test]
fn fallback_groups_split_characters() {
    let (groups, by_tag) = parse_fallback_groups_from_selected_tags("tag_id,name,category\n1,hatsune_miku,4\n2,smile,0\n3,odd\n");
    assert_eq!(groups.len(), 2);
    assert_eq!(groups[0].id, "character");
    assert_eq!(groups[0].zh, "角色");
    assert_eq!(groups[1].id, "general");
    assert_eq!(groups[1].zh, "通用");
    assert_eq!(by_tag.get("hatsune_miku"), Some("character".to_string()));
    assert_eq!(by_tag.get("smile"), Some("general".to_string()));
    assert_eq!(by_tag.get("odd"), Some("general".to_string()));
}

#[test]
fn lookup_falls_back_to_normalized_key() {
    let mut pairs_map = TextMap::new();
    pairs_map.insert("Long-Hair".to_string(), "长发".to_string());
    let lookup = build_lookup_dictionary_map(&pairs_map);
    assert_eq!(lookup_cn_tag(&lookup, "Long-Hair"), Some("长发".to_string()));
    assert_eq!(lookup_cn_tag(&lookup, "long hair"), Some("长发".to_string()));
    assert_eq!(lookup_cn_tag(&lookup, "short hair"), None);
}
