use illutag_core::paths::PathHost;
use illutag_core::csv::lookup_cn_tag;
use illutag_core::model::plan_user_folder_reorder;
use illutag_core::clock::{now_ms, system_time_ms, unix_millis_as_i64};
use illutag_core::csv::TagDictionaryGroup;
use illutag_core::data_dir::portable_config_path;
use illutag_core::folder_sync::{normalize_folder_path, path_depth_for_sort};
use illutag_core::known_paths::KnownPaths;
use illutag_core::progress::{update_scan_progress, update_thumbnail_progress, BackgroundScanProgress, ThumbnailGenerationProgress};
use illutag_core::services::{clear_optional_cache, mark_clip_image_service_used, touch_clip_image_service_last_used};
use illutag_core::sheet::{load_cn_tag_dictionary_map, load_cn_tag_dictionary_pairs_from_source, DictionarySource};
use illutag_core::sources::{find_tagger_data_file, tagger_data_file_paths};
use illutag_core::tag_browser::load_tag_dictionary_browser_meta;
use illutag_core::unique_paths::{next_available_export_path, unique_file_path};
use std::collections::HashMap;
use std::time::{Duration, UNIX_EPOCH};

fn group(id: &str, zh: &str) -> TagDictionaryGroup {
    TagDictionaryGroup { id: id.to_string(), zh: zh.to_string() }
}

fn pairs(v: &[(&str, &str)]) -> Vec<(String, String)> {
    v.iter().map(|(a, b)| (a.to_string(), b.to_string())).collect()
}

#[test]
fn path_depth_counts_components() {
    assert_eq!(path_depth_for_sort(PathHost::Windows, ""), 0);
    assert_eq!(path_depth_for_sort(PathHost::Windows, "a/b/c"), 3);
    assert_eq!(path_depth_for_sort(PathHost::Windows, "C:\\photos\\cats"), 4);
    assert_eq!(path_depth_for_sort(PathHost::Windows, "C:\\photos\\cats\\"), 4);
    assert_eq!(path_depth_for_sort(PathHost::Windows, "/a"), 2);
    assert_eq!(path_depth_for_sort(PathHost::Windows, "\\"), 1);
    assert_eq!(path_depth_for_sort(PathHost::Windows, "./a"), 2);
    assert_eq!(path_depth_for_sort(PathHost::Windows, "a/./b"), 2);
    assert_eq!(path_depth_for_sort(PathHost::Windows, "."), 1);
    assert_eq!(path_depth_for_sort(PathHost::Windows, "a/../b"), 3);
    assert_eq!(path_depth_for_sort(PathHost::Windows, "C:"), 1);
    assert_eq!(path_depth_for_sort(PathHost::Windows, "C:a"), 2);
    assert_eq!(path_depth_for_sort(PathHost::Unix, "/a"), 2);
    assert_eq!(path_depth_for_sort(PathHost::Unix, "/a/./b/"), 3);
    assert_eq!(path_depth_for_sort(PathHost::Unix, "C:\\a"), 1);
}

#[test]
fn tagger_data_file_is_the_first_found() {
    let paths = tagger_data_file_paths(PathHost::Windows, &vec!["C:\\app".to_string(), "D:\\data\\".to_string()], "tag_groups.json");
    assert_eq!(paths, vec!["C:\\app\\tag_groups.json".to_string(), "D:\\data\\tag_groups.json".to_string()]);
    let probed = vec![("a".to_string(), false), ("b".to_string(), true), ("c".to_string(), true)];
    assert_eq!(find_tagger_data_file(&probed), Some("b".to_string()));
    assert_eq!(find_tagger_data_file(&vec![("a".to_string(), false)]), None);
    assert_eq!(find_tagger_data_file(&vec![]), None);
}

#[test]
fn browser_meta_falls_back_to_selected_tags() {
    let content = Some("tag_id,name,category\n1,cat,0\n2,hatsune_miku,4\n3,cat,0\n".to_string());
    let (groups, by_tag, sort_index) = load_tag_dictionary_browser_meta(&content, None);
    assert_eq!(groups.len(), 2);
    assert_eq!((groups[0].id.as_str(), groups[0].zh.as_str()), ("character", "角色"));
    assert_eq!((groups[1].id.as_str(), groups[1].zh.as_str()), ("general", "通用"));
    let by_tag: HashMap<String, String> = by_tag.into_iter().collect();
    let expected: HashMap<String, String> = pairs(&[("cat", "general"), ("hatsune_miku", "character")]).into_iter().collect();
    assert_eq!(by_tag, expected);
    assert_eq!(sort_index, vec![("cat".to_string(), 0), ("hatsune_miku".to_string(), 1)]);
}

#[test]
fn browser_meta_prefers_tag_groups_file() {
    let content = Some("tag_id,name,category\n1,cat,0\n".to_string());
    let tags = pairs(&[("cat", "animal"), ("sky", "scenery"), ("dog", "animal")]);
    let (groups, by_tag, sort_index) =
        load_tag_dictionary_browser_meta(&content, Some((vec![group("animal", "动物")], tags.clone())));
    let ids: Vec<(&str, &str)> = groups.iter().map(|g| (g.id.as_str(), g.zh.as_str())).collect();
    assert_eq!(ids, vec![("animal", "动物"), ("scenery", "scenery")]);
    assert_eq!(by_tag, tags);
    assert_eq!(sort_index, vec![("cat".to_string(), 0)]);
}

#[test]
fn browser_meta_is_empty_without_tagger_files() {
    let (groups, by_tag, sort_index) = load_tag_dictionary_browser_meta(&None, None);
    assert!(groups.is_empty() && by_tag.is_empty() && sort_index.is_empty());
}

#[test]
fn dictionary_source_pairs_and_lookup_map() {
    let csv = DictionarySource::Csv("id,tag,a,b,zh\n1,Long Hair,x,y,长发\n".to_string());
    let exact = load_cn_tag_dictionary_pairs_from_source(&csv).unwrap();
    assert_eq!(exact.entries, pairs(&[("Long Hair", "长发")]));
    let lookup = load_cn_tag_dictionary_map(&Some(csv)).unwrap();
    assert_eq!(lookup.get("Long Hair"), Some("长发".to_string()));
    assert_eq!(lookup.get("long_hair"), Some("长发".to_string()));
    assert!(load_cn_tag_dictionary_map(&None).unwrap().entries.is_empty());
    let empty_sheet = DictionarySource::Sheet(vec![]);
    assert_eq!(load_cn_tag_dictionary_pairs_from_source(&empty_sheet).err(), Some("Dictionary sheet is empty".to_string()));
    assert_eq!(load_cn_tag_dictionary_map(&Some(empty_sheet)).err(), Some("Dictionary sheet is empty".to_string()));
}

#[test]
fn export_path_skips_taken_names() {
    let mut used = KnownPaths::new();
    used.insert("D:\\out\\cat.jpg");
    let on_disk = |p: &str| p == "D:\\out\\cat (1).jpg";
    let first = next_available_export_path(PathHost::Windows, "D:\\out", "cat.jpg", &mut used, on_disk);
    assert_eq!(first, Some("D:\\out\\cat (2).jpg".to_string()));
    assert!(used.contains("D:\\out\\cat (2).jpg"));
    let second = next_available_export_path(PathHost::Windows, "D:\\out", "cat.jpg", &mut used, on_disk);
    assert_eq!(second, Some("D:\\out\\cat (3).jpg".to_string()));
    let clean = next_available_export_path(PathHost::Windows, "D:\\out", "a:b.png", &mut used, |_| false);
    assert_eq!(clean, Some("D:\\out\\a_b.png".to_string()));
}

#[test]
fn reference_file_path_counts_up() {
    let taken = |p: &str| p == "C:\\f\\cat.png" || p == "C:\\f\\cat-1.png";
    assert_eq!(unique_file_path(PathHost::Windows, "C:\\f", "cat.png", taken), Some("C:\\f\\cat-2.png".to_string()));
    assert_eq!(unique_file_path(PathHost::Windows, "C:\\f", "", |_| false), Some("C:\\f\\reference.png".to_string()));
    let unix_taken = |p: &str| p == "/f/cat.png";
    assert_eq!(unique_file_path(PathHost::Unix, "/f", "cat.png", unix_taken), Some("/f/cat-1.png".to_string()));
}

#[test]
fn caches_and_last_use() {
    let mut cache = Some(vec![1, 2, 3]);
    clear_optional_cache(&mut cache);
    assert!(cache.is_none());
    let mut last_used = 5;
    mark_clip_image_service_used(&mut last_used, 42);
    assert_eq!(last_used, 42);
    let before = now_ms();
    touch_clip_image_service_last_used(&mut last_used);
    assert!(last_used >= before);
}

#[test]
fn clock_values() {
    assert_eq!(unix_millis_as_i64(Some(1_700_000_000_123)), 1_700_000_000_123);
    assert_eq!(unix_millis_as_i64(None), 0);
    assert_eq!(unix_millis_as_i64(Some(u128::MAX)), -1);
    assert_eq!(system_time_ms(UNIX_EPOCH + Duration::from_millis(1234)), 1234);
    assert_eq!(system_time_ms(UNIX_EPOCH - Duration::from_millis(5)), 0);
    assert!(now_ms() > 1_600_000_000_000);
}

#[test]
fn folder_path_normalization() {
    assert_eq!(normalize_folder_path(false, Ok("C:\\x".to_string())), Err("请选择一个有效的文件夹".to_string()));
    assert_eq!(normalize_folder_path(true, Ok("C:\\x".to_string())), Ok("C:\\x".to_string()));
    assert_eq!(normalize_folder_path(true, Err("denied".to_string())), Err("读取文件夹失败：denied".to_string()));
}

#[test]
fn portable_config_lies_next_to_executable() {
    assert_eq!(portable_config_path(PathHost::Windows, Ok("C:\\app".to_string())), Ok("C:\\app\\illutag.portable.json".to_string()));
    assert_eq!(portable_config_path(PathHost::Windows, Err("no exe".to_string())), Err("no exe".to_string()));
}

#[test]
fn progress_updates_apply_the_change() {
    let mut progress = ThumbnailGenerationProgress::default();
    update_thumbnail_progress(&mut progress, |mut p| {
        p.total_candidates = 7;
        p
    });
    assert_eq!(progress.total_candidates, 7);
    assert_eq!(progress.phase, "idle");
    let mut scan = BackgroundScanProgress::default();
    update_scan_progress(&mut scan, |mut p| {
        p.phase = "scanning".to_string();
        p
    });
    assert_eq!(scan.phase, "scanning");
}

#[test]
fn lookup_gives_back_dictionary_values() {
    let csv = DictionarySource::Csv("id,tag,a,b,zh\n1,Long Hair,x,y,长发\n2,blue_eyes,x,y,蓝眼\n".to_string());
    let lookup = load_cn_tag_dictionary_map(&Some(csv)).unwrap();
    assert_eq!(lookup_cn_tag(&lookup, "Long Hair"), Some("长发".to_string()));
    assert_eq!(lookup_cn_tag(&lookup, "long_hair"), Some("长发".to_string()));
    assert_eq!(lookup_cn_tag(&lookup, "blue_eyes"), Some("蓝眼".to_string()));
    assert_eq!(lookup_cn_tag(&lookup, "Blue Eyes"), Some("蓝眼".to_string()));
    assert_eq!(lookup_cn_tag(&lookup, "red"), None);
}

#[test]
fn folder_reorder_plan() {
    assert_eq!(plan_user_folder_reorder(3, Some(1), 3, Some(1), vec![2, 3]), Ok(None));
    assert_eq!(
        plan_user_folder_reorder(3, Some(1), 5, Some(2), vec![2, 3]),
        Err("暂时只支持同层级文件夹排序".to_string())
    );
    assert_eq!(plan_user_folder_reorder(3, None, 1, None, vec![1, 2, 3]), Ok(Some(vec![3, 1, 2])));
    assert_eq!(plan_user_folder_reorder(9, None, 1, None, vec![1, 2]), Err("找不到要排序的文件夹".to_string()));
    assert_eq!(plan_user_folder_reorder(1, None, 9, None, vec![1, 2]), Err("找不到目标文件夹".to_string()));
}
