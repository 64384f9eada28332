use illutag_core::paths::PathHost;
use illutag_core::csv::TagDictionaryGroup;
use illutag_core::data_dir::{
    check_migration_paths, configured_data_dir, configured_dir_failure_note, exe_data_dir_failure_note,
    exe_dir_unknown_note, legacy_data_dir_note, migration_target, use_legacy_data_dir, validate_migrated_data_directory,
    MigratedFileProbe,
};
use illutag_core::devtools::{
    dev_fake_image_row, dev_sample_ids, dev_small_file_format, dev_small_file_names, dev_small_pixel,
    dev_stress_count, dev_subfolder_count, is_dev_sample_extension, DevSampleImage,
};
use illutag_core::folder_sync::{
    find_last_id, is_under_root, nearest_synced_folder, synced_folder_name, synced_folder_parent_positions,
    synced_folder_paths,
};
use illutag_core::gallery::{gallery_page_window, page_image_order};
use illutag_core::links::checked_external_url;
use illutag_core::model::DevFakeGalleryOptions;
use illutag_core::recycle::{recycle_bin_failure_message, system_trash_refusal, BatchTrashTally};
use illutag_core::runtime_paths::{
    chinese_clip_model_dir_candidates, chinese_clip_onnx_files, missing_script_message, python_executable_candidates,
    resolve_chinese_clip_model_dir, resolve_wd_tagger_model_dir, service_script_candidates, wd_tagger_model_files,
};
use illutag_core::search::{file_name_filter, like_contains_pattern, like_prefix_pattern, normalize_tag_filters, suggestion_lookup};
use illutag_core::sheet::parse_cn_tag_dictionary_sheet;
use illutag_core::sources::{
    dictionary_source_candidates, dictionary_source_signature, is_csv_dictionary_source, tagger_data_dir_candidates,
};
use illutag_core::tag_browser::{build_tag_dictionary_browser_items, merge_tag_groups};
use illutag_core::text::dev_hash_i64;
use illutag_core::user_tags::{
    image_tag_text, managed_tag_text, normalize_batch_custom_tags, normalize_batch_supplement_tags,
    reference_board_folder_name, reference_board_name, tag_folder_name, user_folder_name,
};
use illutag_core::model::BatchSupplementTagInput;

fn strings(v: &[&str]) -> Vec<String> {
    v.iter().map(|s| s.to_string()).collect()
}

fn pair(a: &str, b: &str) -> (String, String) {
    (a.to_string(), b.to_string())
}

#[test]
fn under_root_needs_separator() {
    assert!(is_under_root(r"C:\lib", r"C:\lib", '\\'));
    assert!(is_under_root(r"C:\lib\a", r"C:\lib", '\\'));
    assert!(is_under_root(r"C:\lib\a", r"C:\lib\", '\\'));
    assert!(!is_under_root(r"C:\library", r"C:\lib", '\\'));
}

#[test]
fn last_id_wins() {
    let table = vec![("a".to_string(), 1), ("b".to_string(), 2), ("a".to_string(), 3)];
    assert_eq!(find_last_id(&table, "a"), Some(3));
    assert_eq!(find_last_id(&table, "c"), None);
}

#[test]
fn nearest_synced_folder_climbs_to_root() {
    let synced = vec![(r"C:\lib".to_string(), 1), (r"C:\lib\a".to_string(), 2)];
    let chain = strings(&[r"C:\lib\a\b\c", r"C:\lib\a\b", r"C:\lib\a", r"C:\lib", r"C:\"]);
    assert_eq!(nearest_synced_folder(r"C:\lib", '\\', &chain, &synced), Some(2));
    let own = strings(&[r"C:\lib", r"C:\"]);
    assert_eq!(nearest_synced_folder(r"C:\lib", '\\', &own, &synced), Some(1));
    let outside = strings(&[r"D:\x", r"D:\"]);
    assert_eq!(nearest_synced_folder(r"C:\lib", '\\', &outside, &synced), None);
    assert_eq!(nearest_synced_folder(r"C:\lib", '\\', &Vec::new(), &synced), Some(1));
    assert_eq!(nearest_synced_folder(r"C:\lib", '\\', &strings(&[r"C:\lib\z"]), &Vec::new()), None);
}

#[test]
fn synced_folder_paths_parents_first() {
    let walked = Some(strings(&[r"C:\lib", r"C:\lib\b\c", r"C:\lib\a", r"D:\other"]));
    let image_dirs = strings(&[r"C:\lib\b", r"E:\x"]);
    let paths = synced_folder_paths(PathHost::Windows, r"C:\lib", '\\', &walked, &image_dirs);
    assert_eq!(paths, strings(&[r"C:\lib", r"C:\lib\a", r"C:\lib\b", r"C:\lib\b\c"]));
}

#[test]
fn synced_folder_paths_root_when_walk_finds_nothing() {
    assert_eq!(synced_folder_paths(PathHost::Windows, r"C:\lib", '\\', &Some(Vec::new()), &Vec::new()), strings(&[r"C:\lib"]));
    assert!(synced_folder_paths(PathHost::Windows, r"C:\lib", '\\', &None, &Vec::new()).is_empty());
}

#[test]
fn synced_folder_parents_and_names() {
    let paths = strings(&[r"C:\lib", r"C:\lib\a", r"C:\lib\a\b"]);
    let parents = vec![Some(r"C:\".to_string()), Some(r"C:\lib".to_string()), Some(r"C:\lib\a".to_string())];
    assert_eq!(synced_folder_parent_positions(r"C:\lib", &paths, &parents), vec![None, Some(0), Some(1)]);
    assert_eq!(synced_folder_name(PathHost::Windows, r"C:\lib\Cats"), "Cats");
    assert_eq!(synced_folder_name(PathHost::Windows, r"C:\"), r"C:\");
}

#[test]
fn gallery_page_window_clamps() {
    let ids = strings(&["a", " b ", "", "c", "d"]);
    let (page, offset, limit) = gallery_page_window(&ids, -3, 3);
    assert_eq!((page, offset, limit), (strings(&["a", "b"]), 0, 3));
    let (page, offset, limit) = gallery_page_window(&ids, 3, 0);
    assert_eq!((page, offset, limit), (strings(&["c"]), 3, 1));
    let (page, _, limit) = gallery_page_window(&ids, 10, 99_999);
    assert!(page.is_empty());
    assert_eq!(limit, 5000);
}

#[test]
fn gallery_page_order_follows_page() {
    let page = strings(&["c", "a", "c", "x"]);
    let found = strings(&["a", "c", "a"]);
    assert_eq!(page_image_order(&page, &found), vec![1, 2]);
}

#[test]
fn browser_items_from_tables() {
    let groups = vec![pair("smile", "general"), pair("miku", "character")];
    let translations = vec![pair("smile", "微笑"), pair("smile", ""), pair("miku", "")];
    let counts = vec![("smile".to_string(), 5)];
    let order = vec![("miku".to_string(), 2), ("smile".to_string(), 0)];
    let items = build_tag_dictionary_browser_items(&groups, &translations, &counts, &order);
    assert_eq!(items.len(), 2);
    assert_eq!(items[0].tag_en, "smile");
    assert_eq!(items[0].tag_zh, Some("微笑".to_string()));
    assert_eq!((items[0].image_count, items[0].sort_index), (5, 0));
    assert_eq!(items[1].group, "character");
    assert_eq!(items[1].tag_zh, None);
    assert_eq!((items[1].image_count, items[1].sort_index), (0, 2));
}

#[test]
fn tag_groups_merged_once() {
    let taxonomy = vec![TagDictionaryGroup { id: "general".to_string(), zh: "通用".to_string() }];
    let merged = merge_tag_groups(taxonomy, &strings(&["general", "meta", "meta", "artist"]));
    let ids: Vec<&str> = merged.iter().map(|g| g.id.as_str()).collect();
    assert_eq!(ids, vec!["general", "meta", "artist"]);
    assert_eq!(merged[0].zh, "通用");
    assert_eq!(merged[2].zh, "artist");
}

#[test]
fn dictionary_sources_listed_in_order() {
    let c = dictionary_source_candidates(PathHost::Windows, &Some(r"C:\app".to_string()), &None);
    assert_eq!(
        c,
        strings(&[
            r"C:\app\wd-swinv2-tagger-v3\selected_tags_full_translation.csv",
            r"C:\app\..\wd-swinv2-tagger-v3\selected_tags_full_translation.csv",
            r"C:\app\wd-swinv2-tagger-v3\dictionary01.xlsx",
            r"C:\app\..\wd-swinv2-tagger-v3\dictionary01.xlsx",
        ])
    );
    let e = dictionary_source_candidates(PathHost::Windows, &None, &Some(r"D:\bin".to_string()));
    assert_eq!(e.len(), 6);
    assert_eq!(e[2], r"D:\bin\..\..\wd-swinv2-tagger-v3\selected_tags_full_translation.csv");
    assert!(dictionary_source_candidates(PathHost::Windows, &None, &None).is_empty());
}

#[test]
fn tagger_dirs_listed_in_order() {
    let d = tagger_data_dir_candidates(PathHost::Windows, &Some("C:".to_string()), &Some(r"D:\bin".to_string()), &Some(r"E:\dict".to_string()));
    assert_eq!(
        d,
        strings(&[
            r"C:wd-swinv2-tagger-v3",
            r"C:..\wd-swinv2-tagger-v3",
            r"D:\bin\wd-swinv2-tagger-v3",
            r"D:\bin\..\wd-swinv2-tagger-v3",
            r"D:\bin\..\..\wd-swinv2-tagger-v3",
            r"E:\dict",
        ])
    );
}

#[test]
fn dictionary_source_kind_and_signature() {
    assert!(is_csv_dictionary_source(PathHost::Windows, r"C:\x\tags.CSV"));
    assert!(!is_csv_dictionary_source(PathHost::Windows, r"C:\x\dictionary01.xlsx"));
    assert!(!is_csv_dictionary_source(PathHost::Windows, r"C:\x\csv"));
    assert_eq!(dictionary_source_signature(r"C:\t.csv", -5, 120), r"csv-col2-col5-v1|C:\t.csv|-5|120");
}

#[test]
fn runtime_paths_listed() {
    let s = service_script_candidates(PathHost::Windows, &Some(r"C:\w".to_string()), &Some(r"D:\b".to_string()), "svc.py");
    assert_eq!(
        s,
        strings(&[
            r"C:\w\src-tauri\scripts\svc.py",
            r"C:\w\scripts\svc.py",
            r"D:\b\scripts\svc.py",
            r"D:\b\..\scripts\svc.py",
            r"D:\b\..\..\src-tauri\scripts\svc.py",
        ])
    );
    assert_eq!(missing_script_message("svc.py"), "Cannot find svc.py under src-tauri/scripts");
    let p = python_executable_candidates(PathHost::Windows, &Some(r"D:\b".to_string()), &None);
    assert_eq!(p[2], r"D:\b\resources\runtime\python\python.exe");
    assert_eq!(chinese_clip_model_dir_candidates(PathHost::Windows, &Some(r"C:\w".to_string()), &None)[1], r"C:\w\..\model\chinese-clip-vit-base-patch16");
    assert_eq!(
        chinese_clip_onnx_files(PathHost::Windows, r"M:\m"),
        (r"M:\m\onnx\chinese_clip_text_encoder.onnx".to_string(), r"M:\m\onnx\chinese_clip_image_encoder.onnx".to_string())
    );
    assert_eq!(wd_tagger_model_files(PathHost::Windows, r"M:\t"), (r"M:\t\model.onnx".to_string(), r"M:\t\selected_tags.csv".to_string()));
}

#[test]
fn model_directories_resolved() {
    assert_eq!(resolve_wd_tagger_model_dir(&Some(("X".to_string(), true)), &Vec::new()), Ok("X".to_string()));
    assert_eq!(
        resolve_wd_tagger_model_dir(&Some(("X".to_string(), false)), &Vec::new()),
        Err("Configured model directory does not exist: X".to_string())
    );
    let candidates = vec![("a".to_string(), false), ("b".to_string(), true), ("c".to_string(), true)];
    assert_eq!(resolve_wd_tagger_model_dir(&None, &candidates), Ok("b".to_string()));
    assert!(resolve_wd_tagger_model_dir(&None, &Vec::new()).unwrap_err().starts_with("Cannot find wd-swinv2-tagger-v3"));
    assert_eq!(
        resolve_chinese_clip_model_dir(PathHost::Windows, &Some((r"M:\m".to_string(), true, false)), &Vec::new()),
        Err(r"Configured model directory is missing ONNX files: M:\m\onnx\chinese_clip_text_encoder.onnx and M:\m\onnx\chinese_clip_image_encoder.onnx".to_string())
    );
    assert_eq!(resolve_chinese_clip_model_dir(PathHost::Windows, &None, &candidates), Ok("b".to_string()));
}

#[test]
fn dev_counts_and_formats() {
    assert_eq!(dev_stress_count(-1), 0);
    assert_eq!(dev_stress_count(300_000), 200_000);
    assert_eq!(dev_small_file_format(&Some(" JPEG ".to_string())), "jpeg");
    assert_eq!(dev_small_file_format(&Some("gif".to_string())), "png");
    assert_eq!(dev_small_file_format(&None), "png");
    assert_eq!(dev_subfolder_count(None), 1);
    assert_eq!(dev_subfolder_count(Some(0)), 1);
    assert_eq!(dev_subfolder_count(Some(20_000)), 10_000);
    assert_eq!(dev_small_file_names(12, 5, "jpeg"), ("bucket_002".to_string(), "dev_small_00000012.jpg".to_string()));
    assert_eq!(dev_small_pixel(1, 2, 300), (52, 122, 57));
    assert_eq!(dev_sample_ids(&strings(&[" a ", "", "b"])), strings(&["a", "b"]));
    assert!(is_dev_sample_extension("JPG"));
    assert!(!is_dev_sample_extension("gif"));
}

#[test]
fn dev_fake_rows_follow_options() {
    let samples = vec![DevSampleImage {
        path: "C:/s.png".to_string(),
        file_name: "s.png".to_string(),
        ext: "png".to_string(),
        width: 0,
        height: 77,
        file_size: 9,
        modified_at: 1,
    }];
    let fixed = DevFakeGalleryOptions {
        count: 1,
        source_folder: None,
        sample_image_ids: None,
        randomize_dimensions: Some(false),
        randomize_file_names: Some(false),
        randomize_imported_at: Some(false),
        randomize_folders: None,
        randomize_favorites: None,
        randomize_tags: None,
    };
    let row = dev_fake_image_row(7, 1000, &samples, &fixed, 0);
    assert_eq!(row.image_id, "illutag-dev-fake:00000007");
    assert_eq!(row.path, "C:/s.png#illutag-dev-fake:00000007");
    assert_eq!(row.file_name, "dev_fake_000007_s.png");
    assert_eq!((row.width, row.height, row.imported_at), (1, 77, 1000));
    assert_eq!(row.seed, dev_hash_i64(1007));
    assert!(!row.is_favorite && row.folder_slot.is_none() && row.tag.is_none());
    let random = DevFakeGalleryOptions { randomize_dimensions: None, randomize_file_names: None, randomize_tags: Some(true), ..fixed };
    let r = dev_fake_image_row(7, 1000, &samples, &random, 4);
    let seed = dev_hash_i64(1007);
    assert_eq!(r.width, (320 + seed % 1800) as u32);
    assert_eq!(r.file_name, format!("dev_fake_000007_{}.png", seed % 10_000));
    assert_eq!(r.folder_slot, Some(seed as usize % 4));
    assert!(r.tag.is_some());
}

#[test]
fn batch_tags_normalized() {
    assert_eq!(normalize_batch_custom_tags(strings(&[" a", "a", "", "b "])), strings(&["a", "b"]));
    let inputs = vec![
        BatchSupplementTagInput { tag_en: " Smile ".to_string(), tag_zh: Some(" 微笑 ".to_string()) },
        BatchSupplementTagInput { tag_en: "smile".to_string(), tag_zh: None },
        BatchSupplementTagInput { tag_en: "  ".to_string(), tag_zh: None },
        BatchSupplementTagInput { tag_en: "cat".to_string(), tag_zh: Some(" ".to_string()) },
    ];
    assert_eq!(
        normalize_batch_supplement_tags(inputs),
        vec![("Smile".to_string(), Some("微笑".to_string())), ("cat".to_string(), None)]
    );
}

#[test]
fn required_names() {
    assert_eq!(user_folder_name("  Art "), Ok("Art".to_string()));
    assert_eq!(user_folder_name("  "), Err("请输入文件夹名称".to_string()));
    assert_eq!(reference_board_name(""), Err("请输入参考板名称".to_string()));
    assert_eq!(reference_board_folder_name(" "), Err("请输入参考板文件夹名称".to_string()));
    assert_eq!(tag_folder_name(""), Err("Folder name cannot be empty".to_string()));
    assert_eq!(managed_tag_text(" x "), Ok("x".to_string()));
    assert_eq!(image_tag_text(""), Err("Tag text cannot be empty".to_string()));
}

#[test]
fn system_trash_checks_in_order() {
    assert_eq!(system_trash_refusal(&None, true), Some("Image not found".to_string()));
    assert_eq!(
        system_trash_refusal(&Some(("reference".to_string(), 1)), true),
        Some("Only library images can be moved to system recycle bin".to_string())
    );
    assert_eq!(
        system_trash_refusal(&Some(("library".to_string(), 0)), true),
        Some("Image must be in app recycle bin before moving to system recycle bin".to_string())
    );
    assert_eq!(
        system_trash_refusal(&Some(("library".to_string(), 1)), false),
        Some("源文件不存在，无法移入系统回收站。".to_string())
    );
    assert_eq!(system_trash_refusal(&Some(("library".to_string(), 1)), true), None);
}

#[test]
fn recycle_failures_explained() {
    assert_eq!(recycle_bin_failure_message("Access is denied."), "无权限，无法移入系统回收站。");
    assert_eq!(recycle_bin_failure_message("disk full"), "移动到系统回收站失败：disk full");
}

#[test]
fn trash_tally_keeps_first_error() {
    let mut t = BatchTrashTally::new();
    t.record_moved();
    t.record_failure("a".to_string(), "first".to_string());
    t.record_failure("b".to_string(), "second".to_string());
    assert_eq!(t.moved_count, 1);
    assert_eq!(t.failed_image_ids, strings(&["a", "b"]));
    assert_eq!(t.first_error, Some("first".to_string()));
}

#[test]
fn search_patterns() {
    assert_eq!(like_contains_pattern("50%"), "%50\\%%");
    assert_eq!(like_prefix_pattern("a_b"), "a\\_b%");
    assert_eq!(file_name_filter("  Cat_Pic "), Some("%cat\\_pic%".to_string()));
    assert_eq!(file_name_filter("   "), None);
    assert_eq!(normalize_tag_filters(&strings(&[" b", "a", "b ", ""])), strings(&["a", "b"]));
    assert_eq!(suggestion_lookup(" Hair ", None), Some(("%hair%".to_string(), "hair%".to_string(), 20)));
    assert_eq!(suggestion_lookup("x", Some(500)).map(|s| s.2), Some(80));
    assert_eq!(suggestion_lookup("x", Some(0)).map(|s| s.2), Some(1));
    assert_eq!(suggestion_lookup("  ", Some(5)), None);
}

fn row(cells: &[Option<&str>]) -> Vec<Option<String>> {
    cells.iter().map(|c| c.map(|s| s.to_string())).collect()
}

#[test]
fn dictionary_sheet_columns_from_header() {
    let rows = vec![
        row(&[Some("id"), Some("Tag"), Some("note"), Some("Right_Tag_CN")]),
        row(&[Some("1"), Some("long_hair"), None, Some("长发")]),
        row(&[Some("2"), Some("EN"), None, Some("英文")]),
        row(&[Some("3"), Some("short")]),
        row(&[Some("4"), Some("long_hair"), None, Some(" 长头发 ")]),
    ];
    match parse_cn_tag_dictionary_sheet(&rows) {
        Ok(m) => {
            assert_eq!(m.entries, vec![pair("long_hair", "长发"), pair("long_hair", "长头发")]);
            assert_eq!(m.get("long_hair"), Some("长头发".to_string()));
        },
        Err(e) => panic!("unexpected error {e}"),
    }
}

#[test]
fn dictionary_sheet_default_columns_and_empty() {
    let rows = vec![row(&[Some("a"), Some("b"), Some("c"), Some("d")]), row(&[None, None, Some("cat"), Some("猫")])];
    match parse_cn_tag_dictionary_sheet(&rows) {
        Ok(m) => assert_eq!(m.entries, vec![pair("cat", "猫")]),
        Err(e) => panic!("unexpected error {e}"),
    }
    match parse_cn_tag_dictionary_sheet(&Vec::new()) {
        Err(e) => assert_eq!(e, "Dictionary sheet is empty"),
        Ok(_) => panic!("an empty sheet is an error"),
    }
}

#[test]
fn migration_checks() {
    assert_eq!(migration_target("  "), Err("请选择目标数据目录".to_string()));
    assert_eq!(migration_target(r" D:\new "), Ok(r"D:\new".to_string()));
    assert_eq!(check_migration_paths(r"C:\d", r"C:\d", '\\'), Some("目标目录与当前数据目录相同".to_string()));
    assert_eq!(check_migration_paths(r"C:\d", r"C:\d\sub", '\\'), Some("目标目录不能位于当前数据目录内部".to_string()));
    assert_eq!(check_migration_paths(r"C:\d", r"C:\d2", '\\'), None);
}

fn probe(name: &str, source: bool, target: bool, ss: u64, ts: u64) -> MigratedFileProbe {
    MigratedFileProbe { file_name: name.to_string(), source_is_file: source, target_is_file: target, source_size: ss, target_size: ts }
}

#[test]
fn migrated_files_validated_in_order() {
    assert_eq!(validate_migrated_data_directory(&vec![probe("a", false, false, 0, 0), probe("b", true, true, 3, 3)]), Ok(()));
    assert_eq!(
        validate_migrated_data_directory(&vec![probe("a.sqlite", true, false, 1, 0), probe("b", true, true, 1, 2)]),
        Err("迁移校验失败：目标目录缺少 a.sqlite".to_string())
    );
    assert_eq!(
        validate_migrated_data_directory(&vec![probe("b.sqlite", true, true, 1, 2)]),
        Err("迁移校验失败：b.sqlite 文件大小不一致".to_string())
    );
}

#[test]
fn portable_data_dir_notes() {
    assert_eq!(configured_data_dir(&Some(r" D:\data ".to_string())), Some(r"D:\data".to_string()));
    assert_eq!(configured_data_dir(&Some(" ".to_string())), None);
    assert!(use_legacy_data_dir(false, true));
    assert!(!use_legacy_data_dir(true, true));
    assert_eq!(legacy_data_dir_note("X"), "检测到旧版 AppData 数据库，当前暂时使用旧数据目录 X。可在设置中迁移数据目录。");
    assert_eq!(exe_data_dir_failure_note("A", "e", "S"), "无法创建 exe 同级 data 目录 A：e。已改用系统数据目录 S");
    assert_eq!(exe_dir_unknown_note("e", "S"), "无法定位 exe 数据目录：e。已改用系统数据目录 S");
    assert_eq!(configured_dir_failure_note("D", "e"), "配置的数据目录 D 无法创建：e。已回退到默认数据目录。");
}

#[test]
fn external_links_limited_to_project_page() {
    assert_eq!(
        checked_external_url(" https://github.com/YazawaSunrise/illuTag/releases "),
        Ok("https://github.com/YazawaSunrise/illuTag/releases".to_string())
    );
    assert!(checked_external_url("http://github.com/YazawaSunrise/illuTag").is_ok());
    assert_eq!(checked_external_url("https://example.com"), Err("Unsupported external URL".to_string()));
}
