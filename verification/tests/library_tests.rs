use illutag_core::batch::{for_each_image_id_chunk, BATCH_SQL_VARIABLE_LIMIT_SAFE};
use illutag_core::export::{build_organized_export_folder_paths, organized_export_jobs, resolve_organized_export_folder_path};
use illutag_core::model::{
    natural_language_embedding_up_to_date, reorder_sibling_ids, reuse_existing_image_meta, thumbnail_up_to_date,
    ExistingImageMeta, GalleryImage, ImageFolderAssignment, NaturalLanguageEmbeddingCandidate, ReorderError,
    ThumbnailCandidate, UserFolder,
};
use illutag_core::payload::decode_external_image_payload;
use illutag_core::rules::{
    build_image_folder_rule_match_context, evaluate_user_folder_rule_condition, evaluate_user_folder_rule_conditions,
    normalize_user_folder_rule_conditions, normalize_user_folder_rule_logic, normalize_user_folder_rule_source,
    UserFolderRuleCondition,
};
use std::cell::RefCell;

fn folder(id: i64, parent_id: Option<i64>, name: &str) -> UserFolder {
    UserFolder {
        id,
        parent_id,
        name: name.to_string(),
        sort_order: 0,
        created_at: 0,
        updated_at: 0,
    }
}

fn image(id: &str, trashed: bool, missing: bool) -> GalleryImage {
    GalleryImage {
        id: id.to_string(),
        path: format!("C:/pics/{id}.png"),
        thumbnail_path: None,
        file_name: format!("{id}.png"),
        ext: "png".to_string(),
        width: 10,
        height: 10,
        file_size: 1,
        modified_at: 0,
        imported_at: 0,
        folder_id: 1,
        missing,
        trashed,
        is_favorite: false,
        source: "library".to_string(),
    }
}

fn condition(logic: &str, source: &str, keyword: &str) -> UserFolderRuleCondition {
    UserFolderRuleCondition { logic: logic.to_string(), source: source.to_string(), keyword: keyword.to_string() }
}

#[test]
fn ids_handled_in_chunks_of_nine_hundred() {
    let ids: Vec<String> = (0..2000).map(|i| i.to_string()).collect();
    let sizes = RefCell::new(Vec::new());
    let r = for_each_image_id_chunk(&ids, |chunk: &[String]| {
        sizes.borrow_mut().push(chunk.len());
        Ok(())
    });
    assert!(r.is_ok());
    assert_eq!(sizes.into_inner(), vec![BATCH_SQL_VARIABLE_LIMIT_SAFE, 900, 200]);
}

#[test]
fn chunks_stop_at_first_error() {
    let ids: Vec<String> = (0..1000).map(|i| i.to_string()).collect();
    let calls = RefCell::new(0);
    let r = for_each_image_id_chunk(&ids, |_chunk: &[String]| {
        *calls.borrow_mut() += 1;
        Err("db down".to_string())
    });
    assert_eq!(r, Err("db down".to_string()));
    assert_eq!(calls.into_inner(), 1);
}

#[test]
fn existing_meta_reused_only_when_unchanged() {
    let meta = ExistingImageMeta { width: 640, height: 480, file_size: 100, modified_at: 5, missing: 0 };
    assert_eq!(reuse_existing_image_meta(Some(&meta), 5, 100), Some((640, 480, true)));
    assert_eq!(reuse_existing_image_meta(Some(&meta), 6, 100), None);
    let missing = ExistingImageMeta { missing: 1, ..meta };
    assert_eq!(reuse_existing_image_meta(Some(&missing), 5, 100), Some((640, 480, false)));
    assert_eq!(reuse_existing_image_meta(None, 5, 100), None);
}

#[test]
fn embedding_up_to_date_when_source_time_matches() {
    let mut c = NaturalLanguageEmbeddingCandidate {
        image_id: "a".to_string(),
        image_path: "a.png".to_string(),
        modified_at: 9,
        current_source_modified_at: Some(9),
    };
    assert!(natural_language_embedding_up_to_date(&c));
    c.current_source_modified_at = Some(8);
    assert!(!natural_language_embedding_up_to_date(&c));
    c.current_source_modified_at = None;
    assert!(!natural_language_embedding_up_to_date(&c));
}

#[test]
fn thumbnail_up_to_date_needs_file_and_matching_source() {
    let c = ThumbnailCandidate {
        image_id: "a".to_string(),
        image_path: "a.png".to_string(),
        modified_at: 3,
        file_size: 4,
        current_thumb_path: Some("t.webp".to_string()),
        current_source_modified_at: Some(3),
        current_source_file_size: Some(4),
    };
    assert!(thumbnail_up_to_date(&c, true));
    assert!(!thumbnail_up_to_date(&c, false));
    let changed = ThumbnailCandidate { current_source_file_size: Some(5), ..c };
    assert!(!thumbnail_up_to_date(&changed, true));
}

#[test]
fn reorder_moves_item_to_target_position() {
    assert!(matches!(reorder_sibling_ids(vec![1, 2, 3, 4], 1, 3), Ok(v) if v == vec![2, 3, 1, 4]));
    assert!(matches!(reorder_sibling_ids(vec![1, 2, 3, 4], 4, 2), Ok(v) if v == vec![1, 4, 2, 3]));
    assert!(matches!(reorder_sibling_ids(vec![1, 2], 9, 2), Err(ReorderError::MovedNotFound)));
    assert!(matches!(reorder_sibling_ids(vec![1, 2], 1, 9), Err(ReorderError::TargetNotFound)));
}

#[test]
fn reorder_keeps_the_same_ids() {
    let mut v = match reorder_sibling_ids(vec![5, 6, 7, 8, 9], 9, 5) {
        Ok(v) => v,
        Err(_) => panic!("both ids are present"),
    };
    assert_eq!(v, vec![9, 5, 6, 7, 8]);
    v.sort();
    assert_eq!(v, vec![5, 6, 7, 8, 9]);
}

#[test]
fn export_folder_path_segments() {
    let folders = vec![folder(1, None, "Art"), folder(2, Some(1), "Cats: cute?"), folder(3, Some(9), " ")];
    let mut cache = Vec::new();
    assert_eq!(
        resolve_organized_export_folder_path(2, &folders, &mut cache),
        vec!["Art".to_string(), "Cats_ cute_".to_string()]
    );
    let mut ids: Vec<i64> = cache.iter().map(|(id, _)| *id).collect();
    ids.sort();
    assert_eq!(ids, vec![1, 2]);
    assert!(cache.contains(&(1, vec!["Art".to_string()])));
    assert_eq!(
        resolve_organized_export_folder_path(3, &folders, &mut cache),
        vec!["folder-9".to_string(), "folder-3".to_string()]
    );
    assert_eq!(resolve_organized_export_folder_path(42, &folders, &mut cache), vec!["folder-42".to_string()]);
    let mut ids: Vec<i64> = cache.iter().map(|(id, _)| *id).collect();
    ids.sort();
    assert_eq!(ids, vec![1, 2, 3]);
    let before = cache.len();
    assert_eq!(
        resolve_organized_export_folder_path(2, &folders, &mut cache),
        vec!["Art".to_string(), "Cats_ cute_".to_string()]
    );
    assert_eq!(cache.len(), before);
    let all = build_organized_export_folder_paths(&folders);
    assert_eq!(all.len(), 3);
    assert_eq!(all[0], (1, vec!["Art".to_string()]));
}

#[test]
fn export_jobs_skip_trashed_missing_and_unknown() {
    let images = vec![image("a", false, false), image("b", true, false), image("c", false, true)];
    let folders = vec![folder(1, None, "Art")];
    let assignments = vec![
        ImageFolderAssignment { image_id: "a".to_string(), folder_id: 1 },
        ImageFolderAssignment { image_id: "b".to_string(), folder_id: 1 },
        ImageFolderAssignment { image_id: "c".to_string(), folder_id: 1 },
        ImageFolderAssignment { image_id: "zz".to_string(), folder_id: 1 },
        ImageFolderAssignment { image_id: "a".to_string(), folder_id: 7 },
    ];
    assert_eq!(organized_export_jobs(&images, &folders, &assignments), vec![(0, 1)]);
}

#[test]
fn payload_bytes_win_over_text() {
    let r = decode_external_image_payload(Some(vec![1, 2, 3]), Some("aGVsbG8=".to_string()));
    assert_eq!(r, Ok(Some(vec![1, 2, 3])));
}

#[test]
fn payload_data_url_decoded() {
    let r = decode_external_image_payload(None, Some(" data:image/png;base64,aGVsbG8= ".to_string()));
    assert_eq!(r, Ok(Some(b"hello".to_vec())));
    let plain = decode_external_image_payload(Some(Vec::new()), Some("aGk=".to_string()));
    assert_eq!(plain, Ok(Some(b"hi".to_vec())));
}

#[test]
fn payload_absent_or_invalid() {
    assert_eq!(decode_external_image_payload(None, None), Ok(None));
    assert_eq!(decode_external_image_payload(None, Some("   ".to_string())), Ok(None));
    match decode_external_image_payload(None, Some("not base64!".to_string())) {
        Err(e) => assert!(e.starts_with("Failed to decode imageBase64: ")),
        Ok(_) => panic!("invalid base64 must fail"),
    }
}

#[test]
fn rule_words_normalized() {
    assert_eq!(normalize_user_folder_rule_logic(" and "), Some("AND"));
    assert_eq!(normalize_user_folder_rule_logic("Not"), Some("NOT"));
    assert_eq!(normalize_user_folder_rule_logic("xor"), None);
    assert_eq!(normalize_user_folder_rule_source(" FileName "), Some("filename"));
    assert_eq!(normalize_user_folder_rule_source("Danbooru"), Some("danbooru"));
    assert_eq!(normalize_user_folder_rule_source("web"), None);
}

#[test]
fn rule_conditions_errors_reported() {
    match normalize_user_folder_rule_conditions(vec![condition("and", "custom", " cat "), condition("xor", "custom", "a")]) {
        Err(e) => assert_eq!(e, "Unsupported rule logic: xor"),
        Ok(_) => panic!("xor is not a logic word"),
    }
    match normalize_user_folder_rule_conditions(vec![condition("or", "web", "a")]) {
        Err(e) => assert_eq!(e, "Unsupported rule source: web"),
        Ok(_) => panic!("web is not a source"),
    }
    match normalize_user_folder_rule_conditions(vec![condition("or", "custom", "  ")]) {
        Err(e) => assert_eq!(e, "Rule keyword cannot be empty"),
        Ok(_) => panic!("blank keyword"),
    }
    match normalize_user_folder_rule_conditions(vec![condition(" and", "Custom ", " cat ")]) {
        Ok(v) => {
            assert_eq!(v.len(), 1);
            assert_eq!((v[0].logic.as_str(), v[0].source.as_str(), v[0].keyword.as_str()), ("AND", "custom", "cat"));
        },
        Err(e) => panic!("unexpected error {e}"),
    }
}

#[test]
fn rule_conditions_evaluated_left_to_right() {
    let auto = vec![("Long_Hair".to_string(), "长发".to_string())];
    let supplement = vec![("smile".to_string(), "".to_string())];
    let custom = vec!["  Favourite ".to_string()];
    let ctx = build_image_folder_rule_match_context("Holiday_Photo.PNG", &auto, &supplement, &custom);
    assert_eq!(ctx.file_name_lower, "holiday_photo.png");
    assert!(evaluate_user_folder_rule_condition(&ctx, &condition("AND", "danbooru", "LONG_HAIR")));
    assert!(evaluate_user_folder_rule_condition(&ctx, &condition("AND", "danbooru", "长发")));
    assert!(evaluate_user_folder_rule_condition(&ctx, &condition("AND", "custom", "favourite")));
    assert!(evaluate_user_folder_rule_condition(&ctx, &condition("AND", "filename", "photo")));
    assert!(!evaluate_user_folder_rule_condition(&ctx, &condition("AND", "danbooru", "hair")));
    let rule = vec![
        condition("AND", "danbooru", "smile"),
        condition("AND", "filename", "holiday"),
        condition("NOT", "custom", "favourite"),
    ];
    assert!(!evaluate_user_folder_rule_conditions(&ctx, &rule));
    let rule2 = vec![condition("NOT", "danbooru", "cat"), condition("OR", "custom", "x")];
    assert!(evaluate_user_folder_rule_conditions(&ctx, &rule2));
    assert!(!evaluate_user_folder_rule_conditions(&ctx, &Vec::new()));
}
