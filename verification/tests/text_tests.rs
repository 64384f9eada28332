use illutag_core::text::{
    build_in_placeholders, clipboard_image_extension, dev_hash_i64, escape_like_pattern,
    is_permission_denied_error_text, legacy_model_name_to_model_id, mime_type_for_extension,
    normalize_batch_image_ids, normalize_optional_tag_text, normalize_tag_key, normalize_tag_text,
    sanitize_export_path_segment, split_search_tokens, stable_hash_hex, CHINESE_CLIP_MODEL_ID,
};

fn strings(v: &[&str]) -> Vec<String> {
    v.iter().map(|s| s.to_string()).collect()
}

#[test]
fn tag_text_is_trimmed() {
    assert_eq!(normalize_tag_text("  long hair \t"), "long hair");
    assert_eq!(normalize_tag_text("   "), "");
    assert_eq!(normalize_tag_text("\u{3000}猫耳\u{3000}"), "猫耳");
}

#[test]
fn optional_tag_text_drops_blank() {
    assert_eq!(normalize_optional_tag_text(None), None);
    assert_eq!(normalize_optional_tag_text(Some("  ".to_string())), None);
    assert_eq!(normalize_optional_tag_text(Some(" 长发 ".to_string())), Some("长发".to_string()));
}

#[test]
fn tag_key_lowercases_and_joins() {
    assert_eq!(normalize_tag_key("  Long-Hair Girl "), "long_hair_girl");
    assert_eq!(normalize_tag_key("already_key"), "already_key");
}

#[test]
fn tag_key_is_idempotent_on_example() {
    let once = normalize_tag_key(" Blue-Eyes ");
    assert_eq!(normalize_tag_key(&once), once);
}

#[test]
fn like_pattern_escapes_wildcards() {
    assert_eq!(escape_like_pattern("100%_a\\b"), "100\\%\\_a\\\\b");
    assert_eq!(escape_like_pattern("plain"), "plain");
}

#[test]
fn search_tokens_sorted_unique_lowercase() {
    assert_eq!(split_search_tokens("  Cat dog  CAT\tbird "), strings(&["bird", "cat", "dog"]));
    assert!(split_search_tokens("   ").is_empty());
}

#[test]
fn legacy_models_map_to_chinese_clip() {
    assert_eq!(legacy_model_name_to_model_id("clip-vit-b32"), CHINESE_CLIP_MODEL_ID);
    assert_eq!(legacy_model_name_to_model_id(""), "cn_clip_vit_base_patch16");
}

#[test]
fn permission_denied_detected_in_any_case() {
    assert!(is_permission_denied_error_text("Permission Denied (os error 13)"));
    assert!(is_permission_denied_error_text("ACCESS IS DENIED."));
    assert!(is_permission_denied_error_text("Operation not permitted"));
    assert!(is_permission_denied_error_text("拒绝访问。"));
    assert!(is_permission_denied_error_text("没有无权限"));
    assert!(!is_permission_denied_error_text("file not found"));
}

#[test]
fn export_segment_replaces_forbidden_characters() {
    assert_eq!(sanitize_export_path_segment("a<b>c:d", "x"), "a_b_c_d");
    assert_eq!(sanitize_export_path_segment("  name.. ", "x"), "name");
    assert_eq!(sanitize_export_path_segment(" ... ", "folder-7"), "folder-7");
    assert_eq!(sanitize_export_path_segment("tab\there", "x"), "tab_here");
}

#[test]
fn clipboard_extensions() {
    assert_eq!(clipboard_image_extension("image/jpeg"), "jpg");
    assert_eq!(clipboard_image_extension("image/jpg"), "jpg");
    assert_eq!(clipboard_image_extension("image/webp"), "webp");
    assert_eq!(clipboard_image_extension("image/gif"), "gif");
    assert_eq!(clipboard_image_extension("image/png"), "png");
    assert_eq!(clipboard_image_extension("text/plain"), "png");
}

#[test]
fn mime_types_for_extensions() {
    assert_eq!(mime_type_for_extension("jpg"), "image/jpeg");
    assert_eq!(mime_type_for_extension("png"), "image/png");
    assert_eq!(mime_type_for_extension("webp"), "image/webp");
    assert_eq!(mime_type_for_extension("JPEG"), "image/jpeg");
    assert_eq!(mime_type_for_extension("bmp"), "image/bmp");
    assert_eq!(mime_type_for_extension("gif"), "image/gif");
    assert_eq!(mime_type_for_extension("tiff"), "image/png");
}

#[test]
fn placeholders_for_sql_lists() {
    assert_eq!(build_in_placeholders(0), "");
    assert_eq!(build_in_placeholders(1), "?");
    assert_eq!(build_in_placeholders(3), "?, ?, ?");
}

#[test]
fn stable_hash_is_fnv1a() {
    assert_eq!(stable_hash_hex(""), "cbf29ce484222325");
    assert_eq!(stable_hash_hex("a"), "af63dc4c8601ec8c");
    assert_eq!(stable_hash_hex("a").len(), 16);
}

#[test]
fn dev_hash_is_positive_and_stable() {
    let a = dev_hash_i64(42);
    assert!(a >= 1);
    assert_eq!(a, dev_hash_i64(42));
    assert!(dev_hash_i64(i64::MIN) >= 1);
    assert!(dev_hash_i64(-1) >= 1);
}

#[test]
fn batch_ids_trimmed_unique_in_order() {
    let ids = strings(&[" b ", "a", "", "b", "  ", "c", "a"]);
    assert_eq!(normalize_batch_image_ids(ids), strings(&["b", "a", "c"]));
}

#[test]
fn batch_ids_normalizing_twice_changes_nothing() {
    let once = normalize_batch_image_ids(strings(&[" x", "y ", "x"]));
    assert_eq!(normalize_batch_image_ids(once.clone()), once);
}
