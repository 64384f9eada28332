use illutag_core::paths::PathHost;
use illutag_core::paths::{
    clipboard_file_name_candidate, expected_thumbnail_path_for_image_id, export_file_name_candidate,
    external_image_temp_file_name, is_supported_image, join_name_exec, normalize_windows_path_for_recycle_bin,
    path_prefix_variants, reference_file_name_candidate, remap_backup_path, replace_path_prefix,
    strip_windows_long_path_prefix, target_prefix_for_source_variant, BackupPathMapping,
};
use illutag_core::text::stable_hash_hex;

fn strings(v: &[&str]) -> Vec<String> {
    v.iter().map(|s| s.to_string()).collect()
}

fn mapping(from: &str, to: &str) -> BackupPathMapping {
    BackupPathMapping { from: from.to_string(), to: to.to_string() }
}

#[test]
fn long_path_prefix_is_stripped() {
    assert_eq!(strip_windows_long_path_prefix(r"\\?\C:\data"), r"C:\data");
    assert_eq!(strip_windows_long_path_prefix(r"C:\data"), r"C:\data");
    assert_eq!(strip_windows_long_path_prefix(r"\\?"), r"\\?");
}

#[test]
fn recycle_bin_path_unc_and_plain() {
    assert_eq!(normalize_windows_path_for_recycle_bin(PathHost::Windows, r"\\?\UNC\server\share\a.png"), r"\\server\share\a.png");
    assert_eq!(normalize_windows_path_for_recycle_bin(PathHost::Windows, r"\\?\D:\pics\a.png"), r"D:\pics\a.png");
    assert_eq!(normalize_windows_path_for_recycle_bin(PathHost::Windows, r"D:\pics\a.png"), r"D:\pics\a.png");
    assert_eq!(normalize_windows_path_for_recycle_bin(PathHost::Unix, r"\\?\D:\a.png"), r"\\?\D:\a.png");
}

#[test]
fn prefix_variants_unique_and_longest_first() {
    let v = path_prefix_variants(&strings(&[r"\\?\C:\Data"]));
    assert_eq!(v, strings(&[r"\\?\C:\Data", "//?/C:/Data", r"C:\Data", "C:/Data"]));
}

#[test]
fn prefix_variants_ignore_case_duplicates() {
    let v = path_prefix_variants(&strings(&[r"C:\A", r"c:\a", ""]));
    assert_eq!(v, strings(&[r"C:\A", "C:/A"]));
}

#[test]
fn target_prefix_follows_source_style() {
    assert_eq!(target_prefix_for_source_variant("C:/old", r"\\?\D:\new"), "D:/new");
    assert_eq!(target_prefix_for_source_variant(r"\\?\C:\old", r"\\?\D:\new"), r"\\?\D:\new");
    assert_eq!(target_prefix_for_source_variant(r"C:\old", r"\\?\D:\new"), r"D:\new");
}

#[test]
fn path_prefix_replaced_ignoring_ascii_case() {
    let prefixes = strings(&[r"C:\Old"]);
    assert_eq!(replace_path_prefix(r"c:\old\img\a.png", &prefixes, r"D:\New"), Some(r"D:\New\img\a.png".to_string()));
    assert_eq!(replace_path_prefix(r"E:\other\a.png", &prefixes, r"D:\New"), None);
    assert_eq!(replace_path_prefix("C:", &prefixes, r"D:\New"), None);
}

#[test]
fn backup_path_remapped_by_longest_mapping() {
    let maps = vec![mapping(r"C:\Pics", r"D:\Photos\"), mapping(r"C:\Pics\Cats", r"E:\Cats")];
    assert_eq!(remap_backup_path(r"c:\pics\dogs\a.png", &maps), r"D:\Photos\dogs\a.png");
    assert_eq!(remap_backup_path(r"C:\Pics\Cats\b.png", &maps), r"E:\Cats\b.png");
    assert_eq!(remap_backup_path(r"C:\Pics", &maps), r"D:\Photos");
    assert_eq!(remap_backup_path(r"C:\Picsx\a.png", &maps), r"C:\Picsx\a.png");
}

#[test]
fn backup_path_blank_mappings_ignored() {
    let maps = vec![mapping("  ", r"D:\x"), mapping(r"C:\a", " ")];
    assert_eq!(remap_backup_path(r"C:\a\b", &maps), r"C:\a\b");
}

#[test]
fn supported_image_extensions_any_case() {
    assert!(is_supported_image(PathHost::Windows, r"C:\a\b.JPG"));
    assert!(is_supported_image(PathHost::Windows, "x/y.webp"));
    assert!(is_supported_image(PathHost::Windows, "pic.tiff"));
    assert!(!is_supported_image(PathHost::Windows, "notes.txt"));
    assert!(!is_supported_image(PathHost::Windows, ".png"));
    assert!(!is_supported_image(PathHost::Windows, "folder/"));
}

#[test]
fn join_adds_backslash_when_needed() {
    assert_eq!(join_name_exec(PathHost::Windows, r"C:\a", &"b".chars().collect()), r"C:\a\b");
    assert_eq!(join_name_exec(PathHost::Windows, r"C:\a\", &"b".chars().collect()), r"C:\a\b");
    assert_eq!(join_name_exec(PathHost::Windows, "C:", &"b".chars().collect()), "C:b");
    assert_eq!(join_name_exec(PathHost::Windows, "", &"b".chars().collect()), "b");
}

#[test]
fn thumbnail_path_uses_stable_hash() {
    let p = expected_thumbnail_path_for_image_id(PathHost::Windows, r"D:\thumbs", "img-1");
    assert_eq!(p, format!(r"D:\thumbs\{}.webp", stable_hash_hex("img-1")));
}

#[test]
fn reference_file_names_count_up() {
    assert_eq!(reference_file_name_candidate(PathHost::Windows, "cat.jpg", 0), "cat.jpg");
    assert_eq!(reference_file_name_candidate(PathHost::Windows, "cat.jpg", 2), "cat-2.jpg");
    assert_eq!(reference_file_name_candidate(PathHost::Windows, "noext", 0), "noext.png");
    assert_eq!(reference_file_name_candidate(PathHost::Windows, "", 1), "reference-1.png");
}

#[test]
fn export_file_names_count_up() {
    assert_eq!(export_file_name_candidate("cat.jpg", 0), "cat.jpg");
    assert_eq!(export_file_name_candidate("cat.jpg", 3), "cat (3).jpg");
    assert_eq!(export_file_name_candidate("a:b", 1), "a_b (1)");
    assert_eq!(export_file_name_candidate("  ", 0), "image");
}

#[test]
fn clipboard_file_names() {
    assert_eq!(clipboard_file_name_candidate(1700, None, 0, "png"), "clipboard-1700.png");
    assert_eq!(clipboard_file_name_candidate(1700, None, 2, "png"), "clipboard-1700-2.png");
    assert_eq!(clipboard_file_name_candidate(1700, Some(3), 0, "jpg"), "clipboard-1700-3.jpg");
    assert_eq!(clipboard_file_name_candidate(-5, Some(0), 1, "gif"), "clipboard--5-0-1.gif");
}

#[test]
fn external_query_file_name_hashes_time_and_size() {
    assert_eq!(external_image_temp_file_name(12, 34), format!("query-{}.img", stable_hash_hex("12-34")));
}

#[test]
fn unix_paths_join_and_split_with_slash() {
    assert_eq!(expected_thumbnail_path_for_image_id(PathHost::Unix, "/t", ""), "/t/cbf29ce484222325.webp");
    assert_eq!(expected_thumbnail_path_for_image_id(PathHost::Unix, "/t/", ""), "/t/cbf29ce484222325.webp");
    assert_eq!(expected_thumbnail_path_for_image_id(PathHost::Windows, "C:\\t", ""), "C:\\t\\cbf29ce484222325.webp");
    assert_eq!(join_name_exec(PathHost::Unix, "", &"a".chars().collect()), "a");
    assert_eq!(join_name_exec(PathHost::Unix, "C:", &"a".chars().collect()), "C:/a");
    assert!(is_supported_image(PathHost::Unix, "/pics/cat.PNG"));
    assert!(!is_supported_image(PathHost::Unix, "/pics/cat.png/.."));
    assert_eq!(reference_file_name_candidate(PathHost::Unix, "dir\\cat.jpg", 0), "dir\\cat.jpg");
    assert_eq!(reference_file_name_candidate(PathHost::Windows, "dir\\cat.jpg", 0), "cat.jpg");
}
