use vstd::prelude::*;
use crate::text::owned_string;

verus! {

/// A folder of image files that the library scans.
pub struct LibraryFolder {
    pub id: i64,
    pub path: String,
    pub added_at: i64,
    pub last_scanned_at: Option<i64>,
}

/// One image of the gallery.
#[derive(Clone, Debug)]
pub struct GalleryImage {
    pub id: String,
    pub path: String,
    pub thumbnail_path: Option<String>,
    pub file_name: String,
    pub ext: String,
    pub width: u32,
    pub height: u32,
    pub file_size: i64,
    pub modified_at: i64,
    pub imported_at: i64,
    pub folder_id: i64,
    pub missing: bool,
    pub trashed: bool,
    pub is_favorite: bool,
    pub source: String,
}

/// One page of gallery images.
pub struct GalleryImagePage {
    pub images: Vec<GalleryImage>,
    pub total_image_count: i64,
    pub offset: i64,
    pub limit: i64,
}

/// Options for generating fake gallery rows in development builds.
pub struct DevFakeGalleryOptions {
    pub count: i64,
    pub source_folder: Option<String>,
    pub sample_image_ids: Option<Vec<String>>,
    pub randomize_dimensions: Option<bool>,
    pub randomize_file_names: Option<bool>,
    pub randomize_imported_at: Option<bool>,
    pub randomize_folders: Option<bool>,
    pub randomize_favorites: Option<bool>,
    pub randomize_tags: Option<bool>,
}

/// Options for generating many small test files in development builds.
pub struct DevSmallFileSetOptions {
    pub count: i64,
    pub root_dir: Option<String>,
    pub format: Option<String>,
    pub subfolder_count: Option<i64>,
}

/// What a development stress tool created or removed.
pub struct DevStressToolResult {
    pub created_images: i64,
    pub created_files: i64,
    pub deleted_images: i64,
    pub deleted_files: i64,
    pub root_path: Option<String>,
    pub database_path: String,
}

/// A folder of the user's own folder tree.
pub struct UserFolder {
    pub id: i64,
    pub parent_id: Option<i64>,
    pub name: String,
    pub sort_order: i64,
    pub created_at: i64,
    pub updated_at: i64,
}

/// An image filed in a user folder.
pub struct ImageFolderAssignment {
    pub image_id: String,
    pub folder_id: i64,
}

/// A folder of reference boards.
pub struct ReferenceBoardFolder {
    pub id: i64,
    pub name: String,
    pub sort_order: i64,
    pub created_at: i64,
    pub updated_at: i64,
}

/// A reference board.
pub struct ReferenceBoard {
    pub id: i64,
    pub folder_id: Option<i64>,
    pub name: String,
    pub sort_order: i64,
    pub created_at: i64,
    pub updated_at: i64,
}

/// The bytes of an image file with its MIME type and name.
pub struct ImageBytes {
    pub bytes: Vec<u8>,
    pub mime_type: String,
    pub file_name: String,
}

/// An image pasted onto a reference board.
pub struct ReferenceBoardPasteImageInput {
    pub image_bytes: Vec<u8>,
    pub mime_type: String,
}

/// A supplement tag to add to several images.
pub struct BatchSupplementTagInput {
    pub tag_en: String,
    pub tag_zh: Option<String>,
}

/// A tag suggested while typing, with the number of images that carry it.
pub struct KnownAutoTagSuggestion {
    pub tag_en: String,
    pub tag_zh: Option<String>,
    pub image_count: i64,
    pub is_user_custom: bool,
}

/// A free-text tag the user gave an image.
pub struct ImageUserCustomTag {
    pub tag_text: String,
}

/// A dictionary tag the user added to an image.
pub struct ImageUserSupplementTag {
    pub tag_en: String,
    pub tag_zh: Option<String>,
}

/// The user's own tags of one image.
pub struct ImageUserTagSummary {
    pub image_id: String,
    pub custom_tags: Vec<ImageUserCustomTag>,
    pub supplement_tags: Vec<ImageUserSupplementTag>,
}

/// A folder grouping custom tags.
pub struct UserTagFolder {
    pub id: i64,
    pub name: String,
    pub sort_order: i64,
    pub tags: Vec<String>,
}

/// The custom tag folders and the tags in none of them.
pub struct TagManagementState {
    pub folders: Vec<UserTagFolder>,
    pub unclassified_tags: Vec<String>,
}

/// One tag of the tag dictionary browser.
pub struct TagDictionaryBrowserItem {
    pub tag_en: String,
    pub tag_zh: Option<String>,
    pub group: String,
    pub image_count: i64,
    pub sort_index: i64,
}

/// The groups and tags shown by the tag dictionary browser.
pub struct TagDictionaryBrowserState {
    pub groups: Vec<crate::csv::TagDictionaryGroup>,
    pub tags: Vec<TagDictionaryBrowserItem>,
}

/// A custom tag of an image, as saved in a backup.
pub struct BackupImageUserCustomTag {
    pub image_id: String,
    pub tag_text: String,
    pub created_at: i64,
    pub updated_at: i64,
}

/// A supplement tag of an image, as saved in a backup.
pub struct BackupImageUserSupplementTag {
    pub image_id: String,
    pub tag_en: String,
    pub tag_zh: Option<String>,
    pub created_at: i64,
    pub updated_at: i64,
}

/// A known custom tag, as saved in a backup.
pub struct BackupUserCustomTag {
    pub tag_text: String,
    pub created_at: i64,
    pub updated_at: i64,
}

/// A custom tag folder, as saved in a backup.
pub struct BackupUserTagFolder {
    pub id: i64,
    pub name: String,
    pub sort_order: i64,
    pub created_at: i64,
    pub updated_at: i64,
}

/// A tag in a custom tag folder, as saved in a backup.
pub struct BackupUserTagFolderMember {
    pub folder_id: i64,
    pub tag_text: String,
    pub created_at: i64,
    pub updated_at: i64,
}

/// An application setting, as saved in a backup.
pub struct BackupAppMeta {
    pub key: String,
    pub value: String,
    pub updated_at: i64,
}

/// Whether a path named in a backup exists on this machine.
pub struct BackupPathStatus {
    pub path: String,
    pub exists: bool,
}

/// The record written next to an organised export.
pub struct OrganizedExportManifest {
    pub format: String,
    pub schema_version: i64,
    pub exported_at: i64,
    pub app_version: String,
    pub entries: Vec<OrganizedExportManifestEntry>,
}

/// One exported image of an organised export.
pub struct OrganizedExportManifestEntry {
    pub image_id: String,
    pub original_path: String,
    pub folder_id: i64,
    pub folder_path: String,
    pub exported_path: String,
}

/// What the index holds about an image file from an earlier scan.
#[derive(Clone, Debug)]
pub struct ExistingImageMeta {
    pub width: u32,
    pub height: u32,
    pub file_size: i64,
    pub modified_at: i64,
    pub missing: i64,
}

/// The dimensions a scan may take over from the index without reading the
/// image, and whether the row needs no update: possible only when the file's
/// modification time and size still match; the row needs no update unless
/// it was marked missing.
pub open spec fn reusable_scan_meta(meta: Option<ExistingImageMeta>, modified_at: i64, file_size: i64) -> Option<(u32, u32, bool)> {
    match meta {
        Some(m) => if m.modified_at == modified_at && m.file_size == file_size {
            Some((m.width, m.height, m.missing == 0))
        } else {
            None
        },
        None => None,
    }
}

/// The dimensions a scan takes over from the index (see [`reusable_scan_meta`]);
/// `None` means the image must be read.
pub fn reuse_existing_image_meta(meta: Option<&ExistingImageMeta>, modified_at: i64, file_size: i64) -> (r: Option<(u32, u32, bool)>)
    ensures
        r == reusable_scan_meta(match meta { Some(m) => Some(*m), None => None }, modified_at, file_size),
{
    match meta {
        Some(m) => {
            if m.modified_at == modified_at && m.file_size == file_size {
                Some((m.width, m.height, m.missing == 0))
            } else {
                None
            }
        },
        None => None,
    }
}

/// An image that may need a natural-language embedding.
pub struct NaturalLanguageEmbeddingCandidate {
    pub image_id: String,
    pub image_path: String,
    pub modified_at: i64,
    pub current_source_modified_at: Option<i64>,
}

/// Whether the stored embedding of an image was made from the current file:
/// it exists and was made from a file with the same modification time.
pub fn natural_language_embedding_up_to_date(candidate: &NaturalLanguageEmbeddingCandidate) -> (r: bool)
    ensures
        r == (candidate.current_source_modified_at == Some(candidate.modified_at)),
{
    match candidate.current_source_modified_at {
        Some(source_modified_at) => source_modified_at == candidate.modified_at,
        None => false,
    }
}

/// An image that may need a thumbnail.
pub struct ThumbnailCandidate {
    pub image_id: String,
    pub image_path: String,
    pub modified_at: i64,
    pub file_size: i64,
    pub current_thumb_path: Option<String>,
    pub current_source_modified_at: Option<i64>,
    pub current_source_file_size: Option<i64>,
}

/// Whether the stored thumbnail of an image is current: a thumbnail path is
/// recorded, that file exists (`thumb_is_file`, as the caller found it), and
/// it was made from a file with the same modification time and size.
pub fn thumbnail_up_to_date(candidate: &ThumbnailCandidate, thumb_is_file: bool) -> (r: bool)
    ensures
        r == (candidate.current_thumb_path is Some && thumb_is_file
            && candidate.current_source_modified_at == Some(candidate.modified_at)
            && candidate.current_source_file_size == Some(candidate.file_size)),
{
    if candidate.current_thumb_path.is_none() {
        return false;
    }
    if !thumb_is_file {
        return false;
    }
    match (candidate.current_source_modified_at, candidate.current_source_file_size) {
        (Some(modified_at), Some(file_size)) => {
            modified_at == candidate.modified_at && file_size == candidate.file_size
        },
        _ => false,
    }
}

/// Why siblings could not be reordered.
pub enum ReorderError {
    /// The moved item is not among the siblings.
    MovedNotFound,
    /// The target item is not among the siblings.
    TargetNotFound,
}

/// Position of the first `id` in `ids`.
pub open spec fn first_position(ids: Seq<i64>, id: i64) -> Option<int> {
    if exists|i: int| 0 <= i < ids.len() && ids[i] == id {
        Some(choose|i: int| 0 <= i < ids.len() && ids[i] == id && forall|j: int| 0 <= j < i ==> ids[j] != id)
    } else {
        None
    }
}

/// The sibling order after dragging the item `moved` onto `target`: the
/// moved item is taken out and put in at the target's former position.
pub open spec fn reordered(ids: Seq<i64>, from: int, to: int) -> Seq<i64> {
    ids.remove(from).insert(to, ids[from])
}

/// Position of the first `id` in `ids`.
fn position_of(ids: &Vec<i64>, id: i64) -> (r: Option<usize>)
    ensures
        match r {
            Some(i) => first_position(ids@, id) == Some(i as int) && i < ids@.len(),
            None => first_position(ids@, id) is None,
        },
{
    let mut i: usize = 0;
    while i < ids.len()
        invariant
            i <= ids.len(),
            forall|j: int| 0 <= j < i ==> ids@[j] != id,
        decreases ids.len() - i,
    {
        if ids[i] == id {
            proof {
                let c = choose|c: int| 0 <= c < ids@.len() && ids@[c] == id && forall|j: int| 0 <= j < c ==> ids@[j] != id;
                if c < i {
                } else if c > i {
                    assert(ids@[i as int] == id);
                }
            }
            return Some(i);
        }
        i = i + 1;
    }
    None
}

/// The new order of sibling ids when `moved_id` is dragged onto
/// `target_id` (see [`reordered`]); fails when either is not a sibling.
pub fn reorder_sibling_ids(sibling_ids: Vec<i64>, moved_id: i64, target_id: i64) -> (r: Result<Vec<i64>, ReorderError>)
    ensures
        match (first_position(sibling_ids@, moved_id), first_position(sibling_ids@, target_id)) {
            (None, _) => r matches Err(ReorderError::MovedNotFound),
            (Some(_), None) => r matches Err(ReorderError::TargetNotFound),
            (Some(from), Some(to)) => r matches Ok(v) && v@ == reordered(sibling_ids@, from, to),
        },
{
    let from = match position_of(&sibling_ids, moved_id) {
        Some(i) => i,
        None => return Err(ReorderError::MovedNotFound),
    };
    let to = match position_of(&sibling_ids, target_id) {
        Some(i) => i,
        None => return Err(ReorderError::TargetNotFound),
    };
    let mut ids = sibling_ids;
    let ghost original = ids@;
    let moved = ids.remove(from);
    ids.insert(to, moved);
    proof {
        assert(ids@ == reordered(original, from as int, to as int));
    }
    Ok(ids)
}

/// Reordering keeps the same ids: the result is a permutation of the siblings,
/// and the moved item ends up at the target's former position.
pub proof fn law_reorder_is_permutation(ids: Seq<i64>, from: int, to: int)
    requires
        0 <= from < ids.len(),
        0 <= to < ids.len(),
    ensures
        reordered(ids, from, to).to_multiset() == ids.to_multiset(),
        reordered(ids, from, to).len() == ids.len(),
        reordered(ids, from, to)[to] == ids[from],
{
    broadcast use vstd::seq_lib::group_seq_properties;
    let removed = ids.remove(from);
    vstd::seq_lib::to_multiset_remove(ids, from);
    vstd::seq_lib::to_multiset_insert(removed, to, ids[from]);
    assert(ids.to_multiset().remove(ids[from]).insert(ids[from]) =~= ids.to_multiset());
}

/// The error for dragging a folder onto one with another parent ("only
/// folders of one level can be reordered for now").
pub open spec fn cross_level_reorder_error() -> Seq<char> {
    "\u{6682}\u{65f6}\u{53ea}\u{652f}\u{6301}\u{540c}\u{5c42}\u{7ea7}\u{6587}\u{4ef6}\u{5939}\u{6392}\u{5e8f}"@
}

/// The error for a dragged folder missing among its siblings ("cannot find
/// the folder to reorder").
pub open spec fn moved_folder_missing_error() -> Seq<char> {
    "\u{627e}\u{4e0d}\u{5230}\u{8981}\u{6392}\u{5e8f}\u{7684}\u{6587}\u{4ef6}\u{5939}"@
}

/// The error for a target folder missing among the siblings ("cannot find
/// the target folder").
pub open spec fn target_folder_missing_error() -> Seq<char> {
    "\u{627e}\u{4e0d}\u{5230}\u{76ee}\u{6807}\u{6587}\u{4ef6}\u{5939}"@
}

/// What dragging folder `folder_id` (under `dragged_parent`) onto folder
/// `target_folder_id` (under `target_parent`) does to the sibling folders
/// `sibling_ids` of the dragged one, in their current order. Dropping a folder
/// on itself changes nothing (`Ok(None)`); folders of different parents are
/// refused; otherwise the new order of the siblings (see [`reordered`]), in
/// which each folder's position is its new sort order, or an error when
/// either folder is not among the siblings.
pub fn plan_user_folder_reorder(
    folder_id: i64,
    dragged_parent: Option<i64>,
    target_folder_id: i64,
    target_parent: Option<i64>,
    sibling_ids: Vec<i64>,
) -> (r: Result<Option<Vec<i64>>, String>)
    ensures
        folder_id == target_folder_id ==> r matches Ok(None),
        folder_id != target_folder_id && dragged_parent != target_parent ==> (r matches Err(e)
            && e@ == cross_level_reorder_error()),
        folder_id != target_folder_id && dragged_parent == target_parent ==> match (
            first_position(sibling_ids@, folder_id),
            first_position(sibling_ids@, target_folder_id),
        ) {
            (None, _) => r matches Err(e) && e@ == moved_folder_missing_error(),
            (Some(_), None) => r matches Err(e) && e@ == target_folder_missing_error(),
            (Some(from), Some(to)) => r matches Ok(Some(v)) && v@ == reordered(sibling_ids@, from, to),
        },
{
    if folder_id == target_folder_id {
        return Ok(None);
    }
    if dragged_parent != target_parent {
        return Err(owned_string("\u{6682}\u{65f6}\u{53ea}\u{652f}\u{6301}\u{540c}\u{5c42}\u{7ea7}\u{6587}\u{4ef6}\u{5939}\u{6392}\u{5e8f}"));
    }
    match reorder_sibling_ids(sibling_ids, folder_id, target_folder_id) {
        Ok(v) => Ok(Some(v)),
        Err(ReorderError::MovedNotFound) => Err(owned_string("\u{627e}\u{4e0d}\u{5230}\u{8981}\u{6392}\u{5e8f}\u{7684}\u{6587}\u{4ef6}\u{5939}")),
        Err(ReorderError::TargetNotFound) => Err(owned_string("\u{627e}\u{4e0d}\u{5230}\u{76ee}\u{6807}\u{6587}\u{4ef6}\u{5939}")),
    }
}

} // verus!
