use vstd::prelude::*;
use crate::chars::{trim, lower_ascii_seq, str_chars, trim_chars, lower_ascii_chars, chars_eq_str, push_all, push_str_chars, string_from_chars};
use crate::model::DevFakeGalleryOptions;
use crate::paths::{decimal, decimal_chars};
use crate::text::{dev_hash, dev_hash_i64, owned_string};

verus! {

/// The most rows or files a development stress tool makes in one go.
pub const DEV_MAX_COUNT: i64 = 200000;

/// How many rows or files a stress tool makes: the request clamped to
/// 0 ..= [`DEV_MAX_COUNT`].
pub open spec fn dev_count(count: i64) -> i64 {
    if count < 0 {
        0
    } else if count > DEV_MAX_COUNT {
        DEV_MAX_COUNT
    } else {
        count
    }
}

/// How many rows or files a stress tool makes (see [`dev_count`]).
pub fn dev_stress_count(count: i64) -> (r: i64)
    ensures
        r == dev_count(count),
{
    if count < 0 {
        0
    } else if count > DEV_MAX_COUNT {
        DEV_MAX_COUNT
    } else {
        count
    }
}

/// The decimal digits of `n`, with zeros in front up to `width` digits
/// (`format!("{n:0width$}")`).
pub open spec fn padded_decimal(n: nat, width: nat) -> Seq<char> {
    let d = decimal(n);
    if d.len() < width {
        Seq::new((width - d.len()) as nat, |i: int| '0') + d
    } else {
        d
    }
}

/// Appends the digits of `n` padded with zeros to `width` to `s`.
fn push_padded_decimal(s: &mut String, n: u64, width: usize)
    ensures
        final(s)@ == old(s)@ + padded_decimal(n as nat, width as nat),
{
    let digits = decimal_chars(n);
    let mut k: usize = digits.len();
    let ghost start = s@;
    while k < width
        invariant
            digits.len() <= k <= width || (k == digits.len() && width < k),
            s@ == start + Seq::new((k - digits.len()) as nat, |i: int| '0'),
        decreases width - k,
    {
        let ghost prev = s@;
        s.push('0');
        k = k + 1;
        proof {
            assert(s@ =~= start + Seq::new((k - digits.len()) as nat, |i: int| '0'));
        }
    }
    push_all(s, &digits);
    proof {
        if digits.len() < width {
            assert(final(s)@ =~= old(s)@ + padded_decimal(n as nat, width as nat));
        } else {
            assert(Seq::new(0nat, |i: int| '0') =~= Seq::<char>::empty());
            assert(final(s)@ =~= old(s)@ + padded_decimal(n as nat, width as nat));
        }
    }
}

/// A real image a fake gallery row borrows its file from.
#[derive(Clone, Debug)]
pub struct DevSampleImage {
    pub path: String,
    pub file_name: String,
    pub ext: String,
    pub width: u32,
    pub height: u32,
    pub file_size: i64,
    pub modified_at: i64,
}

/// One fake gallery row: its id, path, name and extension, size,
/// import time, whether it is a favourite, the position of the user folder
/// it is put in (if folders are spread), the tag it gets (if tags are
/// spread), and the seed its random choices came from.
pub struct DevFakeImageRow {
    pub image_id: String,
    pub path: String,
    pub file_name: String,
    pub ext: String,
    pub width: u32,
    pub height: u32,
    pub file_size: i64,
    pub modified_at: i64,
    pub imported_at: i64,
    pub is_favorite: bool,
    pub folder_slot: Option<usize>,
    pub tag: Option<String>,
    pub seed: i64,
}

/// How far back a fake import time may lie: 180 days, in milliseconds.
pub const DEV_IMPORT_SPREAD_MS: i64 = 15552000000;

/// The tag the seed picks for a fake row.
pub open spec fn dev_tag(seed: i64) -> Seq<char> {
    if seed % 5 == 0 {
        "dev_warm_color"@
    } else if seed % 5 == 1 {
        "dev_cool_color"@
    } else if seed % 5 == 2 {
        "dev_lineart"@
    } else if seed % 5 == 3 {
        "dev_character"@
    } else {
        "dev_landscape"@
    }
}

/// The fake gallery row number `index`, made at time `now` from the sample
/// images and the options; `folder_count` user folders are there to spread
/// rows over. Each choice that the options leave random (dimensions, file
/// names and import times by default, favourites and tags when asked) comes
/// from the seed `dev_hash(index + now)`.
pub open spec fn dev_fake_row_matches(
    row: DevFakeImageRow,
    index: i64,
    now: i64,
    sample: DevSampleImage,
    options: DevFakeGalleryOptions,
    folder_count: usize,
) -> bool {
    let seed = dev_hash((index + now) as i64);
    let id = "illutag-dev-fake:"@ + padded_decimal(index as nat, 8);
    &&& row.seed == seed
    &&& row.image_id@ == id
    &&& row.path@ == sample.path@ + "#"@ + id
    &&& row.ext@ == sample.ext@
    &&& row.file_size == sample.file_size
    &&& row.modified_at == sample.modified_at
    &&& row.width == if options.randomize_dimensions != Some(false) {
        (320 + seed % 1800) as u32
    } else if sample.width < 1 {
        1
    } else {
        sample.width
    }
    &&& row.height == if options.randomize_dimensions != Some(false) {
        (320 + (seed / 17) % 1800) as u32
    } else if sample.height < 1 {
        1
    } else {
        sample.height
    }
    &&& row.file_name@ == if options.randomize_file_names != Some(false) {
        "dev_fake_"@ + padded_decimal(index as nat, 6) + "_"@ + decimal((seed % 10000) as nat) + "."@
            + sample.ext@
    } else {
        "dev_fake_"@ + padded_decimal(index as nat, 6) + "_"@ + sample.file_name@
    }
    &&& row.imported_at == if options.randomize_imported_at != Some(false) {
        now - seed % DEV_IMPORT_SPREAD_MS
    } else {
        now as int
    }
    &&& row.is_favorite == (options.randomize_favorites == Some(true) && seed % 7 == 0)
    &&& row.folder_slot == if folder_count > 0 {
        Some(((seed as usize) % folder_count) as usize)
    } else {
        None
    }
    &&& match row.tag {
        Some(t) => options.randomize_tags == Some(true) && t@ == dev_tag(seed),
        None => options.randomize_tags != Some(true),
    }
}

/// The sample a fake row borrows: the samples are used in turn.
pub open spec fn dev_sample_of(samples: Seq<DevSampleImage>, index: i64) -> DevSampleImage {
    samples[((index as usize) as int) % (samples.len() as int)]
}

/// The tag the seed picks (see [`dev_tag`]).
fn dev_tag_exec(seed: i64) -> (r: String)
    requires
        seed >= 0,
    ensures
        r@ == dev_tag(seed),
{
    let k = seed % 5;
    if k == 0 {
        owned_string("dev_warm_color")
    } else if k == 1 {
        owned_string("dev_cool_color")
    } else if k == 2 {
        owned_string("dev_lineart")
    } else if k == 3 {
        owned_string("dev_character")
    } else {
        owned_string("dev_landscape")
    }
}

/// The fake gallery row number `index` (see [`dev_fake_row_matches`],
/// [`dev_sample_of`]).
pub fn dev_fake_image_row(
    index: i64,
    now: i64,
    samples: &Vec<DevSampleImage>,
    options: &DevFakeGalleryOptions,
    folder_count: usize,
) -> (row: DevFakeImageRow)
    requires
        samples.len() > 0,
        0 <= index < DEV_MAX_COUNT,
        i64::MIN + DEV_IMPORT_SPREAD_MS <= now <= i64::MAX - DEV_MAX_COUNT,
    ensures
        dev_fake_row_matches(row, index, now, dev_sample_of(samples@, index), *options, folder_count),
{
    let slot: usize = (index as usize) % samples.len();
    let sample = &samples[slot];
    let seed = dev_hash_i64(index + now);
    let mut image_id = owned_string("illutag-dev-fake:");
    push_padded_decimal(&mut image_id, index as u64, 8);
    let ghost id = image_id@;
    proof {
        reveal_strlit("illutag-dev-fake:");
    }
    let mut path = string_from_chars(&str_chars(sample.path.as_str()));
    path.push('#');
    push_str_chars(&mut path, image_id.as_str());
    let randomize_dimensions = match options.randomize_dimensions {
        Some(b) => b,
        None => true,
    };
    let width: u32 = if randomize_dimensions {
        (320 + seed % 1800) as u32
    } else if sample.width < 1 {
        1
    } else {
        sample.width
    };
    let height: u32 = if randomize_dimensions {
        (320 + (seed / 17) % 1800) as u32
    } else if sample.height < 1 {
        1
    } else {
        sample.height
    };
    let randomize_names = match options.randomize_file_names {
        Some(b) => b,
        None => true,
    };
    let mut file_name = owned_string("dev_fake_");
    push_padded_decimal(&mut file_name, index as u64, 6);
    file_name.push('_');
    if randomize_names {
        let digits = decimal_chars((seed % 10000) as u64);
        push_all(&mut file_name, &digits);
        file_name.push('.');
        push_str_chars(&mut file_name, sample.ext.as_str());
    } else {
        push_str_chars(&mut file_name, sample.file_name.as_str());
    }
    let randomize_imported = match options.randomize_imported_at {
        Some(b) => b,
        None => true,
    };
    let imported_at = if randomize_imported {
        now - seed % DEV_IMPORT_SPREAD_MS
    } else {
        now
    };
    let is_favorite = match options.randomize_favorites {
        Some(b) => b,
        None => false,
    } && seed % 7 == 0;
    let folder_slot = if folder_count > 0 {
        Some((seed as usize) % folder_count)
    } else {
        None
    };
    let tag = if match options.randomize_tags {
        Some(b) => b,
        None => false,
    } {
        Some(dev_tag_exec(seed))
    } else {
        None
    };
    let row = DevFakeImageRow {
        image_id,
        path,
        file_name,
        ext: string_from_chars(&str_chars(sample.ext.as_str())),
        width,
        height,
        file_size: sample.file_size,
        modified_at: sample.modified_at,
        imported_at,
        is_favorite,
        folder_slot,
        tag,
        seed,
    };
    proof {
        reveal_strlit("dev_fake_");
        reveal_strlit("#");
        reveal_strlit("_");
        reveal_strlit(".");
        assert(row.path@ =~= sample.path@ + "#"@ + id);
        if randomize_names {
            assert(row.file_name@ =~= "dev_fake_"@ + padded_decimal(index as nat, 6) + "_"@ + decimal(
                (seed % 10000) as nat,
            ) + "."@ + sample.ext@);
        } else {
            assert(row.file_name@ =~= "dev_fake_"@ + padded_decimal(index as nat, 6) + "_"@
                + sample.file_name@);
        }
    }
    row
}

/// The image format of a small test file: the requested one (trimmed, in
/// ASCII lower case) when it is `jpg`, `jpeg` or `png`; `png` otherwise.
pub open spec fn dev_format(format: Option<Seq<char>>) -> Seq<char> {
    match format {
        Some(f) => {
            let g = lower_ascii_seq(trim(f));
            if g == "jpg"@ || g == "jpeg"@ || g == "png"@ {
                g
            } else {
                "png"@
            }
        },
        None => "png"@,
    }
}

/// The image format of a small test file (see [`dev_format`]).
pub fn dev_small_file_format(format: &Option<String>) -> (r: String)
    ensures
        r@ == dev_format(
            match format {
                Some(f) => Some(f@),
                None => None,
            },
        ),
{
    match format {
        Some(f) => {
            let t = trim_chars(f.as_str());
            let g = lower_ascii_chars(&t);
            if chars_eq_str(&g, "jpg") || chars_eq_str(&g, "jpeg") || chars_eq_str(&g, "png") {
                string_from_chars(&g)
            } else {
                owned_string("png")
            }
        },
        None => owned_string("png"),
    }
}

/// How many sub-folders small test files are spread over: the request
/// (1 when absent) clamped to 1 ..= 10000.
pub open spec fn dev_subfolders(requested: Option<i64>) -> i64 {
    let n = match requested {
        Some(n) => n,
        None => 1,
    };
    if n < 1 {
        1
    } else if n > 10000 {
        10000
    } else {
        n
    }
}

/// How many sub-folders small test files are spread over (see
/// [`dev_subfolders`]).
pub fn dev_subfolder_count(requested: Option<i64>) -> (r: i64)
    ensures
        r == dev_subfolders(requested),
{
    let n = match requested {
        Some(n) => n,
        None => 1,
    };
    if n < 1 {
        1
    } else if n > 10000 {
        10000
    } else {
        n
    }
}

/// The sub-folder and file name of small test file number `index`: files
/// are dealt over the sub-folders `bucket_000`, `bucket_001`, …; the file is
/// `dev_small_<index, 8 digits>.<ext>`, where `jpeg` is written `jpg`.
pub open spec fn dev_small_file_location(index: i64, subfolders: i64, format: Seq<char>) -> (Seq<char>, Seq<char>) {
    let ext = if format == "jpeg"@ {
        "jpg"@
    } else {
        format
    };
    (
        "bucket_"@ + padded_decimal((index % subfolders) as nat, 3),
        "dev_small_"@ + padded_decimal(index as nat, 8) + "."@ + ext,
    )
}

/// The sub-folder and file name of small test file number `index` (see
/// [`dev_small_file_location`]).
pub fn dev_small_file_names(index: i64, subfolders: i64, format: &str) -> (r: (String, String))
    requires
        0 <= index,
        1 <= subfolders,
    ensures
        (r.0@, r.1@) == dev_small_file_location(index, subfolders, format@),
{
    let mut bucket = owned_string("bucket_");
    push_padded_decimal(&mut bucket, (index % subfolders) as u64, 3);
    let mut name = owned_string("dev_small_");
    push_padded_decimal(&mut name, index as u64, 8);
    name.push('.');
    let f = str_chars(format);
    if chars_eq_str(&f, "jpeg") {
        push_str_chars(&mut name, "jpg");
    } else {
        push_all(&mut name, &f);
    }
    proof {
        reveal_strlit("bucket_");
        reveal_strlit("dev_small_");
        reveal_strlit(".");
        reveal_strlit("jpg");
    }
    (bucket, name)
}

/// The colour of pixel (`x`, `y`) of a small test image drawn from `seed`.
pub open spec fn dev_pixel(x: u32, y: u32, seed: i64) -> (u8, u8, u8) {
    (
        ((x * 7 + seed) % 255) as u8,
        ((y * 11 + seed / 3) % 255) as u8,
        (((x + y) * 5 + seed / 7) % 255) as u8,
    )
}

/// The colour of pixel (`x`, `y`) of a small test image (see [`dev_pixel`]);
/// the images are 32 by 32 pixels.
pub fn dev_small_pixel(x: u32, y: u32, seed: i64) -> (r: (u8, u8, u8))
    requires
        x < 32,
        y < 32,
        0 <= seed,
        x * 7 + seed <= i64::MAX,
    ensures
        r == dev_pixel(x, y, seed),
{
    let xi = x as i64;
    let yi = y as i64;
    (
        ((xi * 7 + seed) % 255) as u8,
        ((yi * 11 + seed / 3) % 255) as u8,
        (((xi + yi) * 5 + seed / 7) % 255) as u8,
    )
}

/// The most sample images a fake gallery borrows from.
pub const DEV_MAX_SAMPLES: usize = 100;

/// The sample image ids asked for: trimmed, blank ones left out, at most
/// [`DEV_MAX_SAMPLES`] of them, in order.
pub open spec fn dev_sample_ids_of(ids: Seq<Seq<char>>) -> Seq<Seq<char>>
    decreases ids.len(),
{
    if ids.len() == 0 {
        Seq::empty()
    } else {
        let prev = dev_sample_ids_of(ids.drop_last());
        let t = trim(ids.last());
        if t.len() == 0 || prev.len() >= DEV_MAX_SAMPLES {
            prev
        } else {
            prev.push(t)
        }
    }
}

/// The sample image ids asked for (see [`dev_sample_ids_of`]).
pub fn dev_sample_ids(ids: &Vec<String>) -> (r: Vec<String>)
    ensures
        crate::chars::texts(r@) == dev_sample_ids_of(crate::chars::texts(ids@)),
{
    let ghost all = crate::chars::texts(ids@);
    let mut r: Vec<String> = Vec::new();
    let mut i: usize = 0;
    proof {
        assert(all.subrange(0, 0) =~= Seq::<Seq<char>>::empty());
    }
    while i < ids.len()
        invariant
            i <= ids.len(),
            all == crate::chars::texts(ids@),
            crate::chars::texts(r@) == dev_sample_ids_of(all.subrange(0, i as int)),
        decreases ids.len() - i,
    {
        proof {
            let sub = all.subrange(0, i + 1);
            assert(sub.drop_last() =~= all.subrange(0, i as int));
            assert(sub.last() == ids@[i as int]@);
        }
        let t = trim_chars(ids[i].as_str());
        if t.len() > 0 && r.len() < DEV_MAX_SAMPLES {
            let ghost prev = crate::chars::texts(r@);
            r.push(string_from_chars(&t));
            proof {
                assert(crate::chars::texts(r@) =~= prev.push(t@));
            }
        }
        i = i + 1;
    }
    proof {
        assert(all.subrange(0, ids@.len() as int) =~= all);
    }
    r
}

/// Whether a file found in a sample folder may serve as a sample: its
/// extension, in ASCII lower case, is `jpg`, `jpeg`, `png`, `webp` or `bmp`.
pub open spec fn dev_sample_extension(ext: Seq<char>) -> bool {
    let e = lower_ascii_seq(ext);
    e == "jpg"@ || e == "jpeg"@ || e == "png"@ || e == "webp"@ || e == "bmp"@
}

/// Whether a file may serve as a sample (see [`dev_sample_extension`]).
pub fn is_dev_sample_extension(ext: &str) -> (r: bool)
    ensures
        r == dev_sample_extension(ext@),
{
    let e = lower_ascii_chars(&str_chars(ext));
    chars_eq_str(&e, "jpg") || chars_eq_str(&e, "jpeg") || chars_eq_str(&e, "png") || chars_eq_str(&e, "webp")
        || chars_eq_str(&e, "bmp")
}

} // verus!
