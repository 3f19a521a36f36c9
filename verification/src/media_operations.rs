use vstd::prelude::*;
use crate::format::{AnyFormat, format_metadata_version};
use crate::format_type::FormatType;
use crate::media_query::values::{UuidValue, spec_uuid_text};
use crate::text::chars_of;

verus! {

/// What updating a known medium must do, given the format its file is read
/// as now.
#[derive(Debug, Clone, Copy, PartialEq, Eq)]
pub struct UpdatePlan {
    /// The format to record for the medium.
    pub format: FormatType,
    /// The format differs from the recorded one (the thumbnail is made anew).
    pub format_change: bool,
    /// The metadata is read again: its version is older than the format's, or
    /// the format changed.
    pub refresh_metadata: bool,
    /// The metadata version to record once it is read again.
    pub metadata_version: i32,
}

/// Decides how to bring a known medium, recorded with `current_format` and
/// `current_metadata_version`, up to date with the format of its file.
pub fn plan_update(current_format: FormatType, current_metadata_version: i32, format: &AnyFormat) -> (r: UpdatePlan)
    ensures
        r.format == format.spec_format(),
        r.format_change == (current_format != format.spec_format()),
        r.refresh_metadata == (current_metadata_version < format_metadata_version(format.spec_format()) || r.format_change),
        r.metadata_version == format_metadata_version(format.spec_format()),
{
    let new_format = format.format_type();
    let format_change = current_format != new_format;
    let version = format.metadata_version();
    UpdatePlan {
        format: new_format,
        format_change,
        refresh_metadata: current_metadata_version < version || format_change,
        metadata_version: version,
    }
}

/// A point in time: whole seconds since the Unix epoch and the nanoseconds
/// past that second (as `chrono` counts a `NaiveDateTime` in UTC).
#[derive(Debug, Clone, Copy, PartialEq, Eq, Structural)]
pub struct Timestamp {
    pub secs: i64,
    pub nanos: u32,
}

/// What the scanner learns of a file from its format reader. The GPS
/// coordinates, which are floating point, stay with the caller.
#[derive(Debug, Clone)]
pub struct MediaMetadata {
    pub name: String,
    pub width: u32,
    pub height: u32,
    pub size: u32,
    pub created_at: Timestamp,
    /// The length of a video or a sound, as whole seconds and nanoseconds.
    pub duration: Option<(u64, u32)>,
    pub is_screenshot: bool,
}

/// The record of a medium that the scanner adds to the library (its GPS
/// coordinates, floating point, are added by the caller).
#[derive(Debug, Clone)]
pub struct MediaRecord {
    pub id: i32,
    pub uuid: UuidValue,
    pub name: String,
    pub created_at: Timestamp,
    pub width: u32,
    pub height: u32,
    pub size: u32,
    pub path: String,
    pub liked: bool,
    pub added_at: Timestamp,
    /// The length in milliseconds, truncated to 32 bits.
    pub duration: Option<u32>,
    pub hash: String,
    pub file_created_at: Timestamp,
    pub is_screenshot: bool,
    pub has_thumbnail: bool,
    pub format: FormatType,
    pub metadata_version: i32,
    pub thumbnail_version: i32,
    pub import_id: i32,
}

/// What the scanner does with a file whose path may already be known.
#[derive(Debug, Clone, Copy, PartialEq, Eq, Structural)]
pub enum ExistingCheck {
    /// The path is not known: the file is added.
    New,
    /// The known medium is the same file, found by check 1 (the file's
    /// creation time and size) or check 2 (the metadata's time and size).
    AlreadyExists(u8),
    /// The known medium is outdated: it is removed and the file added anew.
    Replace,
}

/// The decision of a check numbered `check` on the known medium's time and
/// size against those of the file.
pub open spec fn spec_check(known: Option<(Timestamp, u32)>, time: Timestamp, size: u32, check: u8) -> ExistingCheck {
    match known {
        None => ExistingCheck::New,
        Some((t, s)) => if t == time && s == size {
            ExistingCheck::AlreadyExists(check)
        } else {
            ExistingCheck::Replace
        },
    }
}

/// The first check: the known medium's file creation time and size against
/// the file's.
pub open spec fn spec_existing_check(known: Option<(Timestamp, u32)>, file_created_at: Timestamp, size: u32) -> ExistingCheck {
    spec_check(known, file_created_at, size, 1)
}

/// The second check, once the metadata is read: the known medium's creation
/// time and size against the metadata's.
pub open spec fn spec_metadata_check(known: Option<(Timestamp, u32)>, created_at: Timestamp, size: u32) -> ExistingCheck {
    spec_check(known, created_at, size, 2)
}

fn check_known(known: Option<(Timestamp, u32)>, time: Timestamp, size: u32, check: u8) -> (r: ExistingCheck)
    ensures
        r == spec_check(known, time, size, check),
{
    match known {
        None => ExistingCheck::New,
        Some((t, s)) => if t == time && s == size {
            ExistingCheck::AlreadyExists(check)
        } else {
            ExistingCheck::Replace
        },
    }
}

/// Decides, before the metadata is read, what to do with a file whose path
/// is known with the creation time and size in `known`.
pub fn existing_media_check(known: Option<(Timestamp, u32)>, file_created_at: Timestamp, size: u32) -> (r: ExistingCheck)
    ensures
        r == spec_existing_check(known, file_created_at, size),
{
    check_known(known, file_created_at, size, 1)
}

/// Decides, once the metadata is read, what to do with a file whose path is
/// known with the creation time and size in `known`.
pub fn metadata_media_check(known: Option<(Timestamp, u32)>, created_at: Timestamp, size: u32) -> (r: ExistingCheck)
    ensures
        r == spec_metadata_check(known, created_at, size),
{
    check_known(known, created_at, size, 2)
}

/// The milliseconds of a duration, truncated to 32 bits.
pub open spec fn duration_millis(d: (u64, u32)) -> u32 {
    ((d.0 * 1000 + d.1 / 1_000_000) % 0x1_0000_0000) as u32
}

pub open spec fn spec_duration(d: Option<(u64, u32)>) -> Option<u32> {
    match d {
        Some(x) => Some(duration_millis(x)),
        None => None,
    }
}

fn millis_of(d: Option<(u64, u32)>) -> (r: Option<u32>)
    ensures
        r == spec_duration(d),
{
    match d {
        Some((secs, nanos)) => {
            let total: u128 = (secs as u128) * 1000 + ((nanos / 1_000_000) as u128);
            Some((total % 0x1_0000_0000) as u32)
        },
        None => None,
    }
}

/// The version bits of a version 4 UUID (random) with the RFC 4122 variant.
pub open spec fn is_random_uuid(u: u128) -> bool {
    (u >> 76u128) & 0xfu128 == 4u128 && (u >> 62u128) & 3u128 == 2u128
}

/// Calls `uuid::Uuid::new_v4()` and hands back `Uuid::as_u128` of it.
/// Trusted: the UUID is random, with its version bits set to 4 and its
/// variant bits to RFC 4122, as `new_v4` masks them in.
#[verifier::external_body]
fn new_uuid_v4() -> (u: UuidValue)
    ensures
        is_random_uuid(u.0),
{
    UuidValue(uuid::Uuid::new_v4().as_u128())
}

/// Calls `chrono::Utc::now()` and hands back its seconds and nanoseconds.
/// Trusted: the clock's reading, after the Unix epoch (`now` panics before
/// it), with nanoseconds under a second.
#[verifier::external_body]
fn utc_now() -> (t: Timestamp)
    ensures
        t.secs >= 0,
        t.nanos < 1_000_000_000,
{
    let now = chrono::Utc::now();
    Timestamp { secs: now.timestamp(), nanos: now.timestamp_subsec_nanos() }
}

/// The record of a newly scanned file at `path`, read as `format`, with the
/// given UUID, content hash, file creation time, time of adding and metadata:
/// not liked, without a thumbnail (version -1), with the format's metadata
/// version.
pub fn new_media_record(
    path: String,
    import_id: i32,
    format: &AnyFormat,
    uuid: UuidValue,
    hash: String,
    file_created_at: Timestamp,
    added_at: Timestamp,
    meta: MediaMetadata,
) -> (m: MediaRecord)
    ensures
        m.id == 0,
        m.path@ == path@,
        m.import_id == import_id,
        m.format == format.spec_format(),
        m.metadata_version == format_metadata_version(format.spec_format()),
        m.thumbnail_version == -1,
        !m.has_thumbnail,
        !m.liked,
        m.uuid == uuid,
        m.hash@ == hash@,
        m.file_created_at == file_created_at,
        m.added_at == added_at,
        m.name@ == meta.name@,
        m.created_at == meta.created_at,
        m.width == meta.width,
        m.height == meta.height,
        m.size == meta.size,
        m.duration == spec_duration(meta.duration),
        m.is_screenshot == meta.is_screenshot,
{
    let duration = millis_of(meta.duration);
    MediaRecord {
        id: 0,
        uuid,
        name: meta.name,
        created_at: meta.created_at,
        width: meta.width,
        height: meta.height,
        size: meta.size,
        path,
        liked: false,
        added_at,
        duration,
        hash,
        file_created_at,
        is_screenshot: meta.is_screenshot,
        has_thumbnail: false,
        format: format.format_type(),
        metadata_version: format.metadata_version(),
        thumbnail_version: -1,
        import_id,
    }
}

/// The record of a newly scanned file, with a fresh random UUID and the
/// present time as its time of adding; all else as `new_media_record` makes
/// it.
pub fn scanned_media_record(
    path: String,
    import_id: i32,
    format: &AnyFormat,
    hash: String,
    file_created_at: Timestamp,
    meta: MediaMetadata,
) -> (m: MediaRecord)
    ensures
        is_random_uuid(m.uuid.0),
        m.added_at.secs >= 0,
        m.added_at.nanos < 1_000_000_000,
        m.id == 0,
        m.path@ == path@,
        m.import_id == import_id,
        m.format == format.spec_format(),
        m.metadata_version == format_metadata_version(format.spec_format()),
        m.thumbnail_version == -1,
        !m.has_thumbnail,
        !m.liked,
        m.hash@ == hash@,
        m.file_created_at == file_created_at,
        m.name@ == meta.name@,
        m.created_at == meta.created_at,
        m.width == meta.width,
        m.height == meta.height,
        m.size == meta.size,
        m.duration == spec_duration(meta.duration),
        m.is_screenshot == meta.is_screenshot,
{
    let uuid = new_uuid_v4();
    let added_at = utc_now();
    new_media_record(path, import_id, format, uuid, hash, file_created_at, added_at, meta)
}

/// The number of bytes of `c` in UTF-8.
pub open spec fn utf8_width(c: char) -> nat {
    let u = c as u32;
    if u < 0x80 { 1 } else if u < 0x800 { 2 } else if u < 0x1_0000 { 3 } else { 4 }
}

/// The number of bytes of `s` in UTF-8.
pub open spec fn utf8_len(s: Seq<char>) -> nat
    decreases s.len(),
{
    if s.len() == 0 { 0 } else { utf8_len(s.drop_last()) + utf8_width(s.last()) }
}

/// Some start of `s` is exactly `b` bytes long: `s` can be cut after its
/// `b`-th byte.
pub open spec fn is_char_boundary(s: Seq<char>, b: nat) -> bool {
    exists|k: int| 0 <= k <= s.len() && #[trigger] utf8_len(s.take(k)) == b
}

/// Whether a thumbnail or full-size file, by the stem of its name, belongs
/// to none of the media: its first 36 characters are the text of none of
/// their UUIDs.
pub open spec fn spec_is_orphaned(stem: Seq<char>, media: Seq<UuidValue>) -> bool {
    !exists|i: int| 0 <= i < media.len() && stem.len() >= 36 && stem.take(36) == spec_uuid_text(#[trigger] media[i].0)
}

/// Checks whether a generated image file, by the stem of its name (which
/// begins with the 36 characters of a UUID), belongs to none of `media`.
pub fn is_orphaned_file(stem: &str, media: &Vec<UuidValue>) -> (r: bool)
    requires
        is_char_boundary(stem@, 36),
    ensures
        r == spec_is_orphaned(stem@, media@),
{
    let cs = chars_of(stem);
    if cs.len() < 36 {
        return true;
    }
    let mut i: usize = 0;
    while i < media.len()
        invariant
            i <= media@.len(),
            cs@ == stem@,
            cs@.len() >= 36,
            forall|j: int| 0 <= j < i ==> stem@.take(36) != spec_uuid_text(#[trigger] media@[j].0),
        decreases media.len() - i,
    {
        let text = chars_of(media[i].to_text().as_str());
        let mut same = true;
        let mut k: usize = 0;
        while k < 36
            invariant
                k <= 36,
                cs@.len() >= 36,
                text@ == spec_uuid_text(media@[i as int].0),
                same <==> (forall|j: int| 0 <= j < k ==> cs@[j] == text@[j]),
            decreases 36 - k,
        {
            if cs[k] != text[k] {
                same = false;
            }
            k = k + 1;
        }
        if same {
            assert(stem@.take(36) =~= spec_uuid_text(media@[i as int].0));
            return false;
        }
        assert(stem@.take(36) != spec_uuid_text(media@[i as int].0)) by {
            let j = choose|j: int| 0 <= j < 36 && cs@[j] != text@[j];
            assert(stem@.take(36)[j] != text@[j]);
        }
        i = i + 1;
    }
    true
}

} // verus!
