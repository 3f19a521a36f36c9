use kaleidoscope::exif::heif_exif_payload;
use kaleidoscope::format::AnyFormat;
use kaleidoscope::format_type::FormatType;
use kaleidoscope::media_operations::{
    is_orphaned_file,
    existing_media_check, metadata_media_check, new_media_record, scanned_media_record, ExistingCheck,
    MediaMetadata, Timestamp,
};
use kaleidoscope::media_query::values::UuidValue;

fn at(secs: i64, nanos: u32) -> Timestamp {
    Timestamp { secs, nanos }
}

fn metadata() -> MediaMetadata {
    MediaMetadata {
        name: "IMG_1.mov".to_string(),
        width: 1920,
        height: 1080,
        size: 5000,
        created_at: at(1_600_000_000, 0),
        duration: Some((3, 456_789_000)),
        is_screenshot: false,
    }
}

#[test]
fn unknown_paths_are_new() {
    assert_eq!(existing_media_check(None, at(5, 0), 10), ExistingCheck::New);
    assert_eq!(metadata_media_check(None, at(5, 0), 10), ExistingCheck::New);
}

#[test]
fn same_file_already_exists() {
    assert_eq!(existing_media_check(Some((at(5, 7), 10)), at(5, 7), 10), ExistingCheck::AlreadyExists(1));
    assert_eq!(metadata_media_check(Some((at(5, 7), 10)), at(5, 7), 10), ExistingCheck::AlreadyExists(2));
}

#[test]
fn changed_files_are_replaced() {
    assert_eq!(existing_media_check(Some((at(5, 7), 10)), at(5, 8), 10), ExistingCheck::Replace);
    assert_eq!(existing_media_check(Some((at(5, 7), 10)), at(5, 7), 11), ExistingCheck::Replace);
    assert_eq!(metadata_media_check(Some((at(6, 7), 10)), at(5, 7), 10), ExistingCheck::Replace);
}

#[test]
fn new_record_fields() {
    let format = AnyFormat::try_new("clips/holiday.MoV".to_string()).unwrap();
    let uuid = UuidValue(0x1234);
    let m = new_media_record(
        "/media/clips/holiday.MoV".to_string(),
        7,
        &format,
        uuid,
        "abc".to_string(),
        at(1_500_000_000, 12),
        at(1_700_000_000, 0),
        metadata(),
    );
    assert_eq!(m.id, 0);
    assert_eq!(m.uuid, uuid);
    assert_eq!(m.path, "/media/clips/holiday.MoV");
    assert_eq!(m.import_id, 7);
    assert_eq!(m.format, FormatType::Video);
    assert_eq!(m.metadata_version, 2);
    assert_eq!(m.thumbnail_version, -1);
    assert!(!m.has_thumbnail);
    assert!(!m.liked);
    assert_eq!(m.hash, "abc");
    assert_eq!(m.file_created_at, at(1_500_000_000, 12));
    assert_eq!(m.added_at, at(1_700_000_000, 0));
    assert_eq!(m.name, "IMG_1.mov");
    assert_eq!(m.created_at, at(1_600_000_000, 0));
    assert_eq!((m.width, m.height, m.size), (1920, 1080, 5000));
    assert_eq!(m.duration, Some(3456));
    assert!(!m.is_screenshot);
}

#[test]
fn durations_truncate_to_32_bits() {
    let format = AnyFormat::try_new("a.mp4".to_string()).unwrap();
    let mut meta = metadata();
    meta.duration = Some((4_294_968, 0));
    let m = new_media_record("a.mp4".to_string(), 1, &format, UuidValue(1), String::new(), at(0, 0), at(0, 0), meta);
    assert_eq!(m.duration, Some(((4_294_968u64 * 1000) % (1u64 << 32)) as u32));
    let mut meta = metadata();
    meta.duration = None;
    let m = new_media_record("a.mp4".to_string(), 1, &format, UuidValue(1), String::new(), at(0, 0), at(0, 0), meta);
    assert_eq!(m.duration, None);
}

#[test]
fn scanned_records_get_random_uuids() {
    let format = AnyFormat::try_new("a.jpg".to_string()).unwrap();
    let a = scanned_media_record("a.jpg".to_string(), 3, &format, "h".to_string(), at(1, 0), metadata());
    let b = scanned_media_record("a.jpg".to_string(), 3, &format, "h".to_string(), at(1, 0), metadata());
    assert_ne!(a.uuid, b.uuid);
    for m in [&a, &b] {
        assert_eq!((m.uuid.0 >> 76) & 0xf, 4);
        assert_eq!((m.uuid.0 >> 62) & 3, 2);
        assert!(m.added_at.secs > 1_600_000_000);
        assert_eq!(m.format, FormatType::Standard);
        assert_eq!(m.metadata_version, 1);
        assert_eq!(m.path, "a.jpg");
    }
}

#[test]
fn heif_exif_data_starts_after_its_offset() {
    assert_eq!(heif_exif_payload(&[0, 0, 0, 2, 9, 9, 1, 2, 3]), vec![1, 2, 3]);
    assert_eq!(heif_exif_payload(&[0, 0, 0, 0, 7]), vec![7]);
    assert_eq!(heif_exif_payload(&[0, 0, 0, 1, 5]), Vec::<u8>::new());
}

#[test]
fn files_of_known_media_are_kept() {
    let u = UuidValue(0x0123_4567_89ab_cdef_0123_4567_89ab_cdef);
    let media = vec![UuidValue(7), u];
    assert!(!is_orphaned_file("01234567-89ab-cdef-0123-456789abcdef-thumb", &media));
    assert!(!is_orphaned_file("01234567-89ab-cdef-0123-456789abcdef", &media));
    assert!(is_orphaned_file("01234567-89ab-cdef-0123-456789abcdee-full", &media));
    assert!(is_orphaned_file("01234567-89ab-cdef-0123-456789abcdef-thumb", &Vec::new()));
    assert!(is_orphaned_file("00000000-0000-0000-0000-000000000007é", &vec![UuidValue(8)]));
    assert!(!is_orphaned_file("00000000-0000-0000-0000-000000000007é", &vec![UuidValue(7)]));
}
