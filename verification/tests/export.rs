use kaleidoscope::export::{create_row, export_headers, join_strings, ExportMedia};
use kaleidoscope::media_query::values::UuidValue;
use kaleidoscope::models::records::{JobStatus, MediaTag};

fn media() -> ExportMedia {
    ExportMedia {
        id: -3,
        uuid: UuidValue(0x0123_4567_89ab_cdef_0123_4567_89ab_cdef),
        name: "IMG_1.jpg".to_string(),
        width: 4000,
        height: 3000,
        media_type: "photo".to_string(),
        duration: None,
        hash: "abc".to_string(),
        is_screenshot: true,
        longitude: "1.5".to_string(),
        latitude: String::new(),
        has_thumbnail: false,
    }
}

fn tag(name: &str) -> MediaTag {
    MediaTag { id: 1, media_id: 2, tag: name.to_string(), task: None }
}

#[test]
fn headers_put_custom_keys_last() {
    let (h, start) = export_headers(vec!["rating".to_string(), "mood".to_string()]);
    assert_eq!(start, 16);
    assert_eq!(h.len(), 18);
    assert_eq!(h[0], "id");
    assert_eq!(h[15], "albums");
    assert_eq!(&h[16..], &["rating".to_string(), "mood".to_string()]);
}

#[test]
fn strings_join_like_the_standard_join() {
    let xs = vec!["a".to_string(), "".to_string(), "c".to_string()];
    assert_eq!(join_strings(&xs, ","), xs.join(","));
    assert_eq!(join_strings(&Vec::new(), ","), "");
}

#[test]
fn rows_follow_the_headers() {
    let headers = export_headers(vec!["rating".to_string(), "mood".to_string()]);
    let row = create_row(
        &headers,
        &media(),
        Some((Some("hello".to_string()), None)),
        &vec![tag("cat"), tag("sun")],
        &vec!["trip".to_string()],
        &vec![Some("5".to_string()), None],
    );
    assert_eq!(
        row,
        vec![
            "-3", "01234567-89ab-cdef-0123-456789abcdef", "IMG_1.jpg", "4000", "3000", "photo", "", "abc",
            "true", "1.5", "", "false", "hello", "", "cat,sun", "trip", "5", "",
        ]
    );
    assert_eq!(row.len(), headers.0.len());
}

#[test]
fn rows_without_extra_data() {
    let headers = export_headers(Vec::new());
    let mut m = media();
    m.duration = Some(1234);
    let row = create_row(&headers, &m, None, &Vec::new(), &Vec::new(), &Vec::new());
    assert_eq!(row[6], "1234");
    assert_eq!(&row[12..], &["", "", "", ""]);
}

#[test]
fn job_statuses_compare() {
    assert_ne!(JobStatus::Running, JobStatus::Cancelled);
    assert_eq!(JobStatus::Success, JobStatus::Success);
}
