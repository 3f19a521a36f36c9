use kaleidoscope::env::{env_flag, log_level, LogLevel};
use kaleidoscope::exif::{comment_is_screenshot, parse_comment, read_comment};
use kaleidoscope::ipc::{
    check_media_path, check_request_path, file_data_request, file_data_response, file_data_result,
    file_size_request, file_size_response, file_size_result, FileResponseMismatch, IpcFileRequest,
    IpcFileResponse, IpcRequest,
};
use kaleidoscope::media_query::MediaQuery as OptionsQuery;
use kaleidoscope::models::media::safe_column;
use kaleidoscope::models::sqlize::{insert_statement, update_statement};
use kaleidoscope::models::timeline::{Timeline, TimelineDay, TimelineHour, TimelineMonth};
use kaleidoscope::scan_config::ScanPaths;
use kaleidoscope::sql::{SqlArg, SqlPiece, SqlQuery};
use kaleidoscope::stream::{ReadCursor, SeekPosition};

#[test]
fn safe_columns() {
    assert!(safe_column("created_at").is_ok());
    assert!(safe_column("import_id").is_ok());
    assert_eq!(safe_column("password").unwrap_err(), "password");
}

#[test]
fn row_statements() {
    let cols = ["media_id", "tag", "task"];
    assert_eq!(
        insert_statement("media_tag", &cols),
        "INSERT INTO media_tag (media_id, tag, task) VALUES (?,?,?) RETURNING *"
    );
    assert_eq!(
        update_statement("media_tag", &cols),
        "UPDATE media_tag SET media_id = ?,tag = ?,task = ? WHERE id = ?"
    );
    assert_eq!(insert_statement("kv", &["key"]), "INSERT INTO kv (key) VALUES (?) RETURNING *");
}

#[test]
fn option_query_sql() {
    let mut q = OptionsQuery::new();
    q.filter_path = Some("%x%".to_string());
    q.before = Some(1_000);
    q.has_gps = Some(true);
    q.order_by = Some("size".to_string());
    q.asc = Some(true);
    q.limit = Some(5);
    q.page = Some(3);
    let mut sql = SqlQuery::new("SELECT * FROM media WHERE 1=1");
    q.sqlize(&mut sql).unwrap();
    assert_eq!(
        sql.sql(),
        "SELECT * FROM media WHERE 1=1 AND path LIKE ? AND created_at < ? AND latitude IS NOT NULL AND longitude IS NOT NULL ORDER BY media.size ASC LIMIT ? OFFSET ?"
    );
    let binds: Vec<SqlArg> = sql.pieces().iter().filter_map(|p| match p {
        SqlPiece::Bind(a) => Some(a.clone()),
        _ => None,
    }).collect();
    assert_eq!(binds, vec![SqlArg::Text("%x%".to_string()), SqlArg::Timestamp(1_000), SqlArg::Int(5), SqlArg::Int(15)]);

    let c = q.to_count_query();
    assert!(c.order_by.is_none() && c.limit.is_none() && c.page.is_none() && c.asc.is_none());
    assert_eq!(c.filter_path, Some("%x%".to_string()));

    let mut bad = OptionsQuery::default();
    bad.is_screenshot = Some(false);
    bad.order_by = Some("id; DROP TABLE media".to_string());
    let mut sql = SqlQuery::new("SELECT 1");
    assert_eq!(bad.sqlize(&mut sql).unwrap_err(), "id; DROP TABLE media");
    assert_eq!(sql.sql(), "SELECT 1 AND is_screenshot = ?");
}

#[test]
fn unsafe_order_column_fails_before_paging() {
    let mut bad = OptionsQuery::default();
    bad.order_by = Some("hash".to_string());
    bad.limit = Some(i32::MAX);
    bad.page = Some(i32::MAX);
    assert!(!bad.has_page_offset_in_range());
    let mut sql = SqlQuery::new("SELECT 1");
    assert_eq!(bad.sqlize(&mut sql).unwrap_err(), "hash");
    assert_eq!(sql.sql(), "SELECT 1");
}

#[test]
fn timeline_intervals() {
    let m = TimelineMonth::from_interval("2024-01", 7).unwrap();
    assert_eq!((m.year, m.month, m.count), (2024, 1, 7));
    assert!(TimelineMonth::from_interval("2024", 1).is_none());
    assert!(TimelineMonth::from_interval("2024-xx", 1).is_none());
    let d = TimelineDay::from_interval("2023-12-31", 2).unwrap();
    assert_eq!((d.year, d.month, d.day, d.count), (2023, 12, 31, 2));
    let h = TimelineHour::from_interval("2023-12-31 05", 3).unwrap();
    assert_eq!((h.year, h.month, h.day, h.hour, h.count), (2023, 12, 31, 5, 3));
    assert!(TimelineHour::from_interval("2023-12-31", 3).is_none());
}

#[test]
fn timeline_query_text() {
    let mut q = OptionsQuery::new();
    q.import_id = Some(4);
    let sql = Timeline::months_query(&q);
    assert_eq!(
        sql.sql(),
        "SELECT\n                    STRFTIME('%Y-%m', media.created_at) AS interval,\n                    COUNT(*) AS count\n                 FROM media  AND import_id = ? GROUP BY interval ORDER BY interval ASC"
    );
    let days = Timeline::days_query(&OptionsQuery::new());
    assert!(days.sql().contains("STRFTIME('%Y-%m-%d', media.created_at) AS interval"));
    let hours = Timeline::hours_query(&OptionsQuery::new());
    assert!(hours.sql().contains("STRFTIME('%Y-%m-%d %H', media.created_at) AS interval"));
}

#[test]
fn user_comments() {
    let c = parse_comment(b"ASCII\0\0\0Screenshot taken").unwrap();
    assert_eq!(c, "Screenshot taken");
    assert!(comment_is_screenshot(&Some(c)));
    assert_eq!(parse_comment(b"UNICODE\0\0\0hi").unwrap(), "hi");
    assert!(parse_comment(b"JIS\0\0\0hi").is_none());
    assert!(read_comment(b"ASCII").is_none());
    assert!(read_comment(b"ASCII\0\0").is_none());
    assert_eq!(read_comment(b"ASCII\0\0\0").unwrap(), "");
    assert!(!comment_is_screenshot(&None));
    assert!(!comment_is_screenshot(&Some("holiday".to_string())));
}

#[test]
fn scan_paths_match_whole_components() {
    let rules = ScanPaths {
        scan_paths: vec!["/data/photos".to_string()],
        exclude_paths: Some(vec!["/data/photos/private".to_string()]),
    };
    assert!(rules.path_matches("/data/photos/a.jpg"));
    assert!(!rules.path_matches("/data/photos/private/b.jpg"));
    assert!(!rules.path_matches("/data/photos2/c.jpg"));
    assert!(!rules.path_matches("/elsewhere/d.jpg"));
    let open = ScanPaths { scan_paths: vec!["/".to_string()], exclude_paths: None };
    assert!(open.path_matches("/x/y"));
}

#[test]
fn ipc_requests_and_answers() {
    let path = "/data/photos/a.jpg".to_string();
    match file_data_request(7, &path, 10, 20) {
        IpcRequest::FileData { file, start, end } => {
            assert_eq!((file.db_id, file.path.as_str(), start, end), (7, "/data/photos/a.jpg", 10, 20));
        }
        other => panic!("unexpected {:?}", other),
    }
    assert!(matches!(file_size_request(7, &path), IpcRequest::FileSize { .. }));

    let req = IpcFileRequest { path: path.clone(), db_id: 7 };
    let ok = file_data_response(&req, &path, 100, 10, 20);
    assert_eq!(file_data_result(ok, 7, &path, 100, 10, 20).unwrap().unwrap(), 10);
    let size = file_size_response(&req, &path, 100);
    assert_eq!(file_size_result(size).unwrap(), 100);
    let err = IpcFileResponse::Error { error: "nope".to_string() };
    assert_eq!(file_size_result(err).unwrap_err(), "nope");

    let other = IpcFileResponse::Success { file: IpcFileRequest { path: path.clone(), db_id: 8 }, file_size: 100, response_size: 10 };
    assert_eq!(file_data_result(other, 7, &path, 100, 10, 20).unwrap_err(), FileResponseMismatch::DbId(8, 7));
    let short = IpcFileResponse::Success { file: IpcFileRequest { path: path.clone(), db_id: 7 }, file_size: 100, response_size: 5 };
    assert_eq!(file_data_result(short, 7, &path, 100, 10, 20).unwrap_err(), FileResponseMismatch::ResponseSize(5, 10));
    let resized = IpcFileResponse::Success { file: IpcFileRequest { path: path.clone(), db_id: 7 }, file_size: 99, response_size: 10 };
    assert_eq!(file_data_result(resized, 7, &path, 100, 10, 20).unwrap_err(), FileResponseMismatch::FileSize(99, 100));

    let rules = ScanPaths { scan_paths: vec!["/data".to_string()], exclude_paths: None };
    assert!(check_request_path(&rules, &req).is_ok());
    let outside = IpcFileRequest { path: "/etc/passwd".to_string(), db_id: 1 };
    match check_request_path(&rules, &outside) {
        Err(IpcFileResponse::Error { error }) => assert_eq!(error, "path not in config, the fuck u tryin do -_-"),
        other => panic!("unexpected {:?}", other),
    }
    match check_media_path(&"/data/other.jpg".to_string(), &req) {
        Err(IpcFileResponse::Error { error }) => assert_eq!(error, "path mismatch"),
        other => panic!("unexpected {:?}", other),
    }
    assert!(check_media_path(&path, &req).is_ok());
}

#[test]
fn read_cursor_moves_within_the_file() {
    let mut c = ReadCursor::new(10);
    let (start, end) = c.next_range(4);
    assert_eq!((start, end), (0, 4));
    assert_eq!(c.take_range(start, end, 4), Some(4));
    assert_eq!(c.cursor, 4);
    assert_eq!(c.take_range(0, 4, 4), None);
    let (start, end) = c.next_range(100);
    assert_eq!((start, end), (4, 10));
    assert_eq!(c.take_range(start, end, 3), Some(3));
    assert_eq!(c.cursor, 7);
    assert_eq!(c.seek(SeekPosition::End(-2)), Some(8));
    assert_eq!(c.seek(SeekPosition::Current(2)), Some(10));
    assert_eq!(c.seek(SeekPosition::Current(-3)), Some(7));
    assert_eq!(c.seek(SeekPosition::End(5)), Some(15));
    assert_eq!(c.seek(SeekPosition::Start(1)), Some(1));
}

#[test]
fn seeks_before_the_start_are_refused() {
    let mut c = ReadCursor::new(10);
    assert_eq!(c.seek(SeekPosition::Current(4)), Some(4));
    assert_eq!(c.seek(SeekPosition::Current(-5)), None);
    assert_eq!(c.cursor, 4);
    assert_eq!(c.seek(SeekPosition::End(-11)), None);
    assert_eq!(c.seek(SeekPosition::End(-10)), Some(0));
    let mut far = ReadCursor::new(u64::MAX);
    assert_eq!(far.seek(SeekPosition::End(1)), None);
    assert_eq!(far.cursor, 0);
}

#[test]
fn environment_settings() {
    assert_eq!(log_level(Some("debug")), LogLevel::Debug);
    assert_eq!(log_level(Some("loud")), LogLevel::Info);
    assert_eq!(log_level(None), LogLevel::Info);
    assert_eq!(log_level(Some("error")), LogLevel::Error);
    assert!(env_flag(Some("true"), false));
    assert!(!env_flag(Some("yes"), true));
    assert!(env_flag(None, true));
}

#[test]
fn option_query_checks() {
    let mut q = OptionsQuery::new();
    assert!(q.has_safe_order_column() && q.has_page_offset_in_range());
    q.order_by = Some("nope".to_string());
    assert!(!q.has_safe_order_column());
    q.limit = Some(i32::MAX);
    q.page = Some(2);
    assert!(!q.has_page_offset_in_range());
    q.page = Some(1);
    assert!(q.has_page_offset_in_range());
}

#[test]
fn comment_readability() {
    assert!(kaleidoscope::exif::comment_is_readable(b"ASCII\0\0\0x"));
    assert!(!kaleidoscope::exif::comment_is_readable(b"ASCII\0"));
    assert!(kaleidoscope::exif::comment_is_readable(b"JIS\0"));
    assert!(!kaleidoscope::exif::comment_is_readable(b"no zero"));
}

#[test]
fn reversed_ranges_are_reported() {
    let path = "/p".to_string();
    let res = IpcFileResponse::Success { file: IpcFileRequest { path: path.clone(), db_id: 1 }, file_size: 9, response_size: 0 };
    assert_eq!(file_data_result(res, 1, &path, 9, 5, 2).unwrap_err(), FileResponseMismatch::Range(5, 2));
    let err = IpcFileResponse::Error { error: "gone".to_string() };
    assert_eq!(file_data_result(err, 1, &path, 9, 5, 2).unwrap().unwrap_err(), "gone");
}
