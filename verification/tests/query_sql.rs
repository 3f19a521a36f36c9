use kaleidoscope::media_query::dsl::{DSLBool, DSLInteger, DSLString};
use kaleidoscope::media_query::media_query::{MediaQuery, MediaQueryError, MediaQueryType};
use kaleidoscope::media_query::macros::filter_input_is_supported;
use kaleidoscope::sql::{SqlArg, SqlPiece, SqlQuery};

fn query(s: &str) -> MediaQuery {
    MediaQuery::from_str(s).expect("query should parse")
}

fn binds(q: &SqlQuery) -> Vec<SqlArg> {
    q.pieces()
        .iter()
        .filter_map(|p| match p {
            SqlPiece::Bind(a) => Some(a.clone()),
            SqlPiece::Text(_) => None,
        })
        .collect()
}

#[test]
fn validate_reports_unknown_column() {
    match query("order_by:=secret").validate() {
        Err(MediaQueryError::UnknownColumn(c)) => assert_eq!(c, "secret"),
        other => panic!("unexpected {:?}", other),
    }
    assert!(query("order_by:=created_at").validate().is_ok());
}

#[test]
fn validate_reports_duplicates() {
    match query("limit:=1 limit:=2").validate() {
        Err(MediaQueryError::DuplicateFilter(f)) => assert_eq!(f, MediaQueryType::Limit(DSLInteger::Equal, 2)),
        other => panic!("unexpected {:?}", other),
    }
}

#[test]
fn validate_reports_order() {
    match query("limit:=1 path:=x").validate() {
        Err(MediaQueryError::InvalidFilterOrder(f, g)) => {
            assert_eq!(f, MediaQueryType::Path(DSLString::Equal, "x".to_string()));
            assert_eq!(g, MediaQueryType::Limit(DSLInteger::Equal, 1));
        }
        other => panic!("unexpected {:?}", other),
    }
    match query("page:=1 limit:=2").validate() {
        Err(MediaQueryError::InvalidFilterOrder(f, g)) => {
            assert_eq!(f, MediaQueryType::Limit(DSLInteger::Equal, 2));
            assert_eq!(g, MediaQueryType::Page(DSLInteger::Equal, 1));
        }
        other => panic!("unexpected {:?}", other),
    }
}

#[test]
fn validate_reports_operator_and_page() {
    match query("limit:>5").validate() {
        Err(MediaQueryError::InvalidOperator(f)) => assert_eq!(f, MediaQueryType::Limit(DSLInteger::Greater, 5)),
        other => panic!("unexpected {:?}", other),
    }
    match query("asc:=true page:=2").validate() {
        Err(MediaQueryError::InvalidPage) => {}
        other => panic!("unexpected {:?}", other),
    }
}

#[test]
fn count_query_keeps_only_selecting_filters() {
    let q = query("path:=a tag:=x order_by:=name asc:=false limit:=10 page:=2");
    let c = q.to_count_query();
    assert_eq!(
        c.filters(),
        &vec![
            MediaQueryType::Path(DSLString::Equal, "a".to_string()),
            MediaQueryType::Tag(DSLString::Equal, "x".to_string()),
        ]
    );
    // the counting query of a query that fails validation still passes it
    assert!(query("page:=1 path:=a limit:>2").to_count_query().validate().is_ok());
}

#[test]
fn sqlize_builds_conditions_and_paging() {
    let q = query("path:%foo order_by:=name asc:=false limit:=10 page:=2");
    let mut sql = SqlQuery::new("SELECT * FROM media");
    q.sqlize(&mut sql).unwrap();
    assert_eq!(
        sql.sql(),
        "SELECT * FROM media WHERE 1=1  AND media.path LIKE? ORDER BY media.name DESC LIMIT ? OFFSET ?"
    );
    assert_eq!(
        binds(&sql),
        vec![SqlArg::Text("foo".to_string()), SqlArg::Int(10), SqlArg::Int(20)]
    );
}

#[test]
fn sqlize_keeps_an_existing_where() {
    let q = query("is_screenshot:=true has_gps:=false");
    let mut sql = SqlQuery::new("SELECT * FROM media WHERE media.liked = 1");
    q.add_queries(&mut sql).unwrap();
    assert_eq!(
        sql.sql(),
        "SELECT * FROM media WHERE media.liked = 1 AND media.is_screenshot =? AND (media.latitude IS NULL AND media.longitude IS NULL)"
    );
    assert_eq!(binds(&sql), vec![SqlArg::Bool(true)]);
}

#[test]
fn sqlize_joins_each_table_once_and_groups_tags() {
    let q = query("tag:=cat full_search:%dog tag:!%bird transcript:=hi");
    let mut sql = SqlQuery::new("SELECT media.* FROM media");
    q.sqlize(&mut sql).unwrap();
    let expected = [
        "SELECT media.* FROM media",
        " LEFT JOIN media_tag ON media.id = media_tag.media_id ",
        " LEFT JOIN media_extra ON media.id = media_extra.media_id ",
        " LEFT JOIN custom_metadata ON media.id = custom_metadata.media_id ",
        " WHERE 1=1 ",
        " AND (1=2 OR media_tag.tag  =? OR media_tag.tag  NOT LIKE? )",
        " AND (1=2 OR media.name LIKE? OR media_extra.whisper_transcript LIKE? OR media_extra.vision_ocr_result LIKE?",
        " OR (custom_metadata.value LIKE? AND custom_metadata.include_search = TRUE)  ) ",
        " AND media_extra.whisper_transcript =?",
    ]
    .concat();
    assert_eq!(sql.sql(), expected);
    let dog = SqlArg::Text("dog".to_string());
    assert_eq!(
        binds(&sql),
        vec![
            SqlArg::Text("cat".to_string()),
            SqlArg::Text("bird".to_string()),
            dog.clone(),
            dog.clone(),
            dog.clone(),
            dog,
            SqlArg::Text("hi".to_string()),
        ]
    );
}

#[test]
fn sqlize_of_an_invalid_query_adds_only_the_joins() {
    let q = query("limit:=1 tag:=x");
    let mut sql = SqlQuery::new("SELECT * FROM media");
    assert!(matches!(q.sqlize(&mut sql), Err(MediaQueryError::InvalidFilterOrder(..))));
    assert_eq!(sql.sql(), "SELECT * FROM media LEFT JOIN media_tag ON media.id = media_tag.media_id ");
}

#[test]
fn query_text_quotes_values_with_whitespace() {
    let q = query("path:='foo bar' created_at:>2020-01-01 has_gps:=true import_id:>=-3 longitude:<1.5");
    assert_eq!(
        q.to_string(),
        "path:='foo bar' created_at:>2020-01-01 has_gps:=true import_id:>=-3 longitude:<1.5"
    );
    let again = query(&q.to_string());
    assert_eq!(again.filters(), q.filters());
}

#[test]
fn uuid_values_are_read_and_written() {
    let q = query("album_uuid:=67E55044-10B1-426F-9247-BB680E5FE0C8");
    assert_eq!(q.to_string(), "album_uuid:=67e55044-10b1-426f-9247-bb680e5fe0c8");
    assert!(MediaQuery::from_str("album_uuid:=not-a-uuid").is_err());
    assert_eq!(
        MediaQuery::from_str("album_uuid:=xyz").err().unwrap(),
        "invalid uuid format: xyz"
    );
}

#[test]
fn dates_are_read_with_chrono() {
    assert!(MediaQuery::from_str("created_at:=2021-02-30").is_err());
    assert_eq!(MediaQuery::from_str("created_at:=foo").err().unwrap(), "invalid date format");
    let q = query("created_at:<=1999-12-31");
    assert_eq!(q.to_string(), "created_at:<=1999-12-31");
}

#[test]
fn parse_errors_have_their_messages() {
    assert_eq!(MediaQuery::from_str("nope:=1").err().unwrap(), "unexpected key 'nope'");
    assert_eq!(MediaQuery::from_str("path").err().unwrap(), "invalid filter no colon: path");
    assert_eq!(MediaQuery::from_str("limit:~3").err().unwrap(), "invalid operator for key 'limit': ~3");
    assert_eq!(MediaQuery::from_str("limit:=x").err().unwrap(), "invalid number format: x");
    assert_eq!(MediaQuery::from_str("asc:=yes").err().unwrap(), "invalid bool format: yes");
    assert_eq!(MediaQuery::from_str("latitude:=north").err().unwrap(), "invalid float format: north");
}

#[test]
fn operators_read_longest_first() {
    let q = query("limit:>=3 import_id:<=4 path:!=x path:!%y");
    assert_eq!(
        q.filters(),
        &vec![
            MediaQueryType::Limit(DSLInteger::GreaterEqual, 3),
            MediaQueryType::ImportId(DSLInteger::LessEqual, 4),
            MediaQueryType::Path(DSLString::NotEqual, "x".to_string()),
            MediaQueryType::Path(DSLString::NotLike, "y".to_string()),
        ]
    );
    assert_eq!(query("asc:=false").filters(), &vec![MediaQueryType::Asc(DSLBool::Equal, false)]);
}

#[test]
fn describe_lists_fields_and_operators() {
    let fields = [
        ("order_by", "string"), ("asc", "bool"), ("limit", "integer"), ("page", "integer"),
        ("path", "string"), ("created_at", "date"), ("is_screenshot", "bool"), ("media_type", "string"),
        ("has_gps", "bool"), ("import_id", "integer"), ("longitude", "float"), ("latitude", "float"),
        ("transcript", "string"), ("vision_ocr", "string"), ("full_search", "string"),
        ("album_uuid", "uuid"), ("tag", "string"), ("has_thumbnail", "bool"),
    ];
    let ops = |t: &str| -> &'static [&'static str] {
        match t {
            "string" => &["!=", "=", "%", "!%"],
            "bool" => &["="],
            "integer" | "float" => &[">=", "<=", ">", "<", "="],
            "date" => &["<=", ">=", "=", "<", ">"],
            _ => &["=", "!="],
        }
    };
    let field_list: Vec<String> = fields.iter().map(|(f, t)| format!("\"{}\": \"{}\" ", f, t)).collect();
    let type_list: Vec<String> = fields.iter().map(|(_, t)| format!("\"{}\": {:?}", t, ops(t))).collect();
    let expected = format!(
        "{{ \"fields\": {{{}}}, \"dsl_types\": {{{}}}}}",
        field_list.join(", "),
        type_list.join(", ")
    );
    assert_eq!(MediaQueryType::describe(), expected);
}

#[test]
fn offsets_and_supported_input() {
    assert!(query("limit:=10 page:=3").offset_fits());
    assert!(!query("limit:=2147483647 page:=2").offset_fits());
    assert!(query("path:=x").offset_fits());
    assert!(filter_input_is_supported("path:=abc"));
    assert!(!filter_input_is_supported("path:=é"));
    assert!(filter_input_is_supported("path:=é\\"));
}
