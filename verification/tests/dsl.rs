use kaleidoscope::media_query::dsl::{DSLDate, DSLInteger, DSLString};
use kaleidoscope::media_query::macros::{format_value, parse_filter};
use kaleidoscope::media_query::media_query::{MediaQuery, MediaQueryType};
use kaleidoscope::media_query::values::DateValue;

#[test]
pub fn test_parse_filter() {
    // filter: num:>=10 str:%foo date:=2020-01-01

    let tests = [
        (
            "num:>=10 str:%foo date:=2020-01-01",
            vec!["num:>=10", "str:%foo", "date:=2020-01-01"],
        ),
        (
            "str:='foo' date:=2020-01-01",
            vec!["str:=foo", "date:=2020-01-01"],
        ),
        (
            "  str:%\"foo\"  date:=2020-01-01",
            vec!["str:%foo", "date:=2020-01-01"],
        ),
        (r#"str:%'\' foo \''"#, vec![r#"str:%' foo '"#]),
        (r#"str:%"foo foo""#, vec![r#"str:%foo foo"#]),
        ("", vec![]),
        (
            r#"str:%"foo's""#,
            vec![r#"str:%foo's"#],
        )
    ];

    for (input, expected) in tests.iter() {
        let parsed = parse_filter(input).expect("failed to parse filter");
        assert_eq!(parsed, *expected, "input: {}", input);
    }

    let errors = ["str:'foo", "str:foo'", r#"str:j\"#];

    for input in errors.iter() {
        let parsed = parse_filter(input);
        assert!(parsed.is_err(), "input: {}", input);
    }
}

fn date(year: i32, month: u32, day: u32) -> DateValue {
    DateValue { year, month, day }
}

// The filter language of the media query, with `import_id` for a number,
// `path` for a string and `created_at` for a date.
#[test]
pub fn test_dsl() {
    let tests = [
        (
            "import_id:>=10 path:%foo created_at:=2020-01-01",
            vec![
                MediaQueryType::ImportId(DSLInteger::GreaterEqual, 10),
                MediaQueryType::Path(DSLString::Like, "foo".to_string()),
                MediaQueryType::CreatedAt(DSLDate::Equal, date(2020, 1, 1)),
            ],
        ),
        (
            "import_id:<10 path:=foo created_at:>1955-01-01",
            vec![
                MediaQueryType::ImportId(DSLInteger::Less, 10),
                MediaQueryType::Path(DSLString::Equal, "foo".to_string()),
                MediaQueryType::CreatedAt(DSLDate::After, date(1955, 1, 1)),
            ],
        ),
        (
            "import_id:<=10 path:%foo",
            vec![
                MediaQueryType::ImportId(DSLInteger::LessEqual, 10),
                MediaQueryType::Path(DSLString::Like, "foo".to_string()),
            ],
        ),
        (
            "path:='foo' created_at:=2020-01-01",
            vec![
                MediaQueryType::Path(DSLString::Equal, "foo".to_string()),
                MediaQueryType::CreatedAt(DSLDate::Equal, date(2020, 1, 1)),
            ],
        ),
        (
            "  path:%\"foo\"  created_at:=2020-01-01",
            vec![
                MediaQueryType::Path(DSLString::Like, "foo".to_string()),
                MediaQueryType::CreatedAt(DSLDate::Equal, date(2020, 1, 1)),
            ],
        ),
        (
            r#"path:%'\' foo \''"#,
            vec![MediaQueryType::Path(DSLString::Like, r#"' foo '"#.to_string())],
        ),
        (
            "path:%foo path:!%bar import_id:=5 import_id:=2",
            vec![
                MediaQueryType::Path(DSLString::Like, "foo".to_string()),
                MediaQueryType::Path(DSLString::NotLike, "bar".to_string()),
                MediaQueryType::ImportId(DSLInteger::Equal, 5),
                MediaQueryType::ImportId(DSLInteger::Equal, 2),
            ],
        ),
        (
            r#"path:%"foo\'s""#,
            vec![MediaQueryType::Path(DSLString::Like, r#"foo's"#.to_string())],
        ),
        (
            r#"path:%"fo\o\'s""#,
            vec![MediaQueryType::Path(DSLString::Like, r#"foo's"#.to_string())],
        ),
        (
            r#"path:%"foo's""#,
            vec![MediaQueryType::Path(DSLString::Like, r#"foo's"#.to_string())],
        ),
        (
            r#"path:%"%foo%""#,
            vec![MediaQueryType::Path(DSLString::Like, r#"%foo%"#.to_string())],
        ),
    ];

    let errors = [
        "path:='foo",
        "path:=foo'",
        r#"path:=j\"#,
        "import_id:=foo",
        "created_at:=foo",
        "import_id:3",
        "path:%foo path:!%bar import_id=5 import_id=2",
    ];

    println!("{}", MediaQueryType::describe());

    for (input, expected) in tests.iter() {
        let parsed = MediaQuery::from_str(input).expect("failed to parse query");
        assert_eq!(parsed.filters(), expected, "input: {}", input);
        assert!(!parsed.to_string().is_empty())
    }

    for input in errors.iter() {
        let parsed = MediaQuery::from_str(input);
        assert!(parsed.is_err(), "input: {}", input);
    }
}

#[test]
pub fn media_query_validation() {
    let tests = [(
         "created_at:>2020-01-01 is_screenshot:=false has_gps:=true filter_path:%'foo%' filter_path:!%'%.jpg' order_by:=created_at asc:=true limit:=10 page:=1",
          true
        ),
        (
            "created_at:>2020-01-01 is_screenshot:=false has_gps:=true filter_path:%'foo%' filter_path:!%'%.jpg' order_by:=created_at asc:=true page:=1",
            false
            ),
        (
            "order_by:=created_at created_at:>2020-01-01 is_screenshot:=false has_gps:=true filter_path:%'foo%' filter_path:!%'%.jpg' asc:=true limit:=10 page:=1",
            false
        ),
        (
            "created_at:>2020-01-01 is_screenshot:=false has_gps:=true filter_path:%'foo%' filter_path:!%'%.jpg' order_by:=created_at asc:=true limit:=10 page:=1 page:=2",
            false
        ),
        (
            "created_at:>2020-01-01 is_screenshot:=false has_gps:=true filter_path:%'foo%' filter_path:!%'%.jpg' order_by:=created_at asc:=true page:=1 limit:=10",
            false
        ),
        (
            "created_at:>2020-01-01 is_screenshot:=false has_gps:=true filter_path:%'foo%' filter_path:!%'%.jpg' limit:=10 page:=1 order_by:=created_at asc:=true",
            false
        ),
    ];

    for (input, expected) in tests.iter() {
        let parsed = MediaQuery::from_str(input);
        assert!(parsed.is_ok(), "input: {:?} - {}", parsed.as_ref().err(), input);
        let validate = parsed.unwrap().validate();
        assert_eq!(
            validate.is_ok(),
            *expected,
            "input: {:?} - {}",
            validate.as_ref().err(),
            input
        );
    }
}

#[test]
fn format_value_quotes_and_escapes() {
    assert_eq!(format_value("foo bar"), "'foo bar'");
    assert_eq!(format_value("it's"), r"'it\'s'");
    assert_eq!(format_value(""), "''");
    let tokens = parse_filter(&format_value("a 'b' c")).unwrap();
    assert_eq!(tokens, vec!["a 'b' c"]);
}

#[test]
fn parse_filter_error_messages() {
    assert_eq!(parse_filter("path:'foo").unwrap_err(), "unmatched quote: '");
    assert_eq!(parse_filter("path:\"foo").unwrap_err(), "unmatched quote: \"");
    assert_eq!(parse_filter(r"path:j\").unwrap_err(), "unexpected end of string");
}

#[test]
fn plain_text_splits_on_whitespace() {
    for input in ["  path:=a \t limit:=3\n", "a b  c", "", "   "] {
        let expected: Vec<String> = input.split_whitespace().map(String::from).collect();
        assert_eq!(parse_filter(input).unwrap(), expected, "input: {}", input);
    }
}
