use rustoa::client::version_field;
use rustoa::events::{event_keys_field, event_name_field};
use rustoa::json::{find_field, parse_document, unwrap_singleton};
use rustoa::properties::properties_field;
use rustoa::stats::{column_field, count_field, ranking_field};
use rustoa::{ApiError, Json};

fn text(s: &str) -> String {
    s.to_string()
}

fn record(fields: Vec<(&str, Json)>) -> Json {
    Json::Object(fields.into_iter().map(|(k, v)| (text(k), v)).collect())
}

fn number(t: &str) -> Json {
    Json::Number(text(t))
}

#[test]
fn parsed_document_shape() {
    let doc = parse_document(r#"[{"a": [1, 2.5, "x"], "b": {"c": true}, "d": null}]"#).unwrap();
    let fields = unwrap_singleton(&doc).unwrap();
    match find_field(fields, "a") {
        Some(Json::Array(items)) => {
            assert_eq!(items.len(), 3);
            assert!(matches!(&items[0], Json::Number(t) if t == "1"));
            assert!(matches!(&items[1], Json::Number(t) if t == "2.5"));
            assert!(matches!(&items[2], Json::Str(s) if s == "x"));
        }
        _ => panic!("field a is not an array"),
    }
    assert!(matches!(find_field(fields, "b"), Some(Json::Object(inner)) if inner.len() == 1));
    assert!(matches!(find_field(fields, "d"), Some(Json::Null)));
    assert!(find_field(fields, "e").is_none());
}

#[test]
fn later_field_of_a_name_counts() {
    let fields = vec![(text("k"), number("1")), (text("k"), number("2"))];
    assert!(matches!(find_field(&fields, "k"), Some(Json::Number(t)) if t == "2"));
}

#[test]
fn readers_on_built_documents() {
    let detail = Json::Array(vec![record(vec![
        ("wins", number("7")),
        ("event_name", Json::Str(text("State Championship"))),
        ("last_active", Json::Str(text("1819"))),
    ])]);
    assert_eq!(count_field(&detail, "wins"), Err(ApiError::Shape));
    let wlt = Json::Array(vec![record(vec![("wins", number("7")), ("ties", number("0"))])]);
    assert_eq!(count_field(&wlt, "wins"), Ok(7));
    assert_eq!(event_name_field(&detail), Ok(text("State Championship")));
    let props = properties_field(&detail).unwrap();
    assert_eq!(props.get("last_active").unwrap(), "Season::RoverRuckus");
    assert_eq!(props.get("wins").unwrap(), "7");

    let root = record(vec![("version", Json::Str(text("3.7.0")))]);
    assert_eq!(version_field(&root), Ok(text("3.7.0")));
    assert_eq!(version_field(&detail), Err(ApiError::Shape));

    let listing = Json::Array(vec![
        record(vec![("event_key", Json::Str(text("1920-TX-A")))]),
        record(vec![("event_key", Json::Str(text("1920-TX-B")))]),
    ]);
    assert_eq!(event_keys_field(&listing), Ok(vec![text("1920-TX-A"), text("1920-TX-B")]));

    let results = Json::Array(vec![
        record(vec![("opr", number("1.5"))]),
        record(vec![("opr", number("2"))]),
    ]);
    assert_eq!(column_field(&results, "opr"), Ok(vec![text("1.5"), text("2")]));

    let rankings = Json::Array(vec![
        record(vec![("team", record(vec![("team_number", number("100"))])), ("rank", number("2"))]),
        record(vec![("team", record(vec![("team_number", number("200"))])), ("rank", number("1"))]),
    ]);
    assert_eq!(ranking_field(&rankings, 200, "rank"), Ok(text("1")));
    assert_eq!(ranking_field(&rankings, 300, "rank"), Err(ApiError::Lookup));
    assert_eq!(ranking_field(&Json::Null, 200, "rank"), Err(ApiError::Shape));
}
