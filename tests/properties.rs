use rustoa::properties::normalize_properties;
use rustoa::{ApiError, Client};

#[test]
fn properties_of_plain_values() {
    let body = r#"[{"rookie_year": 2019, "nickname": "Foo", "x": null}]"#;
    let map = normalize_properties(body).unwrap();
    assert_eq!(map.get("rookie_year").unwrap(), "2019");
    assert_eq!(map.get("nickname").unwrap(), "Foo");
    assert_eq!(map.get("x").unwrap(), "null");
    assert_eq!(map.entries().len(), 3);
    assert!(map.get("team_key").is_none());
}

#[test]
fn properties_of_booleans_and_negative_integers() {
    let body = r#"[{"is_public": true, "is_final": false, "offset": -3}]"#;
    let map = normalize_properties(body).unwrap();
    assert_eq!(map.get("is_public").unwrap(), "true");
    assert_eq!(map.get("is_final").unwrap(), "false");
    assert_eq!(map.get("offset").unwrap(), "-3");
}

#[test]
fn last_active_season_label() {
    let body = r#"[{"team_key": "16405", "last_active": "1920"}]"#;
    let map = normalize_properties(body).unwrap();
    assert_eq!(map.get("last_active").unwrap(), "Season::SkyStone");
    assert_eq!(map.get("team_key").unwrap(), "16405");
}

#[test]
fn last_active_as_number() {
    let body = r#"[{"last_active": 1718}]"#;
    let map = normalize_properties(body).unwrap();
    assert_eq!(map.get("last_active").unwrap(), "Season::RelicRecovery");
}

#[test]
fn last_active_unknown_season() {
    let body = r#"[{"nickname": "Foo", "last_active": "2122"}]"#;
    assert_eq!(normalize_properties(body).err(), Some(ApiError::Lookup));
}

#[test]
fn nested_property_is_refused() {
    let body = r#"[{"nickname": "Foo", "location": {"city": "Austin"}}]"#;
    assert_eq!(normalize_properties(body).err(), Some(ApiError::Shape));
    let body = r#"[{"awards": [1, 2]}]"#;
    assert_eq!(normalize_properties(body).err(), Some(ApiError::Shape));
}

#[test]
fn fractional_property_is_refused() {
    let body = r#"[{"opr": 12.5}]"#;
    assert_eq!(normalize_properties(body).err(), Some(ApiError::Shape));
}

#[test]
fn properties_need_one_record_in_an_array() {
    assert_eq!(normalize_properties("[]").err(), Some(ApiError::Shape));
    assert_eq!(normalize_properties(r#"{"a": 1}"#).err(), Some(ApiError::Shape));
    assert_eq!(normalize_properties("[3]").err(), Some(ApiError::Shape));
    assert_eq!(normalize_properties("[{").err(), Some(ApiError::Parse));
    assert_eq!(normalize_properties("").err(), Some(ApiError::Parse));
}

#[test]
fn only_the_first_record_counts() {
    let body = r#"[{"nickname": "Foo"}, {"nickname": "Bar"}]"#;
    let map = normalize_properties(body).unwrap();
    assert_eq!(map.get("nickname").unwrap(), "Foo");
}

#[test]
fn team_and_event_properties_agree() {
    let client = Client::new("key");
    let team = client.team(16405);
    let event = rustoa::Event::new("1920-TX-TRQ", &client);
    let body = r#"[{"event_name": "Trinity River Qualifier", "division": 0}]"#;
    let a = team.properties(body).unwrap();
    let b = event.properties(body).unwrap();
    assert_eq!(a.get("event_name"), b.get("event_name"));
    assert_eq!(b.get("division").unwrap(), "0");
}
