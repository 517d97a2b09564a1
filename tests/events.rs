use rustoa::events::key_suffix_of;
use rustoa::{ApiError, Client, Event};

#[test]
fn event_keys_in_order() {
    let team = Client::new("abc").team(16405);
    let body = r#"[{"event_key": "1920-TX-TRQ"}, {"event_key": "1920-TX-STATE", "x": 1}]"#;
    assert_eq!(
        team.event_keys(body),
        Ok(vec!["1920-TX-TRQ".to_string(), "1920-TX-STATE".to_string()])
    );
    assert_eq!(team.event_keys("[]"), Ok(vec![]));
}

#[test]
fn event_keys_of_wrong_shape() {
    let team = Client::new("abc").team(16405);
    assert_eq!(team.event_keys(r#"[{"event_key": 5}]"#), Err(ApiError::Shape));
    assert_eq!(team.event_keys(r#"[{"key": "a"}]"#), Err(ApiError::Shape));
    assert_eq!(team.event_keys(r#"{"event_key": "a"}"#), Err(ApiError::Shape));
    assert_eq!(team.event_keys("]"), Err(ApiError::Parse));
}

#[test]
fn event_name_from_properties() {
    let event = Event::new("1920-TX-TRQ", &Client::new("abc"));
    let body = r#"[{"event_key": "1920-TX-TRQ", "event_name": "Trinity River Qualifier"}]"#;
    assert_eq!(event.name(body), Ok("Trinity River Qualifier".to_string()));
    assert_eq!(event.name(r#"[{"event_key": "1920-TX-TRQ"}]"#), Err(ApiError::Shape));
    assert_eq!(event.name("[]"), Err(ApiError::Shape));
}

#[test]
fn events_filed_by_name() {
    let team = Client::new("abc").team(16405);
    let listing = vec![
        ("1920-TX-TRQ".to_string(), "Trinity River Qualifier".to_string()),
        ("1920-TX-NTXM".to_string(), "North Texas Meet".to_string()),
    ];
    let map = team.events(&listing);
    assert_eq!(map.get("trinity_river_qualifier").unwrap().event_key, "1920-TX-TRQ");
    assert_eq!(map.get("north_texas_meet").unwrap().event_key, "1920-TX-NTXM");
    assert!(map.get("Trinity River Qualifier").is_none());
    assert_eq!(map.entries().len(), 2);
}

#[test]
fn same_name_events_both_kept() {
    let team = Client::new("abc").team(16405);
    let listing = vec![
        ("1920-TX-STATE".to_string(), "State Championship".to_string()),
        ("1920-CA-STATE2".to_string(), "State Championship".to_string()),
    ];
    let map = team.events(&listing);
    assert_eq!(map.get("state_championship").unwrap().event_key, "1920-TX-STATE");
    assert_eq!(
        map.get("state_championship_state2").unwrap().event_key,
        "1920-CA-STATE2"
    );
    assert_eq!(map.entries().len(), 2);
}

#[test]
fn key_suffix_drops_date_and_region() {
    assert_eq!(key_suffix_of("1920-TX-STATE"), "state");
    assert_eq!(key_suffix_of("1819-CAN-Q1"), "q1");
    assert_eq!(key_suffix_of("NOPREFIX"), "noprefix");
}
