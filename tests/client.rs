use rustoa::{ApiError, Client, Event, Season, Team};

fn header<'a>(headers: &'a [(String, String)], name: &str) -> Option<&'a str> {
    headers.iter().find(|h| h.0 == name).map(|h| h.1.as_str())
}

#[test]
fn check_number() {
    let client = Client::new("key");
    let team = client.team(16405);
    assert_eq!(team.team_number, 16405);
}

#[test]
fn check_numbers() {
    let client = Client::new("key");
    let team1 = client.team(16405);
    let team2 = client.team(16405);
    assert_eq!(team1.team_number, team2.team_number);
}

#[test]
fn client_fields() {
    let client = Client::new("SECRET-REDACTED");
    assert_eq!(client.api_key(), "SECRET-REDACTED");
    assert_eq!(client.application_name(), "rustoa");
    let team = Team::new(7, client.clone());
    assert_eq!(team.client.api_key(), "SECRET-REDACTED");
}

#[test]
fn request_url_and_headers() {
    let client = Client::new("abc");
    let req = client.request("/team/16405/wlt");
    assert_eq!(req.url, "https://theorangealliance.org/api/team/16405/wlt");
    assert_eq!(req.headers.len(), 3);
    assert_eq!(header(&req.headers, "X-TOA-Key"), Some("abc"));
    assert_eq!(header(&req.headers, "X-Application-Origin"), Some("rustoa"));
    assert_eq!(header(&req.headers, "Content-Type"), Some("application/json"));
}

#[test]
fn request_paths() {
    let client = Client::new("abc");
    let base = "https://theorangealliance.org/api";
    assert_eq!(client.version_request().url, format!("{}/", base));
    let team = client.team(16405);
    assert_eq!(team.wlt_request().url, format!("{}/team/16405/wlt", base));
    assert_eq!(team.properties_request().url, format!("{}/team/16405/", base));
    assert_eq!(
        team.results_request(Season::SkyStone).url,
        format!("{}/team/16405/results/1920", base)
    );
    assert_eq!(
        team.events_request(Season::VelocityVortex).url,
        format!("{}/team/16405/events/1617", base)
    );
    assert_eq!(client.team(0).wlt_request().url, format!("{}/team/0/wlt", base));
    let event = Event::new("1920-TX-TRQ", &client);
    assert_eq!(event.event_key(), "1920-TX-TRQ");
    assert_eq!(event.properties_request().url, format!("{}/event/1920-TX-TRQ", base));
    assert_eq!(
        event.rankings_request().url,
        format!("{}/event/1920-TX-TRQ/rankings", base)
    );
}

#[test]
fn same_key_same_request_and_result() {
    let team1 = Client::new("abc").team(16405);
    let team2 = Client::new("abc").team(16405);
    let (a, b) = (team1.wlt_request(), team2.wlt_request());
    assert_eq!(a.url, b.url);
    assert_eq!(a.headers, b.headers);
    let body = r#"[{"wins": 9, "losses": 3, "ties": 1}]"#;
    assert_eq!(team1.wins(body), team2.wins(body));
    assert_eq!(team1.properties(body).unwrap().get("ties"), team2.properties(body).unwrap().get("ties"));
}

#[test]
fn api_version_from_root() {
    let client = Client::new("abc");
    assert_eq!(client.api_version(r#"{"version": "3.7.0"}"#), Ok("3.7.0".to_string()));
    assert_eq!(client.api_version(r#"{"version": 3}"#), Err(ApiError::Shape));
    assert_eq!(client.api_version(r#"{"version": "3.7.0", "beta": null}"#), Err(ApiError::Shape));
    assert_eq!(
        client.api_version(r#"{"name": "toa", "version": "3.7.0"}"#),
        Ok("3.7.0".to_string())
    );
    assert_eq!(client.api_version(r#"{"name": "toa"}"#), Err(ApiError::Shape));
    assert_eq!(client.api_version(r#"["3.7.0"]"#), Err(ApiError::Shape));
    assert_eq!(client.api_version("<html>"), Err(ApiError::Parse));
}
