//! The client, the teams and events it reaches, and the requests they send.

use vstd::prelude::*;

use crate::error::ApiError;
use crate::json::{document, field_of, find_field, parse_document, Json};
use crate::season::{season_code, Season};
use crate::text::{decimal, decimal_string};

verus! {

/// A GET request to the service: where it goes and the headers it carries.
#[derive(Clone, Debug)]
pub struct Request {
    pub url: String,
    pub headers: Vec<(String, String)>,
}

impl View for Request {
    type V = (Seq<char>, Seq<(Seq<char>, Seq<char>)>);

    open spec fn view(&self) -> (Seq<char>, Seq<(Seq<char>, Seq<char>)>) {
        (self.url@, self.headers@.map_values(|h: (String, String)| (h.0@, h.1@)))
    }
}

/// The address that every path of the service is appended to.
pub open spec fn base_url() -> Seq<char> {
    "https://theorangealliance.org/api"@
}

/// The request for `path` by a client with the key `api_key` and the
/// application name `application_name`.
pub open spec fn request_for(
    api_key: Seq<char>,
    application_name: Seq<char>,
    path: Seq<char>,
) -> (Seq<char>, Seq<(Seq<char>, Seq<char>)>) {
    (
        base_url() + path,
        seq![
            ("X-TOA-Key"@, api_key),
            ("X-Application-Origin"@, application_name),
            ("Content-Type"@, "application/json"@),
        ],
    )
}

/// The client of the service: the key it authenticates with and the name of
/// the application it speaks for.
#[derive(Clone, Debug)]
pub struct Client {
    api_key: String,
    application_name: String,
}

impl View for Client {
    /// The key, then the application name.
    type V = (Seq<char>, Seq<char>);

    closed spec fn view(&self) -> (Seq<char>, Seq<char>) {
        (self.api_key@, self.application_name@)
    }
}

/// Whether every value among `fields` is a string.
pub open spec fn all_strings(fields: Seq<(String, Json)>) -> bool {
    forall|i: int| 0 <= i < fields.len() ==> #[trigger] fields[i].1 is Str
}

/// The version that an answer to the root path gives: the text of the
/// object's `version` field. The object's values must all be strings.
pub open spec fn version_in(doc: Json) -> Result<Seq<char>, ApiError> {
    match doc {
        Json::Object(fields) => if !all_strings(fields@) {
            Err(ApiError::Shape)
        } else {
            match field_of(fields@, "version"@) {
                Some(Json::Str(v)) => Ok(v@),
                _ => Err(ApiError::Shape),
            }
        },
        _ => Err(ApiError::Shape),
    }
}

/// Whether every value among `fields` is a string.
fn check_all_strings(fields: &Vec<(String, Json)>) -> (r: bool)
    ensures
        r == all_strings(fields@),
{
    let mut i: usize = 0;
    while i < fields.len()
        invariant
            i <= fields@.len(),
            forall|j: int| 0 <= j < i ==> #[trigger] fields@[j].1 is Str,
        decreases fields@.len() - i,
    {
        match &fields[i].1 {
            Json::Str(_) => {},
            _ => {
                assert(!(fields@[i as int].1 is Str));
                return false;
            },
        }
        i = i + 1;
    }
    true
}

/// The version that a body of an answer to the root path gives.
pub open spec fn version_of(body: Seq<char>) -> Result<Seq<char>, ApiError> {
    match document(body) {
        Err(e) => Err(e),
        Ok(doc) => version_in(doc),
    }
}

/// Reads the version from an answer to the root path.
pub fn version_field(doc: &Json) -> (r: Result<String, ApiError>)
    ensures
        match r {
            Ok(v) => version_in(*doc) == Ok::<Seq<char>, ApiError>(v@),
            Err(e) => version_in(*doc) == Err::<Seq<char>, ApiError>(e),
        },
{
    match doc {
        Json::Object(fields) => {
            if !check_all_strings(fields) {
                return Err(ApiError::Shape);
            }
            match find_field(fields, "version") {
                Some(Json::Str(v)) => Ok(v.clone()),
                _ => Err(ApiError::Shape),
            }
        },
        _ => Err(ApiError::Shape),
    }
}

impl Client {
    /// A client that authenticates with `api_key`, for the application
    /// `rustoa`.
    pub fn new(api_key: &str) -> (r: Client)
        ensures
            r@ == (api_key@, "rustoa"@),
    {
        Client { api_key: api_key.to_string(), application_name: "rustoa".to_string() }
    }

    /// The key the client authenticates with.
    pub fn api_key(&self) -> (r: &str)
        ensures
            r@ == self@.0,
    {
        self.api_key.as_str()
    }

    /// The name of the application the client speaks for.
    pub fn application_name(&self) -> (r: &str)
        ensures
            r@ == self@.1,
    {
        self.application_name.as_str()
    }

    /// A client with the same key and application name.
    pub fn copy(&self) -> (r: Client)
        ensures
            r@ == self@,
    {
        Client { api_key: self.api_key.clone(), application_name: self.application_name.clone() }
    }

    /// The request for `target`, a path of the service that starts with `/`.
    pub fn request(&self, target: &str) -> (r: Request)
        ensures
            r@ == request_for(self@.0, self@.1, target@),
    {
        let mut url = "https://theorangealliance.org/api".to_string();
        url.append(target);
        let mut headers: Vec<(String, String)> = Vec::new();
        headers.push(("X-TOA-Key".to_string(), self.api_key.clone()));
        headers.push(("X-Application-Origin".to_string(), self.application_name.clone()));
        headers.push(("Content-Type".to_string(), "application/json".to_string()));
        let r = Request { url, headers };
        assert(r@.1 =~= request_for(self@.0, self@.1, target@).1);
        r
    }

    /// The request for the root path, whose answer gives the version.
    pub fn version_request(&self) -> (r: Request)
        ensures
            r@ == request_for(self@.0, self@.1, "/"@),
    {
        self.request("/")
    }

    /// The version of the service that the answer to the root path gives.
    pub fn api_version(&self, body: &str) -> (r: Result<String, ApiError>)
        ensures
            match r {
                Ok(v) => version_of(body@) == Ok::<Seq<char>, ApiError>(v@),
                Err(e) => version_of(body@) == Err::<Seq<char>, ApiError>(e),
            },
    {
        let doc = parse_document(body)?;
        version_field(&doc)
    }

    /// The team numbered `team_number`, reached through this client.
    pub fn team(&self, team_number: u32) -> (r: Team)
        ensures
            r.team_number == team_number,
            r.client@ == self@,
    {
        Team::new(team_number, self.copy())
    }
}

/// A team of the FIRST Tech Challenge, known by its number.
#[derive(Clone, Debug)]
pub struct Team {
    pub client: Client,
    pub team_number: u32,
}

/// The path `/team/<number><rest>`.
pub open spec fn team_path(team_number: u32, rest: Seq<char>) -> Seq<char> {
    "/team/"@ + decimal(team_number as nat) + rest
}

impl Team {
    /// The team numbered `team_number`, reached through `client`.
    pub fn new(team_number: u32, client: Client) -> (r: Team)
        ensures
            r.team_number == team_number,
            r.client == client,
    {
        Team { client, team_number }
    }

    fn request_to(&self, rest: &str) -> (r: Request)
        ensures
            r@ == request_for(self.client@.0, self.client@.1, team_path(self.team_number, rest@)),
    {
        let mut path = "/team/".to_string();
        path.append(decimal_string(self.team_number as u64).as_str());
        path.append(rest);
        assert(path@ =~= team_path(self.team_number, rest@));
        self.client.request(path.as_str())
    }

    /// The request whose answer holds the team's wins, losses and ties.
    pub fn wlt_request(&self) -> (r: Request)
        ensures
            r@ == request_for(self.client@.0, self.client@.1, team_path(self.team_number, "/wlt"@)),
    {
        self.request_to("/wlt")
    }

    /// The request whose answer holds the team's properties.
    pub fn properties_request(&self) -> (r: Request)
        ensures
            r@ == request_for(self.client@.0, self.client@.1, team_path(self.team_number, "/"@)),
    {
        self.request_to("/")
    }

    /// The request whose answer holds the team's match results of `season`.
    pub fn results_request(&self, season: Season) -> (r: Request)
        ensures
            r@ == request_for(
                self.client@.0,
                self.client@.1,
                team_path(self.team_number, "/results/"@ + decimal(season_code(season) as nat)),
            ),
    {
        let mut rest = "/results/".to_string();
        rest.append(decimal_string(season.value() as u64).as_str());
        self.request_to(rest.as_str())
    }

    /// The request whose answer lists the events the team took part in
    /// during `season`.
    pub fn events_request(&self, season: Season) -> (r: Request)
        ensures
            r@ == request_for(
                self.client@.0,
                self.client@.1,
                team_path(self.team_number, "/events/"@ + decimal(season_code(season) as nat)),
            ),
    {
        let mut rest = "/events/".to_string();
        rest.append(decimal_string(season.value() as u64).as_str());
        self.request_to(rest.as_str())
    }
}

/// An event of the FIRST Tech Challenge, known by the key the service gives
/// it.
#[derive(Clone, Debug)]
pub struct Event {
    pub event_key: String,
    client: Client,
}

/// The path `/event/<key><rest>`.
pub open spec fn event_path(event_key: Seq<char>, rest: Seq<char>) -> Seq<char> {
    "/event/"@ + event_key + rest
}

impl View for Event {
    /// The event's key, then the view of its client.
    type V = (Seq<char>, (Seq<char>, Seq<char>));

    closed spec fn view(&self) -> (Seq<char>, (Seq<char>, Seq<char>)) {
        (self.event_key@, self.client@)
    }
}

impl Event {
    /// The event keyed `event_key`, reached through `client`.
    pub fn new(event_key: &str, client: &Client) -> (r: Event)
        ensures
            r@ == (event_key@, client@),
    {
        Event { event_key: event_key.to_string(), client: client.copy() }
    }

    /// The key the service gives the event.
    pub fn event_key(&self) -> (r: &str)
        ensures
            r@ == self@.0,
    {
        self.event_key.as_str()
    }

    fn request_to(&self, rest: &str) -> (r: Request)
        ensures
            r@ == request_for(
                self@.1.0,
                self@.1.1,
                event_path(self@.0, rest@),
            ),
    {
        let mut path = "/event/".to_string();
        path.append(self.event_key.as_str());
        path.append(rest);
        self.client.request(path.as_str())
    }

    /// The request whose answer holds the event's properties, its name among
    /// them.
    pub fn properties_request(&self) -> (r: Request)
        ensures
            r@ == request_for(
                self@.1.0,
                self@.1.1,
                event_path(self@.0, ""@),
            ),
    {
        self.request_to("")
    }

    /// The request whose answer holds the event's rankings.
    pub fn rankings_request(&self) -> (r: Request)
        ensures
            r@ == request_for(
                self@.1.0,
                self@.1.1,
                event_path(self@.0, "/rankings"@),
            ),
    {
        self.request_to("/rankings")
    }
}

/// Asking twice is asking the same: two teams of the same number, reached
/// through clients of the same key and application name, send the same
/// request to each path; so do two events of the same key. What is read
/// from an answer depends on the answer's body alone, so the same state of
/// the service gives both the same results.
pub proof fn lemma_same_key_same_requests(a: Team, b: Team, c: Event, d: Event, rest: Seq<char>)
    requires
        a.team_number == b.team_number,
        a.client@ == b.client@,
        c@ == d@,
    ensures
        request_for(a.client@.0, a.client@.1, team_path(a.team_number, rest)) == request_for(
            b.client@.0,
            b.client@.1,
            team_path(b.team_number, rest),
        ),
        request_for(c@.1.0, c@.1.1, event_path(c@.0, rest)) == request_for(
            d@.1.0,
            d@.1.1,
            event_path(d@.0, rest),
        ),
{
}

} // verus!
