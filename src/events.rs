//! The events of a team in a season, and the names under which they are
//! filed.

use vstd::prelude::*;

use crate::client::{Event, Team};
use crate::error::ApiError;
use crate::json::{document, field_of, find_field, parse_document, singleton_record, unwrap_singleton, Json};
use crate::text::{lower_of, lowercase, str_eq, underscore_spaces, underscored};

verus! {

/// What removing every match of the regular expression `pattern` from
/// `text` gives, with the `regex` crate; `None` where `pattern` is no valid
/// expression.
pub uninterp spec fn regex_erased(pattern: Seq<char>, text: Seq<char>) -> Option<Seq<char>>;

/// Relies on `regex::Regex::new`, which compiles `pattern` or reports it
/// invalid, and on `Regex::replace_all` with an empty replacement, which
/// removes every match from `text`.
#[verifier::external_body]
fn erase_matches(pattern: &str, text: &str) -> (r: Option<String>)
    ensures
        match r {
            Some(rest) => regex_erased(pattern@, text@) == Some(rest@),
            None => regex_erased(pattern@, text@) is None,
        },
{
    match regex::Regex::new(pattern) {
        Ok(re) => Some(re.replace_all(text, "").into_owned()),
        Err(_) => None,
    }
}

/// The date and region that begin an event key, as a regular expression:
/// four digits, a dash, a word, a dash.
pub open spec fn region_prefix() -> Seq<char> {
    "\\d{4}-\\w+-"@
}

/// The name under which an event of display name `name` is filed.
pub open spec fn candidate_key(name: Seq<char>) -> Seq<char> {
    lower_of(underscored(name))
}

/// What tells apart events of the same name: the event key without its date
/// and region, in lowercase. Were the pattern ever refused, the whole key
/// would serve.
pub open spec fn key_suffix(event_key: Seq<char>) -> Seq<char> {
    match regex_erased(region_prefix(), event_key) {
        Some(rest) => lower_of(rest),
        None => lower_of(event_key),
    }
}

/// The name under which an event is filed when its candidate name is taken.
pub open spec fn disambiguated_key(name: Seq<char>, event_key: Seq<char>) -> Seq<char> {
    candidate_key(name) + "_"@ + key_suffix(event_key)
}

/// The events of a listing of event keys and display names, by the names
/// under which they are filed, each reached through `client`. An event
/// whose candidate name an earlier one took is filed under its
/// disambiguated name; a later event filed under a taken name replaces the
/// earlier one.
pub open spec fn event_map(listing: Seq<(String, String)>, client: (Seq<char>, Seq<char>)) -> Map<
    Seq<char>,
    (Seq<char>, (Seq<char>, Seq<char>)),
>
    decreases listing.len(),
{
    if listing.len() == 0 {
        Map::empty()
    } else {
        let earlier = event_map(listing.drop_last(), client);
        let (event_key, name) = listing.last();
        let key = if earlier.contains_key(candidate_key(name@)) {
            disambiguated_key(name@, event_key@)
        } else {
            candidate_key(name@)
        };
        earlier.insert(key, (event_key@, client))
    }
}

/// The map that a list of named events describes; a later entry for a name
/// replaces an earlier one.
pub open spec fn named_events(entries: Seq<(String, Event)>) -> Map<
    Seq<char>,
    (Seq<char>, (Seq<char>, Seq<char>)),
>
    decreases entries.len(),
{
    if entries.len() == 0 {
        Map::empty()
    } else {
        named_events(entries.drop_last()).insert(entries.last().0@, entries.last().1@)
    }
}

/// Events by the names under which they are filed.
pub struct EventMap {
    entries: Vec<(String, Event)>,
}

impl View for EventMap {
    type V = Map<Seq<char>, (Seq<char>, (Seq<char>, Seq<char>))>;

    closed spec fn view(&self) -> Map<Seq<char>, (Seq<char>, (Seq<char>, Seq<char>))> {
        named_events(self.entries@)
    }
}

impl EventMap {
    /// A map with no event.
    pub fn new() -> (r: EventMap)
        ensures
            r@ == Map::<Seq<char>, (Seq<char>, (Seq<char>, Seq<char>))>::empty(),
    {
        EventMap { entries: Vec::new() }
    }

    /// Files `event` under `name`.
    pub fn insert(&mut self, name: String, event: Event)
        ensures
            final(self)@ == old(self)@.insert(name@, event@),
    {
        self.entries.push((name, event));
        assert(self.entries@.drop_last() =~= old(self).entries@);
    }

    /// The event filed under `name`, if there is one.
    pub fn get(&self, name: &str) -> (r: Option<&Event>)
        ensures
            r is Some <==> self@.contains_key(name@),
            r matches Some(e) ==> self@[name@] == e@,
    {
        let mut i = self.entries.len();
        assert(self.entries@.subrange(0, i as int) =~= self.entries@);
        while i > 0
            invariant
                i <= self.entries@.len(),
                self@.contains_key(name@) == named_events(
                    self.entries@.subrange(0, i as int),
                ).contains_key(name@),
                self@.contains_key(name@) ==> self@[name@] == named_events(
                    self.entries@.subrange(0, i as int),
                )[name@],
            decreases i,
        {
            assert(self.entries@.subrange(0, i as int).drop_last() =~= self.entries@.subrange(
                0,
                i - 1,
            ));
            if str_eq(self.entries[i - 1].0.as_str(), name) {
                return Some(&self.entries[i - 1].1);
            }
            i = i - 1;
        }
        None
    }

    /// The named events, in the order in which they were filed; where a
    /// name occurs twice, the later entry counts.
    pub fn entries(&self) -> (r: &Vec<(String, Event)>)
        ensures
            named_events(r@) == self@,
    {
        &self.entries
    }
}

/// The key of an event in a listing of events.
pub open spec fn listed_key(item: Json) -> Option<Seq<char>> {
    match item {
        Json::Object(fields) => match field_of(fields@, "event_key"@) {
            Some(Json::Str(k)) => Some(k@),
            _ => None,
        },
        _ => None,
    }
}

/// The keys of a listing's events, in order; `Shape` where one of them has
/// none.
pub open spec fn listed_keys(items: Seq<Json>) -> Result<Seq<Seq<char>>, ApiError> {
    if forall|i: int| 0 <= i < items.len() ==> (#[trigger] listed_key(items[i])) is Some {
        Ok(items.map_values(|item: Json| listed_key(item)->Some_0))
    } else {
        Err(ApiError::Shape)
    }
}

/// The event keys that an answer to an events request gives.
pub open spec fn event_keys_in(doc: Json) -> Result<Seq<Seq<char>>, ApiError> {
    match doc {
        Json::Array(items) => listed_keys(items@),
        _ => Err(ApiError::Shape),
    }
}

/// The event keys that a body of an answer to an events request gives.
pub open spec fn event_keys_of(body: Seq<char>) -> Result<Seq<Seq<char>>, ApiError> {
    match document(body) {
        Err(e) => Err(e),
        Ok(doc) => event_keys_in(doc),
    }
}

/// The display name that an answer to an event's properties request gives.
pub open spec fn event_name_in(doc: Json) -> Result<Seq<char>, ApiError> {
    match singleton_record(doc) {
        Err(e) => Err(e),
        Ok(fields) => match field_of(fields, "event_name"@) {
            Some(Json::Str(name)) => Ok(name@),
            _ => Err(ApiError::Shape),
        },
    }
}

/// The display name that a body of an answer to an event's properties
/// request gives.
pub open spec fn event_name_of(body: Seq<char>) -> Result<Seq<char>, ApiError> {
    match document(body) {
        Err(e) => Err(e),
        Ok(doc) => event_name_in(doc),
    }
}

/// Reads the event keys from an answer to an events request.
pub fn event_keys_field(doc: &Json) -> (r: Result<Vec<String>, ApiError>)
    ensures
        match r {
            Ok(keys) => event_keys_in(*doc) == Ok::<Seq<Seq<char>>, ApiError>(
                keys@.map_values(|k: String| k@),
            ),
            Err(e) => event_keys_in(*doc) == Err::<Seq<Seq<char>>, ApiError>(e),
        },
{
    match doc {
        Json::Array(items) => read_keys(items),
        _ => Err(ApiError::Shape),
    }
}

/// Reads the display name from an answer to an event's properties request.
pub fn event_name_field(doc: &Json) -> (r: Result<String, ApiError>)
    ensures
        match r {
            Ok(name) => event_name_in(*doc) == Ok::<Seq<char>, ApiError>(name@),
            Err(e) => event_name_in(*doc) == Err::<Seq<char>, ApiError>(e),
        },
{
    let fields = unwrap_singleton(doc)?;
    match find_field(fields, "event_name") {
        Some(Json::Str(name)) => Ok(name.clone()),
        _ => Err(ApiError::Shape),
    }
}

fn read_keys(items: &Vec<Json>) -> (r: Result<Vec<String>, ApiError>)
    ensures
        match r {
            Ok(keys) => listed_keys(items@) == Ok::<Seq<Seq<char>>, ApiError>(
                keys@.map_values(|k: String| k@),
            ),
            Err(e) => listed_keys(items@) == Err::<Seq<Seq<char>>, ApiError>(e),
        },
{
    let mut keys: Vec<String> = Vec::new();
    let mut i: usize = 0;
    while i < items.len()
        invariant
            i <= items@.len(),
            keys@.len() == i,
            forall|j: int| 0 <= j < i ==> (#[trigger] listed_key(items@[j])) == Some(keys@[j]@),
        decreases items@.len() - i,
    {
        let key = match &items[i] {
            Json::Object(fields) => match find_field(fields, "event_key") {
                Some(Json::Str(k)) => Some(k.clone()),
                _ => None,
            },
            _ => None,
        };
        match key {
            Some(k) => keys.push(k),
            None => {
                assert(listed_key(items@[i as int]) is None);
                return Err(ApiError::Shape);
            },
        }
        i = i + 1;
    }
    assert(keys@.map_values(|k: String| k@) =~= items@.map_values(
        |item: Json| listed_key(item)->Some_0,
    ));
    Ok(keys)
}

/// The part of an event key that tells apart events of the same name.
pub fn key_suffix_of(event_key: &str) -> (r: String)
    ensures
        r@ == key_suffix(event_key@),
{
    match erase_matches("\\d{4}-\\w+-", event_key) {
        Some(rest) => lowercase(rest.as_str()),
        None => lowercase(event_key),
    }
}

impl Team {
    /// The keys of the events the team took part in, from the answer to its
    /// `events_request`.
    pub fn event_keys(&self, body: &str) -> (r: Result<Vec<String>, ApiError>)
        ensures
            match r {
                Ok(keys) => event_keys_of(body@) == Ok::<Seq<Seq<char>>, ApiError>(
                    keys@.map_values(|k: String| k@),
                ),
                Err(e) => event_keys_of(body@) == Err::<Seq<Seq<char>>, ApiError>(e),
            },
    {
        let doc = parse_document(body)?;
        event_keys_field(&doc)
    }

    /// Files the events of `listing`, pairs of an event key and the event's
    /// display name, each reached through the team's client.
    pub fn events(&self, listing: &Vec<(String, String)>) -> (r: EventMap)
        ensures
            r@ == event_map(listing@, self.client@),
    {
        let mut map = EventMap::new();
        let mut i: usize = 0;
        assert(listing@.subrange(0, 0) =~= Seq::<(String, String)>::empty());
        while i < listing.len()
            invariant
                i <= listing@.len(),
                map@ == event_map(listing@.subrange(0, i as int), self.client@),
            decreases listing@.len() - i,
        {
            let event_key = listing[i].0.as_str();
            let name = listing[i].1.as_str();
            let mut key = lowercase(underscore_spaces(name).as_str());
            if map.get(key.as_str()).is_some() {
                key.append("_");
                key.append(key_suffix_of(event_key).as_str());
            }
            map.insert(key, Event::new(event_key, &self.client));
            assert(listing@.subrange(0, i + 1).drop_last() =~= listing@.subrange(0, i as int));
            i = i + 1;
        }
        assert(listing@.subrange(0, i as int) =~= listing@);
        map
    }
}

impl Event {
    /// The event's display name, from the answer to its
    /// `properties_request`.
    pub fn name(&self, body: &str) -> (r: Result<String, ApiError>)
        ensures
            match r {
                Ok(name) => event_name_of(body@) == Ok::<Seq<char>, ApiError>(name@),
                Err(e) => event_name_of(body@) == Err::<Seq<char>, ApiError>(e),
            },
    {
        let doc = parse_document(body)?;
        event_name_field(&doc)
    }
}

/// Two events of the same display name are both kept: the first under the
/// candidate name, the second under the candidate name followed by `_` and
/// what tells its key apart.
pub proof fn lemma_same_name_both_kept(
    first: (String, String),
    second: (String, String),
    client: (Seq<char>, Seq<char>),
)
    requires
        first.1@ == second.1@,
    ensures
        ({
            let m = event_map(seq![first, second], client);
            let name = first.1@;
            &&& m.dom() == set![candidate_key(name), disambiguated_key(name, second.0@)]
            &&& m[candidate_key(name)] == (first.0@, client)
            &&& m[disambiguated_key(name, second.0@)] == (second.0@, client)
            &&& candidate_key(name) != disambiguated_key(name, second.0@)
        }),
{
    let listing = seq![first, second];
    let name = first.1@;
    assert(listing.drop_last() =~= seq![first]);
    assert(seq![first].drop_last() =~= Seq::<(String, String)>::empty());
    let c = candidate_key(name);
    let d = disambiguated_key(name, second.0@);
    reveal_strlit("_");
    assert(d.len() > c.len());
    assert(event_map(Seq::<(String, String)>::empty(), client) =~= Map::<
        Seq<char>,
        (Seq<char>, (Seq<char>, Seq<char>)),
    >::empty());
    assert(seq![first].last() == first);
    assert(listing.last() == second);
    let earlier = event_map(seq![first], client);
    assert(earlier =~= Map::<Seq<char>, (Seq<char>, (Seq<char>, Seq<char>))>::empty().insert(
        c,
        (first.0@, client),
    ));
    assert(earlier.contains_key(c));
    let m = event_map(listing, client);
    assert(m == earlier.insert(d, (second.0@, client)));
    assert(m.dom() =~= set![c, d]);
}

} // verus!
