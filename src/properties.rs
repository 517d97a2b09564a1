//! The properties of a team or an event, read from a detail answer into a
//! map from names to texts.

use vstd::prelude::*;

use crate::client::{Event, Team};
use crate::error::ApiError;
use crate::json::{document, singleton_record, unwrap_singleton, parse_document, Json};
use crate::season::{season_label, season_of, Season};
use crate::text::{is_integer, is_integer_text, str_eq};

verus! {

/// The map that a list of entries describes; a later entry for a name
/// replaces an earlier one.
pub open spec fn entries_map(entries: Seq<(String, String)>) -> Map<Seq<char>, Seq<char>>
    decreases entries.len(),
{
    if entries.len() == 0 {
        Map::empty()
    } else {
        entries_map(entries.drop_last()).insert(entries.last().0@, entries.last().1@)
    }
}

/// Names and texts: the properties of a team or an event.
pub struct PropertyMap {
    entries: Vec<(String, String)>,
}

impl View for PropertyMap {
    type V = Map<Seq<char>, Seq<char>>;

    closed spec fn view(&self) -> Map<Seq<char>, Seq<char>> {
        entries_map(self.entries@)
    }
}

impl PropertyMap {
    /// A map with no entry.
    pub fn new() -> (r: PropertyMap)
        ensures
            r@ == Map::<Seq<char>, Seq<char>>::empty(),
    {
        PropertyMap { entries: Vec::new() }
    }

    /// Sets the text of `key` to `value`.
    pub fn insert(&mut self, key: String, value: String)
        ensures
            final(self)@ == old(self)@.insert(key@, value@),
    {
        self.entries.push((key, value));
        assert(self.entries@.drop_last() =~= old(self).entries@);
    }

    /// The text of `key`, if the map has one.
    pub fn get(&self, key: &str) -> (r: Option<&String>)
        ensures
            r is Some <==> self@.contains_key(key@),
            r matches Some(v) ==> self@[key@] == v@,
    {
        let mut i = self.entries.len();
        assert(self.entries@.subrange(0, i as int) =~= self.entries@);
        while i > 0
            invariant
                i <= self.entries@.len(),
                self@.contains_key(key@) == entries_map(
                    self.entries@.subrange(0, i as int),
                ).contains_key(key@),
                self@.contains_key(key@) ==> self@[key@] == entries_map(
                    self.entries@.subrange(0, i as int),
                )[key@],
            decreases i,
        {
            assert(self.entries@.subrange(0, i as int).drop_last() =~= self.entries@.subrange(
                0,
                i - 1,
            ));
            if str_eq(self.entries[i - 1].0.as_str(), key) {
                return Some(&self.entries[i - 1].1);
            }
            i = i - 1;
        }
        None
    }

    /// The entries, in the order in which they were set; where a name
    /// occurs twice, the later entry counts.
    pub fn entries(&self) -> (r: &Vec<(String, String)>)
        ensures
            entries_map(r@) == self@,
    {
        &self.entries
    }
}

/// The text that a property's value is written as: a string stands for
/// itself, an integer for its digits, `null` and the two booleans for their
/// names. Any other value has no text.
pub open spec fn value_text(value: Json) -> Result<Seq<char>, ApiError> {
    match value {
        Json::Str(s) => Ok(s@),
        Json::Number(t) => if is_integer_text(t@) {
            Ok(t@)
        } else {
            Err(ApiError::Shape)
        },
        Json::Null => Ok("null"@),
        Json::Bool(b) => Ok(
            if b {
                "true"@
            } else {
                "false"@
            },
        ),
        _ => Err(ApiError::Shape),
    }
}

/// The text stored for the property `key` of value `value`: the text of
/// the value, but for the last active season, whose code gives way to the
/// season's label.
pub open spec fn property_text(key: Seq<char>, value: Json) -> Result<Seq<char>, ApiError> {
    match value_text(value) {
        Err(e) => Err(e),
        Ok(text) => if key == "last_active"@ {
            match season_of(text) {
                Some(season) => Ok(season_label(season)),
                None => Err(ApiError::Lookup),
            }
        } else {
            Ok(text)
        },
    }
}

/// The properties of a record's fields, or the error of the first field
/// that has none.
pub open spec fn normalized(fields: Seq<(String, Json)>) -> Result<
    Map<Seq<char>, Seq<char>>,
    ApiError,
>
    decreases fields.len(),
{
    if fields.len() == 0 {
        Ok(Map::empty())
    } else {
        match normalized(fields.drop_last()) {
            Err(e) => Err(e),
            Ok(m) => match property_text(fields.last().0@, fields.last().1) {
                Err(e) => Err(e),
                Ok(text) => Ok(m.insert(fields.last().0@, text)),
            },
        }
    }
}

/// The properties that a detail answer gives.
pub open spec fn properties_in(doc: Json) -> Result<Map<Seq<char>, Seq<char>>, ApiError> {
    match singleton_record(doc) {
        Err(e) => Err(e),
        Ok(fields) => normalized(fields),
    }
}

/// The properties that a detail answer's body gives.
pub open spec fn properties_of(body: Seq<char>) -> Result<Map<Seq<char>, Seq<char>>, ApiError> {
    match document(body) {
        Err(e) => Err(e),
        Ok(doc) => properties_in(doc),
    }
}

/// Writes a property's value as text.
pub fn coerce_value(value: &Json) -> (r: Result<String, ApiError>)
    ensures
        match r {
            Ok(text) => value_text(*value) == Ok::<Seq<char>, ApiError>(text@),
            Err(e) => value_text(*value) == Err::<Seq<char>, ApiError>(e),
        },
{
    match value {
        Json::Str(s) => Ok(s.clone()),
        Json::Number(t) => {
            if is_integer(t.as_str()) {
                Ok(t.clone())
            } else {
                Err(ApiError::Shape)
            }
        },
        Json::Null => Ok("null".to_string()),
        Json::Bool(b) => {
            if *b {
                Ok("true".to_string())
            } else {
                Ok("false".to_string())
            }
        },
        _ => Err(ApiError::Shape),
    }
}

/// The text stored for the property `key` of value `value`.
pub fn property_entry(key: &str, value: &Json) -> (r: Result<String, ApiError>)
    ensures
        match r {
            Ok(text) => property_text(key@, *value) == Ok::<Seq<char>, ApiError>(text@),
            Err(e) => property_text(key@, *value) == Err::<Seq<char>, ApiError>(e),
        },
{
    let text = coerce_value(value)?;
    if str_eq(key, "last_active") {
        match Season::value_of(text) {
            Ok(season) => Ok(season.label()),
            Err(e) => Err(e),
        }
    } else {
        Ok(text)
    }
}

/// Turns a record's fields into properties.
pub fn normalize(fields: &Vec<(String, Json)>) -> (r: Result<PropertyMap, ApiError>)
    ensures
        match r {
            Ok(m) => normalized(fields@) == Ok::<Map<Seq<char>, Seq<char>>, ApiError>(m@),
            Err(e) => normalized(fields@) == Err::<Map<Seq<char>, Seq<char>>, ApiError>(e),
        },
{
    let mut map = PropertyMap::new();
    let mut i: usize = 0;
    assert(fields@.subrange(0, 0) =~= Seq::<(String, Json)>::empty());
    while i < fields.len()
        invariant
            i <= fields@.len(),
            normalized(fields@.subrange(0, i as int)) == Ok::<
                Map<Seq<char>, Seq<char>>,
                ApiError,
            >(map@),
        decreases fields@.len() - i,
    {
        assert(fields@.subrange(0, i + 1).drop_last() =~= fields@.subrange(0, i as int));
        match property_entry(fields[i].0.as_str(), &fields[i].1) {
            Ok(text) => map.insert(fields[i].0.clone(), text),
            Err(e) => {
                proof {
                    lemma_normalized_keeps_error(fields@, i as int + 1);
                }
                return Err(e);
            },
        }
        i = i + 1;
    }
    assert(fields@.subrange(0, i as int) =~= fields@);
    Ok(map)
}

/// An error in the first `i` fields is the error of all of them.
proof fn lemma_normalized_keeps_error(fields: Seq<(String, Json)>, i: int)
    requires
        0 <= i <= fields.len(),
        normalized(fields.subrange(0, i)) is Err,
    ensures
        normalized(fields) == normalized(fields.subrange(0, i)),
    decreases fields.len() - i,
{
    if i < fields.len() {
        assert(fields.subrange(0, i + 1).drop_last() =~= fields.subrange(0, i));
        lemma_normalized_keeps_error(fields, i + 1);
    } else {
        assert(fields.subrange(0, i) =~= fields);
    }
}

/// Reads the properties from a detail answer's body: the one record of
/// its array, each value written as text.
pub fn normalize_properties(body: &str) -> (r: Result<PropertyMap, ApiError>)
    ensures
        match r {
            Ok(m) => properties_of(body@) == Ok::<Map<Seq<char>, Seq<char>>, ApiError>(m@),
            Err(e) => properties_of(body@) == Err::<Map<Seq<char>, Seq<char>>, ApiError>(e),
        },
{
    let doc = parse_document(body)?;
    properties_field(&doc)
}

/// Reads the properties from a detail answer.
pub fn properties_field(doc: &Json) -> (r: Result<PropertyMap, ApiError>)
    ensures
        match r {
            Ok(m) => properties_in(*doc) == Ok::<Map<Seq<char>, Seq<char>>, ApiError>(m@),
            Err(e) => properties_in(*doc) == Err::<Map<Seq<char>, Seq<char>>, ApiError>(e),
        },
{
    let fields = unwrap_singleton(doc)?;
    normalize(fields)
}

impl Team {
    /// The team's properties, from the answer to its `properties_request`.
    pub fn properties(&self, body: &str) -> (r: Result<PropertyMap, ApiError>)
        ensures
            match r {
                Ok(m) => properties_of(body@) == Ok::<Map<Seq<char>, Seq<char>>, ApiError>(m@),
                Err(e) => properties_of(body@) == Err::<Map<Seq<char>, Seq<char>>, ApiError>(e),
            },
    {
        normalize_properties(body)
    }
}

impl Event {
    /// The event's properties, from the answer to its `properties_request`.
    pub fn properties(&self, body: &str) -> (r: Result<PropertyMap, ApiError>)
        ensures
            match r {
                Ok(m) => properties_of(body@) == Ok::<Map<Seq<char>, Seq<char>>, ApiError>(m@),
                Err(e) => properties_of(body@) == Err::<Map<Seq<char>, Seq<char>>, ApiError>(e),
            },
    {
        normalize_properties(body)
    }
}

} // verus!
