//! Counts and statistics read from the service's answers: a team's wins,
//! losses and ties, the values of a field over a season's matches, and a
//! team's entry in an event's rankings.
//!
//! Statistics that are not whole numbers are handed out as the text of the
//! number, which callers read as a floating-point value.

use vstd::prelude::*;

use crate::client::{Event, Team};
use crate::error::ApiError;
use crate::json::{document, field_of, find_field, parse_document, singleton_record, unwrap_singleton, Json};
use crate::text::{all_digits, is_numeral, numeral_value, parse_u32};

verus! {

/// Whether `value` is a count: a numeral of at most `u32::MAX`.
pub open spec fn is_count(value: Json) -> bool {
    match value {
        Json::Number(t) => is_numeral(t@) && numeral_value(t@) <= u32::MAX,
        _ => false,
    }
}

/// Whether `item` is an object all of whose values are counts.
pub open spec fn is_count_record(item: Json) -> bool {
    match item {
        Json::Object(fields) => forall|i: int|
            0 <= i < fields@.len() ==> #[trigger] is_count(fields@[i].1),
        _ => false,
    }
}

/// Whether `doc` is an array of objects all of whose values are counts.
pub open spec fn is_count_table(doc: Json) -> bool {
    match doc {
        Json::Array(items) => forall|i: int|
            0 <= i < items@.len() ==> is_count_record(#[trigger] items@[i]),
        _ => false,
    }
}

/// The count in the field `key` of a detail answer's record. The answer
/// must be an array of objects whose values are all counts; the first
/// object is the record.
pub open spec fn count_in(doc: Json, key: Seq<char>) -> Result<u32, ApiError> {
    if !is_count_table(doc) {
        Err(ApiError::Shape)
    } else {
        match singleton_record(doc) {
            Err(e) => Err(e),
            Ok(fields) => match field_of(fields, key) {
                Some(Json::Number(t)) => if is_numeral(t@) && numeral_value(t@) <= u32::MAX {
                    Ok(numeral_value(t@) as u32)
                } else {
                    Err(ApiError::Shape)
                },
                _ => Err(ApiError::Shape),
            },
        }
    }
}

/// The count that the field `key` of the record in a body of a detail
/// answer gives.
pub open spec fn record_count(body: Seq<char>, key: Seq<char>) -> Result<u32, ApiError> {
    match document(body) {
        Err(e) => Err(e),
        Ok(doc) => count_in(doc, key),
    }
}

/// Reads the count in the field `key` of the record in the body of a
/// detail answer.
pub fn read_count(body: &str, key: &str) -> (r: Result<u32, ApiError>)
    ensures
        r == record_count(body@, key@),
{
    let doc = parse_document(body)?;
    count_field(&doc, key)
}

/// Whether `value` is a count.
fn check_count(value: &Json) -> (r: bool)
    ensures
        r == is_count(*value),
{
    match value {
        Json::Number(t) => parse_u32(t.as_str()).is_some(),
        _ => false,
    }
}

/// Whether `item` is an object all of whose values are counts.
fn check_count_record(item: &Json) -> (r: bool)
    ensures
        r == is_count_record(*item),
{
    match item {
        Json::Object(fields) => {
            let mut i: usize = 0;
            while i < fields.len()
                invariant
                    *item == Json::Object(*fields),
                    i <= fields@.len(),
                    forall|j: int| 0 <= j < i ==> #[trigger] is_count(fields@[j].1),
                decreases fields@.len() - i,
            {
                if !check_count(&fields[i].1) {
                    assert(!is_count_record(*item)) by {
                        let f = item->Object_0;
                        assert(f@ == fields@);
                        assert(!is_count(f@[i as int].1));
                    }
                    return false;
                }
                i = i + 1;
            }
            true
        },
        _ => false,
    }
}

/// Whether `doc` is an array of objects all of whose values are counts.
fn check_count_table(doc: &Json) -> (r: bool)
    ensures
        r == is_count_table(*doc),
{
    match doc {
        Json::Array(items) => {
            let mut i: usize = 0;
            while i < items.len()
                invariant
                    *doc == Json::Array(*items),
                    i <= items@.len(),
                    forall|j: int| 0 <= j < i ==> is_count_record(#[trigger] items@[j]),
                decreases items@.len() - i,
            {
                if !check_count_record(&items[i]) {
                    assert(!is_count_table(*doc)) by {
                        let v = doc->Array_0;
                        assert(v@ == items@);
                        assert(!is_count_record(v@[i as int]));
                    }
                    return false;
                }
                i = i + 1;
            }
            true
        },
        _ => false,
    }
}

/// Reads the count in the field `key` of a detail answer's record.
pub fn count_field(doc: &Json, key: &str) -> (r: Result<u32, ApiError>)
    ensures
        r == count_in(*doc, key@),
{
    if !check_count_table(doc) {
        return Err(ApiError::Shape);
    }
    let fields = unwrap_singleton(doc)?;
    match find_field(fields, key) {
        Some(Json::Number(t)) => match parse_u32(t.as_str()) {
            Some(n) => Ok(n),
            None => Err(ApiError::Shape),
        },
        _ => Err(ApiError::Shape),
    }
}

/// The text of the number in the field `key` of `record`.
pub open spec fn number_field(record: Json, key: Seq<char>) -> Result<Seq<char>, ApiError> {
    match record {
        Json::Object(fields) => match field_of(fields@, key) {
            Some(Json::Number(t)) => Ok(t@),
            _ => Err(ApiError::Shape),
        },
        _ => Err(ApiError::Shape),
    }
}

/// Reads the number in the field `key` of `record`.
fn read_number_field(record: &Json, key: &str) -> (r: Result<String, ApiError>)
    ensures
        match r {
            Ok(t) => number_field(*record, key@) == Ok::<Seq<char>, ApiError>(t@),
            Err(e) => number_field(*record, key@) == Err::<Seq<char>, ApiError>(e),
        },
{
    match record {
        Json::Object(fields) => match find_field(fields, key) {
            Some(Json::Number(t)) => Ok(t.clone()),
            _ => Err(ApiError::Shape),
        },
        _ => Err(ApiError::Shape),
    }
}

/// The numbers in the field `key` of each record, in order, or the error
/// of the first record that has none.
pub open spec fn column(records: Seq<Json>, key: Seq<char>) -> Result<Seq<Seq<char>>, ApiError>
    decreases records.len(),
{
    if records.len() == 0 {
        Ok(Seq::empty())
    } else {
        match column(records.drop_last(), key) {
            Err(e) => Err(e),
            Ok(values) => match number_field(records.last(), key) {
                Err(e) => Err(e),
                Ok(t) => Ok(values.push(t)),
            },
        }
    }
}

/// The numbers in the field `key` over all the records of an answer's
/// array.
pub open spec fn column_in(doc: Json, key: Seq<char>) -> Result<Seq<Seq<char>>, ApiError> {
    match doc {
        Json::Array(records) => column(records@, key),
        _ => Err(ApiError::Shape),
    }
}

/// The numbers in the field `key` over all the records of the array in a
/// body of an answer.
pub open spec fn column_of(body: Seq<char>, key: Seq<char>) -> Result<Seq<Seq<char>>, ApiError> {
    match document(body) {
        Err(e) => Err(e),
        Ok(doc) => column_in(doc, key),
    }
}

proof fn lemma_column_keeps_error(records: Seq<Json>, key: Seq<char>, i: int)
    requires
        0 <= i <= records.len(),
        column(records.subrange(0, i), key) is Err,
    ensures
        column(records, key) == column(records.subrange(0, i), key),
    decreases records.len() - i,
{
    if i < records.len() {
        assert(records.subrange(0, i + 1).drop_last() =~= records.subrange(0, i));
        lemma_column_keeps_error(records, key, i + 1);
    } else {
        assert(records.subrange(0, i) =~= records);
    }
}

/// Reads the numbers in the field `key` of each record, as texts.
pub fn read_records(records: &Vec<Json>, key: &str) -> (r: Result<Vec<String>, ApiError>)
    ensures
        match r {
            Ok(values) => column(records@, key@) == Ok::<Seq<Seq<char>>, ApiError>(
                values@.map_values(|t: String| t@),
            ),
            Err(e) => column(records@, key@) == Err::<Seq<Seq<char>>, ApiError>(e),
        },
{
    let mut values: Vec<String> = Vec::new();
    let mut i: usize = 0;
    assert(records@.subrange(0, 0) =~= Seq::<Json>::empty());
    assert(values@.map_values(|t: String| t@) =~= Seq::<Seq<char>>::empty());
    while i < records.len()
        invariant
            i <= records@.len(),
            column(records@.subrange(0, i as int), key@) == Ok::<Seq<Seq<char>>, ApiError>(
                values@.map_values(|t: String| t@),
            ),
        decreases records@.len() - i,
    {
        assert(records@.subrange(0, i + 1).drop_last() =~= records@.subrange(0, i as int));
        assert(records@.subrange(0, i + 1).last() == records@[i as int]);
        match read_number_field(&records[i], key) {
            Ok(t) => {
                let ghost before = values@;
                values.push(t);
                assert(values@.map_values(|t: String| t@) =~= before.map_values(|t: String| t@).push(
                    values@.last()@,
                ));
            },
            Err(e) => {
                proof {
                    lemma_column_keeps_error(records@, key@, i + 1);
                }
                return Err(e);
            },
        }
        i = i + 1;
    }
    assert(records@.subrange(0, i as int) =~= records@);
    Ok(values)
}

/// Reads the numbers in the field `key` over all the records of an
/// answer's array, as texts.
pub fn read_column(body: &str, key: &str) -> (r: Result<Vec<String>, ApiError>)
    ensures
        match r {
            Ok(values) => column_of(body@, key@) == Ok::<Seq<Seq<char>>, ApiError>(
                values@.map_values(|t: String| t@),
            ),
            Err(e) => column_of(body@, key@) == Err::<Seq<Seq<char>>, ApiError>(e),
        },
{
    let doc = parse_document(body)?;
    column_field(&doc, key)
}

/// Reads the numbers in the field `key` over all the records of an
/// answer's array, as texts.
pub fn column_field(doc: &Json, key: &str) -> (r: Result<Vec<String>, ApiError>)
    ensures
        match r {
            Ok(values) => column_in(*doc, key@) == Ok::<Seq<Seq<char>>, ApiError>(
                values@.map_values(|t: String| t@),
            ),
            Err(e) => column_in(*doc, key@) == Err::<Seq<Seq<char>>, ApiError>(e),
        },
{
    match doc {
        Json::Array(records) => read_records(records, key),
        _ => Err(ApiError::Shape),
    }
}

/// The number of the team that a ranking record is about: the numeral in
/// the `team_number` field of its `team` object.
pub open spec fn ranked_team(record: Json) -> Option<nat> {
    match record {
        Json::Object(fields) => match field_of(fields@, "team"@) {
            Some(Json::Object(team)) => match field_of(team@, "team_number"@) {
                Some(Json::Number(t)) => if is_numeral(t@) {
                    Some(numeral_value(t@))
                } else {
                    None
                },
                _ => None,
            },
            _ => None,
        },
        _ => None,
    }
}

/// The number in the field `key` of the first record about the team
/// `team_number`: the records are scanned in order until one is about it;
/// `Shape` where a record scanned before it does not say which team it is
/// about, `Lookup` where no record is about it.
pub open spec fn first_ranking(records: Seq<Json>, team_number: nat, key: Seq<char>) -> Result<
    Seq<char>,
    ApiError,
>
    decreases records.len(),
{
    if records.len() == 0 {
        Err(ApiError::Lookup)
    } else {
        match ranked_team(records[0]) {
            None => Err(ApiError::Shape),
            Some(n) => if n == team_number {
                number_field(records[0], key)
            } else {
                first_ranking(records.drop_first(), team_number, key)
            },
        }
    }
}

/// The ranking value `key` of the team `team_number` in an answer to a
/// rankings request.
pub open spec fn ranking_in(doc: Json, team_number: u32, key: Seq<char>) -> Result<
    Seq<char>,
    ApiError,
> {
    match doc {
        Json::Array(records) => first_ranking(records@, team_number as nat, key),
        _ => Err(ApiError::Shape),
    }
}

/// The ranking value `key` of the team `team_number` that a body of an
/// answer to a rankings request gives.
pub open spec fn ranking_of(body: Seq<char>, team_number: u32, key: Seq<char>) -> Result<
    Seq<char>,
    ApiError,
> {
    match document(body) {
        Err(e) => Err(e),
        Ok(doc) => ranking_in(doc, team_number, key),
    }
}

/// Whether `record` is about the team `team_number`; `None` where it does
/// not say which team it is about.
fn is_about(record: &Json, team_number: u32) -> (r: Option<bool>)
    ensures
        r is None <==> ranked_team(*record) is None,
        r matches Some(b) ==> b == (ranked_team(*record) == Some(team_number as nat)),
{
    match record {
        Json::Object(fields) => match find_field(fields, "team") {
            Some(Json::Object(team)) => match find_field(team, "team_number") {
                Some(Json::Number(t)) => {
                    if all_digits(t.as_str()) {
                        match parse_u32(t.as_str()) {
                            Some(n) => Some(n == team_number),
                            None => Some(false),
                        }
                    } else {
                        None
                    }
                },
                _ => None,
            },
            _ => None,
        },
        _ => None,
    }
}

/// Reads the ranking value `key` of the team `team_number` from ranking
/// records.
pub fn read_ranking(records: &Vec<Json>, team_number: u32, key: &str) -> (r: Result<
    String,
    ApiError,
>)
    ensures
        match r {
            Ok(t) => first_ranking(records@, team_number as nat, key@) == Ok::<Seq<char>, ApiError>(
                t@,
            ),
            Err(e) => first_ranking(records@, team_number as nat, key@) == Err::<
                Seq<char>,
                ApiError,
            >(e),
        },
{
    let mut i: usize = 0;
    assert(records@.skip(0) =~= records@);
    while i < records.len()
        invariant
            i <= records@.len(),
            first_ranking(records@, team_number as nat, key@) == first_ranking(
                records@.skip(i as int),
                team_number as nat,
                key@,
            ),
        decreases records@.len() - i,
    {
        assert(records@.skip(i as int)[0] == records@[i as int]);
        assert(records@.skip(i as int).drop_first() =~= records@.skip(i + 1));
        match is_about(&records[i], team_number) {
            None => return Err(ApiError::Shape),
            Some(true) => return read_number_field(&records[i], key),
            Some(false) => {},
        }
        i = i + 1;
    }
    Err(ApiError::Lookup)
}

impl Team {
    /// The number of matches the team has won, from the answer to its
    /// `wlt_request`.
    pub fn wins(&self, body: &str) -> (r: Result<u32, ApiError>)
        ensures
            r == record_count(body@, "wins"@),
    {
        read_count(body, "wins")
    }

    /// The number of matches the team has lost, from the answer to its
    /// `wlt_request`.
    pub fn losses(&self, body: &str) -> (r: Result<u32, ApiError>)
        ensures
            r == record_count(body@, "losses"@),
    {
        read_count(body, "losses")
    }

    /// The number of matches the team has tied, from the answer to its
    /// `wlt_request`.
    pub fn ties(&self, body: &str) -> (r: Result<u32, ApiError>)
        ensures
            r == record_count(body@, "ties"@),
    {
        read_count(body, "ties")
    }

    /// The values of the statistic `query` over the team's matches of a
    /// season, from the answer to its `results_request`, as the texts of
    /// numbers. Their sum, rounded to two decimals, is the team's total.
    pub fn season_data(&self, body: &str, query: &str) -> (r: Result<Vec<String>, ApiError>)
        ensures
            match r {
                Ok(values) => column_of(body@, query@) == Ok::<Seq<Seq<char>>, ApiError>(
                    values@.map_values(|t: String| t@),
                ),
                Err(e) => column_of(body@, query@) == Err::<Seq<Seq<char>>, ApiError>(e),
            },
    {
        read_column(body, query)
    }
}

impl Event {
    /// The value of the statistic `query` in the ranking of the team
    /// `team_number`, from the answer to the event's `rankings_request`, as
    /// the text of a number.
    pub fn rankings_data(&self, body: &str, team_number: u32, query: &str) -> (r: Result<
        String,
        ApiError,
    >)
        ensures
            match r {
                Ok(t) => ranking_of(body@, team_number, query@) == Ok::<Seq<char>, ApiError>(t@),
                Err(e) => ranking_of(body@, team_number, query@) == Err::<Seq<char>, ApiError>(e),
            },
    {
        let doc = parse_document(body)?;
        ranking_field(&doc, team_number, query)
    }
}

/// Reads the ranking value `key` of the team `team_number` from an answer
/// to a rankings request.
pub fn ranking_field(doc: &Json, team_number: u32, key: &str) -> (r: Result<String, ApiError>)
    ensures
        match r {
            Ok(t) => ranking_in(*doc, team_number, key@) == Ok::<Seq<char>, ApiError>(t@),
            Err(e) => ranking_in(*doc, team_number, key@) == Err::<Seq<char>, ApiError>(e),
        },
{
    match doc {
        Json::Array(records) => read_ranking(records, team_number, key),
        _ => Err(ApiError::Shape),
    }
}

} // verus!
