use vstd::prelude::*;

use crate::json::JsonVal;
use crate::json::decode_json;
use crate::json::json_of;

verus! {

/// Why a response body could not be turned into a username list.
#[derive(Clone, Copy, Debug, PartialEq, Eq, Structural)]
pub enum ParseError {
    /// The body is not well-formed JSON.
    InvalidJson,
    /// The top level is not an object with a `data` key.
    MissingDataField,
    /// The value under `data` is not an array.
    DataNotArray,
    /// Some array entry is not an object with a string under `name`.
    InvalidEntry,
}

/// The value under `key` in a field list, scanning from the front.
pub open spec fn lookup(fields: Seq<(String, JsonVal)>, key: Seq<char>) -> Option<JsonVal>
    decreases fields.len(),
{
    if fields.len() == 0 {
        None
    } else if fields[0].0@ == key {
        Some(fields[0].1)
    } else {
        lookup(fields.drop_first(), key)
    }
}

/// The value under `data` when the document is an object that carries one.
pub open spec fn data_of(decoded: JsonVal) -> Option<JsonVal> {
    match decoded {
        JsonVal::Obj(fields) => lookup(fields@, "data"@),
        _ => None,
    }
}

/// The string under `name` when the entry is an object that carries one.
pub open spec fn username_of(entry: JsonVal) -> Option<Seq<char>> {
    match entry {
        JsonVal::Obj(fields) => match lookup(fields@, "name"@) {
            Some(JsonVal::Str(s)) => Some(s@),
            _ => None,
        },
        _ => None,
    }
}

/// Fail-fast extraction over the array entries: the names in order, or
/// `InvalidEntry` as soon as an entry carries none.
pub open spec fn usernames_of_list(items: Seq<JsonVal>) -> Result<Seq<Seq<char>>, ParseError>
    decreases items.len(),
{
    if items.len() == 0 {
        Ok(Seq::empty())
    } else {
        match username_of(items[0]) {
            Some(n) => match usernames_of_list(items.drop_first()) {
                Ok(rest) => Ok(seq![n] + rest),
                Err(e) => Err(e),
            },
            None => Err(ParseError::InvalidEntry),
        }
    }
}

/// The extraction once the document holds the `data` value: the names when
/// it is an array of well-shaped entries, an error otherwise.
pub open spec fn list_usernames_of(data_map: JsonVal) -> Result<Seq<Seq<char>>, ParseError> {
    match data_map {
        JsonVal::Arr(items) => usernames_of_list(items@),
        _ => Err(ParseError::DataNotArray),
    }
}

/// The whole parse of a response body: decode, find `data`, read the names.
pub open spec fn spec_parse_usernames(s: Seq<char>) -> Result<Seq<Seq<char>>, ParseError> {
    match json_of(s) {
        Some(decoded) => match data_of(decoded) {
            Some(d) => list_usernames_of(d),
            None => Err(ParseError::MissingDataField),
        },
        None => Err(ParseError::InvalidJson),
    }
}

/// Every entry of the array carries a string `name`: extraction succeeds
/// and yields exactly those names, in the array's order.
pub proof fn lemma_usernames_all_wellformed(items: Seq<JsonVal>)
    requires
        forall|i: int| 0 <= i < items.len() ==> username_of(#[trigger] items[i]) is Some,
    ensures
        usernames_of_list(items) == Ok::<Seq<Seq<char>>, ParseError>(
            Seq::new(items.len(), |i: int| username_of(items[i])->Some_0),
        ),
    decreases items.len(),
{
    let names = Seq::new(items.len(), |i: int| username_of(items[i])->Some_0);
    if items.len() == 0 {
        assert(names =~= Seq::<Seq<char>>::empty());
    } else {
        let rest = items.drop_first();
        assert(forall|i: int| 0 <= i < rest.len() ==> username_of(#[trigger] rest[i]) is Some);
        lemma_usernames_all_wellformed(rest);
        assert(seq![username_of(items[0])->Some_0]
            + Seq::new(rest.len(), |i: int| username_of(rest[i])->Some_0) =~= names);
    }
}

/// One entry without a string `name` spoils the whole extraction: no
/// partial list survives, whatever the other entries hold.
pub proof fn lemma_usernames_one_malformed(items: Seq<JsonVal>)
    requires
        exists|i: int| 0 <= i < items.len() && username_of(#[trigger] items[i]) is None,
    ensures
        usernames_of_list(items) == Err::<Seq<Seq<char>>, ParseError>(ParseError::InvalidEntry),
    decreases items.len(),
{
    let k = choose|i: int| 0 <= i < items.len() && username_of(#[trigger] items[i]) is None;
    if username_of(items[0]) is Some {
        let rest = items.drop_first();
        assert(username_of(rest[k - 1]) is None);
        lemma_usernames_one_malformed(rest);
    }
}

/// A well-formed envelope — an object whose `data` holds an array in which
/// every entry carries a string `name` — parses to exactly those names, in
/// the array's order.
pub proof fn lemma_parse_wellformed_envelope(
    s: Seq<char>,
    fields: Vec<(String, JsonVal)>,
    items: Vec<JsonVal>,
)
    requires
        json_of(s) == Some(JsonVal::Obj(fields)),
        lookup(fields@, "data"@) == Some(JsonVal::Arr(items)),
        forall|i: int| 0 <= i < items@.len() ==> username_of(#[trigger] items@[i]) is Some,
    ensures
        spec_parse_usernames(s) == Ok::<Seq<Seq<char>>, ParseError>(
            Seq::new(items@.len(), |i: int| username_of(items@[i])->Some_0),
        ),
{
    lemma_usernames_all_wellformed(items@);
}

/// Character-for-character string equality.
fn str_eq(a: &str, b: &str) -> (r: bool)
    ensures
        r == (a@ == b@),
{
    let n = a.unicode_len();
    if n != b.unicode_len() {
        proof {
            assert(a@ != b@) by {
                if a@ == b@ {
                    assert(a@.len() == b@.len());
                }
            }
        }
        return false;
    }
    for i in 0..n
        invariant
            n == a@.len(),
            n == b@.len(),
            forall|j: int| 0 <= j < i ==> a@[j] == b@[j],
    {
        if a.get_char(i) != b.get_char(i) {
            return false;
        }
    }
    proof {
        assert(a@ =~= b@);
    }
    true
}

/// The first field under `key`, as `lookup` states it.
fn get_field<'a>(fields: &'a Vec<(String, JsonVal)>, key: &str) -> (r: Option<&'a JsonVal>)
    ensures
        match lookup(fields@, key@) {
            Some(v) => r matches Some(f) && *f == v,
            None => r is None,
        },
{
    proof {
        assert(fields@.skip(0) =~= fields@);
    }
    for i in 0..fields.len()
        invariant
            lookup(fields@, key@) == lookup(fields@.skip(i as int), key@),
    {
        let pair = &fields[i];
        if str_eq(pair.0.as_str(), key) {
            proof {
                assert(fields@.skip(i as int)[0] == fields@[i as int]);
            }
            return Some(&pair.1);
        }
        proof {
            assert(fields@.skip(i as int)[0] == fields@[i as int]);
            assert(fields@.skip(i as int).drop_first() =~= fields@.skip(i + 1));
        }
    }
    proof {
        assert(fields@.skip(fields@.len() as int).len() == 0);
    }
    None
}

/// The username carried by one array entry, or `InvalidEntry`.
pub fn extract_username(entry: &JsonVal) -> (r: Result<String, ParseError>)
    ensures
        match username_of(*entry) {
            Some(n) => r matches Ok(s) && s@ == n,
            None => r matches Err(e) && e == ParseError::InvalidEntry,
        },
{
    match entry {
        JsonVal::Obj(fields) => match get_field(fields, "name") {
            Some(v) => match v {
                JsonVal::Str(s) => Ok(s.clone()),
                _ => Err(ParseError::InvalidEntry),
            },
            None => Err(ParseError::InvalidEntry),
        },
        _ => Err(ParseError::InvalidEntry),
    }
}

/// The value under `data` at the top of the document, or `MissingDataField`.
pub fn extract_data_map<'a>(decoded: &'a JsonVal) -> (r: Result<&'a JsonVal, ParseError>)
    ensures
        match data_of(*decoded) {
            Some(d) => r matches Ok(v) && *v == d,
            None => r matches Err(e) && e == ParseError::MissingDataField,
        },
{
    match decoded {
        JsonVal::Obj(fields) => match get_field(fields, "data") {
            Some(v) => Ok(v),
            None => Err(ParseError::MissingDataField),
        },
        _ => Err(ParseError::MissingDataField),
    }
}

/// Every username out of the `data` array, in order, all-or-nothing.
pub fn extract_usernames_from_list(data_map: &JsonVal) -> (r: Result<Vec<String>, ParseError>)
    ensures
        match list_usernames_of(*data_map) {
            Ok(names) => r matches Ok(v) && v.deep_view() == names,
            Err(e) => r matches Err(e2) && e2 == e,
        },
{
    match data_map {
        JsonVal::Arr(items) => {
            let mut usernames: Vec<String> = Vec::new();
            proof {
                assert(items@.skip(0) =~= items@);
                assert(usernames.deep_view() =~= Seq::<Seq<char>>::empty());
                assert forall|rest: Seq<Seq<char>>|
                    Seq::<Seq<char>>::empty() + rest =~= rest by {}
            }
            for i in 0..items.len()
                invariant
                    *data_map == JsonVal::Arr(*items),
                    usernames_of_list(items@) == (match usernames_of_list(items@.skip(i as int)) {
                        Ok(rest) => Ok::<Seq<Seq<char>>, ParseError>(usernames.deep_view() + rest),
                        Err(e) => Err::<Seq<Seq<char>>, ParseError>(e),
                    }),
            {
                proof {
                    assert(items@.skip(i as int)[0] == items@[i as int]);
                    assert(items@.skip(i as int).drop_first() =~= items@.skip(i + 1));
                }
                match extract_username(&items[i]) {
                    Ok(name) => {
                        let ghost prev = usernames.deep_view();
                        let ghost named = name@;
                        usernames.push(name);
                        proof {
                            assert(usernames.deep_view() =~= prev + seq![named]);
                            assert forall|rest: Seq<Seq<char>>|
                                (prev + seq![named]) + rest =~= prev + (seq![named] + rest) by {}
                        }
                    },
                    Err(e) => {
                        proof {
                            assert(items@.skip(i as int).len() > 0);
                            assert(username_of(items@.skip(i as int)[0]) is None);
                            assert(usernames_of_list(items@.skip(i as int))
                                == Err::<Seq<Seq<char>>, ParseError>(ParseError::InvalidEntry));
                        }
                        return Err(e);
                    },
                }
            }
            proof {
                assert(items@.skip(items@.len() as int).len() == 0);
                assert(usernames.deep_view() + Seq::<Seq<char>>::empty() =~= usernames.deep_view());
            }
            Ok(usernames)
        },
        _ => Err(ParseError::DataNotArray),
    }
}

/// The full parse: the usernames in the response body's `data` array, or the
/// first error met along the strict, fail-fast walk of the envelope.
pub fn parse_usernames(response_data: &str) -> (r: Result<Vec<String>, ParseError>)
    ensures
        match spec_parse_usernames(response_data@) {
            Ok(names) => r matches Ok(v) && v.deep_view() == names,
            Err(e) => r matches Err(e2) && e2 == e,
        },
{
    match decode_json(response_data) {
        Some(decoded) => match extract_data_map(&decoded) {
            Ok(data_map) => extract_usernames_from_list(data_map),
            Err(e) => Err(e),
        },
        None => Err(ParseError::InvalidJson),
    }
}

} // verus!

