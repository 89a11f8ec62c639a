//! Validation and parsing of untyped query parameters into a bounded-range
//! request.

use vstd::prelude::*;
use crate::error::Error;
use crate::parse::{parse_usize, spec_parse_usize};

verus! {

/// A bounded-range request over a listing. No ordering or bounds check is
/// done at construction: `start` may exceed `end`, and either may exceed
/// the collection length; the consumer clamps and compares them.
#[derive(Clone, Copy, Debug, PartialEq, Eq, Structural)]
pub struct Pagination {
    pub start: usize,
    pub end: usize,
}

/// The value of the first query pair carrying the given key, if any.
pub open spec fn lookup(params: Seq<(String, String)>, key: Seq<char>) -> Option<Seq<char>>
    decreases params.len(),
{
    if params.len() == 0 {
        None
    } else if params[0].0@ == key {
        Some(params[0].1@)
    } else {
        lookup(params.drop_first(), key)
    }
}

/// Looking a key up skips any initial run of pairs with other keys.
proof fn lemma_lookup_skip(params: Seq<(String, String)>, key: Seq<char>, i: int)
    requires
        0 <= i <= params.len(),
        forall|j: int| 0 <= j < i ==> (#[trigger] params[j]).0@ != key,
    ensures
        lookup(params, key) == lookup(params.skip(i), key),
    decreases i,
{
    if i > 0 {
        assert(params[0].0@ != key);
        assert(params.drop_first() =~= params.skip(1));
        assert forall|j: int| 0 <= j < i - 1 implies (#[trigger] params.skip(1)[j]).0@ != key by {
            assert(params.skip(1)[j] == params[j + 1]);
        }
        lemma_lookup_skip(params.skip(1), key, i - 1);
        assert(params.skip(1).skip(i - 1) =~= params.skip(i));
    } else {
        assert(params.skip(0) =~= params);
    }
}

/// Finds the value of the first query pair carrying the given key.
fn get_param<'a>(params: &'a Vec<(String, String)>, key: &String) -> (r: Option<&'a String>)
    ensures
        match r {
            Some(v) => lookup(params@, key@) == Some(v@),
            None => lookup(params@, key@) is None,
        },
{
    let mut i: usize = 0;
    while i < params.len()
        invariant
            i <= params@.len(),
            forall|j: int| 0 <= j < i ==> (#[trigger] params@[j]).0@ != key@,
        decreases params@.len() - i,
    {
        if params[i].0 == *key {
            proof {
                lemma_lookup_skip(params@, key@, i as int);
                assert(params@.skip(i as int)[0] == params@[i as int]);
            }
            return Some(&params[i].1);
        }
        i = i + 1;
    }
    proof {
        lemma_lookup_skip(params@, key@, params@.len() as int);
        assert(params@.skip(params@.len() as int) =~= Seq::<(String, String)>::empty());
    }
    None
}

/// What extracting pagination from a query yields: both keys must be
/// present — the first missing one is reported — and both values must
/// parse as non-negative base-10 integers, the failing value's detail
/// carried along; no ordering or bounds validation happens here.
pub open spec fn spec_extract(params: Seq<(String, String)>) -> Result<Pagination, Error> {
    match lookup(params, "start"@) {
        None => Err(Error::MissingParameters),
        Some(sv) => match lookup(params, "end"@) {
            None => Err(Error::MissingParameters),
            Some(ev) => match spec_parse_usize(sv) {
                Err(d) => Err(Error::ParseError(d)),
                Ok(s) => match spec_parse_usize(ev) {
                    Err(d) => Err(Error::ParseError(d)),
                    Ok(e) => Ok(Pagination { start: s, end: e }),
                },
            },
        },
    }
}

/// The whole behaviour of extraction, case by case: a missing key —
/// either one — yields exactly `MissingParameters`; with both present, a
/// value that fails to parse yields exactly `ParseError` carrying that
/// value's detail, the start value's failure reported first; and with both
/// parsing, the extracted bounds are exactly the parsed values.
pub proof fn lemma_extract_cases(params: Seq<(String, String)>)
    ensures
        match (lookup(params, "start"@), lookup(params, "end"@)) {
            (None, _) => spec_extract(params) == Err::<Pagination, Error>(
                Error::MissingParameters,
            ),
            (Some(_), None) => spec_extract(params) == Err::<Pagination, Error>(
                Error::MissingParameters,
            ),
            (Some(sv), Some(ev)) => match (spec_parse_usize(sv), spec_parse_usize(ev)) {
                (Err(d), _) => spec_extract(params) == Err::<Pagination, Error>(
                    Error::ParseError(d),
                ),
                (Ok(_), Err(d)) => spec_extract(params) == Err::<Pagination, Error>(
                    Error::ParseError(d),
                ),
                (Ok(s), Ok(e)) => spec_extract(params) == Ok::<Pagination, Error>(
                    Pagination { start: s, end: e },
                ),
            },
        },
{
}

/// Validates and parses untyped key-value query input into a bounded-range
/// request, exactly as `spec_extract` describes.
pub fn extract_pagination(params: Vec<(String, String)>) -> (r: Result<Pagination, Error>)
    ensures
        r == spec_extract(params@),
{
    let start_key: String = "start".to_owned();
    let end_key: String = "end".to_owned();
    let start_str = match get_param(&params, &start_key) {
        Some(v) => v,
        None => {
            return Err(Error::MissingParameters);
        },
    };
    let end_str = match get_param(&params, &end_key) {
        Some(v) => v,
        None => {
            return Err(Error::MissingParameters);
        },
    };
    let start = match parse_usize(start_str.as_str()) {
        Ok(v) => v,
        Err(d) => {
            return Err(Error::ParseError(d));
        },
    };
    let end = match parse_usize(end_str.as_str()) {
        Ok(v) => v,
        Err(d) => {
            return Err(Error::ParseError(d));
        },
    };
    Ok(Pagination { start, end })
}

} // verus!
