//! The error taxonomy and the boundary translator that turns any surfaced
//! condition into a caller-visible status and message.

use vstd::prelude::*;
use crate::parse::IntParseError;

verus! {

/// The closed set of domain error kinds. `InvalidRange` is reserved: no
/// path currently raises it.
#[derive(Clone, Copy, Debug, PartialEq, Eq, Structural)]
pub enum Error {
    ParseError(IntParseError),
    MissingParameters,
    InvalidRange,
    QuestionNotFound,
}

impl Error {
    /// The rendered text of this error, as the boundary reports it.
    pub open spec fn spec_text(self) -> Seq<char> {
        match self {
            Error::ParseError(IntParseError::Empty) => "Cannot parse parameter: cannot parse integer from empty string"@,
            Error::ParseError(IntParseError::InvalidDigit) => "Cannot parse parameter: invalid digit found in string"@,
            Error::ParseError(IntParseError::Overflow) => "Cannot parse parameter: number too large to fit in target type"@,
            Error::MissingParameters => "Missing 'start' or 'end' parameter"@,
            Error::InvalidRange => "'start' must be less than 'end'"@,
            Error::QuestionNotFound => "question not found"@,
        }
    }

    /// Renders the error for the caller.
    pub fn to_text(&self) -> (r: String)
        ensures
            r@ == self.spec_text(),
    {
        match self {
            Error::ParseError(IntParseError::Empty) => "Cannot parse parameter: cannot parse integer from empty string".to_owned(),
            Error::ParseError(IntParseError::InvalidDigit) => "Cannot parse parameter: invalid digit found in string".to_owned(),
            Error::ParseError(IntParseError::Overflow) => "Cannot parse parameter: number too large to fit in target type".to_owned(),
            Error::MissingParameters => "Missing 'start' or 'end' parameter".to_owned(),
            Error::InvalidRange => "'start' must be less than 'end'".to_owned(),
            Error::QuestionNotFound => "question not found".to_owned(),
        }
    }
}

/// A condition surfaced at the system boundary: a domain error, or one
/// raised by an external collaborator (cross-origin rejection, a
/// malformed-body decode failure, no route matched), or anything else.
#[derive(Debug)]
pub enum Surfaced {
    Domain(Error),
    CorsForbidden(String),
    BodyDeserialize(String),
    RouteNotFound,
    Unexpected,
}

/// The single boundary mapping from a surfaced condition to a status
/// code and message. Domain errors — the not-found kind included — map to
/// 400 with the error's rendered text; collaborator-raised conditions keep
/// their own text under 403 or 422; an unmatched route is 404; anything
/// unrecognized is a generic 500.
pub fn return_error(r: Surfaced) -> (reply: (u16, String))
    ensures
        match r {
            Surfaced::Domain(e) => reply.0 == 400 && reply.1@ == e.spec_text(),
            Surfaced::CorsForbidden(t) => reply.0 == 403 && reply.1@ == t@,
            Surfaced::BodyDeserialize(t) => reply.0 == 422 && reply.1@ == t@,
            Surfaced::RouteNotFound => reply.0 == 404 && reply.1@ == "Route not found"@,
            Surfaced::Unexpected => reply.0 == 500 && reply.1@ == "Internal Server Error"@,
        },
{
    match r {
        Surfaced::Domain(e) => (400, e.to_text()),
        Surfaced::CorsForbidden(t) => (403, t),
        Surfaced::BodyDeserialize(t) => (422, t),
        Surfaced::RouteNotFound => (404, "Route not found".to_owned()),
        Surfaced::Unexpected => (500, "Internal Server Error".to_owned()),
    }
}

} // verus!
