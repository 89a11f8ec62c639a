//! Answer records and their identifiers.

use vstd::prelude::*;
use crate::question::QuestionId;

verus! {

/// An answer identifier, generated by the service when the answer is
/// created, never supplied by the caller.
#[derive(Debug)]
pub struct AnswerId(pub String);

impl View for AnswerId {
    type V = Seq<char>;

    open spec fn view(&self) -> Seq<char> {
        self.0@
    }
}

impl Clone for AnswerId {
    fn clone(&self) -> (r: Self)
        ensures
            r@ == self@,
    {
        AnswerId(self.0.clone())
    }
}

impl PartialEq for AnswerId {
    fn eq(&self, other: &Self) -> (r: bool) {
        self.0 == other.0
    }
}

impl vstd::std_specs::cmp::PartialEqSpecImpl for AnswerId {
    open spec fn obeys_eq_spec() -> bool {
        true
    }

    open spec fn eq_spec(&self, other: &Self) -> bool {
        self@ == other@
    }
}

/// The mathematical value of an answer: each field as a character sequence.
pub ghost struct AnswerView {
    pub id: Seq<char>,
    pub question_id: Seq<char>,
    pub content: Seq<char>,
}

/// An answer record. `question_id` is an informational reference: it is not
/// checked against the questions collection, and may name a question that
/// does not exist or is later deleted.
#[derive(Debug)]
pub struct Answer {
    pub id: AnswerId,
    pub question_id: QuestionId,
    pub content: String,
}

impl View for Answer {
    type V = AnswerView;

    open spec fn view(&self) -> AnswerView {
        AnswerView { id: self.id@, question_id: self.question_id@, content: self.content@ }
    }
}

impl Clone for Answer {
    fn clone(&self) -> (r: Self)
        ensures
            r@ == self@,
    {
        Answer {
            id: self.id.clone(),
            question_id: self.question_id.clone(),
            content: self.content.clone(),
        }
    }
}

impl PartialEq for Answer {
    fn eq(&self, other: &Self) -> (r: bool) {
        self.id.0 == other.id.0 && self.question_id.0 == other.question_id.0 && self.content
            == other.content
    }
}

impl vstd::std_specs::cmp::PartialEqSpecImpl for Answer {
    open spec fn obeys_eq_spec() -> bool {
        true
    }

    open spec fn eq_spec(&self, other: &Self) -> bool {
        self@ == other@
    }
}

} // verus!
