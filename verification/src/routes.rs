//! Request handlers: one per operation, orchestrating the pagination
//! extractor and the record store.

use vstd::prelude::*;
use crate::answer::{Answer, AnswerId, AnswerView};
use crate::error::Error;
use crate::pagination::{extract_pagination, spec_extract};
use crate::parse::parse_usize;
use crate::question::{Question, QuestionId, QuestionView};
use crate::store::{question_upsert, AnswerMap, QuestionMap};

verus! {

/// The smaller of a requested index and the snapshot length.
pub open spec fn clamp_index(x: usize, len: nat) -> int {
    if x <= len {
        x as int
    } else {
        len as int
    }
}

/// What the list operation replies for a given query over a given
/// snapshot: the whole snapshot when no parameters came; otherwise the
/// extracted range, each bound clamped to the snapshot length, as a
/// half-open window — empty, and still a success, when the clamped start
/// has reached the clamped end.
pub open spec fn list_outcome(params: Seq<(String, String)>, snap: Seq<QuestionView>) -> Result<
    Seq<QuestionView>,
    Error,
> {
    if params.len() == 0 {
        Ok(snap)
    } else {
        match spec_extract(params) {
            Err(e) => Err(e),
            Ok(p) => {
                let s1 = clamp_index(p.start, snap.len());
                let e1 = clamp_index(p.end, snap.len());
                if s1 >= e1 {
                    Ok(Seq::<QuestionView>::empty())
                } else {
                    Ok(snap.subrange(s1, e1))
                }
            },
        }
    }
}

/// For every snapshot of length `L` and every successfully extracted
/// `(start, end)`: with both bounds clamped to `L`, the listing is a
/// success; it is empty when the clamped start has reached the clamped
/// end, and otherwise holds exactly the clamped-end-minus-clamped-start
/// records of the half-open window between them, each drawn from the
/// snapshot.
pub proof fn lemma_list_window(
    params: Seq<(String, String)>,
    snap: Seq<QuestionView>,
    p: crate::pagination::Pagination,
)
    requires
        params.len() > 0,
        spec_extract(params) == Ok::<crate::pagination::Pagination, Error>(p),
    ensures
        ({
            let s1 = clamp_index(p.start, snap.len());
            let e1 = clamp_index(p.end, snap.len());
            if s1 >= e1 {
                list_outcome(params, snap) == Ok::<Seq<QuestionView>, Error>(
                    Seq::<QuestionView>::empty(),
                )
            } else {
                list_outcome(params, snap) matches Ok(w) && w.len() == e1 - s1 && (forall|j: int|
                    0 <= j < e1 - s1 ==> #[trigger] w[j] == snap[s1 + j])
            }
        }),
{
}

/// Lists questions: with no query parameters, the full snapshot; with
/// parameters, the validated and clamped window of one consistent
/// snapshot. An extraction failure propagates unchanged; a start at or
/// past the end after clamping is an empty success, not an error.
pub fn get_questions(params: Vec<(String, String)>, questions: &QuestionMap) -> (r: Result<
    Vec<Question>,
    Error,
>)
    ensures
        match r {
            Ok(v) => list_outcome(params@, questions.records()) == Ok::<_, Error>(
                v@.map_values(|q: Question| q@),
            ),
            Err(e) => list_outcome(params@, questions.records()) == Err::<Seq<QuestionView>, _>(e),
        },
{
    if params.is_empty() {
        Ok(questions.values())
    } else {
        match extract_pagination(params) {
            Ok(pagination) => {
                let all = questions.values();
                let total = all.len();
                let start: usize = if pagination.start <= total {
                    pagination.start
                } else {
                    total
                };
                let end: usize = if pagination.end <= total {
                    pagination.end
                } else {
                    total
                };
                if start >= end {
                    let empty: Vec<Question> = Vec::new();
                    proof {
                        assert(empty@.map_values(|q: Question| q@) =~= Seq::<
                            QuestionView,
                        >::empty());
                    }
                    Ok(empty)
                } else {
                    let mut out: Vec<Question> = Vec::new();
                    let mut i: usize = start;
                    while i < end
                        invariant
                            start <= i <= end,
                            end <= all@.len(),
                            out@.len() == i - start,
                            forall|j: int| 0 <= j < i - start ==> out@[j]@ == all@[start + j]@,
                        decreases end - i,
                    {
                        out.push(all[i].clone());
                        i = i + 1;
                    }
                    proof {
                        let snap = questions.records();
                        assert(out@.map_values(|q: Question| q@) =~= snap.subrange(
                            start as int,
                            end as int,
                        ));
                    }
                    Ok(out)
                }
            },
            Err(e) => Err(e),
        }
    }
}

/// Creates a question by upsert; always succeeds. No identity conflict is
/// reported: an existing value under the same id is wholly replaced.
pub fn add_question(questions: &mut QuestionMap, question: Question)
    requires
        old(questions).wf(),
    ensures
        final(questions).wf(),
        question_upsert(*old(questions), *final(questions), question),
{
    questions.insert_or_replace(question);
}

/// Replaces the question stored under the path-supplied `id` with the
/// decoded body; fails with `QuestionNotFound`, leaving the collection
/// unchanged, exactly when `id` is absent.
pub fn update_question(id: String, questions: &mut QuestionMap, question: Question) -> (r: Result<
    (),
    Error,
>)
    requires
        old(questions).wf(),
    ensures
        final(questions).wf(),
        r is Ok <==> old(questions).contains_id(id@),
        match r {
            Ok(_) => exists|i: int|
                0 <= i < old(questions).ids().len() && old(questions).ids()[i] == id@ && final(questions).ids() == old(questions).ids() && final(questions).records() == old(questions).records().update(i, question@),
            Err(e) => e == Error::QuestionNotFound && *final(questions) == *old(questions),
        },
{
    let qid = QuestionId(id);
    questions.replace(&qid, question)
}

/// Deletes the question stored under the path-supplied `id`; fails with
/// `QuestionNotFound`, leaving the collection unchanged, exactly when
/// `id` is absent.
pub fn delete_question(id: String, questions: &mut QuestionMap) -> (r: Result<(), Error>)
    requires
        old(questions).wf(),
    ensures
        final(questions).wf(),
        r is Ok <==> old(questions).contains_id(id@),
        match r {
            Ok(_) => exists|i: int|
                0 <= i < old(questions).ids().len() && old(questions).ids()[i] == id@ && final(questions).ids() == old(questions).ids().remove(i) && final(questions).records() == old(questions).records().remove(i),
            Err(e) => e == Error::QuestionNotFound && *final(questions) == *old(questions),
        },
{
    let qid = QuestionId(id);
    questions.remove(&qid)
}

/// Relies on uuid::Uuid::new_v4 and its default hyphenated rendering: a
/// freshly generated random version-4 identifier, 36 characters long.
#[verifier::external_body]
fn fresh_answer_id() -> (r: String)
    ensures
        r@.len() == 36,
{
    uuid::Uuid::new_v4().to_string()
}

/// Creates an answer: a fresh id is generated, and the given content and
/// question reference are stored under it; always succeeds, returning the
/// generated id. The referenced question id is deliberately not checked
/// against the questions collection.
pub fn add_answer(answers: &mut AnswerMap, question_id: QuestionId, content: String) -> (id:
    AnswerId)
    requires
        old(answers).wf(),
    ensures
        final(answers).wf(),
        id@.len() == 36,
        ({
            let av = (AnswerView { id: id@, question_id: question_id@, content: content@ });
            if old(answers).contains_id(id@) {
                exists|i: int|
                    0 <= i < old(answers).ids().len() && old(answers).ids()[i] == id@ && final(answers).ids() == old(answers).ids() && final(answers).records() == old(answers).records().update(i, av)
            } else {
                final(answers).ids() == old(answers).ids().push(id@) && final(answers).records()
                    == old(answers).records().push(av)
            }
        }),
{
    let fresh = fresh_answer_id();
    let aid = AnswerId(fresh);
    let id = aid.clone();
    let a = Answer { id: aid, question_id, content };
    answers.insert(a);
    id
}

/// Serves the fixed demonstration question of the service's earliest
/// iteration, after checking that its id is numeric; with the id "1" the
/// check always passes.
pub fn get_question() -> (r: Result<Question, Error>)
    ensures
        r matches Ok(q) && q@ == (QuestionView {
            id: "1"@,
            title: "First Question"@,
            content: "Content of question"@,
            tags: Some(seq!["faq"@]),
        }),
{
    let id = match QuestionId::from_str("1") {
        Some(qid) => qid,
        None => {
            proof {
                reveal_strlit("1");
            }
            unreached()
        },
    };
    let mut tags_vec: Vec<String> = Vec::new();
    tags_vec.push("faq".to_owned());
    proof {
        assert(tags_vec@.map_values(|s: String| s@) =~= seq!["faq"@]);
    }
    let question = Question::new(
        id,
        "First Question".to_owned(),
        "Content of question".to_owned(),
        Some(tags_vec),
    );
    match parse_usize(question.id.0.as_str()) {
        Err(_) => {
            proof {
                reveal_strlit("1");
                let s = "1"@;
                assert(s[0] == '1');
                assert(crate::parse::digits_of(s) == s);
                assert forall|k: int| 0 <= k < s.len() implies crate::parse::is_digit_char(
                    #[trigger] s[k],
                ) by {
                    assert(s[k] == '1');
                }
                assert(s.drop_last() =~= Seq::<char>::empty());
                assert(crate::parse::dec_value(Seq::<char>::empty()) == 0);
                assert(crate::parse::dec_value(s) == crate::parse::digit_val('1'));
            }
            unreached()
        },
        Ok(_) => Ok(question),
    }
}

} // verus!
