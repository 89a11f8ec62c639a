use qa_service::error::{return_error, Error, Surfaced};
use qa_service::parse::IntParseError;
use qa_service::question::{Question, QuestionId};
use qa_service::routes::{
    add_answer, add_question, delete_question, get_question, get_questions, update_question,
};
use qa_service::store::Store;

fn q(id: &str, title: &str) -> Question {
    Question::new(
        QuestionId(id.to_string()),
        title.to_string(),
        format!("content of {}", id),
        None,
    )
}

fn pairs(kv: &[(&str, &str)]) -> Vec<(String, String)> {
    kv.iter().map(|(k, v)| (k.to_string(), v.to_string())).collect()
}

fn seeded() -> Store {
    let mut store = Store::new();
    store.insert_or_replace_question(q("q1", "First"));
    store.insert_or_replace_question(q("q2", "Second"));
    store.insert_or_replace_question(q("q3", "Third"));
    store
}

#[test]
fn list_without_parameters_returns_all_three() {
    let store = seeded();
    let r = get_questions(pairs(&[]), &store.questions);
    assert_eq!(r, Ok(store.list_questions()));
    assert_eq!(r.unwrap().len(), 3);
}

#[test]
fn list_window_returns_exactly_one_item_of_the_snapshot() {
    let store = seeded();
    let snapshot = store.list_questions();
    let r = get_questions(pairs(&[("start", "1"), ("end", "2")]), &store.questions);
    let items = r.unwrap();
    assert_eq!(items.len(), 1);
    assert_eq!(items[0], snapshot[1]);
}

#[test]
fn list_window_past_the_end_is_an_empty_success() {
    let store = seeded();
    let r = get_questions(pairs(&[("start", "10"), ("end", "20")]), &store.questions);
    assert_eq!(r, Ok(Vec::new()));
}

#[test]
fn list_with_non_numeric_start_is_a_parse_failure() {
    let store = seeded();
    let r = get_questions(pairs(&[("start", "abc"), ("end", "2")]), &store.questions);
    assert_eq!(r, Err(Error::ParseError(IntParseError::InvalidDigit)));
}

#[test]
fn list_with_start_at_end_after_clamping_is_empty() {
    let store = seeded();
    let r = get_questions(pairs(&[("start", "2"), ("end", "2")]), &store.questions);
    assert_eq!(r, Ok(Vec::new()));
}

#[test]
fn list_with_start_past_end_is_an_empty_success() {
    let store = seeded();
    let r = get_questions(pairs(&[("start", "2"), ("end", "1")]), &store.questions);
    assert_eq!(r, Ok(Vec::new()));
}

#[test]
fn replace_of_absent_question_is_not_found() {
    let mut store = Store::new();
    let r = update_question("q1".to_string(), &mut store.questions, q("q1", "First"));
    assert_eq!(r, Err(Error::QuestionNotFound));
}

#[test]
fn update_stores_the_body_under_the_path_id() {
    let mut store = seeded();
    let body = q("q2", "Second, updated");
    let r = update_question("q2".to_string(), &mut store.questions, body.clone());
    assert_eq!(r, Ok(()));
    assert!(store.list_questions().contains(&body));
}

#[test]
fn create_with_existing_id_replaces_value_and_keeps_size() {
    let mut store = seeded();
    let pre = store.list_questions().len();
    let payload = q("q1", "First, recreated");
    add_question(&mut store.questions, payload.clone());
    let listing = store.list_questions();
    assert_eq!(listing.len(), pre);
    let at_id: Vec<&Question> = listing.iter().filter(|x| x.id.0 == "q1").collect();
    assert_eq!(at_id.len(), 1);
    assert_eq!(*at_id[0], payload);
}

#[test]
fn delete_handler_removes_the_entry() {
    let mut store = seeded();
    let r = delete_question("q3".to_string(), &mut store.questions);
    assert_eq!(r, Ok(()));
    assert_eq!(store.list_questions().len(), 2);
    let r2 = delete_question("q3".to_string(), &mut store.questions);
    assert_eq!(r2, Err(Error::QuestionNotFound));
}

#[test]
fn add_answer_generates_a_fresh_36_character_id() {
    let mut store = Store::new();
    let id = add_answer(
        &mut store.answers,
        QuestionId("q1".to_string()),
        "an answer".to_string(),
    );
    assert_eq!(id.0.len(), 36);
    let answers = store.answers.values();
    assert_eq!(answers.len(), 1);
    assert_eq!(answers[0].id, id);
    assert_eq!(answers[0].question_id.0, "q1");
    assert_eq!(answers[0].content, "an answer");
}

#[test]
fn two_answers_get_distinct_ids() {
    let mut store = Store::new();
    let a = add_answer(&mut store.answers, QuestionId("q1".to_string()), "one".to_string());
    let b = add_answer(&mut store.answers, QuestionId("q1".to_string()), "two".to_string());
    assert!(a != b);
    assert_eq!(store.answers.values().len(), 2);
}

#[test]
fn demo_question_is_served() {
    let r = get_question();
    let question = r.unwrap();
    assert_eq!(question.id.0, "1");
    assert_eq!(question.title, "First Question");
    assert_eq!(question.content, "Content of question");
    assert_eq!(question.tags, Some(vec!["faq".to_string()]));
}

#[test]
fn domain_errors_translate_to_bad_request() {
    let (status, message) = return_error(Surfaced::Domain(Error::QuestionNotFound));
    assert_eq!(status, 400);
    assert_eq!(message, "question not found");
    let (status, message) = return_error(Surfaced::Domain(Error::MissingParameters));
    assert_eq!(status, 400);
    assert_eq!(message, "Missing 'start' or 'end' parameter");
    let (status, message) =
        return_error(Surfaced::Domain(Error::ParseError(IntParseError::InvalidDigit)));
    assert_eq!(status, 400);
    assert_eq!(message, "Cannot parse parameter: invalid digit found in string");
}

#[test]
fn collaborator_conditions_keep_their_own_text() {
    let (status, message) = return_error(Surfaced::CorsForbidden("origin denied".to_string()));
    assert_eq!(status, 403);
    assert_eq!(message, "origin denied");
    let (status, message) = return_error(Surfaced::BodyDeserialize("bad body".to_string()));
    assert_eq!(status, 422);
    assert_eq!(message, "bad body");
}

#[test]
fn unmatched_route_and_unknown_conditions() {
    let (status, message) = return_error(Surfaced::RouteNotFound);
    assert_eq!(status, 404);
    assert_eq!(message, "Route not found");
    let (status, message) = return_error(Surfaced::Unexpected);
    assert_eq!(status, 500);
    assert_eq!(message, "Internal Server Error");
}

#[test]
fn error_text_covers_every_kind() {
    assert_eq!(
        Error::ParseError(IntParseError::Empty).to_text(),
        "Cannot parse parameter: cannot parse integer from empty string"
    );
    assert_eq!(
        Error::ParseError(IntParseError::Overflow).to_text(),
        "Cannot parse parameter: number too large to fit in target type"
    );
    assert_eq!(Error::InvalidRange.to_text(), "'start' must be less than 'end'");
    assert_eq!(Error::QuestionNotFound.to_text(), "question not found");
}

#[test]
fn question_id_construction_rejects_empty_input() {
    assert!(QuestionId::from_str("").is_none());
    let id = QuestionId::from_str("q77").unwrap();
    assert_eq!(id.0, "q77");
}
