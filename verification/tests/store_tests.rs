use qa_service::error::Error;
use qa_service::question::{Question, QuestionId};
use qa_service::store::Store;

fn q(id: &str, title: &str) -> Question {
    Question::new(
        QuestionId(id.to_string()),
        title.to_string(),
        format!("content of {}", id),
        Some(vec![format!("tag-{}", id)]),
    )
}

fn seeded() -> Store {
    let mut store = Store::new();
    store.insert_or_replace_question(q("q1", "First"));
    store.insert_or_replace_question(q("q2", "Second"));
    store.insert_or_replace_question(q("q3", "Third"));
    store
}

#[test]
fn new_store_lists_nothing() {
    let store = Store::new();
    assert_eq!(store.list_questions(), Vec::<Question>::new());
}

#[test]
fn insert_then_list_contains_exactly_one_equal_entry() {
    let mut store = seeded();
    let inserted = q("q9", "Ninth");
    store.insert_or_replace_question(inserted.clone());
    let listing = store.list_questions();
    let matching: Vec<&Question> = listing.iter().filter(|x| **x == inserted).collect();
    assert_eq!(matching.len(), 1);
    let with_key: Vec<&Question> = listing.iter().filter(|x| x.id == inserted.id).collect();
    assert_eq!(with_key.len(), 1);
}

#[test]
fn upsert_of_existing_id_replaces_without_growing() {
    let mut store = seeded();
    let before = store.list_questions();
    let replacement = q("q2", "Second, rewritten");
    store.insert_or_replace_question(replacement.clone());
    let after = store.list_questions();
    assert_eq!(after.len(), before.len());
    let matching: Vec<&Question> = after.iter().filter(|x| x.id == replacement.id).collect();
    assert_eq!(matching.len(), 1);
    assert_eq!(*matching[0], replacement);
}

#[test]
fn replace_on_absent_id_fails_and_leaves_store_unchanged() {
    let mut store = seeded();
    let before = store.list_questions();
    let r = store.replace_question(&QuestionId("missing".to_string()), q("missing", "Nope"));
    assert_eq!(r, Err(Error::QuestionNotFound));
    assert_eq!(store.list_questions(), before);
}

#[test]
fn replace_on_present_id_overwrites_that_value() {
    let mut store = seeded();
    let body = q("q2", "Second, replaced");
    let r = store.replace_question(&QuestionId("q2".to_string()), body.clone());
    assert_eq!(r, Ok(()));
    let listing = store.list_questions();
    assert_eq!(listing.len(), 3);
    assert!(listing.contains(&body));
}

#[test]
fn delete_on_absent_id_fails_and_leaves_store_unchanged() {
    let mut store = seeded();
    let before = store.list_questions();
    let r = store.remove_question(&QuestionId("nowhere".to_string()));
    assert_eq!(r, Err(Error::QuestionNotFound));
    assert_eq!(store.list_questions(), before);
}

#[test]
fn delete_on_present_id_removes_exactly_that_entry() {
    let mut store = seeded();
    let before = store.list_questions();
    let r = store.remove_question(&QuestionId("q2".to_string()));
    assert_eq!(r, Ok(()));
    let after = store.list_questions();
    assert_eq!(after.len(), before.len() - 1);
    assert!(after.iter().all(|x| x.id.0 != "q2"));
    for survivor in before.iter().filter(|x| x.id.0 != "q2") {
        assert!(after.contains(survivor));
    }
}

#[test]
fn question_equality_is_by_content() {
    let a = q("q1", "First");
    let b = q("q1", "First");
    assert_eq!(a, b);
    let mut c = q("q1", "First");
    c.tags = Some(vec!["other".to_string()]);
    assert_ne!(a, c);
    let mut d = q("q1", "First");
    d.tags = None;
    assert_ne!(a, d);
}

#[test]
fn distinct_creates_each_grow_the_listing() {
    let mut store = seeded();
    let pre = store.list_questions().len();
    let n = 10;
    for k in 0..n {
        store.insert_or_replace_question(q(&format!("fresh-{}", k), "Fresh"));
    }
    assert_eq!(store.list_questions().len(), pre + n);
}
