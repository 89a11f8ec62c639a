//! Question records and their identifiers.

use vstd::prelude::*;

verus! {

/// A question identifier: a non-empty string naming one question.
#[derive(Debug)]
pub struct QuestionId(pub String);

impl View for QuestionId {
    type V = Seq<char>;

    open spec fn view(&self) -> Seq<char> {
        self.0@
    }
}

impl Clone for QuestionId {
    fn clone(&self) -> (r: Self)
        ensures
            r@ == self@,
    {
        QuestionId(self.0.clone())
    }
}

impl PartialEq for QuestionId {
    fn eq(&self, other: &Self) -> (r: bool) {
        self.0 == other.0
    }
}

impl vstd::std_specs::cmp::PartialEqSpecImpl for QuestionId {
    open spec fn obeys_eq_spec() -> bool {
        true
    }

    open spec fn eq_spec(&self, other: &Self) -> bool {
        self@ == other@
    }
}

impl QuestionId {
    /// A question id must be non-empty: construction from an empty string
    /// fails, and otherwise the id carries exactly the given characters.
    pub fn from_str(id: &str) -> (r: Option<QuestionId>)
        ensures
            match r {
                Some(q) => id@.len() > 0 && q@ == id@,
                None => id@.len() == 0,
            },
    {
        if id.is_empty() {
            None
        } else {
            Some(QuestionId(id.to_owned()))
        }
    }
}

/// The mathematical value of a question: each field as a character sequence.
pub ghost struct QuestionView {
    pub id: Seq<char>,
    pub title: Seq<char>,
    pub content: Seq<char>,
    pub tags: Option<Seq<Seq<char>>>,
}

/// The mathematical value of an optional tag list.
pub open spec fn tag_views(tags: Option<Vec<String>>) -> Option<Seq<Seq<char>>> {
    match tags {
        Some(v) => Some(v@.map_values(|s: String| s@)),
        None => None,
    }
}

/// A question record. Its identity is `id`; mutation replaces the whole
/// value, never a single field.
#[derive(Debug)]
pub struct Question {
    pub id: QuestionId,
    pub title: String,
    pub content: String,
    pub tags: Option<Vec<String>>,
}

impl View for Question {
    type V = QuestionView;

    open spec fn view(&self) -> QuestionView {
        QuestionView {
            id: self.id@,
            title: self.title@,
            content: self.content@,
            tags: tag_views(self.tags),
        }
    }
}

/// Clones an optional tag list, preserving its mathematical value.
fn clone_tags(tags: &Option<Vec<String>>) -> (r: Option<Vec<String>>)
    ensures
        tag_views(r) == tag_views(*tags),
{
    match tags {
        None => None,
        Some(v) => {
            let mut out: Vec<String> = Vec::new();
            let mut i: usize = 0;
            while i < v.len()
                invariant
                    i <= v.len(),
                    out@.len() == i,
                    forall|j: int| 0 <= j < i ==> out@[j]@ == v@[j]@,
                decreases v.len() - i,
            {
                out.push(v[i].clone());
                i = i + 1;
            }
            proof {
                assert(out@.map_values(|s: String| s@) =~= v@.map_values(|s: String| s@));
            }
            Some(out)
        },
    }
}

/// Compares two string lists by their characters.
fn vec_string_eq(a: &Vec<String>, b: &Vec<String>) -> (r: bool)
    ensures
        r == (a@.map_values(|s: String| s@) == b@.map_values(|s: String| s@)),
{
    if a.len() != b.len() {
        proof {
            assert(a@.map_values(|s: String| s@).len() != b@.map_values(|s: String| s@).len());
        }
        return false;
    }
    let mut i: usize = 0;
    while i < a.len()
        invariant
            a@.len() == b@.len(),
            i <= a.len(),
            forall|j: int| 0 <= j < i ==> a@[j]@ == b@[j]@,
        decreases a.len() - i,
    {
        if !(a[i] == b[i]) {
            proof {
                assert(a@.map_values(|s: String| s@)[i as int] != b@.map_values(
                    |s: String| s@,
                )[i as int]);
            }
            return false;
        }
        i = i + 1;
    }
    proof {
        assert(a@.map_values(|s: String| s@) =~= b@.map_values(|s: String| s@));
    }
    true
}

impl Clone for Question {
    fn clone(&self) -> (r: Self)
        ensures
            r@ == self@,
    {
        Question {
            id: self.id.clone(),
            title: self.title.clone(),
            content: self.content.clone(),
            tags: clone_tags(&self.tags),
        }
    }
}

impl PartialEq for Question {
    fn eq(&self, other: &Self) -> (r: bool) {
        let tags_eq: bool = match (&self.tags, &other.tags) {
            (None, None) => true,
            (Some(a), Some(b)) => vec_string_eq(a, b),
            _ => false,
        };
        self.id.0 == other.id.0 && self.title == other.title && self.content == other.content
            && tags_eq
    }
}

impl vstd::std_specs::cmp::PartialEqSpecImpl for Question {
    open spec fn obeys_eq_spec() -> bool {
        true
    }

    open spec fn eq_spec(&self, other: &Self) -> bool {
        self@ == other@
    }
}

impl Question {
    /// Builds a question from its parts; the result carries exactly them.
    pub fn new(id: QuestionId, title: String, content: String, tags: Option<Vec<String>>) -> (q:
        Question)
        ensures
            q@ == (QuestionView {
                id: id@,
                title: title@,
                content: content@,
                tags: tag_views(tags),
            }),
    {
        Question { id, title, content, tags }
    }
}

} // verus!
