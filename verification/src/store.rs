//! The record store: two independent keyed collections of questions and
//! answers, enumerated in insertion order.

use vstd::prelude::*;
use crate::answer::{Answer, AnswerId, AnswerView};
use crate::error::Error;
use crate::question::{Question, QuestionId, QuestionView};

verus! {

/// The questions collection: one value per question id, enumerated in
/// insertion order.
pub struct QuestionMap {
    entries: Vec<(QuestionId, Question)>,
}

/// How one upsert changes the questions collection: the value under an
/// already-present id is replaced in place, a fresh id is appended.
pub open spec fn question_upsert(pre: QuestionMap, post: QuestionMap, q: Question) -> bool {
    if pre.contains_id(q.id@) {
        exists|i: int|
            0 <= i < pre.ids().len() && pre.ids()[i] == q.id@ && post.ids() == pre.ids()
                && post.records() == pre.records().update(i, q@)
    } else {
        post.ids() == pre.ids().push(q.id@) && post.records() == pre.records().push(q@)
    }
}

impl QuestionMap {
    /// The key of each entry, in enumeration order.
    pub closed spec fn ids(self) -> Seq<Seq<char>> {
        self.entries@.map_values(|p: (QuestionId, Question)| p.0@)
    }

    /// The value of each entry, in enumeration order.
    pub closed spec fn records(self) -> Seq<QuestionView> {
        self.entries@.map_values(|p: (QuestionId, Question)| p.1@)
    }

    /// Keys are unique: at most one entry per id.
    pub open spec fn wf(self) -> bool {
        forall|i: int, j: int|
            0 <= i < j < self.ids().len() ==> self.ids()[i] != self.ids()[j]
    }

    /// Whether some entry carries the given id.
    pub open spec fn contains_id(self, id: Seq<char>) -> bool {
        exists|i: int| 0 <= i < self.ids().len() && self.ids()[i] == id
    }

    /// The two enumerations pair up: one key and one value per entry.
    pub proof fn lemma_same_len(self)
        ensures
            self.ids().len() == self.records().len(),
    {
    }

    /// An empty collection.
    pub fn new() -> (r: Self)
        ensures
            r.ids() == Seq::<Seq<char>>::empty(),
            r.records() == Seq::<QuestionView>::empty(),
            r.wf(),
    {
        let r = QuestionMap { entries: Vec::new() };
        proof {
            assert(r.ids() =~= Seq::<Seq<char>>::empty());
            assert(r.records() =~= Seq::<QuestionView>::empty());
        }
        r
    }

    /// How many questions are stored.
    pub fn len(&self) -> (n: usize)
        ensures
            n == self.ids().len(),
    {
        self.entries.len()
    }

    /// A snapshot copy of the stored values, in enumeration order.
    pub fn values(&self) -> (r: Vec<Question>)
        ensures
            r@.map_values(|q: Question| q@) == self.records(),
    {
        let mut out: Vec<Question> = Vec::new();
        let mut i: usize = 0;
        while i < self.entries.len()
            invariant
                i <= self.entries@.len(),
                out@.len() == i,
                forall|j: int| 0 <= j < i ==> out@[j]@ == self.entries@[j].1@,
            decreases self.entries@.len() - i,
        {
            out.push(self.entries[i].1.clone());
            i = i + 1;
        }
        proof {
            assert(out@.map_values(|q: Question| q@) =~= self.records());
        }
        out
    }

    /// The position of the entry carrying the given id, if any.
    fn find(&self, id: &QuestionId) -> (r: Option<usize>)
        ensures
            match r {
                Some(i) => i < self.ids().len() && self.ids()[i as int] == id@,
                None => !self.contains_id(id@),
            },
    {
        let mut i: usize = 0;
        while i < self.entries.len()
            invariant
                i <= self.entries@.len(),
                forall|j: int| 0 <= j < i ==> self.ids()[j] != id@,
            decreases self.entries@.len() - i,
        {
            if self.entries[i].0 == *id {
                return Some(i);
            }
            i = i + 1;
        }
        None
    }

    /// Upsert by `q.id`: never fails; an existing value is wholly replaced
    /// in place, a fresh id is appended.
    pub fn insert_or_replace(&mut self, q: Question)
        requires
            old(self).wf(),
        ensures
            final(self).wf(),
            question_upsert(*old(self), *final(self), q),
    {
        match self.find(&q.id) {
            Some(i) => {
                let key = self.entries[i].0.clone();
                self.entries[i] = (key, q);
                proof {
                    assert(final(self).ids() =~= old(self).ids());
                    assert(final(self).records() =~= old(self).records().update(i as int, q@));
                }
            },
            None => {
                let key = q.id.clone();
                self.entries.push((key, q));
                proof {
                    assert(final(self).ids() =~= old(self).ids().push(q.id@));
                    assert(final(self).records() =~= old(self).records().push(q@));
                    assert forall|i: int, j: int|
                        0 <= i < j < final(self).ids().len() implies final(self).ids()[i] != final(self).ids()[j] by {
                        if j == final(self).ids().len() - 1 {
                            assert(!old(self).contains_id(q.id@));
                            assert(old(self).ids()[i] != q.id@);
                        }
                    }
                }
            },
        }
    }

    /// Overwrites the value stored under `id`. The supplied `q.id` need not
    /// equal `id`: the entry keeps its key. Fails, leaving the collection
    /// unchanged, exactly when `id` is absent.
    pub fn replace(&mut self, id: &QuestionId, q: Question) -> (r: Result<(), Error>)
        requires
            old(self).wf(),
        ensures
            final(self).wf(),
            r is Ok <==> old(self).contains_id(id@),
            match r {
                Ok(_) => exists|i: int|
                    0 <= i < old(self).ids().len() && old(self).ids()[i] == id@ && final(self).ids() == old(self).ids() && final(self).records() == old(self).records().update(i, q@),
                Err(e) => e == Error::QuestionNotFound && *final(self) == *old(self),
            },
    {
        match self.find(id) {
            Some(i) => {
                let key = self.entries[i].0.clone();
                self.entries[i] = (key, q);
                proof {
                    assert(final(self).ids() =~= old(self).ids());
                    assert(final(self).records() =~= old(self).records().update(i as int, q@));
                }
                Ok(())
            },
            None => Err(Error::QuestionNotFound),
        }
    }

    /// Removes the entry stored under `id`. Fails, leaving the collection
    /// unchanged, exactly when `id` is absent.
    pub fn remove(&mut self, id: &QuestionId) -> (r: Result<(), Error>)
        requires
            old(self).wf(),
        ensures
            final(self).wf(),
            r is Ok <==> old(self).contains_id(id@),
            match r {
                Ok(_) => exists|i: int|
                    0 <= i < old(self).ids().len() && old(self).ids()[i] == id@ && final(self).ids() == old(self).ids().remove(i) && final(self).records() == old(self).records().remove(i),
                Err(e) => e == Error::QuestionNotFound && *final(self) == *old(self),
            },
    {
        match self.find(id) {
            Some(i) => {
                self.entries.remove(i);
                proof {
                    assert(final(self).ids() =~= old(self).ids().remove(i as int));
                    assert(final(self).records() =~= old(self).records().remove(i as int));
                    assert forall|a: int, b: int|
                        0 <= a < b < final(self).ids().len() implies final(self).ids()[a] != final(self).ids()[b] by {
                        let a0: int = if a < i { a } else { a + 1 };
                        let b0: int = if b < i { b } else { b + 1 };
                        assert(final(self).ids()[a] == old(self).ids()[a0]);
                        assert(final(self).ids()[b] == old(self).ids()[b0]);
                    }
                }
                Ok(())
            },
            None => Err(Error::QuestionNotFound),
        }
    }
}

/// The answers collection: one value per answer id, enumerated in
/// insertion order.
pub struct AnswerMap {
    entries: Vec<(AnswerId, Answer)>,
}

/// How one upsert changes the answers collection.
pub open spec fn answer_upsert(pre: AnswerMap, post: AnswerMap, a: Answer) -> bool {
    if pre.contains_id(a.id@) {
        exists|i: int|
            0 <= i < pre.ids().len() && pre.ids()[i] == a.id@ && post.ids() == pre.ids()
                && post.records() == pre.records().update(i, a@)
    } else {
        post.ids() == pre.ids().push(a.id@) && post.records() == pre.records().push(a@)
    }
}

impl AnswerMap {
    /// The key of each entry, in enumeration order.
    pub closed spec fn ids(self) -> Seq<Seq<char>> {
        self.entries@.map_values(|p: (AnswerId, Answer)| p.0@)
    }

    /// The value of each entry, in enumeration order.
    pub closed spec fn records(self) -> Seq<AnswerView> {
        self.entries@.map_values(|p: (AnswerId, Answer)| p.1@)
    }

    /// Keys are unique: at most one entry per id.
    pub open spec fn wf(self) -> bool {
        forall|i: int, j: int|
            0 <= i < j < self.ids().len() ==> self.ids()[i] != self.ids()[j]
    }

    /// Whether some entry carries the given id.
    pub open spec fn contains_id(self, id: Seq<char>) -> bool {
        exists|i: int| 0 <= i < self.ids().len() && self.ids()[i] == id
    }

    /// An empty collection.
    pub fn new() -> (r: Self)
        ensures
            r.ids() == Seq::<Seq<char>>::empty(),
            r.records() == Seq::<AnswerView>::empty(),
            r.wf(),
    {
        let r = AnswerMap { entries: Vec::new() };
        proof {
            assert(r.ids() =~= Seq::<Seq<char>>::empty());
            assert(r.records() =~= Seq::<AnswerView>::empty());
        }
        r
    }

    /// How many answers are stored.
    pub fn len(&self) -> (n: usize)
        ensures
            n == self.ids().len(),
    {
        self.entries.len()
    }

    /// A snapshot copy of the stored values, in enumeration order.
    pub fn values(&self) -> (r: Vec<Answer>)
        ensures
            r@.map_values(|a: Answer| a@) == self.records(),
    {
        let mut out: Vec<Answer> = Vec::new();
        let mut i: usize = 0;
        while i < self.entries.len()
            invariant
                i <= self.entries@.len(),
                out@.len() == i,
                forall|j: int| 0 <= j < i ==> out@[j]@ == self.entries@[j].1@,
            decreases self.entries@.len() - i,
        {
            out.push(self.entries[i].1.clone());
            i = i + 1;
        }
        proof {
            assert(out@.map_values(|a: Answer| a@) =~= self.records());
        }
        out
    }

    /// The position of the entry carrying the given id, if any.
    fn find(&self, id: &AnswerId) -> (r: Option<usize>)
        ensures
            match r {
                Some(i) => i < self.ids().len() && self.ids()[i as int] == id@,
                None => !self.contains_id(id@),
            },
    {
        let mut i: usize = 0;
        while i < self.entries.len()
            invariant
                i <= self.entries@.len(),
                forall|j: int| 0 <= j < i ==> self.ids()[j] != id@,
            decreases self.entries@.len() - i,
        {
            if self.entries[i].0 == *id {
                return Some(i);
            }
            i = i + 1;
        }
        None
    }

    /// Upsert by `a.id`: never fails.
    pub fn insert(&mut self, a: Answer)
        requires
            old(self).wf(),
        ensures
            final(self).wf(),
            answer_upsert(*old(self), *final(self), a),
    {
        match self.find(&a.id) {
            Some(i) => {
                let key = self.entries[i].0.clone();
                self.entries[i] = (key, a);
                proof {
                    assert(final(self).ids() =~= old(self).ids());
                    assert(final(self).records() =~= old(self).records().update(i as int, a@));
                }
            },
            None => {
                let key = a.id.clone();
                self.entries.push((key, a));
                proof {
                    assert(final(self).ids() =~= old(self).ids().push(a.id@));
                    assert(final(self).records() =~= old(self).records().push(a@));
                    assert forall|i: int, j: int|
                        0 <= i < j < final(self).ids().len() implies final(self).ids()[i] != final(self).ids()[j] by {
                        if j == final(self).ids().len() - 1 {
                            assert(!old(self).contains_id(a.id@));
                            assert(old(self).ids()[i] != a.id@);
                        }
                    }
                }
            },
        }
    }
}

/// The store: the one shared object every handler works on. The two
/// collections are independent; an operation on one never touches the
/// other.
pub struct Store {
    pub questions: QuestionMap,
    pub answers: AnswerMap,
}

impl Store {
    /// A store with both collections empty. Whoever loads the seed
    /// document populates the questions through
    /// `insert_or_replace_question`.
    pub fn new() -> (r: Store)
        ensures
            r.questions.ids() == Seq::<Seq<char>>::empty(),
            r.questions.records() == Seq::<QuestionView>::empty(),
            r.questions.wf(),
            r.answers.ids() == Seq::<Seq<char>>::empty(),
            r.answers.records() == Seq::<AnswerView>::empty(),
            r.answers.wf(),
    {
        Store { questions: QuestionMap::new(), answers: AnswerMap::new() }
    }

    /// A snapshot copy of the current questions; never fails.
    pub fn list_questions(&self) -> (r: Vec<Question>)
        ensures
            r@.map_values(|q: Question| q@) == self.questions.records(),
    {
        self.questions.values()
    }

    /// Upsert by `q.id`: never fails; an existing value is wholly
    /// replaced, with no merge.
    pub fn insert_or_replace_question(&mut self, q: Question)
        requires
            old(self).questions.wf(),
        ensures
            final(self).questions.wf(),
            question_upsert(old(self).questions, final(self).questions, q),
            final(self).answers == old(self).answers,
    {
        self.questions.insert_or_replace(q);
    }

    /// Overwrites the value stored under `id`; fails with
    /// `QuestionNotFound`, leaving the store unchanged, exactly when `id`
    /// is absent.
    pub fn replace_question(&mut self, id: &QuestionId, q: Question) -> (r: Result<(), Error>)
        requires
            old(self).questions.wf(),
        ensures
            final(self).questions.wf(),
            final(self).answers == old(self).answers,
            r is Ok <==> old(self).questions.contains_id(id@),
            match r {
                Ok(_) => exists|i: int|
                    0 <= i < old(self).questions.ids().len() && old(self).questions.ids()[i] == id@
                        && final(self).questions.ids() == old(self).questions.ids() && final(self).questions.records() == old(self).questions.records().update(i, q@),
                Err(e) => e == Error::QuestionNotFound && final(self).questions == old(self).questions,
            },
    {
        self.questions.replace(id, q)
    }

    /// Removes the question stored under `id`; fails with
    /// `QuestionNotFound`, leaving the store unchanged, exactly when `id`
    /// is absent.
    pub fn remove_question(&mut self, id: &QuestionId) -> (r: Result<(), Error>)
        requires
            old(self).questions.wf(),
        ensures
            final(self).questions.wf(),
            final(self).answers == old(self).answers,
            r is Ok <==> old(self).questions.contains_id(id@),
            match r {
                Ok(_) => exists|i: int|
                    0 <= i < old(self).questions.ids().len() && old(self).questions.ids()[i] == id@
                        && final(self).questions.ids() == old(self).questions.ids().remove(i)
                        && final(self).questions.records() == old(self).questions.records().remove(i),
                Err(e) => e == Error::QuestionNotFound && final(self).questions == old(self).questions,
            },
    {
        self.questions.remove(id)
    }

    /// Stores an answer under `a.id`; never fails. The caller-facing
    /// handler generates the id freshly before insertion.
    pub fn insert_answer(&mut self, a: Answer)
        requires
            old(self).answers.wf(),
        ensures
            final(self).answers.wf(),
            answer_upsert(old(self).answers, final(self).answers, a),
            final(self).questions == old(self).questions,
    {
        self.answers.insert(a);
    }
}

/// Insert then list: after an upsert of `q`, the listing holds a record
/// equal to `q` under the key `q.id`, and wherever that key stands the
/// record is `q` — there is exactly one such entry.
pub proof fn lemma_upsert_then_list(pre: QuestionMap, post: QuestionMap, q: Question)
    requires
        pre.wf(),
        question_upsert(pre, post, q),
    ensures
        post.wf(),
        post.ids().len() == post.records().len(),
        exists|i: int|
            0 <= i < post.ids().len() && post.ids()[i] == q.id@ && post.records()[i] == q@,
        forall|i: int|
            0 <= i < post.ids().len() && post.ids()[i] == q.id@ ==> post.records()[i] == q@,
{
    pre.lemma_same_len();
    post.lemma_same_len();
    if pre.contains_id(q.id@) {
        let i = choose|i: int|
            0 <= i < pre.ids().len() && pre.ids()[i] == q.id@ && post.ids() == pre.ids()
                && post.records() == pre.records().update(i, q@);
        assert(post.ids()[i] == q.id@ && post.records()[i] == q@);
        assert forall|j: int|
            0 <= j < post.ids().len() && post.ids()[j] == q.id@ implies post.records()[j]
            == q@ by {
            if j != i {
                assert(pre.ids()[j] == pre.ids()[i]);
                assert(false);
            }
        }
    } else {
        let i = pre.ids().len() as int;
        assert(post.ids()[i] == q.id@ && post.records()[i] == q@);
        assert forall|a: int, b: int|
            0 <= a < b < post.ids().len() implies post.ids()[a] != post.ids()[b] by {
            if b == i {
                assert(pre.ids()[a] != q.id@);
            }
        }
        assert forall|j: int|
            0 <= j < post.ids().len() && post.ids()[j] == q.id@ implies post.records()[j]
            == q@ by {
            if j != i {
                assert(pre.ids()[j] == q.id@);
                assert(pre.contains_id(q.id@));
                assert(false);
            }
        }
    }
}

/// Deleting a present id removes exactly that entry: the removed id is no
/// longer present, and every other entry survives with its key and value.
pub proof fn lemma_remove_preserves_others(pre: QuestionMap, post: QuestionMap, i: int)
    requires
        pre.wf(),
        0 <= i < pre.ids().len(),
        post.ids() == pre.ids().remove(i),
        post.records() == pre.records().remove(i),
    ensures
        post.ids().len() == pre.ids().len() - 1,
        !post.contains_id(pre.ids()[i]),
        forall|j: int| 0 <= j < pre.ids().len() && j != i ==> post.contains_id(
            #[trigger] pre.ids()[j],
        ),
        forall|j: int, k: int|
            0 <= j < pre.ids().len() && j != i && 0 <= k < post.ids().len() && #[trigger] post.ids()[k]
                == #[trigger] pre.ids()[j] ==> post.records()[k] == pre.records()[j],
{
    pre.lemma_same_len();
    assert forall|k: int| 0 <= k < post.ids().len() implies post.ids()[k] != pre.ids()[i] by {
        if k < i {
            assert(post.ids()[k] == pre.ids()[k]);
        } else {
            assert(post.ids()[k] == pre.ids()[k + 1]);
        }
    }
    assert forall|j: int| 0 <= j < pre.ids().len() && j != i implies post.contains_id(
        #[trigger] pre.ids()[j],
    ) by {
        let k: int = if j < i {
            j
        } else {
            j - 1
        };
        assert(post.ids()[k] == pre.ids()[j]);
    }
    assert forall|j: int, k: int|
        0 <= j < pre.ids().len() && j != i && 0 <= k < post.ids().len() && #[trigger] post.ids()[k]
            == #[trigger] pre.ids()[j] implies post.records()[k] == pre.records()[j] by {
        let k0: int = if k < i {
            k
        } else {
            k + 1
        };
        assert(post.ids()[k] == pre.ids()[k0]);
        assert(post.records()[k] == pre.records()[k0]);
        if k0 != j {
            assert(pre.ids()[k0] == pre.ids()[j]);
            assert(false);
        }
    }
}

/// A chain of creates with pairwise-distinct ids, none present at the
/// start, grows the listing by exactly one per create: with the writes
/// serialized, no update is lost, and the final length is the
/// pre-existing length plus the number of creates.
pub proof fn lemma_distinct_creates(states: Seq<QuestionMap>, qs: Seq<Question>)
    requires
        states.len() == qs.len() + 1,
        states[0].wf(),
        forall|k: int|
            0 <= k < qs.len() ==> #[trigger] question_upsert(states[k], states[k + 1], qs[k]),
        forall|k: int| 0 <= k < qs.len() ==> !states[0].contains_id((#[trigger] qs[k]).id@),
        forall|k1: int, k2: int| 0 <= k1 < k2 < qs.len() ==> qs[k1].id@ != qs[k2].id@,
    ensures
        states[states.len() - 1].ids().len() == states[0].ids().len() + qs.len(),
    decreases qs.len(),
{
    if qs.len() > 0 {
        let k0: int = 0;
        assert(question_upsert(states[k0], states[k0 + 1], qs[k0]));
        assert(question_upsert(states[0], states[1], qs[0]));
        assert(!states[0].contains_id(qs[0].id@));
        assert(states[1].ids() == states[0].ids().push(qs[0].id@));
        assert forall|a: int, b: int|
            0 <= a < b < states[1].ids().len() implies states[1].ids()[a] != states[1].ids()[b] by {
            if b == states[1].ids().len() - 1 {
                assert(states[0].ids()[a] != qs[0].id@);
            }
        }
        let states2 = states.drop_first();
        let qs2 = qs.drop_first();
        assert(states2.len() == qs2.len() + 1);
        assert(states2[0] == states[1]);
        assert(states2[0].wf());
        assert forall|k: int|
            0 <= k < qs2.len() implies #[trigger] question_upsert(
            states2[k],
            states2[k + 1],
            qs2[k],
        ) by {
            let k1: int = k + 1;
            assert(states2[k] == states[k1]);
            assert(states2[k + 1] == states[k1 + 1]);
            assert(qs2[k] == qs[k1]);
            assert(question_upsert(states[k1], states[k1 + 1], qs[k1]));
        }
        assert forall|k: int|
            0 <= k < qs2.len() implies !states2[0].contains_id((#[trigger] qs2[k]).id@) by {
            assert(qs2[k] == qs[k + 1]);
            assert(!states[0].contains_id(qs[k + 1].id@));
            assert(qs[0].id@ != qs[k + 1].id@);
            if states[1].contains_id(qs[k + 1].id@) {
                let w = choose|w: int|
                    0 <= w < states[1].ids().len() && states[1].ids()[w] == qs[k + 1].id@;
                if w < states[0].ids().len() {
                    assert(states[0].contains_id(qs[k + 1].id@));
                } else {
                    assert(states[1].ids()[w] == qs[0].id@);
                }
                assert(false);
            }
        }
        assert forall|k1: int, k2: int|
            0 <= k1 < k2 < qs2.len() implies qs2[k1].id@ != qs2[k2].id@ by {
            assert(qs2[k1] == qs[k1 + 1]);
            assert(qs2[k2] == qs[k2 + 1]);
        }
        lemma_distinct_creates(states2, qs2);
        assert(states2[states2.len() - 1] == states[states.len() - 1]);
        assert(states[1].ids().len() == states[0].ids().len() + 1);
    }
}

} // verus!
