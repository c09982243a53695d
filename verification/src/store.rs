//! Storage model: the two tables behind the data-access operations.
//!
//! `Store` models the relational backend's visible behaviour: rows are kept
//! in insertion order, row identifiers are unique per table, and every
//! answer references an existing question (the foreign-key constraint).
//! Deleting a question also deletes its answers, as the store's cascading
//! foreign key does.

use vstd::prelude::*;

use crate::errors::DaoError;
use crate::models::{
    Answer, AnswerDetail, AnswerDetailV, AnswerId, AnswerV, Question, QuestionDetail,
    QuestionDetailV, QuestionId, QuestionV,
};

verus! {

/// Spec-level image of the whole store: the two tables.
#[verifier::ext_equal]
pub struct StoreV {
    pub questions: Seq<QuestionDetailV>,
    pub answers: Seq<AnswerDetailV>,
}

/// The storage model: two tables of rows, in insertion order.
pub struct Store {
    questions: Vec<QuestionDetail>,
    answers: Vec<AnswerDetail>,
}

/// The views of a table of question rows.
pub open spec fn question_views(qs: Seq<QuestionDetail>) -> Seq<QuestionDetailV> {
    qs.map_values(|q: QuestionDetail| q@)
}

/// The views of a table of answer rows.
pub open spec fn answer_views(s: Seq<AnswerDetail>) -> Seq<AnswerDetailV> {
    s.map_values(|a: AnswerDetail| a@)
}

impl View for Store {
    type V = StoreV;

    closed spec fn view(&self) -> StoreV {
        StoreV {
            questions: question_views(self.questions@),
            answers: answer_views(self.answers@),
        }
    }
}

/// Some question row carries this identifier.
pub open spec fn has_question(qs: Seq<QuestionDetailV>, u: Seq<char>) -> bool {
    exists|i: int| 0 <= i < qs.len() && qs[i].question_uuid == u
}

/// Some answer row carries this identifier.
pub open spec fn has_answer(s: Seq<AnswerDetailV>, u: Seq<char>) -> bool {
    exists|i: int| 0 <= i < s.len() && s[i].answer_uuid == u
}

/// No two question rows share an identifier.
pub open spec fn unique_questions(qs: Seq<QuestionDetailV>) -> bool {
    forall|i: int, j: int|
        #![trigger qs[i], qs[j]]
        0 <= i < j < qs.len() ==> qs[i].question_uuid != qs[j].question_uuid
}

/// No two answer rows share an identifier.
pub open spec fn unique_answers(s: Seq<AnswerDetailV>) -> bool {
    forall|i: int, j: int|
        #![trigger s[i], s[j]]
        0 <= i < j < s.len() ==> s[i].answer_uuid != s[j].answer_uuid
}

impl StoreV {
    /// Well-formedness: unique identifiers per table, and every answer
    /// references an existing question.
    pub open spec fn wf(self) -> bool {
        &&& unique_questions(self.questions)
        &&& unique_answers(self.answers)
        &&& forall|i: int|
            0 <= i < self.answers.len() ==> has_question(
                self.questions,
                (#[trigger] self.answers[i]).question_uuid,
            )
    }
}

/// The stored row a question payload becomes under a given identifier and
/// creation timestamp.
pub open spec fn new_question_detail(q: QuestionV, u: Seq<char>, ts: Seq<char>) -> QuestionDetailV {
    QuestionDetailV { question_uuid: u, title: q.title, description: q.description, created_at: ts }
}

/// The stored row an answer payload becomes under a given identifier and
/// creation timestamp.
pub open spec fn new_answer_detail(a: AnswerV, u: Seq<char>, ts: Seq<char>) -> AnswerDetailV {
    AnswerDetailV {
        answer_uuid: u,
        question_uuid: a.question_uuid,
        content: a.content,
        created_at: ts,
    }
}

/// Effect of a successful question insert: the new row is appended.
pub open spec fn spec_create_question(s: StoreV, q: QuestionV, u: Seq<char>, ts: Seq<char>) -> StoreV {
    StoreV { questions: s.questions.push(new_question_detail(q, u, ts)), answers: s.answers }
}

/// Effect of a successful answer insert: the new row is appended.
pub open spec fn spec_create_answer(s: StoreV, a: AnswerV, u: Seq<char>, ts: Seq<char>) -> StoreV {
    StoreV { questions: s.questions, answers: s.answers.push(new_answer_detail(a, u, ts)) }
}

/// The question table with every row carrying this identifier removed.
pub open spec fn questions_without(qs: Seq<QuestionDetailV>, u: Seq<char>) -> Seq<QuestionDetailV>
    decreases qs.len(),
{
    if qs.len() == 0 {
        Seq::empty()
    } else {
        let rest = questions_without(qs.drop_last(), u);
        if qs.last().question_uuid == u {
            rest
        } else {
            rest.push(qs.last())
        }
    }
}

/// The answer table with every row carrying this answer identifier removed.
pub open spec fn answers_without(s: Seq<AnswerDetailV>, u: Seq<char>) -> Seq<AnswerDetailV>
    decreases s.len(),
{
    if s.len() == 0 {
        Seq::empty()
    } else {
        let rest = answers_without(s.drop_last(), u);
        if s.last().answer_uuid == u {
            rest
        } else {
            rest.push(s.last())
        }
    }
}

/// The answer rows belonging to this question, in table order.
pub open spec fn answers_of_question(s: Seq<AnswerDetailV>, qu: Seq<char>) -> Seq<AnswerDetailV>
    decreases s.len(),
{
    if s.len() == 0 {
        Seq::empty()
    } else {
        let rest = answers_of_question(s.drop_last(), qu);
        if s.last().question_uuid == qu {
            rest.push(s.last())
        } else {
            rest
        }
    }
}

/// The answer rows not belonging to this question: what a cascading delete
/// of the question leaves behind.
pub open spec fn answers_not_of_question(s: Seq<AnswerDetailV>, qu: Seq<char>) -> Seq<AnswerDetailV>
    decreases s.len(),
{
    if s.len() == 0 {
        Seq::empty()
    } else {
        let rest = answers_not_of_question(s.drop_last(), qu);
        if s.last().question_uuid == qu {
            rest
        } else {
            rest.push(s.last())
        }
    }
}

/// Effect of a successful question delete: the question row goes, and its
/// answers go with it (cascading foreign key).
pub open spec fn spec_delete_question(s: StoreV, u: Seq<char>) -> StoreV {
    StoreV {
        questions: questions_without(s.questions, u),
        answers: answers_not_of_question(s.answers, u),
    }
}

/// Effect of a successful answer delete: the answer row goes.
pub open spec fn spec_delete_answer(s: StoreV, u: Seq<char>) -> StoreV {
    StoreV { questions: s.questions, answers: answers_without(s.answers, u) }
}

/// How many question rows carry this identifier.
pub open spec fn question_uuid_count(qs: Seq<QuestionDetailV>, u: Seq<char>) -> nat
    decreases qs.len(),
{
    if qs.len() == 0 {
        0
    } else {
        question_uuid_count(qs.drop_last(), u) + if qs.last().question_uuid == u {
            1nat
        } else {
            0nat
        }
    }
}

/// How many answer rows carry this identifier.
pub open spec fn answer_uuid_count(s: Seq<AnswerDetailV>, u: Seq<char>) -> nat
    decreases s.len(),
{
    if s.len() == 0 {
        0
    } else {
        answer_uuid_count(s.drop_last(), u) + if s.last().answer_uuid == u {
            1nat
        } else {
            0nat
        }
    }
}

/// What the question filter does: no kept row carries the removed
/// identifier, every kept row comes from the table, every other row is
/// kept, and the table does not grow.
pub proof fn lemma_questions_without_props(qs: Seq<QuestionDetailV>, u: Seq<char>)
    ensures
        forall|k: int|
            0 <= k < questions_without(qs, u).len() ==> (#[trigger] questions_without(qs, u)[k]).question_uuid != u,
        forall|k: int|
            0 <= k < questions_without(qs, u).len() ==> qs.contains(
                #[trigger] questions_without(qs, u)[k],
            ),
        forall|j: int|
            0 <= j < qs.len() && (#[trigger] qs[j]).question_uuid != u ==> questions_without(
                qs,
                u,
            ).contains(qs[j]),
        questions_without(qs, u).len() <= qs.len(),
    decreases qs.len(),
{
    if qs.len() == 0 {
    } else {
        let prefix = qs.drop_last();
        lemma_questions_without_props(prefix, u);
        let w = questions_without(qs, u);
        let wp = questions_without(prefix, u);
        assert forall|k: int| 0 <= k < w.len() implies qs.contains(#[trigger] w[k]) by {
            if qs.last().question_uuid != u && k == w.len() - 1 {
                assert(w[k] == qs.last());
                assert(qs[qs.len() - 1] == qs.last());
            } else {
                assert(w[k] == wp[k]);
                assert(prefix.contains(wp[k]));
                let m = choose|m: int| 0 <= m < prefix.len() && prefix[m] == wp[k];
                assert(qs[m] == wp[k]);
            }
        }
        assert forall|j: int|
            0 <= j < qs.len() && (#[trigger] qs[j]).question_uuid != u implies w.contains(
            qs[j],
        ) by {
            if j < qs.len() - 1 {
                assert(prefix[j] == qs[j]);
                assert(wp.contains(qs[j]));
                let m = choose|m: int| 0 <= m < wp.len() && wp[m] == qs[j];
                assert(w[m] == qs[j]);
            } else {
                assert(qs[j] == qs.last());
                assert(w[w.len() - 1] == qs.last());
            }
        }
    }
}

/// What the answer filter by answer identifier does.
pub proof fn lemma_answers_without_props(s: Seq<AnswerDetailV>, u: Seq<char>)
    ensures
        forall|k: int|
            0 <= k < answers_without(s, u).len() ==> (#[trigger] answers_without(s, u)[k]).answer_uuid != u,
        forall|k: int|
            0 <= k < answers_without(s, u).len() ==> s.contains(#[trigger] answers_without(s, u)[k]),
        forall|j: int|
            0 <= j < s.len() && (#[trigger] s[j]).answer_uuid != u ==> answers_without(
                s,
                u,
            ).contains(s[j]),
        answers_without(s, u).len() <= s.len(),
    decreases s.len(),
{
    if s.len() == 0 {
    } else {
        let prefix = s.drop_last();
        lemma_answers_without_props(prefix, u);
        let w = answers_without(s, u);
        let wp = answers_without(prefix, u);
        assert forall|k: int| 0 <= k < w.len() implies s.contains(#[trigger] w[k]) by {
            if s.last().answer_uuid != u && k == w.len() - 1 {
                assert(w[k] == s.last());
                assert(s[s.len() - 1] == s.last());
            } else {
                assert(w[k] == wp[k]);
                assert(prefix.contains(wp[k]));
                let m = choose|m: int| 0 <= m < prefix.len() && prefix[m] == wp[k];
                assert(s[m] == wp[k]);
            }
        }
        assert forall|j: int|
            0 <= j < s.len() && (#[trigger] s[j]).answer_uuid != u implies w.contains(s[j]) by {
            if j < s.len() - 1 {
                assert(prefix[j] == s[j]);
                assert(wp.contains(s[j]));
                let m = choose|m: int| 0 <= m < wp.len() && wp[m] == s[j];
                assert(w[m] == s[j]);
            } else {
                assert(s[j] == s.last());
                assert(w[w.len() - 1] == s.last());
            }
        }
    }
}

/// What the cascading filter does: no surviving answer belongs to the
/// deleted question, every survivor comes from the table, and every answer
/// of another question survives.
pub proof fn lemma_answers_not_of_question_props(s: Seq<AnswerDetailV>, qu: Seq<char>)
    ensures
        forall|k: int|
            0 <= k < answers_not_of_question(s, qu).len() ==> (
            #[trigger] answers_not_of_question(s, qu)[k]).question_uuid != qu,
        forall|k: int|
            0 <= k < answers_not_of_question(s, qu).len() ==> s.contains(
                #[trigger] answers_not_of_question(s, qu)[k],
            ),
        forall|j: int|
            0 <= j < s.len() && (#[trigger] s[j]).question_uuid != qu ==> answers_not_of_question(
                s,
                qu,
            ).contains(s[j]),
        answers_not_of_question(s, qu).len() <= s.len(),
    decreases s.len(),
{
    if s.len() == 0 {
    } else {
        let prefix = s.drop_last();
        lemma_answers_not_of_question_props(prefix, qu);
        let w = answers_not_of_question(s, qu);
        let wp = answers_not_of_question(prefix, qu);
        assert forall|k: int| 0 <= k < w.len() implies s.contains(#[trigger] w[k]) by {
            if s.last().question_uuid != qu && k == w.len() - 1 {
                assert(w[k] == s.last());
                assert(s[s.len() - 1] == s.last());
            } else {
                assert(w[k] == wp[k]);
                assert(prefix.contains(wp[k]));
                let m = choose|m: int| 0 <= m < prefix.len() && prefix[m] == wp[k];
                assert(s[m] == wp[k]);
            }
        }
        assert forall|j: int|
            0 <= j < s.len() && (#[trigger] s[j]).question_uuid != qu implies w.contains(
            s[j],
        ) by {
            if j < s.len() - 1 {
                assert(prefix[j] == s[j]);
                assert(wp.contains(s[j]));
                let m = choose|m: int| 0 <= m < wp.len() && wp[m] == s[j];
                assert(w[m] == s[j]);
            } else {
                assert(s[j] == s.last());
                assert(w[w.len() - 1] == s.last());
            }
        }
    }
}

/// What the selection by question does: every selected answer belongs to
/// the question, comes from the table, and every answer of the question is
/// selected.
pub proof fn lemma_answers_of_question_props(s: Seq<AnswerDetailV>, qu: Seq<char>)
    ensures
        forall|k: int|
            0 <= k < answers_of_question(s, qu).len() ==> (
            #[trigger] answers_of_question(s, qu)[k]).question_uuid == qu,
        forall|k: int|
            0 <= k < answers_of_question(s, qu).len() ==> s.contains(
                #[trigger] answers_of_question(s, qu)[k],
            ),
        forall|j: int|
            0 <= j < s.len() && (#[trigger] s[j]).question_uuid == qu ==> answers_of_question(
                s,
                qu,
            ).contains(s[j]),
        answers_of_question(s, qu).len() <= s.len(),
    decreases s.len(),
{
    if s.len() == 0 {
    } else {
        let prefix = s.drop_last();
        lemma_answers_of_question_props(prefix, qu);
        let w = answers_of_question(s, qu);
        let wp = answers_of_question(prefix, qu);
        assert forall|k: int| 0 <= k < w.len() implies s.contains(#[trigger] w[k]) by {
            if s.last().question_uuid == qu && k == w.len() - 1 {
                assert(w[k] == s.last());
                assert(s[s.len() - 1] == s.last());
            } else {
                assert(w[k] == wp[k]);
                assert(prefix.contains(wp[k]));
                let m = choose|m: int| 0 <= m < prefix.len() && prefix[m] == wp[k];
                assert(s[m] == wp[k]);
            }
        }
        assert forall|j: int|
            0 <= j < s.len() && (#[trigger] s[j]).question_uuid == qu implies w.contains(
            s[j],
        ) by {
            if j < s.len() - 1 {
                assert(prefix[j] == s[j]);
                assert(wp.contains(s[j]));
                let m = choose|m: int| 0 <= m < wp.len() && wp[m] == s[j];
                assert(w[m] == s[j]);
            } else {
                assert(s[j] == s.last());
                assert(w[w.len() - 1] == s.last());
            }
        }
    }
}

/// Removing rows keeps question identifiers unique.
pub proof fn lemma_questions_without_unique(qs: Seq<QuestionDetailV>, u: Seq<char>)
    requires
        unique_questions(qs),
    ensures
        unique_questions(questions_without(qs, u)),
    decreases qs.len(),
{
    if qs.len() == 0 {
    } else {
        let prefix = qs.drop_last();
        assert(unique_questions(prefix)) by {
            assert forall|i: int, j: int|
                #![trigger prefix[i], prefix[j]]
                0 <= i < j < prefix.len() implies prefix[i].question_uuid
                != prefix[j].question_uuid by {
                assert(prefix[i] == qs[i]);
                assert(prefix[j] == qs[j]);
            }
        }
        lemma_questions_without_unique(prefix, u);
        lemma_questions_without_props(prefix, u);
        let w = questions_without(qs, u);
        let wp = questions_without(prefix, u);
        if qs.last().question_uuid == u {
            assert(w == wp);
        } else {
            assert(w == wp.push(qs.last()));
            assert forall|i: int, j: int|
                #![trigger w[i], w[j]]
                0 <= i < j < w.len() implies w[i].question_uuid != w[j].question_uuid by {
                if j < w.len() - 1 {
                    assert(w[i] == wp[i]);
                    assert(w[j] == wp[j]);
                } else {
                    assert(w[j] == qs.last());
                    assert(w[i] == wp[i]);
                    assert(prefix.contains(wp[i]));
                    let m = choose|m: int| 0 <= m < prefix.len() && prefix[m] == wp[i];
                    assert(qs[m] == prefix[m]);
                    assert(qs[m].question_uuid != qs[qs.len() - 1].question_uuid);
                }
            }
        }
    }
}

/// Removing rows keeps answer identifiers unique.
pub proof fn lemma_answers_without_unique(s: Seq<AnswerDetailV>, u: Seq<char>)
    requires
        unique_answers(s),
    ensures
        unique_answers(answers_without(s, u)),
    decreases s.len(),
{
    if s.len() == 0 {
    } else {
        let prefix = s.drop_last();
        assert(unique_answers(prefix)) by {
            assert forall|i: int, j: int|
                #![trigger prefix[i], prefix[j]]
                0 <= i < j < prefix.len() implies prefix[i].answer_uuid
                != prefix[j].answer_uuid by {
                assert(prefix[i] == s[i]);
                assert(prefix[j] == s[j]);
            }
        }
        lemma_answers_without_unique(prefix, u);
        lemma_answers_without_props(prefix, u);
        let w = answers_without(s, u);
        let wp = answers_without(prefix, u);
        if s.last().answer_uuid == u {
            assert(w == wp);
        } else {
            assert(w == wp.push(s.last()));
            assert forall|i: int, j: int|
                #![trigger w[i], w[j]]
                0 <= i < j < w.len() implies w[i].answer_uuid != w[j].answer_uuid by {
                if j < w.len() - 1 {
                    assert(w[i] == wp[i]);
                    assert(w[j] == wp[j]);
                } else {
                    assert(w[j] == s.last());
                    assert(w[i] == wp[i]);
                    assert(prefix.contains(wp[i]));
                    let m = choose|m: int| 0 <= m < prefix.len() && prefix[m] == wp[i];
                    assert(s[m] == prefix[m]);
                    assert(s[m].answer_uuid != s[s.len() - 1].answer_uuid);
                }
            }
        }
    }
}

/// The cascading filter keeps answer identifiers unique.
pub proof fn lemma_answers_not_of_question_unique(s: Seq<AnswerDetailV>, qu: Seq<char>)
    requires
        unique_answers(s),
    ensures
        unique_answers(answers_not_of_question(s, qu)),
    decreases s.len(),
{
    if s.len() == 0 {
    } else {
        let prefix = s.drop_last();
        assert(unique_answers(prefix)) by {
            assert forall|i: int, j: int|
                #![trigger prefix[i], prefix[j]]
                0 <= i < j < prefix.len() implies prefix[i].answer_uuid
                != prefix[j].answer_uuid by {
                assert(prefix[i] == s[i]);
                assert(prefix[j] == s[j]);
            }
        }
        lemma_answers_not_of_question_unique(prefix, qu);
        lemma_answers_not_of_question_props(prefix, qu);
        let w = answers_not_of_question(s, qu);
        let wp = answers_not_of_question(prefix, qu);
        if s.last().question_uuid == qu {
            assert(w == wp);
        } else {
            assert(w == wp.push(s.last()));
            assert forall|i: int, j: int|
                #![trigger w[i], w[j]]
                0 <= i < j < w.len() implies w[i].answer_uuid != w[j].answer_uuid by {
                if j < w.len() - 1 {
                    assert(w[i] == wp[i]);
                    assert(w[j] == wp[j]);
                } else {
                    assert(w[j] == s.last());
                    assert(w[i] == wp[i]);
                    assert(prefix.contains(wp[i]));
                    let m = choose|m: int| 0 <= m < prefix.len() && prefix[m] == wp[i];
                    assert(s[m] == prefix[m]);
                    assert(s[m].answer_uuid != s[s.len() - 1].answer_uuid);
                }
            }
        }
    }
}

/// A question identifier is counted zero times exactly when no row carries
/// it.
pub proof fn lemma_question_count_zero(qs: Seq<QuestionDetailV>, u: Seq<char>)
    ensures
        (question_uuid_count(qs, u) == 0) <==> !has_question(qs, u),
    decreases qs.len(),
{
    if qs.len() == 0 {
    } else {
        let prefix = qs.drop_last();
        lemma_question_count_zero(prefix, u);
        if has_question(prefix, u) {
            let k = choose|k: int| 0 <= k < prefix.len() && prefix[k].question_uuid == u;
            assert(qs[k] == prefix[k]);
            assert(has_question(qs, u));
        } else if qs.last().question_uuid == u {
            assert(qs[qs.len() - 1] == qs.last());
            assert(has_question(qs, u));
        } else {
            assert forall|k: int| 0 <= k < qs.len() implies (#[trigger] qs[k]).question_uuid
                != u by {
                if k < qs.len() - 1 {
                    assert(qs[k] == prefix[k]);
                    assert(!has_question(prefix, u));
                }
            }
        }
    }
}

/// An answer identifier is counted zero times exactly when no row carries
/// it.
pub proof fn lemma_answer_count_zero(s: Seq<AnswerDetailV>, u: Seq<char>)
    ensures
        (answer_uuid_count(s, u) == 0) <==> !has_answer(s, u),
    decreases s.len(),
{
    if s.len() == 0 {
    } else {
        let prefix = s.drop_last();
        lemma_answer_count_zero(prefix, u);
        if has_answer(prefix, u) {
            let k = choose|k: int| 0 <= k < prefix.len() && prefix[k].answer_uuid == u;
            assert(s[k] == prefix[k]);
            assert(has_answer(s, u));
        } else if s.last().answer_uuid == u {
            assert(s[s.len() - 1] == s.last());
            assert(has_answer(s, u));
        } else {
            assert forall|k: int| 0 <= k < s.len() implies (#[trigger] s[k]).answer_uuid != u by {
                if k < s.len() - 1 {
                    assert(s[k] == prefix[k]);
                    assert(!has_answer(prefix, u));
                }
            }
        }
    }
}

impl Store {
    /// An empty store.
    pub fn new() -> (r: Store)
        ensures
            r@ == (StoreV { questions: Seq::<QuestionDetailV>::empty(), answers: Seq::<AnswerDetailV>::empty() }),
            r@.wf(),
    {
        let r = Store { questions: Vec::new(), answers: Vec::new() };
        proof {
            assert(r@.questions =~= Seq::<QuestionDetailV>::empty());
            assert(r@.answers =~= Seq::<AnswerDetailV>::empty());
            assert(r@ =~= (StoreV {
                questions: Seq::<QuestionDetailV>::empty(),
                answers: Seq::<AnswerDetailV>::empty(),
            }));
        }
        r
    }

    /// Position of the question row with this identifier, if any.
    fn find_question(&self, u: &String) -> (r: Option<usize>)
        ensures
            (match r {
                Some(i) => 0 <= i < self@.questions.len() && self@.questions[i as int].question_uuid
                    == u@,
                None => !has_question(self@.questions, u@),
            }),
    {
        let mut i: usize = 0;
        while i < self.questions.len()
            invariant
                i <= self.questions.len(),
                forall|k: int|
                    0 <= k < i ==> (#[trigger] self@.questions[k]).question_uuid != u@,
            decreases self.questions.len() - i,
        {
            if self.questions[i].question_uuid == *u {
                proof {
                    assert(self@.questions[i as int].question_uuid == u@);
                }
                return Some(i);
            }
            i += 1;
        }
        proof {
            assert(!has_question(self@.questions, u@));
        }
        None
    }

    /// Position of the answer row with this identifier, if any.
    fn find_answer(&self, u: &String) -> (r: Option<usize>)
        ensures
            (match r {
                Some(i) => 0 <= i < self@.answers.len() && self@.answers[i as int].answer_uuid
                    == u@,
                None => !has_answer(self@.answers, u@),
            }),
    {
        let mut i: usize = 0;
        while i < self.answers.len()
            invariant
                i <= self.answers.len(),
                forall|k: int| 0 <= k < i ==> (#[trigger] self@.answers[k]).answer_uuid != u@,
            decreases self.answers.len() - i,
        {
            if self.answers[i].answer_uuid == *u {
                proof {
                    assert(self@.answers[i as int].answer_uuid == u@);
                }
                return Some(i);
            }
            i += 1;
        }
        proof {
            assert(!has_answer(self@.answers, u@));
        }
        None
    }

    /// Inserts a new question row under this server-assigned identifier and
    /// creation timestamp. An identifier already present is rejected, as the
    /// store's unique-key constraint rejects it.
    pub fn create_question(
        &mut self,
        question: Question,
        question_uuid: String,
        created_at: String,
    ) -> (r: Result<QuestionDetail, DaoError>)
        requires
            old(self)@.wf(),
        ensures
            final(self)@.wf(),
            !has_question(old(self)@.questions, question_uuid@) ==> {
                &&& final(self)@ == spec_create_question(
                    old(self)@,
                    question@,
                    question_uuid@,
                    created_at@,
                )
                &&& (r matches Ok(d) && d@ == new_question_detail(
                    question@,
                    question_uuid@,
                    created_at@,
                ))
            },
            has_question(old(self)@.questions, question_uuid@) ==> {
                &&& final(self)@ == old(self)@
                &&& (r matches Err(e) && e matches DaoError::Storage(m) && m@
                    == "question uuid already exists"@)
            },
    {
        match self.find_question(&question_uuid) {
            Some(_) => Err(DaoError::Storage("question uuid already exists".to_owned())),
            None => {
                let d = QuestionDetail {
                    question_uuid,
                    title: question.title,
                    description: question.description,
                    created_at,
                };
                let out = d.clone();
                let ghost prev = self@;
                let ghost dv = d@;
                self.questions.push(d);
                proof {
                    assert(self@.questions =~= prev.questions.push(dv));
                    assert(self@.answers =~= prev.answers);
                    assert(self@ =~= StoreV { questions: prev.questions.push(dv), answers: prev.answers });
                    assert forall|i: int, j: int|
                        #![trigger self@.questions[i], self@.questions[j]]
                        0 <= i < j < self@.questions.len() implies self@.questions[i].question_uuid
                        != self@.questions[j].question_uuid by {
                        if j < prev.questions.len() as int {
                            assert(prev.questions[i].question_uuid != prev.questions[j].question_uuid);
                        } else {
                            assert(self@.questions[j] == dv);
                            assert(self@.questions[i] == prev.questions[i]);
                        }
                    }
                    assert forall|i: int|
                        0 <= i < self@.answers.len() implies has_question(
                        self@.questions,
                        (#[trigger] self@.answers[i]).question_uuid,
                    ) by {
                        assert(self@.answers[i] == prev.answers[i]);
                        let w = self@.answers[i].question_uuid;
                        assert(has_question(prev.questions, w));
                        let k = choose|k: int|
                            0 <= k < prev.questions.len() && prev.questions[k].question_uuid == w;
                        assert(self@.questions[k] == prev.questions[k]);
                    }
                }
                Ok(out)
            },
        }
    }

    /// Returns every stored question row, in table order. An empty table is
    /// a success with an empty sequence, never an error.
    pub fn read_questions(&self) -> (r: Vec<QuestionDetail>)
        ensures
            question_views(r@) == self@.questions,
    {
        let mut out: Vec<QuestionDetail> = Vec::new();
        let mut i: usize = 0;
        while i < self.questions.len()
            invariant
                i <= self.questions.len(),
                question_views(out@) =~= self@.questions.take(i as int),
            decreases self.questions.len() - i,
        {
            let ghost prev = out@;
            out.push(self.questions[i].clone());
            proof {
                assert(question_views(out@) =~= question_views(prev).push(
                    self@.questions[i as int],
                ));
                assert(self@.questions.take(i as int + 1) =~= self@.questions.take(
                    i as int,
                ).push(self@.questions[i as int]));
            }
            i += 1;
        }
        proof {
            assert(self@.questions.take(self.questions@.len() as int) =~= self@.questions);
            assert(question_views(out@) == self@.questions);
        }
        out
    }

    /// Deletes the question row with this identifier, and with it every
    /// answer of the question, as the store's cascading foreign key does.
    /// When no row carries the identifier, nothing is deleted and the store
    /// reports a failure.
    pub fn delete_question(&mut self, question_uuid: &QuestionId) -> (r: Result<(), DaoError>)
        requires
            old(self)@.wf(),
        ensures
            final(self)@.wf(),
            has_question(old(self)@.questions, question_uuid@) ==> {
                &&& final(self)@ == spec_delete_question(old(self)@, question_uuid@)
                &&& !has_question(final(self)@.questions, question_uuid@)
                &&& (r matches Ok(k) && k == ())
            },
            !has_question(old(self)@.questions, question_uuid@) ==> {
                &&& final(self)@ == old(self)@
                &&& (r matches Err(e) && e matches DaoError::Storage(m) && m@
                    == "question not found"@)
            },
    {
        match self.find_question(&question_uuid.question_uuid) {
            None => Err(DaoError::Storage("question not found".to_owned())),
            Some(_) => {
                let ghost prev = self@;
                let u = &question_uuid.question_uuid;
                let mut kept_q: Vec<QuestionDetail> = Vec::new();
                let mut i: usize = 0;
                while i < self.questions.len()
                    invariant
                        i <= self.questions.len(),
                        question_views(kept_q@) =~= questions_without(
                            self@.questions.take(i as int),
                            u@,
                        ),
                        u@ == question_uuid@,
                    decreases self.questions.len() - i,
                {
                    let ghost t = self@.questions.take(i as int + 1);
                    proof {
                        assert(t.drop_last() =~= self@.questions.take(i as int));
                        assert(t.last() == self@.questions[i as int]);
                    }
                    if self.questions[i].question_uuid == *u {
                        proof {
                            assert(questions_without(t, u@) == questions_without(
                                self@.questions.take(i as int),
                                u@,
                            ));
                        }
                    } else {
                        let ghost prev_kept = kept_q@;
                        kept_q.push(self.questions[i].clone());
                        proof {
                            assert(question_views(kept_q@) =~= question_views(prev_kept).push(
                                self@.questions[i as int],
                            ));
                            assert(questions_without(t, u@) == questions_without(
                                self@.questions.take(i as int),
                                u@,
                            ).push(self@.questions[i as int]));
                        }
                    }
                    i += 1;
                }
                proof {
                    assert(self@.questions.take(self.questions@.len() as int) =~= self@.questions);
                }
                let mut kept_a: Vec<AnswerDetail> = Vec::new();
                let mut j: usize = 0;
                while j < self.answers.len()
                    invariant
                        j <= self.answers.len(),
                        answer_views(kept_a@) =~= answers_not_of_question(
                            self@.answers.take(j as int),
                            u@,
                        ),
                        u@ == question_uuid@,
                    decreases self.answers.len() - j,
                {
                    let ghost t = self@.answers.take(j as int + 1);
                    proof {
                        assert(t.drop_last() =~= self@.answers.take(j as int));
                        assert(t.last() == self@.answers[j as int]);
                    }
                    if self.answers[j].question_uuid == *u {
                        proof {
                            assert(answers_not_of_question(t, u@) == answers_not_of_question(
                                self@.answers.take(j as int),
                                u@,
                            ));
                        }
                    } else {
                        let ghost prev_kept = kept_a@;
                        kept_a.push(self.answers[j].clone());
                        proof {
                            assert(answer_views(kept_a@) =~= answer_views(prev_kept).push(
                                self@.answers[j as int],
                            ));
                            assert(answers_not_of_question(t, u@) == answers_not_of_question(
                                self@.answers.take(j as int),
                                u@,
                            ).push(self@.answers[j as int]));
                        }
                    }
                    j += 1;
                }
                proof {
                    assert(self@.answers.take(self.answers@.len() as int) =~= self@.answers);
                }
                self.questions = kept_q;
                self.answers = kept_a;
                proof {
                    assert(self@.questions == questions_without(prev.questions, u@));
                    assert(self@.answers == answers_not_of_question(prev.answers, u@));
                    assert(self@ =~= spec_delete_question(prev, u@));
                    lemma_questions_without_props(prev.questions, u@);
                    lemma_answers_not_of_question_props(prev.answers, u@);
                    lemma_questions_without_unique(prev.questions, u@);
                    lemma_answers_not_of_question_unique(prev.answers, u@);
                    assert(!has_question(self@.questions, u@));
                    assert forall|k: int|
                        0 <= k < self@.answers.len() implies has_question(
                        self@.questions,
                        (#[trigger] self@.answers[k]).question_uuid,
                    ) by {
                        let a = self@.answers[k];
                        assert(prev.answers.contains(a));
                        let m = choose|m: int| 0 <= m < prev.answers.len() && prev.answers[m] == a;
                        assert(has_question(prev.questions, a.question_uuid));
                        let n = choose|n: int|
                            0 <= n < prev.questions.len() && prev.questions[n].question_uuid
                                == a.question_uuid;
                        assert(a.question_uuid != u@);
                        assert(questions_without(prev.questions, u@).contains(prev.questions[n]));
                    }
                }
                Ok(())
            },
        }
    }

    /// Inserts a new answer row under this server-assigned identifier and
    /// creation timestamp. A reference to an unknown question is rejected,
    /// as the store's foreign-key constraint rejects it, and an identifier
    /// already present is rejected, as the unique-key constraint does.
    pub fn create_answer(
        &mut self,
        answer: Answer,
        answer_uuid: String,
        created_at: String,
    ) -> (r: Result<AnswerDetail, DaoError>)
        requires
            old(self)@.wf(),
        ensures
            final(self)@.wf(),
            has_question(old(self)@.questions, answer@.question_uuid) && !has_answer(
                old(self)@.answers,
                answer_uuid@,
            ) ==> {
                &&& final(self)@ == spec_create_answer(
                    old(self)@,
                    answer@,
                    answer_uuid@,
                    created_at@,
                )
                &&& (r matches Ok(d) && d@ == new_answer_detail(
                    answer@,
                    answer_uuid@,
                    created_at@,
                ))
            },
            !has_question(old(self)@.questions, answer@.question_uuid) ==> {
                &&& final(self)@ == old(self)@
                &&& (r matches Err(e) && e matches DaoError::Storage(m) && m@
                    == "unknown question uuid"@)
            },
            has_question(old(self)@.questions, answer@.question_uuid) && has_answer(
                old(self)@.answers,
                answer_uuid@,
            ) ==> {
                &&& final(self)@ == old(self)@
                &&& (r matches Err(e) && e matches DaoError::Storage(m) && m@
                    == "answer uuid already exists"@)
            },
    {
        match self.find_question(&answer.question_uuid) {
            None => Err(DaoError::Storage("unknown question uuid".to_owned())),
            Some(_) => {
                match self.find_answer(&answer_uuid) {
                    Some(_) => Err(DaoError::Storage("answer uuid already exists".to_owned())),
                    None => {
                        let d = AnswerDetail {
                            answer_uuid,
                            question_uuid: answer.question_uuid,
                            content: answer.content,
                            created_at,
                        };
                        let out = d.clone();
                        let ghost prev = self@;
                        let ghost dv = d@;
                        self.answers.push(d);
                        proof {
                            assert(self@.answers =~= prev.answers.push(dv));
                            assert(self@.questions =~= prev.questions);
                            assert(self@ =~= StoreV {
                                questions: prev.questions,
                                answers: prev.answers.push(dv),
                            });
                            assert forall|i: int, j: int|
                                #![trigger self@.answers[i], self@.answers[j]]
                                0 <= i < j < self@.answers.len() implies self@.answers[i].answer_uuid
                                != self@.answers[j].answer_uuid by {
                                if j < prev.answers.len() as int {
                                    assert(prev.answers[i].answer_uuid
                                        != prev.answers[j].answer_uuid);
                                } else {
                                    assert(self@.answers[j] == dv);
                                    assert(self@.answers[i] == prev.answers[i]);
                                }
                            }
                            assert forall|i: int|
                                0 <= i < self@.answers.len() implies has_question(
                                self@.questions,
                                (#[trigger] self@.answers[i]).question_uuid,
                            ) by {
                                if i < prev.answers.len() as int {
                                    assert(self@.answers[i] == prev.answers[i]);
                                    assert(has_question(
                                        prev.questions,
                                        prev.answers[i].question_uuid,
                                    ));
                                } else {
                                    assert(self@.answers[i] == dv);
                                }
                            }
                        }
                        Ok(out)
                    },
                }
            },
        }
    }

    /// Returns every stored answer row of this question, in table order. An
    /// empty result is a success with an empty sequence, never an error.
    pub fn read_answers(&self, question_uuid: &QuestionId) -> (r: Vec<AnswerDetail>)
        ensures
            answer_views(r@) == answers_of_question(self@.answers, question_uuid@),
    {
        let u = &question_uuid.question_uuid;
        let mut out: Vec<AnswerDetail> = Vec::new();
        let mut i: usize = 0;
        while i < self.answers.len()
            invariant
                i <= self.answers.len(),
                answer_views(out@) =~= answers_of_question(self@.answers.take(i as int), u@),
                u@ == question_uuid@,
            decreases self.answers.len() - i,
        {
            let ghost t = self@.answers.take(i as int + 1);
            proof {
                assert(t.drop_last() =~= self@.answers.take(i as int));
                assert(t.last() == self@.answers[i as int]);
            }
            if self.answers[i].question_uuid == *u {
                let ghost prev_out = out@;
                out.push(self.answers[i].clone());
                proof {
                    assert(answer_views(out@) =~= answer_views(prev_out).push(
                        self@.answers[i as int],
                    ));
                    assert(answers_of_question(t, u@) == answers_of_question(
                        self@.answers.take(i as int),
                        u@,
                    ).push(self@.answers[i as int]));
                }
            } else {
                proof {
                    assert(answers_of_question(t, u@) == answers_of_question(
                        self@.answers.take(i as int),
                        u@,
                    ));
                }
            }
            i += 1;
        }
        proof {
            assert(self@.answers.take(self.answers@.len() as int) =~= self@.answers);
            assert(answer_views(out@) == answers_of_question(self@.answers, question_uuid@));
        }
        out
    }

    /// Deletes the answer row with this identifier. When no row carries it,
    /// nothing is deleted and the store reports a failure.
    pub fn delete_answer(&mut self, answer_uuid: &AnswerId) -> (r: Result<(), DaoError>)
        requires
            old(self)@.wf(),
        ensures
            final(self)@.wf(),
            has_answer(old(self)@.answers, answer_uuid@) ==> {
                &&& final(self)@ == spec_delete_answer(old(self)@, answer_uuid@)
                &&& !has_answer(final(self)@.answers, answer_uuid@)
                &&& (r matches Ok(k) && k == ())
            },
            !has_answer(old(self)@.answers, answer_uuid@) ==> {
                &&& final(self)@ == old(self)@
                &&& (r matches Err(e) && e matches DaoError::Storage(m) && m@
                    == "answer not found"@)
            },
    {
        match self.find_answer(&answer_uuid.answer_uuid) {
            None => Err(DaoError::Storage("answer not found".to_owned())),
            Some(_) => {
                let ghost prev = self@;
                let u = &answer_uuid.answer_uuid;
                let mut kept: Vec<AnswerDetail> = Vec::new();
                let mut i: usize = 0;
                while i < self.answers.len()
                    invariant
                        i <= self.answers.len(),
                        answer_views(kept@) =~= answers_without(self@.answers.take(i as int), u@),
                        u@ == answer_uuid@,
                    decreases self.answers.len() - i,
                {
                    let ghost t = self@.answers.take(i as int + 1);
                    proof {
                        assert(t.drop_last() =~= self@.answers.take(i as int));
                        assert(t.last() == self@.answers[i as int]);
                    }
                    if self.answers[i].answer_uuid == *u {
                        proof {
                            assert(answers_without(t, u@) == answers_without(
                                self@.answers.take(i as int),
                                u@,
                            ));
                        }
                    } else {
                        let ghost prev_kept = kept@;
                        kept.push(self.answers[i].clone());
                        proof {
                            assert(answer_views(kept@) =~= answer_views(prev_kept).push(
                                self@.answers[i as int],
                            ));
                            assert(answers_without(t, u@) == answers_without(
                                self@.answers.take(i as int),
                                u@,
                            ).push(self@.answers[i as int]));
                        }
                    }
                    i += 1;
                }
                proof {
                    assert(self@.answers.take(self.answers@.len() as int) =~= self@.answers);
                }
                self.answers = kept;
                proof {
                    assert(self@.answers == answers_without(prev.answers, u@));
                    assert(self@.questions == prev.questions);
                    assert(self@ =~= spec_delete_answer(prev, u@));
                    lemma_answers_without_props(prev.answers, u@);
                    lemma_answers_without_unique(prev.answers, u@);
                    assert(!has_answer(self@.answers, u@));
                    assert forall|k: int|
                        0 <= k < self@.answers.len() implies has_question(
                        self@.questions,
                        (#[trigger] self@.answers[k]).question_uuid,
                    ) by {
                        let a = self@.answers[k];
                        assert(prev.answers.contains(a));
                        let m = choose|m: int| 0 <= m < prev.answers.len() && prev.answers[m] == a;
                        assert(has_question(prev.questions, a.question_uuid));
                    }
                }
                Ok(())
            },
        }
    }
}

} // verus!
