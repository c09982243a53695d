//! Laws: properties that relate several storage operations, stated over
//! the spec-level transitions that the operations' contracts use, and
//! proved once and for all.
//!
//! A read returns exactly the table its contract names (`read_questions`
//! returns `questions`, `read_answers` returns `answers_of_question`), so
//! a law about a table is a law about what a subsequent read returns.

use vstd::prelude::*;

use crate::models::{AnswerDetailV, AnswerV, QuestionDetailV, QuestionV};
use crate::store::{
    answer_uuid_count, answers_of_question, answers_without, has_answer, has_question,
    lemma_answer_count_zero, lemma_answers_not_of_question_props, lemma_answers_of_question_props,
    lemma_answers_without_props, lemma_question_count_zero, lemma_questions_without_props,
    new_answer_detail, new_question_detail, question_uuid_count, spec_create_answer,
    spec_create_question, spec_delete_answer, spec_delete_question, StoreV,
};

verus! {

/// Law: creating a question under a fresh, non-empty, server-assigned
/// identifier makes it appear in a subsequent read of all questions
/// exactly once, as the last row, with its payload and identifier intact.
pub proof fn law_create_question_read_once(s: StoreV, q: QuestionV, u: Seq<char>, ts: Seq<char>)
    requires
        s.wf(),
        u.len() > 0,
        !has_question(s.questions, u),
    ensures
        ({
            let s2 = spec_create_question(s, q, u, ts);
            &&& question_uuid_count(s2.questions, u) == 1
            &&& s2.questions.last() == new_question_detail(q, u, ts)
            &&& s2.questions.last().question_uuid.len() > 0
        }),
{
    let s2 = spec_create_question(s, q, u, ts);
    let qs2 = s2.questions;
    lemma_question_count_zero(s.questions, u);
    assert(qs2.drop_last() =~= s.questions);
    assert(qs2.last() == new_question_detail(q, u, ts));
    assert(question_uuid_count(qs2, u) == question_uuid_count(s.questions, u) + 1);
}

/// Law: creating an answer to a stored question under a fresh, non-empty,
/// server-assigned identifier makes it appear in a subsequent read of that
/// question's answers exactly once, as the last row, with its payload and
/// identifier intact.
pub proof fn law_create_answer_read_once(s: StoreV, a: AnswerV, u: Seq<char>, ts: Seq<char>)
    requires
        s.wf(),
        u.len() > 0,
        has_question(s.questions, a.question_uuid),
        !has_answer(s.answers, u),
    ensures
        ({
            let s2 = spec_create_answer(s, a, u, ts);
            let mine = answers_of_question(s2.answers, a.question_uuid);
            &&& answer_uuid_count(mine, u) == 1
            &&& mine.last() == new_answer_detail(a, u, ts)
            &&& mine.last().answer_uuid.len() > 0
        }),
{
    let s2 = spec_create_answer(s, a, u, ts);
    let ad = new_answer_detail(a, u, ts);
    assert(s2.answers.drop_last() =~= s.answers);
    assert(s2.answers.last() == ad);
    let mine0 = answers_of_question(s.answers, a.question_uuid);
    assert(answers_of_question(s2.answers, a.question_uuid) == mine0.push(ad));
    lemma_answers_of_question_props(s.answers, a.question_uuid);
    assert forall|k: int| 0 <= k < mine0.len() implies (#[trigger] mine0[k]).answer_uuid != u by {
        assert(s.answers.contains(mine0[k]));
        let m = choose|m: int| 0 <= m < s.answers.len() && s.answers[m] == mine0[k];
        assert(s.answers[m].answer_uuid != u);
    }
    assert(!has_answer(mine0, u));
    lemma_answer_count_zero(mine0, u);
    let mine = mine0.push(ad);
    assert(mine.drop_last() =~= mine0);
    assert(answer_uuid_count(mine, u) == answer_uuid_count(mine0, u) + 1);
}

/// Law: deleting a question removes its identifier — no subsequent read of
/// all questions includes it, and a read of its answers is empty — while
/// every question with another identifier survives.
pub proof fn law_delete_question_removes(s: StoreV, u: Seq<char>)
    ensures
        ({
            let s2 = spec_delete_question(s, u);
            &&& !has_question(s2.questions, u)
            &&& answers_of_question(s2.answers, u) == Seq::<AnswerDetailV>::empty()
            &&& forall|j: int|
                0 <= j < s.questions.len() && (#[trigger] s.questions[j]).question_uuid != u
                    ==> s2.questions.contains(s.questions[j])
        }),
{
    let s2 = spec_delete_question(s, u);
    lemma_questions_without_props(s.questions, u);
    lemma_answers_not_of_question_props(s.answers, u);
    assert(!has_question(s2.questions, u));
    lemma_answers_of_question_props(s2.answers, u);
    let sel = answers_of_question(s2.answers, u);
    if sel.len() > 0 {
        assert(sel[0].question_uuid == u);
        assert(s2.answers.contains(sel[0]));
        let m = choose|m: int| 0 <= m < s2.answers.len() && s2.answers[m] == sel[0];
        assert(s2.answers[m].question_uuid != u);
    }
    assert(sel =~= Seq::<AnswerDetailV>::empty());
}

/// Law: deleting an answer removes its identifier — no subsequent read of
/// its question's answers includes it — while every answer with another
/// identifier survives.
pub proof fn law_delete_answer_removes(s: StoreV, u: Seq<char>)
    ensures
        ({
            let s2 = spec_delete_answer(s, u);
            &&& !has_answer(s2.answers, u)
            &&& forall|j: int|
                0 <= j < s.answers.len() && (#[trigger] s.answers[j]).answer_uuid != u
                    ==> s2.answers.contains(s.answers[j])
        }),
{
    lemma_answers_without_props(s.answers, u);
    assert(!has_answer(answers_without(s.answers, u), u));
}

/// A batch of question creates, run one after another in any chosen order:
/// each row in turn is inserted under its server-assigned identifier and
/// timestamp.
pub open spec fn create_questions_batch(s: StoreV, ds: Seq<QuestionDetailV>) -> StoreV
    decreases ds.len(),
{
    if ds.len() == 0 {
        s
    } else {
        let before = create_questions_batch(s, ds.drop_last());
        StoreV { questions: before.questions.push(ds.last()), answers: before.answers }
    }
}

/// A batch of creates appends exactly its rows, in order.
pub proof fn lemma_create_questions_batch(s: StoreV, ds: Seq<QuestionDetailV>)
    ensures
        create_questions_batch(s, ds).questions == s.questions + ds,
        create_questions_batch(s, ds).answers == s.answers,
    decreases ds.len(),
{
    if ds.len() == 0 {
        assert(create_questions_batch(s, ds).questions =~= s.questions + ds);
    } else {
        lemma_create_questions_batch(s, ds.drop_last());
        assert(create_questions_batch(s, ds).questions =~= s.questions + ds);
    }
}

/// Counting a question identifier distributes over appending tables.
pub proof fn lemma_question_count_concat(a: Seq<QuestionDetailV>, b: Seq<QuestionDetailV>, u: Seq<char>)
    ensures
        question_uuid_count(a + b, u) == question_uuid_count(a, u) + question_uuid_count(b, u),
    decreases b.len(),
{
    if b.len() == 0 {
        assert(a + b =~= a);
    } else {
        lemma_question_count_concat(a, b.drop_last(), u);
        assert((a + b).drop_last() =~= a + b.drop_last());
        assert((a + b).last() == b.last());
    }
}

/// In a table of pairwise distinct identifiers, each row's identifier is
/// counted exactly once.
pub proof fn lemma_question_count_distinct(ds: Seq<QuestionDetailV>, i: int)
    requires
        forall|k: int, l: int|
            #![trigger ds[k], ds[l]]
            0 <= k < l < ds.len() ==> ds[k].question_uuid != ds[l].question_uuid,
        0 <= i < ds.len(),
    ensures
        question_uuid_count(ds, ds[i].question_uuid) == 1,
    decreases ds.len(),
{
    let u = ds[i].question_uuid;
    let prefix = ds.drop_last();
    if i < ds.len() - 1 {
        assert forall|k: int, l: int|
            #![trigger prefix[k], prefix[l]]
            0 <= k < l < prefix.len() implies prefix[k].question_uuid
            != prefix[l].question_uuid by {
            assert(prefix[k] == ds[k]);
            assert(prefix[l] == ds[l]);
        }
        assert(prefix[i] == ds[i]);
        lemma_question_count_distinct(prefix, i);
        assert(ds.last().question_uuid != u);
    } else {
        assert(ds.last().question_uuid == u);
        assert forall|k: int| 0 <= k < prefix.len() implies (#[trigger] prefix[k]).question_uuid
            != u by {
            assert(prefix[k] == ds[k]);
        }
        assert(!has_question(prefix, u));
        lemma_question_count_zero(prefix, u);
    }
}

/// Law: a batch of creates for distinct entities, each under a fresh
/// server-assigned identifier, leaves every one of them stored — a
/// subsequent read of all questions includes each exactly once.
pub proof fn law_distinct_creates_all_stored(s: StoreV, ds: Seq<QuestionDetailV>)
    requires
        forall|k: int, l: int|
            #![trigger ds[k], ds[l]]
            0 <= k < l < ds.len() ==> ds[k].question_uuid != ds[l].question_uuid,
        forall|k: int|
            0 <= k < ds.len() ==> !has_question(
                s.questions,
                (#[trigger] ds[k]).question_uuid,
            ),
    ensures
        forall|k: int|
            0 <= k < ds.len() ==> question_uuid_count(
                create_questions_batch(s, ds).questions,
                (#[trigger] ds[k]).question_uuid,
            ) == 1,
{
    lemma_create_questions_batch(s, ds);
    assert forall|k: int|
        0 <= k < ds.len() implies question_uuid_count(
        create_questions_batch(s, ds).questions,
        (#[trigger] ds[k]).question_uuid,
    ) == 1 by {
        let u = ds[k].question_uuid;
        lemma_question_count_concat(s.questions, ds, u);
        lemma_question_count_zero(s.questions, u);
        lemma_question_count_distinct(ds, k);
    }
}

/// Law: creating a question does not disturb any question with a distinct
/// identifier — so a batch of creates for distinct entities, in whatever
/// order the scheduler runs them, leaves every one of them stored.
pub proof fn law_create_question_preserves_existing(
    s: StoreV,
    q: QuestionV,
    u: Seq<char>,
    ts: Seq<char>,
    w: Seq<char>,
)
    requires
        w != u,
    ensures
        ({
            let s2 = spec_create_question(s, q, u, ts);
            &&& (has_question(s.questions, w) <==> has_question(s2.questions, w))
            &&& question_uuid_count(s2.questions, w) == question_uuid_count(s.questions, w)
        }),
{
    let s2 = spec_create_question(s, q, u, ts);
    assert(s2.questions.drop_last() =~= s.questions);
    assert(s2.questions.last() == new_question_detail(q, u, ts));
    assert(question_uuid_count(s2.questions, w) == question_uuid_count(s.questions, w));
    if has_question(s.questions, w) {
        let k = choose|k: int| 0 <= k < s.questions.len() && s.questions[k].question_uuid == w;
        assert(s2.questions[k] == s.questions[k]);
        assert(has_question(s2.questions, w));
    }
    if has_question(s2.questions, w) {
        let k = choose|k: int|
            0 <= k < s2.questions.len() && s2.questions[k].question_uuid == w;
        if k < s.questions.len() {
            assert(s.questions[k] == s2.questions[k]);
            assert(has_question(s.questions, w));
        } else {
            assert(s2.questions[k] == new_question_detail(q, u, ts));
        }
    }
}

/// Law: creating an answer does not disturb any answer with a distinct
/// identifier — so a batch of creates for distinct entities, in whatever
/// order the scheduler runs them, leaves every one of them stored.
pub proof fn law_create_answer_preserves_existing(
    s: StoreV,
    a: AnswerV,
    u: Seq<char>,
    ts: Seq<char>,
    w: Seq<char>,
)
    requires
        w != u,
    ensures
        ({
            let s2 = spec_create_answer(s, a, u, ts);
            &&& (has_answer(s.answers, w) <==> has_answer(s2.answers, w))
            &&& answer_uuid_count(s2.answers, w) == answer_uuid_count(s.answers, w)
        }),
{
    let s2 = spec_create_answer(s, a, u, ts);
    assert(s2.answers.drop_last() =~= s.answers);
    assert(s2.answers.last() == new_answer_detail(a, u, ts));
    assert(answer_uuid_count(s2.answers, w) == answer_uuid_count(s.answers, w));
    if has_answer(s.answers, w) {
        let k = choose|k: int| 0 <= k < s.answers.len() && s.answers[k].answer_uuid == w;
        assert(s2.answers[k] == s.answers[k]);
        assert(has_answer(s2.answers, w));
    }
    if has_answer(s2.answers, w) {
        let k = choose|k: int| 0 <= k < s2.answers.len() && s2.answers[k].answer_uuid == w;
        if k < s.answers.len() {
            assert(s.answers[k] == s2.answers[k]);
            assert(has_answer(s.answers, w));
        } else {
            assert(s2.answers[k] == new_answer_detail(a, u, ts));
        }
    }
}

} // verus!
