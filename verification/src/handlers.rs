//! Handler logic: structural validation, delegation to the storage
//! operations, and mapping of every storage failure to the opaque
//! `InternalError` kind. Callers are never shown storage internals.

use vstd::prelude::*;

use crate::errors::{DaoError, HandlerError};
use crate::models::{Answer, AnswerDetail, AnswerId, Question, QuestionDetail, QuestionId};
use crate::store::{
    answers_of_question, answer_views, has_answer, has_question, new_answer_detail,
    new_question_detail, question_views, spec_create_answer, spec_create_question,
    spec_delete_answer, spec_delete_question, Store,
};

verus! {

/// The state shared by all handlers: the storage the data-access
/// operations run against. It is created once at process start and passed
/// into every handler explicitly.
pub struct AppState {
    pub store: Store,
}

/// Structural validation of a new question: the title must not be empty.
pub fn validate_question(question: &Question) -> (r: Result<(), HandlerError>)
    ensures
        question@.title.len() > 0 ==> (r matches Ok(k) && k == ()),
        question@.title.len() == 0 ==> (r matches Err(e) && e matches HandlerError::BadRequest(m)
            && m@ == "title cannot be empty"@),
{
    if question.title.as_str().is_empty() {
        Err(HandlerError::BadRequest("title cannot be empty".to_owned()))
    } else {
        Ok(())
    }
}

/// Creates a question: validates the payload, delegates to storage, and
/// collapses any storage failure into `InternalError`. An empty title is
/// rejected with `BadRequest` before anything reaches storage.
pub fn create_question(
    state: &mut AppState,
    question: Question,
    question_uuid: String,
    created_at: String,
) -> (r: Result<QuestionDetail, HandlerError>)
    requires
        old(state).store@.wf(),
    ensures
        final(state).store@.wf(),
        question@.title.len() == 0 ==> {
            &&& final(state).store@ == old(state).store@
            &&& (r matches Err(e) && e matches HandlerError::BadRequest(m) && m@
                == "title cannot be empty"@)
        },
        question@.title.len() > 0 && !has_question(old(state).store@.questions, question_uuid@)
            ==> {
            &&& final(state).store@ == spec_create_question(
                old(state).store@,
                question@,
                question_uuid@,
                created_at@,
            )
            &&& (r matches Ok(d) && d@ == new_question_detail(
                question@,
                question_uuid@,
                created_at@,
            ))
        },
        question@.title.len() > 0 && has_question(old(state).store@.questions, question_uuid@)
            ==> {
            &&& final(state).store@ == old(state).store@
            &&& (r matches Err(e) && e matches HandlerError::InternalError(m) && m@
                == "question uuid already exists"@)
        },
{
    match validate_question(&question) {
        Err(e) => Err(e),
        Ok(_) => match state.store.create_question(question, question_uuid, created_at) {
            Ok(d) => Ok(d),
            Err(e) => Err(HandlerError::from_dao(e)),
        },
    }
}

/// Reads all questions. An empty store is a success with an empty
/// sequence.
pub fn read_questions(state: &AppState) -> (r: Result<Vec<QuestionDetail>, HandlerError>)
    ensures
        (r matches Ok(v) && question_views(v@) == state.store@.questions),
{
    Ok(state.store.read_questions())
}

/// Deletes a question by identifier, and with it its answers. A missing
/// row is a storage failure, reported as the opaque `InternalError` kind.
pub fn delete_question(state: &mut AppState, question_uuid: QuestionId) -> (r: Result<
    (),
    HandlerError,
>)
    requires
        old(state).store@.wf(),
    ensures
        final(state).store@.wf(),
        has_question(old(state).store@.questions, question_uuid@) ==> {
            &&& final(state).store@ == spec_delete_question(old(state).store@, question_uuid@)
            &&& !has_question(final(state).store@.questions, question_uuid@)
            &&& (r matches Ok(k) && k == ())
        },
        !has_question(old(state).store@.questions, question_uuid@) ==> {
            &&& final(state).store@ == old(state).store@
            &&& (r matches Err(e) && e matches HandlerError::InternalError(m) && m@
                == "question not found"@)
        },
{
    match state.store.delete_question(&question_uuid) {
        Ok(_) => Ok(()),
        Err(e) => Err(HandlerError::from_dao(e)),
    }
}

/// Creates an answer: delegates to storage and collapses any storage
/// failure — an unknown question reference included — into
/// `InternalError`. Whether the referenced question exists is checked by
/// the store's foreign-key constraint alone, not by this layer.
pub fn create_answer(
    state: &mut AppState,
    answer: Answer,
    answer_uuid: String,
    created_at: String,
) -> (r: Result<AnswerDetail, HandlerError>)
    requires
        old(state).store@.wf(),
    ensures
        final(state).store@.wf(),
        has_question(old(state).store@.questions, answer@.question_uuid) && !has_answer(
            old(state).store@.answers,
            answer_uuid@,
        ) ==> {
            &&& final(state).store@ == spec_create_answer(
                old(state).store@,
                answer@,
                answer_uuid@,
                created_at@,
            )
            &&& (r matches Ok(d) && d@ == new_answer_detail(answer@, answer_uuid@, created_at@))
        },
        !has_question(old(state).store@.questions, answer@.question_uuid) ==> {
            &&& final(state).store@ == old(state).store@
            &&& (r matches Err(e) && e matches HandlerError::InternalError(m) && m@
                == "unknown question uuid"@)
        },
        has_question(old(state).store@.questions, answer@.question_uuid) && has_answer(
            old(state).store@.answers,
            answer_uuid@,
        ) ==> {
            &&& final(state).store@ == old(state).store@
            &&& (r matches Err(e) && e matches HandlerError::InternalError(m) && m@
                == "answer uuid already exists"@)
        },
{
    match state.store.create_answer(answer, answer_uuid, created_at) {
        Ok(d) => Ok(d),
        Err(e) => Err(HandlerError::from_dao(e)),
    }
}

/// Reads all answers of one question. A question without answers — or an
/// unknown question — is a success with an empty sequence.
pub fn read_answers(state: &AppState, question_uuid: QuestionId) -> (r: Result<
    Vec<AnswerDetail>,
    HandlerError,
>)
    ensures
        (r matches Ok(v) && answer_views(v@) == answers_of_question(
            state.store@.answers,
            question_uuid@,
        )),
{
    Ok(state.store.read_answers(&question_uuid))
}

/// Deletes an answer by identifier. A missing row is a storage failure,
/// reported as the opaque `InternalError` kind.
pub fn delete_answer(state: &mut AppState, answer_uuid: AnswerId) -> (r: Result<
    (),
    HandlerError,
>)
    requires
        old(state).store@.wf(),
    ensures
        final(state).store@.wf(),
        has_answer(old(state).store@.answers, answer_uuid@) ==> {
            &&& final(state).store@ == spec_delete_answer(old(state).store@, answer_uuid@)
            &&& !has_answer(final(state).store@.answers, answer_uuid@)
            &&& (r matches Ok(k) && k == ())
        },
        !has_answer(old(state).store@.answers, answer_uuid@) ==> {
            &&& final(state).store@ == old(state).store@
            &&& (r matches Err(e) && e matches HandlerError::InternalError(m) && m@
                == "answer not found"@)
        },
{
    match state.store.delete_answer(&answer_uuid) {
        Ok(_) => Ok(()),
        Err(e) => Err(HandlerError::from_dao(e)),
    }
}

} // verus!

