//! Entity model: questions, answers, and their identifiers.
//!
//! A `Question`/`Answer` is the payload a caller submits; a
//! `QuestionDetail`/`AnswerDetail` is the stored row, carrying the
//! server-assigned unique identifier and creation timestamp as well.

use vstd::prelude::*;

verus! {

/// A new question as submitted by a caller: no identifier or timestamp yet.
pub struct Question {
    pub title: String,
    pub description: String,
}

/// Spec-level image of a `Question`.
#[verifier::ext_equal]
pub struct QuestionV {
    pub title: Seq<char>,
    pub description: Seq<char>,
}

impl View for Question {
    type V = QuestionV;

    open spec fn view(&self) -> QuestionV {
        QuestionV { title: self.title@, description: self.description@ }
    }
}

/// A stored question row: payload plus server-assigned identifier and
/// creation timestamp.
pub struct QuestionDetail {
    pub question_uuid: String,
    pub title: String,
    pub description: String,
    pub created_at: String,
}

/// Spec-level image of a `QuestionDetail`.
#[verifier::ext_equal]
pub struct QuestionDetailV {
    pub question_uuid: Seq<char>,
    pub title: Seq<char>,
    pub description: Seq<char>,
    pub created_at: Seq<char>,
}

impl View for QuestionDetail {
    type V = QuestionDetailV;

    open spec fn view(&self) -> QuestionDetailV {
        QuestionDetailV {
            question_uuid: self.question_uuid@,
            title: self.title@,
            description: self.description@,
            created_at: self.created_at@,
        }
    }
}

impl Clone for QuestionDetail {
    fn clone(&self) -> (r: Self)
        ensures
            r == *self,
    {
        QuestionDetail {
            question_uuid: self.question_uuid.clone(),
            title: self.title.clone(),
            description: self.description.clone(),
            created_at: self.created_at.clone(),
        }
    }
}

/// A new answer as submitted by a caller: references the question it
/// answers, no identifier or timestamp yet.
pub struct Answer {
    pub question_uuid: String,
    pub content: String,
}

/// Spec-level image of an `Answer`.
#[verifier::ext_equal]
pub struct AnswerV {
    pub question_uuid: Seq<char>,
    pub content: Seq<char>,
}

impl View for Answer {
    type V = AnswerV;

    open spec fn view(&self) -> AnswerV {
        AnswerV { question_uuid: self.question_uuid@, content: self.content@ }
    }
}

/// A stored answer row: payload plus server-assigned identifier and
/// creation timestamp.
pub struct AnswerDetail {
    pub answer_uuid: String,
    pub question_uuid: String,
    pub content: String,
    pub created_at: String,
}

/// Spec-level image of an `AnswerDetail`.
#[verifier::ext_equal]
pub struct AnswerDetailV {
    pub answer_uuid: Seq<char>,
    pub question_uuid: Seq<char>,
    pub content: Seq<char>,
    pub created_at: Seq<char>,
}

impl View for AnswerDetail {
    type V = AnswerDetailV;

    open spec fn view(&self) -> AnswerDetailV {
        AnswerDetailV {
            answer_uuid: self.answer_uuid@,
            question_uuid: self.question_uuid@,
            content: self.content@,
            created_at: self.created_at@,
        }
    }
}

impl Clone for AnswerDetail {
    fn clone(&self) -> (r: Self)
        ensures
            r == *self,
    {
        AnswerDetail {
            answer_uuid: self.answer_uuid.clone(),
            question_uuid: self.question_uuid.clone(),
            content: self.content.clone(),
            created_at: self.created_at.clone(),
        }
    }
}

/// Identifier payload used to delete a question or read its answers.
pub struct QuestionId {
    pub question_uuid: String,
}

impl View for QuestionId {
    type V = Seq<char>;

    open spec fn view(&self) -> Seq<char> {
        self.question_uuid@
    }
}

/// Identifier payload used to delete an answer.
pub struct AnswerId {
    pub answer_uuid: String,
}

impl View for AnswerId {
    type V = Seq<char>;

    open spec fn view(&self) -> Seq<char> {
        self.answer_uuid@
    }
}

} // verus!
