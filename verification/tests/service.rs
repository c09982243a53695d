use qa_service::errors::HandlerError;
use qa_service::handlers::{
    create_answer, create_question, delete_answer, delete_question, read_answers, read_questions,
    AppState,
};
use qa_service::models::{Answer, AnswerId, Question, QuestionId};
use qa_service::store::Store;

fn fresh_state() -> AppState {
    AppState { store: Store::new() }
}

fn question(title: &str, description: &str) -> Question {
    Question { title: title.to_owned(), description: description.to_owned() }
}

fn answer(question_uuid: &str, content: &str) -> Answer {
    Answer { question_uuid: question_uuid.to_owned(), content: content.to_owned() }
}

#[test]
fn create_question_appears_in_read_all_exactly_once() {
    let mut st = fresh_state();
    let created = create_question(&mut st, question("Q1", "D1"), "u-1".to_owned(), "t0".to_owned())
        .expect("create should succeed");
    assert!(!created.question_uuid.is_empty());
    assert_eq!(created.question_uuid, "u-1");
    assert_eq!(created.title, "Q1");
    assert_eq!(created.description, "D1");
    assert_eq!(created.created_at, "t0");

    let all = read_questions(&st).expect("read should succeed");
    let occurrences = all.iter().filter(|q| q.question_uuid == "u-1").count();
    assert_eq!(occurrences, 1);
}

#[test]
fn create_answer_appears_in_read_by_parent_exactly_once() {
    let mut st = fresh_state();
    create_question(&mut st, question("Q1", "D1"), "q-1".to_owned(), "t0".to_owned())
        .expect("create question should succeed");
    let created = create_answer(&mut st, answer("q-1", "A1"), "a-1".to_owned(), "t1".to_owned())
        .expect("create answer should succeed");
    assert!(!created.answer_uuid.is_empty());
    assert_eq!(created.question_uuid, "q-1");
    assert_eq!(created.content, "A1");

    let answers = read_answers(&st, QuestionId { question_uuid: "q-1".to_owned() })
        .expect("read should succeed");
    let occurrences = answers.iter().filter(|a| a.answer_uuid == "a-1").count();
    assert_eq!(occurrences, 1);
}

#[test]
fn delete_question_removes_it_from_read_all() {
    let mut st = fresh_state();
    create_question(&mut st, question("Q1", "D1"), "q-1".to_owned(), "t0".to_owned()).unwrap();
    create_question(&mut st, question("Q2", "D2"), "q-2".to_owned(), "t1".to_owned()).unwrap();

    delete_question(&mut st, QuestionId { question_uuid: "q-1".to_owned() })
        .expect("delete of an existing question should succeed");

    let all = read_questions(&st).unwrap();
    assert!(all.iter().all(|q| q.question_uuid != "q-1"));
    assert_eq!(all.len(), 1);
    assert_eq!(all[0].question_uuid, "q-2");
}

#[test]
fn delete_answer_removes_it_from_read_by_parent() {
    let mut st = fresh_state();
    create_question(&mut st, question("Q1", "D1"), "q-1".to_owned(), "t0".to_owned()).unwrap();
    create_answer(&mut st, answer("q-1", "A1"), "a-1".to_owned(), "t1".to_owned()).unwrap();
    create_answer(&mut st, answer("q-1", "A2"), "a-2".to_owned(), "t2".to_owned()).unwrap();

    delete_answer(&mut st, AnswerId { answer_uuid: "a-1".to_owned() })
        .expect("delete of an existing answer should succeed");

    let answers =
        read_answers(&st, QuestionId { question_uuid: "q-1".to_owned() }).unwrap();
    assert!(answers.iter().all(|a| a.answer_uuid != "a-1"));
    assert_eq!(answers.len(), 1);
    assert_eq!(answers[0].answer_uuid, "a-2");
}

#[test]
fn delete_missing_question_yields_internal_error() {
    let mut st = fresh_state();
    let r = delete_question(&mut st, QuestionId { question_uuid: "missing".to_owned() });
    assert!(matches!(r, Err(HandlerError::InternalError(_))));
}

#[test]
fn delete_missing_answer_yields_internal_error() {
    let mut st = fresh_state();
    create_question(&mut st, question("Q1", "D1"), "q-1".to_owned(), "t0".to_owned()).unwrap();
    let r = delete_answer(&mut st, AnswerId { answer_uuid: "missing".to_owned() });
    assert!(matches!(r, Err(HandlerError::InternalError(_))));
}

#[test]
fn create_question_with_empty_title_is_bad_request_and_writes_nothing() {
    let mut st = fresh_state();
    create_question(&mut st, question("Q1", "D1"), "q-1".to_owned(), "t0".to_owned()).unwrap();
    let before = read_questions(&st).unwrap().len();

    let r = create_question(&mut st, question("", "D2"), "q-2".to_owned(), "t1".to_owned());
    match r {
        Err(HandlerError::BadRequest(m)) => assert_eq!(m, "title cannot be empty"),
        other => panic!("expected BadRequest, got {:?}", other.is_ok()),
    }

    let after = read_questions(&st).unwrap().len();
    assert_eq!(before, after);
}

#[test]
fn distinct_creates_all_succeed_and_all_appear() {
    let mut st = fresh_state();
    let n: usize = 7;
    for i in 0..n {
        let uuid = format!("q-{}", i);
        let title = format!("Q{}", i);
        create_question(&mut st, question(&title, "D"), uuid, format!("t{}", i))
            .expect("each distinct create should succeed");
    }
    let all = read_questions(&st).unwrap();
    assert_eq!(all.len(), n);
    for i in 0..n {
        let uuid = format!("q-{}", i);
        let occurrences = all.iter().filter(|q| q.question_uuid == uuid).count();
        assert_eq!(occurrences, 1);
    }
}

#[test]
fn duplicate_question_uuid_is_rejected() {
    let mut st = fresh_state();
    create_question(&mut st, question("Q1", "D1"), "q-1".to_owned(), "t0".to_owned()).unwrap();
    let r = create_question(&mut st, question("Q2", "D2"), "q-1".to_owned(), "t1".to_owned());
    match r {
        Err(HandlerError::InternalError(m)) => assert_eq!(m, "question uuid already exists"),
        _ => panic!("expected InternalError"),
    }
    assert_eq!(read_questions(&st).unwrap().len(), 1);
}

#[test]
fn answer_to_unknown_question_is_rejected_as_internal_error() {
    let mut st = fresh_state();
    let r = create_answer(&mut st, answer("nowhere", "A1"), "a-1".to_owned(), "t0".to_owned());
    match r {
        Err(HandlerError::InternalError(m)) => assert_eq!(m, "unknown question uuid"),
        _ => panic!("expected InternalError"),
    }
}

#[test]
fn duplicate_answer_uuid_is_rejected() {
    let mut st = fresh_state();
    create_question(&mut st, question("Q1", "D1"), "q-1".to_owned(), "t0".to_owned()).unwrap();
    create_answer(&mut st, answer("q-1", "A1"), "a-1".to_owned(), "t1".to_owned()).unwrap();
    let r = create_answer(&mut st, answer("q-1", "A2"), "a-1".to_owned(), "t2".to_owned());
    match r {
        Err(HandlerError::InternalError(m)) => assert_eq!(m, "answer uuid already exists"),
        _ => panic!("expected InternalError"),
    }
}

#[test]
fn deleting_a_question_deletes_its_answers() {
    let mut st = fresh_state();
    create_question(&mut st, question("Q1", "D1"), "q-1".to_owned(), "t0".to_owned()).unwrap();
    create_question(&mut st, question("Q2", "D2"), "q-2".to_owned(), "t1".to_owned()).unwrap();
    create_answer(&mut st, answer("q-1", "A1"), "a-1".to_owned(), "t2".to_owned()).unwrap();
    create_answer(&mut st, answer("q-2", "A2"), "a-2".to_owned(), "t3".to_owned()).unwrap();

    delete_question(&mut st, QuestionId { question_uuid: "q-1".to_owned() }).unwrap();

    let gone = read_answers(&st, QuestionId { question_uuid: "q-1".to_owned() }).unwrap();
    assert!(gone.is_empty());
    let kept = read_answers(&st, QuestionId { question_uuid: "q-2".to_owned() }).unwrap();
    assert_eq!(kept.len(), 1);
    assert_eq!(kept[0].answer_uuid, "a-2");
}

#[test]
fn error_kinds_map_to_status_codes() {
    let (code, body) = HandlerError::BadRequest("bad".to_owned()).status_and_message();
    assert_eq!(code, 400);
    assert_eq!(body, "bad");
    let (code, body) = HandlerError::InternalError("oops".to_owned()).status_and_message();
    assert_eq!(code, 500);
    assert_eq!(body, "oops");
}

#[test]
fn end_to_end_question_answer_lifecycle() {
    let mut st = fresh_state();

    let q = create_question(&mut st, question("Q1", "D1"), "U".to_owned(), "t0".to_owned())
        .expect("question create should succeed");
    assert!(!q.question_uuid.is_empty());
    let u = q.question_uuid;

    let a = create_answer(&mut st, answer(&u, "A1"), "V".to_owned(), "t1".to_owned())
        .expect("answer create should succeed");
    assert!(!a.answer_uuid.is_empty());
    let v = a.answer_uuid;

    let answers = read_answers(&st, QuestionId { question_uuid: u.clone() }).unwrap();
    assert_eq!(answers.len(), 1);
    assert_eq!(answers[0].answer_uuid, v);
    assert_eq!(answers[0].question_uuid, u);
    assert_eq!(answers[0].content, "A1");

    delete_question(&mut st, QuestionId { question_uuid: u.clone() }).unwrap();
    let all = read_questions(&st).unwrap();
    assert!(all.iter().all(|q| q.question_uuid != u));
}
