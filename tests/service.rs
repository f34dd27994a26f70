use tikulocal::codec::{decode_options, encode_answer, encode_options, ints_to_json};
use tikulocal::handlers::{
    adapter_search_questions, build_search_response, search_response, clear_questions, convert_question_to_response, filled_answer,
    create_question, delete_question, get_all_questions, import_questions, perform_search,
    AdapterOutcome, INTERNAL_SERVER_ERROR, NOT_FOUND,
};
use tikulocal::models::{Answer, CreateQuestionRequest, ImportQuestionsRequest, Question, QuestionType};
use tikulocal::store::{QuestionService, StoreError};
use tikulocal::text::decimal_text;

fn empty_answer() -> Answer {
    Answer::default()
}

fn text_answer(t: &str) -> Answer {
    Answer {
        answer_text: Some(t.to_string()),
        ..Answer::default()
    }
}

fn request(q: &str) -> CreateQuestionRequest {
    CreateQuestionRequest {
        question: q.to_string(),
        options: Some(vec!["A".to_string(), "B".to_string()]),
        question_type: 0,
        answer: text_answer("A"),
    }
}

#[test]
fn create_then_exists() {
    let mut s = QuestionService::new();
    assert!(!s.question_exists("What is 1+1?"));
    let id = s.create_question("What is 1+1?", None, 2, &text_answer("2")).unwrap();
    assert_eq!(id, 1);
    assert!(s.question_exists("What is 1+1?"));
    assert!(!s.question_exists("What is 1+1"));
    let id2 = s.create_question("Second", None, 4, &empty_answer()).unwrap();
    assert_eq!(id2, 2);
}

#[test]
fn duplicate_create_fails_and_keeps_one_row() {
    let mut s = QuestionService::new();
    s.create_question("Q", None, 0, &empty_answer()).unwrap();
    let r = s.create_question("Q", Some(vec!["x".to_string()]), 1, &text_answer("y"));
    assert_eq!(r, Err(StoreError::DuplicateQuestion));
    let all = s.get_all_questions();
    assert_eq!(all.len(), 1);
    assert_eq!(all[0].question, "Q");
    assert_eq!(all[0].options, None);
}

#[test]
fn stored_row_holds_encoded_options_and_answer() {
    let mut s = QuestionService::new();
    s.create_question(
        "Pick one",
        Some(vec!["A".to_string(), "B".to_string()]),
        0,
        &text_answer("A"),
    )
    .unwrap();
    let all = s.get_all_questions();
    assert_eq!(all[0].id, Some(1));
    assert_eq!(all[0].options.as_deref(), Some("[\"A\",\"B\"]"));
    assert_eq!(all[0].question_type, 0);
    assert_eq!(
        all[0].answer,
        "{\"answerKey\":null,\"answerKeyText\":null,\"answerIndex\":null,\"answerText\":\"A\",\"bestAnswer\":null,\"allAnswer\":null}"
    );
}

#[test]
fn empty_answer_encodes_to_all_null_object() {
    let text = encode_answer(&empty_answer());
    assert_eq!(
        text,
        "{\"answerKey\":null,\"answerKeyText\":null,\"answerIndex\":null,\"answerText\":null,\"bestAnswer\":null,\"allAnswer\":null}"
    );
    let v: serde_json::Value = serde_json::from_str(&text).unwrap();
    let obj = v.as_object().unwrap();
    assert_eq!(obj.len(), 6);
    assert!(obj.values().all(|x| x.is_null()));
}

#[test]
fn full_answer_encoding_reads_back_field_by_field() {
    let a = Answer {
        answer_key: Some(vec!["A".to_string(), "C".to_string()]),
        answer_key_text: Some("AC".to_string()),
        answer_index: Some(vec![0, 2]),
        answer_text: Some("say \"hi\"".to_string()),
        best_answer: Some(vec!["best".to_string()]),
        all_answer: Some(vec![vec!["x".to_string(), "y".to_string()], vec![]]),
    };
    let text = encode_answer(&a);
    let v: serde_json::Value = serde_json::from_str(&text).unwrap();
    assert_eq!(v["answerKey"], serde_json::Value::from(vec!["A", "C"]));
    assert_eq!(v["answerKeyText"], serde_json::Value::from("AC"));
    assert_eq!(v["answerIndex"], serde_json::Value::from(vec![0, 2]));
    assert_eq!(v["answerText"], serde_json::Value::from("say \"hi\""));
    assert_eq!(v["bestAnswer"], serde_json::Value::from(vec!["best"]));
    assert_eq!(v["allAnswer"][0], serde_json::Value::from(vec!["x", "y"]));
    assert_eq!(v["allAnswer"][1].as_array().unwrap().len(), 0);
}

#[test]
fn search_finds_substring_matches_in_order() {
    let mut s = QuestionService::new();
    s.create_question("capital of France", None, 2, &text_answer("Paris")).unwrap();
    s.create_question("largest ocean", None, 2, &text_answer("Pacific")).unwrap();
    s.create_question("capital of Japan", None, 2, &text_answer("Tokyo")).unwrap();
    let found = s.search_questions("capital");
    assert_eq!(found.len(), 2);
    assert_eq!(found[0].question, "capital of France");
    assert_eq!(found[1].question, "capital of Japan");
    assert_eq!(s.search_questions("ocean").len(), 1);
    assert_eq!(s.search_questions("").len(), 3);
    assert!(s.search_questions("zebra").is_empty());
    assert_eq!(perform_search(&s, "of J").unwrap().question, "capital of Japan");
    assert!(perform_search(&s, "nothing").is_none());
}

#[test]
fn delete_unknown_and_known_ids() {
    let mut s = QuestionService::new();
    s.create_question("one", None, 0, &empty_answer()).unwrap();
    s.create_question("two", None, 0, &empty_answer()).unwrap();
    assert!(!s.delete_question(99));
    assert_eq!(s.get_all_questions().len(), 2);
    assert!(s.delete_question(1));
    let all = s.get_all_questions();
    assert_eq!(all.len(), 1);
    assert_eq!(all[0].id, Some(2));
    assert!(!s.delete_question(1));
    let id = s.create_question("one", None, 0, &empty_answer()).unwrap();
    assert_eq!(id, 3);
}

#[test]
fn clear_then_list_is_empty() {
    let mut s = QuestionService::new();
    s.clear_questions();
    assert!(s.get_all_questions().is_empty());
    s.create_question("a", None, 0, &empty_answer()).unwrap();
    s.create_question("b", None, 0, &empty_answer()).unwrap();
    s.clear_questions();
    assert!(s.get_all_questions().is_empty());
    assert!(!s.question_exists("a"));
}

#[test]
fn import_with_duplicate_second_item() {
    let mut s = QuestionService::new();
    let items = vec![request("first"), request("first"), request("third")];
    let r = s.import_questions(&items);
    assert_eq!(r.success_count, 2);
    assert_eq!(r.failed_count, 1);
    let errors = r.errors.unwrap();
    assert_eq!(errors.len(), 1);
    assert_eq!(errors[0], "question 2 failed to import: question already exists");
    assert!(s.question_exists("first"));
    assert!(s.question_exists("third"));
    assert_eq!(s.get_all_questions().len(), 2);
}

#[test]
fn import_without_failures_has_no_error_log() {
    let mut s = QuestionService::new();
    let r = s.import_questions(&vec![request("a"), request("b")]);
    assert_eq!(r.success_count, 2);
    assert_eq!(r.failed_count, 0);
    assert!(r.errors.is_none());
    let empty = s.import_questions(&vec![]);
    assert_eq!(empty.success_count, 0);
    assert!(empty.errors.is_none());
}

#[test]
fn unreadable_options_blob_reads_as_absent() {
    assert_eq!(decode_options(&Some("not json".to_string())), None);
    assert_eq!(decode_options(&Some("[1,2]".to_string())), None);
    assert_eq!(decode_options(&None), None);
    assert_eq!(
        decode_options(&Some("[\"a\",\"b\"]".to_string())),
        Some(vec!["a".to_string(), "b".to_string()])
    );
    let mut s = QuestionService::new();
    s.create_question("q", None, 0, &empty_answer()).unwrap();
    let mut row = s.get_all_questions().remove(0);
    row.options = Some("{broken".to_string());
    let resp = convert_question_to_response(&row, None);
    assert_eq!(resp.options, None);
    assert!(resp.answer.answer_text.is_none());
    assert_eq!(resp.id, Some(1));
}

#[test]
fn options_encoding() {
    assert_eq!(encode_options(&None), None);
    assert_eq!(
        encode_options(&Some(vec!["x".to_string()])),
        Some("[\"x\"]".to_string())
    );
    assert_eq!(encode_options(&Some(vec![])), Some("[]".to_string()));
}

#[test]
fn question_type_codes() {
    assert_eq!(QuestionType::from(0), QuestionType::SingleChoice);
    assert_eq!(QuestionType::from(1), QuestionType::MultipleChoice);
    assert_eq!(QuestionType::from(2), QuestionType::FillBlank);
    assert_eq!(QuestionType::from(3), QuestionType::TrueFalse);
    assert_eq!(QuestionType::from(4), QuestionType::Essay);
    assert_eq!(QuestionType::from(9), QuestionType::SingleChoice);
    assert_eq!(i32::from(QuestionType::Essay), 4);
    assert_eq!(i32::from(QuestionType::MultipleChoice), 1);
}

#[test]
fn error_messages() {
    assert_eq!(StoreError::DuplicateQuestion.message(), "question already exists");
    assert_eq!(StoreError::StorageUnavailable.message(), "storage unavailable");
    assert_eq!(
        StoreError::SerializationFailure.message(),
        "answer could not be serialized"
    );
}

#[test]
fn handler_responses() {
    let mut s = QuestionService::new();
    let ok = create_question(&mut s, request("h")).unwrap();
    assert_eq!(ok.code, 200);
    assert_eq!(ok.data.data, 1);
    assert!(ok.data.success);
    assert_eq!(create_question(&mut s, request("h")).unwrap_err(), INTERNAL_SERVER_ERROR);
    assert_eq!(delete_question(&mut s, 5).unwrap_err(), NOT_FOUND);
    let rows = s.get_all_questions();
    let list = get_all_questions(&rows, vec![Some(text_answer("A"))]);
    assert_eq!(list.data.data.len(), 1);
    assert_eq!(list.data.data[0].options, Some(vec!["A".to_string(), "B".to_string()]));
    assert_eq!(list.data.data[0].answer.answer_text.as_deref(), Some("A"));
    let found = search_response(&rows[0], None);
    assert_eq!(found.plat, 1);
    assert_eq!(found.question, "h");
    assert!(found.answer.answer_text.is_none());
    let imported = import_questions(
        &mut s,
        &ImportQuestionsRequest { questions: vec![request("h"), request("i")] },
    );
    assert_eq!(imported.data.msg, "import finished, succeeded: 1, failed: 1");
    assert!(delete_question(&mut s, 1).is_ok());
    let cleared = clear_questions(&mut s);
    assert_eq!(cleared.code, 200);
    assert!(s.get_all_questions().is_empty());
}

#[test]
fn adapter_lookup_outcomes() {
    let mut s = QuestionService::new();
    s.create_question("alpha beta", None, 0, &empty_answer()).unwrap();
    assert!(matches!(adapter_search_questions(&s, ""), AdapterOutcome::EmptyQuestion));
    assert!(matches!(adapter_search_questions(&s, "gamma"), AdapterOutcome::NoMatch));
    match adapter_search_questions(&s, "beta") {
        AdapterOutcome::Found(q) => assert_eq!(q.question, "alpha beta"),
        _ => panic!("expected a match"),
    }
}

#[test]
fn loading_stored_rows() {
    let row = |id: Option<i64>, q: &str| Question {
        id,
        question: q.to_string(),
        options: None,
        question_type: 3,
        answer: "{}".to_string(),
    };
    let mut s = QuestionService::new();
    assert!(s.last_row().is_none());
    assert!(s.load_row(row(Some(5), "five")).is_ok());
    assert_eq!(s.last_row().unwrap().id, Some(5));
    assert_eq!(s.load_row(row(Some(3), "three")), Err(StoreError::InvalidId));
    assert_eq!(s.load_row(row(None, "none")), Err(StoreError::InvalidId));
    assert_eq!(s.load_row(row(Some(9), "five")), Err(StoreError::DuplicateQuestion));
    assert_eq!(s.create_question("next", None, 0, &Answer::default()), Ok(6));
    assert_eq!(s.last_row().unwrap().question, "next");
    assert_eq!(s.get_all_questions().len(), 2);
}

fn read_back(text: &str) -> Answer {
    let obj: serde_json::Map<String, serde_json::Value> = serde_json::from_str(text).unwrap();
    let field = |name: &str| obj.get(name).cloned().unwrap_or(serde_json::Value::Null);
    Answer {
        answer_key: serde_json::from_value(field("answerKey")).unwrap(),
        answer_key_text: serde_json::from_value(field("answerKeyText")).unwrap(),
        answer_index: serde_json::from_value(field("answerIndex")).unwrap(),
        answer_text: serde_json::from_value(field("answerText")).unwrap(),
        best_answer: serde_json::from_value(field("bestAnswer")).unwrap(),
        all_answer: serde_json::from_value(field("allAnswer")).unwrap(),
    }
}

fn same_answer(a: &Answer, b: &Answer) -> bool {
    a.answer_key == b.answer_key
        && a.answer_key_text == b.answer_key_text
        && a.answer_index == b.answer_index
        && a.answer_text == b.answer_text
        && a.best_answer == b.best_answer
        && a.all_answer == b.all_answer
}

#[test]
fn answer_round_trips_through_its_stored_form() {
    let samples = vec![
        Answer::default(),
        text_answer("plain"),
        Answer {
            answer_key: Some(vec!["B".to_string()]),
            answer_key_text: Some("B".to_string()),
            answer_index: Some(vec![1, -3, i32::MAX]),
            answer_text: Some("line\nbreak \\ \u{4e2d}".to_string()),
            best_answer: Some(vec![]),
            all_answer: Some(vec![vec!["p".to_string()], vec!["q".to_string(), "r".to_string()]]),
        },
    ];
    for a in &samples {
        let text = encode_answer(a);
        assert!(same_answer(&read_back(&text), a));
    }
}

#[test]
fn filled_answer_replaces_absent_fields_with_empty_values() {
    let f = filled_answer(text_answer("x"));
    assert_eq!(f.answer_text.as_deref(), Some("x"));
    assert_eq!(f.answer_key_text.as_deref(), Some(""));
    assert_eq!(f.answer_key, Some(vec![]));
    assert_eq!(f.answer_index, Some(vec![]));
    assert_eq!(f.best_answer, Some(vec![]));
    assert_eq!(f.all_answer, Some(Vec::<Vec<String>>::new()));
}

#[test]
fn import_appends_created_rows_in_order() {
    let mut s = QuestionService::new();
    s.create_question("old", None, 1, &empty_answer()).unwrap();
    let mut third = request("c");
    third.question_type = 4;
    third.options = None;
    let r = s.import_questions(&vec![request("a"), request("old"), third]);
    assert_eq!(r.success_count, 2);
    assert_eq!(
        r.errors.unwrap(),
        vec!["question 2 failed to import: question already exists".to_string()]
    );
    let all = s.get_all_questions();
    assert_eq!(all.len(), 3);
    assert_eq!(all[1].id, Some(2));
    assert_eq!(all[1].question, "a");
    assert_eq!(all[1].options.as_deref(), Some("[\"A\",\"B\"]"));
    assert_eq!(all[2].id, Some(3));
    assert_eq!(all[2].question, "c");
    assert_eq!(all[2].question_type, 4);
    assert_eq!(all[2].options, None);
}

#[test]
fn decimal_rendering() {
    assert_eq!(decimal_text(0), "0");
    assert_eq!(decimal_text(7), "7");
    assert_eq!(decimal_text(10), "10");
    assert_eq!(decimal_text(1234567890), "1234567890");
    assert_eq!(decimal_text(u64::MAX), "18446744073709551615");
}

#[test]
fn search_ignores_ascii_letter_case_only() {
    let mut s = QuestionService::new();
    s.create_question("What is HTTP?", None, 4, &empty_answer()).unwrap();
    s.create_question("Ärger und Öl", None, 4, &empty_answer()).unwrap();
    assert_eq!(s.search_questions("http").len(), 1);
    assert_eq!(s.search_questions("WHAT IS").len(), 1);
    assert_eq!(s.search_questions("ärger").len(), 0);
    assert_eq!(s.search_questions("Ärger").len(), 1);
    assert_eq!(s.search_questions("UND").len(), 1);
}

#[test]
fn integer_lists_encode_as_serde_json_does() {
    let cases: Vec<Vec<i32>> = vec![
        vec![],
        vec![0],
        vec![1, -3, 42],
        vec![i32::MIN, i32::MAX, -10, 100],
    ];
    for v in &cases {
        assert_eq!(ints_to_json(v), serde_json::to_string(v).unwrap());
    }
    assert_eq!(ints_to_json(&vec![-7, 8]), "[-7,8]");
}

#[test]
fn adapter_reply_fills_absent_answer_fields() {
    let mut s = QuestionService::new();
    s.create_question("pick", Some(vec!["A".to_string()]), 0, &text_answer("A")).unwrap();
    let row = s.get_all_questions().remove(0);
    let reply = build_search_response(&row, Some(text_answer("A")));
    assert_eq!(reply.question, "pick");
    assert_eq!(reply.question_type, 0);
    assert_eq!(reply.options, Some(vec!["A".to_string()]));
    assert_eq!(reply.answer.answer_text.as_deref(), Some("A"));
    assert_eq!(reply.answer.answer_key, Some(vec![]));
    assert_eq!(reply.answer.answer_key_text.as_deref(), Some(""));
    let unreadable = build_search_response(&row, None);
    assert_eq!(unreadable.answer.answer_text.as_deref(), Some(""));
    assert_eq!(unreadable.answer.best_answer, Some(vec![]));
    assert_eq!(unreadable.answer.answer_index, Some(vec![]));
    assert_eq!(unreadable.answer.all_answer, Some(Vec::<Vec<String>>::new()));
}
