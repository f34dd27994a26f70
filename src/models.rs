//! The question bank's data: stored rows, answers, type codes, and the
//! request and response shapes that the service layer exchanges.

use vstd::prelude::*;

verus! {

/// The kind of a question, stored as an integer code.
#[derive(Clone, Copy, Debug, PartialEq, Eq, Structural)]
pub enum QuestionType {
    SingleChoice,
    MultipleChoice,
    FillBlank,
    TrueFalse,
    Essay,
}

/// The kind named by a code; codes outside `0..=4` read as single choice.
pub open spec fn type_of_code(code: i32) -> QuestionType {
    if code == 1 {
        QuestionType::MultipleChoice
    } else if code == 2 {
        QuestionType::FillBlank
    } else if code == 3 {
        QuestionType::TrueFalse
    } else if code == 4 {
        QuestionType::Essay
    } else {
        QuestionType::SingleChoice
    }
}

/// The code under which a kind is stored.
pub open spec fn code_of_type(t: QuestionType) -> i32 {
    match t {
        QuestionType::SingleChoice => 0,
        QuestionType::MultipleChoice => 1,
        QuestionType::FillBlank => 2,
        QuestionType::TrueFalse => 3,
        QuestionType::Essay => 4,
    }
}

impl From<i32> for QuestionType {
    fn from(value: i32) -> (r: Self) {
        match value {
            0 => QuestionType::SingleChoice,
            1 => QuestionType::MultipleChoice,
            2 => QuestionType::FillBlank,
            3 => QuestionType::TrueFalse,
            4 => QuestionType::Essay,
            _ => QuestionType::SingleChoice,
        }
    }
}

impl vstd::std_specs::convert::FromSpecImpl<i32> for QuestionType {
    open spec fn obeys_from_spec() -> bool {
        true
    }

    open spec fn from_spec(v: i32) -> QuestionType {
        type_of_code(v)
    }
}

impl From<QuestionType> for i32 {
    fn from(question_type: QuestionType) -> (r: Self) {
        match question_type {
            QuestionType::SingleChoice => 0,
            QuestionType::MultipleChoice => 1,
            QuestionType::FillBlank => 2,
            QuestionType::TrueFalse => 3,
            QuestionType::Essay => 4,
        }
    }
}

impl vstd::std_specs::convert::FromSpecImpl<QuestionType> for i32 {
    open spec fn obeys_from_spec() -> bool {
        true
    }

    open spec fn from_spec(v: QuestionType) -> i32 {
        code_of_type(v)
    }
}

/// A stored question row: options and answer are kept as JSON text.
#[derive(Clone, Debug)]
pub struct Question {
    pub id: Option<i64>,
    pub question: String,
    pub options: Option<String>,
    pub question_type: i32,
    pub answer: String,
}

impl Question {
    /// A field-by-field copy, equal to the original.
    pub fn copied(&self) -> (r: Question)
        ensures
            r == *self,
    {
        let options = match &self.options {
            Some(o) => Some(o.clone()),
            None => None,
        };
        Question {
            id: self.id,
            question: self.question.clone(),
            options,
            question_type: self.question_type,
            answer: self.answer.clone(),
        }
    }
}

/// An answer in any of its shapes; each field is independently optional.
#[derive(Clone, Debug)]
pub struct Answer {
    pub answer_key: Option<Vec<String>>,
    pub answer_key_text: Option<String>,
    pub answer_index: Option<Vec<i32>>,
    pub answer_text: Option<String>,
    pub best_answer: Option<Vec<String>>,
    pub all_answer: Option<Vec<Vec<String>>>,
}

impl Answer {
    /// The answer with every field absent.
    pub open spec fn is_empty(&self) -> bool {
        &&& self.answer_key is None
        &&& self.answer_key_text is None
        &&& self.answer_index is None
        &&& self.answer_text is None
        &&& self.best_answer is None
        &&& self.all_answer is None
    }
}

impl Answer {
    /// Some answer with every field absent.
    pub open spec fn empty_spec() -> Answer {
        Answer {
            answer_key: None,
            answer_key_text: None,
            answer_index: None,
            answer_text: None,
            best_answer: None,
            all_answer: None,
        }
    }
}

impl Default for Answer {
    fn default() -> (r: Self)
        ensures
            r.is_empty(),
    {
        Answer {
            answer_key: None,
            answer_key_text: None,
            answer_index: None,
            answer_text: None,
            best_answer: None,
            all_answer: None,
        }
    }
}

/// A lookup by question text.
#[derive(Clone, Debug)]
pub struct SearchRequest {
    pub question: String,
    pub options: Option<Vec<String>>,
    pub question_type: i32,
}

/// The first stored question that matched a lookup.
#[derive(Clone, Debug)]
pub struct SearchResponse {
    pub plat: i32,
    pub question: String,
    pub options: Option<Vec<String>>,
    pub question_type: i32,
    pub answer: Answer,
}

/// The reply to a loosely typed lookup: a found row with every answer field
/// present.
#[derive(Clone, Debug)]
pub struct AdapterReply {
    pub question: String,
    pub question_type: i32,
    pub options: Option<Vec<String>>,
    pub answer: Answer,
}

/// One question to be created.
#[derive(Clone, Debug)]
pub struct CreateQuestionRequest {
    pub question: String,
    pub options: Option<Vec<String>>,
    pub question_type: i32,
    pub answer: Answer,
}

#[derive(Clone, Debug)]
pub struct CreateQuestionResponse {
    pub code: i32,
    pub data: CreateQuestionData,
}

#[derive(Clone, Debug)]
pub struct CreateQuestionData {
    pub msg: String,
    pub success: bool,
    pub data: i64,
}

#[derive(Clone, Debug)]
pub struct GetAllQuestionsResponse {
    pub code: i32,
    pub data: GetAllQuestionsData,
}

#[derive(Clone, Debug)]
pub struct GetAllQuestionsData {
    pub msg: String,
    pub success: bool,
    pub data: Vec<QuestionResponse>,
}

/// A stored question with its options and answer decoded.
#[derive(Clone, Debug)]
pub struct QuestionResponse {
    pub id: Option<i64>,
    pub question: String,
    pub options: Option<Vec<String>>,
    pub question_type: i32,
    pub answer: Answer,
}

#[derive(Clone, Debug)]
pub struct ImportQuestionsRequest {
    pub questions: Vec<CreateQuestionRequest>,
}

#[derive(Clone, Debug)]
pub struct ImportQuestionsResponse {
    pub code: i32,
    pub data: ImportQuestionsData,
}

#[derive(Clone, Debug)]
pub struct ImportQuestionsData {
    pub msg: String,
    pub success: bool,
    pub data: ImportResult,
}

/// The accounting of a batch import.
#[derive(Clone, Debug)]
pub struct ImportResult {
    pub success_count: i32,
    pub failed_count: i32,
    pub errors: Option<Vec<String>>,
}

#[derive(Debug)]
pub struct DeleteQuestionResponse {
    pub code: i32,
    pub data: DeleteQuestionData,
}

#[derive(Debug)]
pub struct DeleteQuestionData {
    pub msg: String,
    pub success: bool,
    pub data: (),
}

#[derive(Debug)]
pub struct ClearQuestionsResponse {
    pub code: i32,
    pub data: ClearQuestionsData,
}

#[derive(Debug)]
pub struct ClearQuestionsData {
    pub msg: String,
    pub success: bool,
    pub data: (),
}

} // verus!
