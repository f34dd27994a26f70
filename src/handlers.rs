//! The service operations as the request layer sees them: typed requests in,
//! response envelopes or a status code out. Decoding a stored answer is left
//! to the caller, which hands the decoded value (or `None`) in.

use crate::codec::{decode_options, opt_texts, options_of_blob};
use crate::models::{
    AdapterReply, Answer, ClearQuestionsData, ClearQuestionsResponse, CreateQuestionData,
    CreateQuestionRequest, CreateQuestionResponse, DeleteQuestionData, DeleteQuestionResponse,
    GetAllQuestionsData, GetAllQuestionsResponse, ImportQuestionsData, ImportQuestionsRequest,
    ImportQuestionsResponse, Question, QuestionResponse, SearchResponse,
};
use crate::store::{create_outcome, has_id, matching, QuestionService};
use crate::text::{decimal, decimal_text};
use vstd::prelude::*;
use vstd::string::{StrSliceExecFns, StringExecFns};

verus! {

/// The status code for a request whose subject was not found.
pub const NOT_FOUND: u16 = 404;

/// The status code for a write that the store refused.
pub const INTERNAL_SERVER_ERROR: u16 = 500;

/// The status code of a successful response envelope.
pub const OK_CODE: i32 = 200;

/// The first stored question whose text contains `keyword`, if any.
pub fn perform_search(service: &QuestionService, keyword: &str) -> (r: Option<Question>)
    requires
        service.wf(),
    ensures
        matching(service.records(), keyword@).len() == 0 ==> r is None,
        matching(service.records(), keyword@).len() > 0 ==> r == Some(
            matching(service.records(), keyword@)[0],
        ),
{
    let mut found = service.search_questions(keyword);
    if found.len() == 0 {
        None
    } else {
        Some(found.remove(0))
    }
}

/// The answer handed in, or the empty answer when it could not be decoded.
pub fn answer_or_default(decoded: Option<Answer>) -> (r: Answer)
    ensures
        decoded matches Some(a) ==> r == a,
        decoded is None ==> r.is_empty(),
{
    match decoded {
        Some(a) => a,
        None => Answer::default(),
    }
}

/// A stored row with its options decoded (absent when unreadable) and its
/// answer as decoded by the caller (empty when unreadable).
pub fn convert_question_to_response(question: &Question, answer: Option<Answer>) -> (r:
    QuestionResponse)
    ensures
        r.id == question.id,
        r.question@ == question.question@,
        opt_texts(r.options) == options_of_blob(question.options),
        r.question_type == question.question_type,
        answer matches Some(a) ==> r.answer == a,
        answer is None ==> r.answer.is_empty(),
{
    QuestionResponse {
        id: question.id,
        question: question.question.clone(),
        options: decode_options(&question.options),
        question_type: question.question_type,
        answer: answer_or_default(answer),
    }
}

/// The lookup response for a found row, decoded as for a listing.
pub fn search_response(question: &Question, answer: Option<Answer>) -> (r: SearchResponse)
    ensures
        r.plat == 1,
        r.question@ == question.question@,
        opt_texts(r.options) == options_of_blob(question.options),
        r.question_type == question.question_type,
        answer matches Some(a) ==> r.answer == a,
        answer is None ==> r.answer.is_empty(),
{
    SearchResponse {
        plat: 1,
        question: question.question.clone(),
        options: decode_options(&question.options),
        question_type: question.question_type,
        answer: answer_or_default(answer),
    }
}

/// `r` is `a` with every absent list or text replaced by an empty one.
pub open spec fn filled_from(r: Answer, a: Answer) -> bool {
    &&& a.answer_key matches Some(v) ==> r.answer_key == Some(v)
    &&& a.answer_key is None ==> (r.answer_key matches Some(v) && v@.len() == 0)
    &&& a.answer_key_text matches Some(t) ==> r.answer_key_text == Some(t)
    &&& a.answer_key_text is None ==> (r.answer_key_text matches Some(t) && t@.len() == 0)
    &&& a.answer_index matches Some(v) ==> r.answer_index == Some(v)
    &&& a.answer_index is None ==> (r.answer_index matches Some(v) && v@.len() == 0)
    &&& a.answer_text matches Some(t) ==> r.answer_text == Some(t)
    &&& a.answer_text is None ==> (r.answer_text matches Some(t) && t@.len() == 0)
    &&& a.best_answer matches Some(v) ==> r.best_answer == Some(v)
    &&& a.best_answer is None ==> (r.best_answer matches Some(v) && v@.len() == 0)
    &&& a.all_answer matches Some(v) ==> r.all_answer == Some(v)
    &&& a.all_answer is None ==> (r.all_answer matches Some(v) && v@.len() == 0)
}

/// An answer with every field present: absent lists and texts become empty.
pub fn filled_answer(a: Answer) -> (r: Answer)
    ensures
        filled_from(r, a),
        a.answer_key matches Some(v) ==> r.answer_key == Some(v),
        a.answer_key is None ==> (r.answer_key matches Some(v) && v@.len() == 0),
        a.answer_key_text matches Some(t) ==> r.answer_key_text == Some(t),
        a.answer_key_text is None ==> (r.answer_key_text matches Some(t) && t@.len() == 0),
        a.answer_index matches Some(v) ==> r.answer_index == Some(v),
        a.answer_index is None ==> (r.answer_index matches Some(v) && v@.len() == 0),
        a.answer_text matches Some(t) ==> r.answer_text == Some(t),
        a.answer_text is None ==> (r.answer_text matches Some(t) && t@.len() == 0),
        a.best_answer matches Some(v) ==> r.best_answer == Some(v),
        a.best_answer is None ==> (r.best_answer matches Some(v) && v@.len() == 0),
        a.all_answer matches Some(v) ==> r.all_answer == Some(v),
        a.all_answer is None ==> (r.all_answer matches Some(v) && v@.len() == 0),
{
    Answer {
        answer_key: match a.answer_key {
            Some(v) => Some(v),
            None => Some(Vec::new()),
        },
        answer_key_text: match a.answer_key_text {
            Some(t) => Some(t),
            None => Some(String::new()),
        },
        answer_index: match a.answer_index {
            Some(v) => Some(v),
            None => Some(Vec::new()),
        },
        answer_text: match a.answer_text {
            Some(t) => Some(t),
            None => Some(String::new()),
        },
        best_answer: match a.best_answer {
            Some(v) => Some(v),
            None => Some(Vec::new()),
        },
        all_answer: match a.all_answer {
            Some(v) => Some(v),
            None => Some(Vec::new()),
        },
    }
}

/// The reply to a loosely typed lookup that found a row: its options decoded
/// (absent when unreadable) and every answer field present, absent ones, or
/// all of them when the stored answer could not be decoded, as empty values.
pub fn build_search_response(question: &Question, answer: Option<Answer>) -> (r: AdapterReply)
    ensures
        r.question@ == question.question@,
        r.question_type == question.question_type,
        opt_texts(r.options) == options_of_blob(question.options),
        answer matches Some(a) ==> filled_from(r.answer, a),
        answer is None ==> filled_from(r.answer, Answer::empty_spec()),
{
    let a = answer_or_default(answer);
    let filled = filled_answer(a);
    AdapterReply {
        question: question.question.clone(),
        question_type: question.question_type,
        options: decode_options(&question.options),
        answer: filled,
    }
}

/// What a loosely typed lookup comes to.
pub enum AdapterOutcome {
    /// The request named no question text.
    EmptyQuestion,
    /// No stored question contains the text.
    NoMatch,
    /// The first stored question that contains the text.
    Found(Question),
}

/// A lookup from a request whose question text may be missing (given as
/// empty): an empty text is refused before the table is searched.
pub fn adapter_search_questions(service: &QuestionService, question: &str) -> (r: AdapterOutcome)
    requires
        service.wf(),
    ensures
        question@.len() == 0 <==> r is EmptyQuestion,
        question@.len() > 0 && matching(service.records(), question@).len() == 0 ==> r is NoMatch,
        question@.len() > 0 && matching(service.records(), question@).len() > 0 ==> r
            == AdapterOutcome::Found(matching(service.records(), question@)[0]),
{
    if question.unicode_len() == 0 {
        return AdapterOutcome::EmptyQuestion;
    }
    match perform_search(service, question) {
        Some(q) => AdapterOutcome::Found(q),
        None => AdapterOutcome::NoMatch,
    }
}

/// Creates one question; a refused write answers with the server-error status.
pub fn create_question(service: &mut QuestionService, request: CreateQuestionRequest) -> (r:
    Result<CreateQuestionResponse, u16>)
    requires
        old(service).wf(),
    ensures
        final(service).wf(),
        match create_outcome(
            old(service).texts(),
            old(service).next_id(),
            request.question@,
        ) {
            Ok(id) => r matches Ok(resp) && resp.code == OK_CODE && resp.data.success
                && resp.data.data == id && final(service).texts() == old(service).texts().insert(
                request.question@,
            ) && final(service).records().drop_last() == old(service).records()
                && final(service).records().len() == old(service).records().len() + 1
                && crate::store::row_of(
                final(service).records().last(),
                id,
                request.question@,
                request.options,
                request.question_type,
                request.answer,
            ),
            Err(_) => r == Err::<CreateQuestionResponse, u16>(INTERNAL_SERVER_ERROR) && *final(service) == *old(service),
        },
{
    let ghost before = service.records();
    let outcome = service.create_question(
        request.question.as_str(),
        request.options,
        request.question_type,
        &request.answer,
    );
    match outcome {
        Ok(id) => {
            proof {
                assert forall|q: Seq<char>|
                    #![trigger service.texts().contains(q)]
                    service.texts().contains(q) == old(service).texts().insert(
                        request.question@,
                    ).contains(q) by {
                    let now = service.records();
                    if exists|k: int| 0 <= k < before.len() && before[k].question@ == q {
                        let k = choose|k: int| 0 <= k < before.len() && before[k].question@ == q;
                        assert(now[k] == now.drop_last()[k]);
                    }
                    if exists|k: int| 0 <= k < now.len() && now[k].question@ == q {
                        let k = choose|k: int| 0 <= k < now.len() && now[k].question@ == q;
                        if k < before.len() {
                            assert(now[k] == now.drop_last()[k]);
                        }
                    }
                    assert(now[now.len() - 1].question@ == request.question@);
                }
                assert(service.texts() =~= old(service).texts().insert(request.question@));
            }
            Ok(
                CreateQuestionResponse {
                    code: OK_CODE,
                    data: CreateQuestionData {
                        msg: String::from_str("question created"),
                        success: true,
                        data: id,
                    },
                },
            )
        },
        Err(_) => Err(INTERNAL_SERVER_ERROR),
    }
}

/// Every stored row with its answer as decoded by the caller, one per row.
pub fn get_all_questions(rows: &Vec<Question>, answers: Vec<Option<Answer>>) -> (r:
    GetAllQuestionsResponse)
    requires
        answers@.len() == rows@.len(),
    ensures
        r.code == OK_CODE,
        r.data.success,
        r.data.data@.len() == rows@.len(),
        forall|i: int|
            0 <= i < rows@.len() ==> {
                let resp = #[trigger] r.data.data@[i];
                &&& resp.id == rows@[i].id
                &&& resp.question@ == rows@[i].question@
                &&& opt_texts(resp.options) == options_of_blob(rows@[i].options)
                &&& resp.question_type == rows@[i].question_type
                &&& answers@[i] matches Some(a) ==> resp.answer == a
                &&& answers@[i] is None ==> resp.answer.is_empty()
            },
{
    let mut out: Vec<QuestionResponse> = Vec::new();
    let mut answers = answers;
    let ghost given = answers@;
    let mut i: usize = 0;
    while i < rows.len()
        invariant
            given.len() == rows@.len(),
            i <= rows@.len(),
            answers@.len() == rows@.len() - i,
            forall|k: int| 0 <= k < answers@.len() ==> answers@[k] == given[k + i],
            out@.len() == i,
            forall|k: int|
                0 <= k < i ==> {
                    let resp = #[trigger] out@[k];
                    &&& resp.id == rows@[k].id
                    &&& resp.question@ == rows@[k].question@
                    &&& opt_texts(resp.options) == options_of_blob(rows@[k].options)
                    &&& resp.question_type == rows@[k].question_type
                    &&& given[k] matches Some(a) ==> resp.answer == a
                    &&& given[k] is None ==> resp.answer.is_empty()
                },
        decreases rows@.len() - i,
    {
        let a = answers.remove(0);
        out.push(convert_question_to_response(&rows[i], a));
        i += 1;
    }
    GetAllQuestionsResponse {
        code: OK_CODE,
        data: GetAllQuestionsData {
            msg: String::from_str("all questions fetched"),
            success: true,
            data: out,
        },
    }
}

/// The summary line of a batch import.
pub open spec fn summary_text(succeeded: nat, failed: nat) -> Seq<char> {
    "import finished, succeeded: "@ + decimal(succeeded) + ", failed: "@ + decimal(failed)
}

/// The summary line of a batch import, from its two counts.
fn summary_line(succeeded: i32, failed: i32) -> (r: String)
    requires
        succeeded >= 0,
        failed >= 0,
    ensures
        r@ == summary_text(succeeded as nat, failed as nat),
{
    let mut out = String::from_str("import finished, succeeded: ");
    let s = decimal_text(succeeded as u64);
    out.append(s.as_str());
    out.append(", failed: ");
    let f = decimal_text(failed as u64);
    out.append(f.as_str());
    out
}

/// Imports a batch and wraps its accounting in a response envelope.
pub fn import_questions(service: &mut QuestionService, request: &ImportQuestionsRequest) -> (r:
    ImportQuestionsResponse)
    requires
        old(service).wf(),
        request.questions@.len() < i32::MAX,
    ensures
        final(service).wf(),
        r.code == OK_CODE,
        r.data.success,
        r.data.data.success_count >= 0,
        r.data.data.failed_count >= 0,
        r.data.data.success_count + r.data.data.failed_count == request.questions@.len(),
        final(service).records().subrange(0, old(service).records().len() as int) == old(
            service).records(),
        r.data.msg@ == summary_text(
            r.data.data.success_count as nat,
            r.data.data.failed_count as nat,
        ),
        ({
            let (stored, next, outs) = crate::store::run_batch(
                old(service).texts(),
                old(service).next_id(),
                request.questions@,
            );
            &&& final(service).texts() == stored
            &&& r.data.data.failed_count == crate::store::failure_log(outs).len()
            &&& r.data.data.errors is None <==> crate::store::failure_log(outs).len() == 0
            &&& r.data.data.errors matches Some(v) ==> crate::codec::texts(v@)
                == crate::store::failure_log(outs)
            &&& crate::store::rows_created(
                final(service).records(),
                old(service).records().len() as int,
                crate::store::succeeded(request.questions@, outs),
                crate::store::assigned_ids(outs),
            )
        }),
{
    let result = service.import_questions(&request.questions);
    let msg = summary_line(result.success_count, result.failed_count);
    ImportQuestionsResponse {
        code: OK_CODE,
        data: ImportQuestionsData { msg, success: true, data: result },
    }
}

/// Deletes a row by id; an unknown id answers with the not-found status.
pub fn delete_question(service: &mut QuestionService, id: i64) -> (r: Result<
    DeleteQuestionResponse,
    u16,
>)
    requires
        old(service).wf(),
    ensures
        final(service).wf(),
        has_id(old(service).records(), id) <==> r is Ok,
        r matches Err(code) ==> code == NOT_FOUND && final(service).records() == old(service).records(),
        r matches Ok(resp) ==> resp.code == OK_CODE && resp.data.success && !has_id(
            final(service).records(),
            id,
        ),
        r is Ok ==> exists|i: int|
            0 <= i < old(service).records().len() && old(service).records()[i].id == Some(id)
                && final(service).records() == old(service).records().remove(i),
        final(service).next_id() == old(service).next_id(),
{
    let ghost before = *service;
    let deleted = service.delete_question(id);
    if !deleted {
        return Err(NOT_FOUND);
    }
    proof {
        let i = choose|i: int|
            0 <= i < before.records().len() && before.records()[i].id == Some(id)
                && service.records() == before.records().remove(i);
        crate::store::lemma_deleted_id_absent(before, i, id);
    }
    Ok(
        DeleteQuestionResponse {
            code: OK_CODE,
            data: DeleteQuestionData {
                msg: String::from_str("question deleted"),
                success: true,
                data: (),
            },
        },
    )
}

/// Removes every row.
pub fn clear_questions(service: &mut QuestionService) -> (r: ClearQuestionsResponse)
    requires
        old(service).wf(),
    ensures
        final(service).wf(),
        final(service).records().len() == 0,
        r.code == OK_CODE,
        r.data.success,
{
    service.clear_questions();
    ClearQuestionsResponse {
        code: OK_CODE,
        data: ClearQuestionsData {
            msg: String::from_str("all questions cleared"),
            success: true,
            data: (),
        },
    }
}

} // verus!
