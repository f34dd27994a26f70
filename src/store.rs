//! The question table: rows with store-assigned ids and unique question texts.

use crate::codec::{answer_json, encode_answer, encode_options, opt_text, options_json, texts};
use crate::models::{Answer, CreateQuestionRequest, ImportResult, Question};
use crate::text::{contains_folded, contains_keyword, decimal, decimal_text, same_text};
use vstd::string::StringExecFns;
use vstd::prelude::*;

verus! {

/// Why a write to the question table failed.
#[derive(Clone, Copy, Debug, PartialEq, Eq, Structural)]
pub enum StoreError {
    /// The table can take no more rows: its ids are used up. (A database
    /// that cannot be reached is the concern of the program that persists
    /// the table, not of the table itself.)
    StorageUnavailable,
    /// A row with the same question text is already stored.
    DuplicateQuestion,
    /// The answer could not be encoded to its stored text form. The table's
    /// encoders cannot fail, so its own operations never report this.
    SerializationFailure,
    /// A row read back from persistent storage has no id, or one below the
    /// next id to assign.
    InvalidId,
}

/// Some row of `rows` has question text `q`.
pub open spec fn has_text(rows: Seq<Question>, q: Seq<char>) -> bool {
    exists|i: int| 0 <= i < rows.len() && rows[i].question@ == q
}

/// Some row of `rows` has id `id`.
pub open spec fn has_id(rows: Seq<Question>, id: i64) -> bool {
    exists|i: int| 0 <= i < rows.len() && rows[i].id == Some(id)
}

/// The rows whose question text contains `k`, ASCII letter case ignored, in
/// table order.
pub open spec fn matching(rows: Seq<Question>, k: Seq<char>) -> Seq<Question>
    decreases rows.len(),
{
    if rows.len() == 0 {
        Seq::empty()
    } else {
        let before = matching(rows.drop_last(), k);
        if contains_folded(rows.last().question@, k) {
            before.push(rows.last())
        } else {
            before
        }
    }
}

/// What creating a question does, given the texts stored and the next id:
/// the text is checked for a duplicate, then an id is assigned.
pub open spec fn create_outcome(
    stored: Set<Seq<char>>,
    next: i64,
    question: Seq<char>,
) -> Result<i64, StoreError> {
    if stored.contains(question) {
        Err(StoreError::DuplicateQuestion)
    } else if next == i64::MAX {
        Err(StoreError::StorageUnavailable)
    } else {
        Ok(next)
    }
}

/// `row` is the row stored for a question created with these values under `id`.
pub open spec fn row_of(
    row: Question,
    id: i64,
    question: Seq<char>,
    options: Option<Vec<String>>,
    question_type: i32,
    answer: Answer,
) -> bool {
    &&& row.id == Some(id)
    &&& row.question@ == question
    &&& opt_text(row.options) == options_json(options)
    &&& row.question_type == question_type
    &&& row.answer@ == answer_json(answer)
}

/// The text that describes a failed write.
pub open spec fn error_text(e: StoreError) -> Seq<char> {
    match e {
        StoreError::StorageUnavailable => "storage unavailable"@,
        StoreError::DuplicateQuestion => "question already exists"@,
        StoreError::SerializationFailure => "answer could not be serialized"@,
        StoreError::InvalidId => "stored row has no usable id"@,
    }
}

impl StoreError {
    /// A human-readable description of the failure.
    pub fn message(&self) -> (r: String)
        ensures
            r@ == error_text(*self),
    {
        match self {
            StoreError::StorageUnavailable => String::from_str("storage unavailable"),
            StoreError::DuplicateQuestion => String::from_str("question already exists"),
            StoreError::SerializationFailure => String::from_str("answer could not be serialized"),
            StoreError::InvalidId => String::from_str("stored row has no usable id"),
        }
    }
}

/// The log line for the item at 1-based `position` of a batch that failed.
pub open spec fn failure_text(position: nat, e: StoreError) -> Seq<char> {
    "question "@ + decimal(position) + " failed to import: "@ + error_text(e)
}

/// The log line for a failed item, from its position and its failure text.
fn failure_line(position: usize, reason: &str) -> (r: String)
    ensures
        r@ == "question "@ + decimal(position as nat) + " failed to import: "@ + reason@,
{
    let mut out = String::from_str("question ");
    let digits = decimal_text(position as u64);
    out.append(digits.as_str());
    out.append(" failed to import: ");
    out.append(reason);
    out
}

/// Applying creation to each item in order, from the stored texts and the
/// next id: the texts and next id afterwards, and each item's outcome.
pub open spec fn run_batch(
    stored: Set<Seq<char>>,
    next: i64,
    items: Seq<CreateQuestionRequest>,
) -> (Set<Seq<char>>, i64, Seq<Result<i64, StoreError>>)
    decreases items.len(),
{
    if items.len() == 0 {
        (stored, next, Seq::empty())
    } else {
        let (s, n, outs) = run_batch(stored, next, items.drop_last());
        let item = items.last();
        let o = create_outcome(s, n, item.question@);
        match o {
            Ok(id) => (s.insert(item.question@), (id + 1) as i64, outs.push(o)),
            Err(_) => (s, n, outs.push(o)),
        }
    }
}

/// The items whose outcome was a success, in order.
pub open spec fn succeeded(
    items: Seq<CreateQuestionRequest>,
    outs: Seq<Result<i64, StoreError>>,
) -> Seq<CreateQuestionRequest>
    decreases items.len(),
{
    if items.len() == 0 || outs.len() == 0 {
        Seq::empty()
    } else {
        let before = succeeded(items.drop_last(), outs.drop_last());
        if outs.last() is Ok {
            before.push(items.last())
        } else {
            before
        }
    }
}

/// The ids assigned by the successful outcomes, in order.
pub open spec fn assigned_ids(outs: Seq<Result<i64, StoreError>>) -> Seq<i64>
    decreases outs.len(),
{
    if outs.len() == 0 {
        Seq::empty()
    } else {
        let before = assigned_ids(outs.drop_last());
        match outs.last() {
            Ok(id) => before.push(id),
            Err(_) => before,
        }
    }
}

/// The rows from `start` on are, one for one, the rows created for `items`
/// under `ids`.
pub open spec fn rows_created(
    rows: Seq<Question>,
    start: int,
    items: Seq<CreateQuestionRequest>,
    ids: Seq<i64>,
) -> bool {
    &&& rows.len() == start + items.len()
    &&& ids.len() == items.len()
    &&& forall|j: int|
        0 <= j < items.len() ==> row_of(
            #[trigger] rows[start + j],
            ids[j],
            items[j].question@,
            items[j].options,
            items[j].question_type,
            items[j].answer,
        )
}

/// A copy of optional options with the same stored form.
fn copy_options(o: &Option<Vec<String>>) -> (r: Option<Vec<String>>)
    ensures
        options_json(r) == options_json(*o),
{
    match o {
        None => None,
        Some(v) => {
            let mut out: Vec<String> = Vec::new();
            let mut i: usize = 0;
            while i < v.len()
                invariant
                    i <= v@.len(),
                    out@.len() == i,
                    forall|k: int| 0 <= k < i ==> out@[k]@ == v@[k]@,
                decreases v@.len() - i,
            {
                out.push(v[i].clone());
                i += 1;
            }
            assert(texts(out@) =~= texts(v@));
            Some(out)
        },
    }
}

/// The log lines for the failed outcomes, each naming its 1-based position.
pub open spec fn failure_log(outs: Seq<Result<i64, StoreError>>) -> Seq<Seq<char>>
    decreases outs.len(),
{
    if outs.len() == 0 {
        Seq::empty()
    } else {
        let before = failure_log(outs.drop_last());
        match outs.last() {
            Ok(_) => before,
            Err(e) => before.push(failure_text(outs.len() as nat, e)),
        }
    }
}

proof fn lemma_failure_log_len(outs: Seq<Result<i64, StoreError>>)
    ensures
        failure_log(outs).len() <= outs.len(),
    decreases outs.len(),
{
    if outs.len() > 0 {
        lemma_failure_log_len(outs.drop_last());
    }
}

/// The question table.
pub struct QuestionService {
    rows: Vec<Question>,
    next_id: i64,
}

impl QuestionService {
    /// The stored rows, in ascending id order.
    pub closed spec fn records(&self) -> Seq<Question> {
        self.rows@
    }

    /// The id that the next created question receives.
    pub closed spec fn next_id(&self) -> i64 {
        self.next_id
    }

    /// The question texts stored.
    pub open spec fn texts(&self) -> Set<Seq<char>> {
        Set::new(|q: Seq<char>| has_text(self.records(), q))
    }

    /// Every row has an id below the next one, ids ascend, texts are unique.
    pub closed spec fn wf(&self) -> bool {
        &&& 1 <= self.next_id
        &&& forall|i: int| 0 <= i < self.rows@.len() ==> (#[trigger] self.rows@[i]).id is Some
        &&& forall|i: int|
            0 <= i < self.rows@.len() ==> 1 <= (#[trigger] self.rows@[i]).id->0 < self.next_id
        &&& forall|i: int, j: int|
            0 <= i < j < self.rows@.len() ==> (#[trigger] self.rows@[i]).id->0
                < (#[trigger] self.rows@[j]).id->0
        &&& forall|i: int, j: int|
            0 <= i < self.rows@.len() && 0 <= j < self.rows@.len() && i != j
                ==> (#[trigger] self.rows@[i]).question@ != (#[trigger] self.rows@[j]).question@
    }

    /// What a well-formed table guarantees: every row has an id between 1 and
    /// the next id, ids ascend strictly in table order, and no two rows share
    /// a question text.
    pub proof fn lemma_wf_facts(&self)
        requires
            self.wf(),
        ensures
            1 <= self.next_id(),
            forall|i: int|
                0 <= i < self.records().len() ==> (#[trigger] self.records()[i]).id is Some && 1
                    <= self.records()[i].id->0 < self.next_id(),
            forall|i: int, j: int|
                0 <= i < j < self.records().len() ==> (#[trigger] self.records()[i]).id->0
                    < (#[trigger] self.records()[j]).id->0,
            forall|i: int, j: int|
                0 <= i < self.records().len() && 0 <= j < self.records().len() && i != j
                    ==> (#[trigger] self.records()[i]).question@
                    != (#[trigger] self.records()[j]).question@,
    {
    }

    /// An empty table whose first id is 1.
    pub fn new() -> (r: QuestionService)
        ensures
            r.wf(),
            r.records() == Seq::<Question>::empty(),
            r.next_id() == 1,
    {
        QuestionService { rows: Vec::new(), next_id: 1 }
    }

    /// Whether a row with exactly this question text is stored.
    pub fn question_exists(&self, question: &str) -> (r: bool)
        requires
            self.wf(),
        ensures
            r == has_text(self.records(), question@),
    {
        let mut i: usize = 0;
        while i < self.rows.len()
            invariant
                i <= self.rows@.len(),
                forall|l: int| 0 <= l < i ==> self.rows@[l].question@ != question@,
            decreases self.rows@.len() - i,
        {
            if same_text(self.rows[i].question.as_str(), question) {
                return true;
            }
            i += 1;
        }
        false
    }

    /// Every stored row, in ascending id order.
    pub fn get_all_questions(&self) -> (r: Vec<Question>)
        requires
            self.wf(),
        ensures
            r@ == self.records(),
    {
        let mut out: Vec<Question> = Vec::new();
        let mut i: usize = 0;
        while i < self.rows.len()
            invariant
                i <= self.rows@.len(),
                out@ == self.rows@.subrange(0, i as int),
            decreases self.rows@.len() - i,
        {
            out.push(self.rows[i].copied());
            i += 1;
            assert(out@ =~= self.rows@.subrange(0, i as int));
        }
        assert(self.rows@.subrange(0, self.rows@.len() as int) =~= self.rows@);
        out
    }

    /// The rows whose question text contains `keyword`, in table order.
    pub fn search_questions(&self, keyword: &str) -> (r: Vec<Question>)
        requires
            self.wf(),
        ensures
            r@ == matching(self.records(), keyword@),
    {
        let mut out: Vec<Question> = Vec::new();
        let mut i: usize = 0;
        while i < self.rows.len()
            invariant
                i <= self.rows@.len(),
                out@ == matching(self.rows@.subrange(0, i as int), keyword@),
            decreases self.rows@.len() - i,
        {
            let ghost before = self.rows@.subrange(0, i as int);
            let ghost after = self.rows@.subrange(0, i + 1);
            assert(after.drop_last() =~= before);
            assert(after.last() == self.rows@[i as int]);
            if contains_keyword(self.rows[i].question.as_str(), keyword) {
                out.push(self.rows[i].copied());
            }
            i += 1;
        }
        assert(self.rows@.subrange(0, self.rows@.len() as int) =~= self.rows@);
        out
    }

    /// Stores a new question under the next id. Fails, leaving the table as it
    /// was, when the text is already stored or when ids are exhausted.
    pub fn create_question(
        &mut self,
        question: &str,
        options: Option<Vec<String>>,
        question_type: i32,
        answer: &Answer,
    ) -> (r: Result<i64, StoreError>)
        requires
            old(self).wf(),
        ensures
            final(self).wf(),
            r == create_outcome(old(self).texts(), old(self).next_id(), question@),
            r is Err ==> *final(self) == *old(self),
            r matches Ok(id) ==> {
                &&& final(self).records().drop_last() == old(self).records()
                &&& final(self).records().len() == old(self).records().len() + 1
                &&& row_of(
                    final(self).records().last(),
                    id,
                    question@,
                    options,
                    question_type,
                    *answer,
                )
                &&& final(self).next_id() == id + 1
            },
    {
        let options_json = encode_options(&options);
        let answer_json = encode_answer(answer);
        if self.question_exists(question) {
            assert(self.texts().contains(question@));
            return Err(StoreError::DuplicateQuestion);
        }
        assert(!self.texts().contains(question@));
        if self.next_id == i64::MAX {
            return Err(StoreError::StorageUnavailable);
        }
        let id = self.next_id;
        let row = Question {
            id: Some(id),
            question: question.to_owned(),
            options: options_json,
            question_type,
            answer: answer_json,
        };
        let ghost prev = self.rows@;
        self.rows.push(row);
        self.next_id = id + 1;
        assert(self.rows@.drop_last() =~= prev);
        assert forall|i: int, j: int|
            0 <= i < self.rows@.len() && 0 <= j < self.rows@.len() && i != j
                implies (#[trigger] self.rows@[i]).question@ != (#[trigger] self.rows@[j]).question@ by {
            if i == prev.len() {
                assert(prev[j] == self.rows@[j]);
            } else if j == prev.len() {
                assert(prev[i] == self.rows@[i]);
            }
        }
        Ok(id)
    }

    /// Removes the row with this id; `false`, with the table unchanged, when
    /// no row has it.
    pub fn delete_question(&mut self, id: i64) -> (r: bool)
        requires
            old(self).wf(),
        ensures
            final(self).wf(),
            r == has_id(old(self).records(), id),
            final(self).next_id() == old(self).next_id(),
            !r ==> final(self).records() == old(self).records(),
            r ==> exists|i: int|
                0 <= i < old(self).records().len() && old(self).records()[i].id == Some(id)
                    && final(self).records() == old(self).records().remove(i),
    {
        let mut i: usize = 0;
        while i < self.rows.len()
            invariant
                *self == *old(self),
                old(self).wf(),
                i <= self.rows@.len(),
                forall|l: int| 0 <= l < i ==> self.rows@[l].id != Some(id),
            decreases self.rows@.len() - i,
        {
            let hit = match self.rows[i].id {
                Some(x) => x == id,
                None => false,
            };
            if hit {
                let ghost prev = self.rows@;
                self.rows.remove(i);
                proof {
                    prev.remove_ensures(i as int);
                    assert(self.rows@ == prev.remove(i as int));
                    assert forall|a: int, b: int|
                        0 <= a < b < self.rows@.len() implies (#[trigger] self.rows@[a]).id->0
                            < (#[trigger] self.rows@[b]).id->0 by {
                        let pa = if a < i { a } else { a + 1 };
                        let pb = if b < i { b } else { b + 1 };
                        assert(self.rows@[a] == prev[pa]);
                        assert(self.rows@[b] == prev[pb]);
                    }
                    assert forall|a: int, b: int|
                        0 <= a < self.rows@.len() && 0 <= b < self.rows@.len() && a != b
                            implies (#[trigger] self.rows@[a]).question@
                            != (#[trigger] self.rows@[b]).question@ by {
                        let pa = if a < i { a } else { a + 1 };
                        let pb = if b < i { b } else { b + 1 };
                        assert(self.rows@[a] == prev[pa]);
                        assert(self.rows@[b] == prev[pb]);
                    }
                    assert forall|a: int| 0 <= a < self.rows@.len() implies
                        (#[trigger] self.rows@[a]).id is Some
                            && 1 <= self.rows@[a].id->0 < self.next_id by {
                        let pa = if a < i { a } else { a + 1 };
                        assert(self.rows@[a] == prev[pa]);
                    }
                }
                return true;
            }
            i += 1;
        }
        false
    }

    /// Takes back a row read from persistent storage: accepted when it has an
    /// id not below the next one and a text not yet stored; the next id then
    /// follows it. A row without a usable id is refused as `InvalidId`, one
    /// with a stored text as `DuplicateQuestion`.
    pub fn load_row(&mut self, row: Question) -> (r: Result<(), StoreError>)
        requires
            old(self).wf(),
        ensures
            final(self).wf(),
            r is Ok <==> (row.id is Some && old(self).next_id() <= row.id->0 < i64::MAX
                && !has_text(old(self).records(), row.question@)),
            r is Err ==> *final(self) == *old(self),
            r == Err::<(), StoreError>(StoreError::InvalidId) <==> !(row.id is Some
                && old(self).next_id() <= row.id->0 < i64::MAX),
            r is Ok ==> final(self).records() == old(self).records().push(row)
                && final(self).next_id() == row.id->0 + 1,
    {
        let id = match row.id {
            Some(x) => x,
            None => return Err(StoreError::InvalidId),
        };
        if id < self.next_id || id == i64::MAX {
            return Err(StoreError::InvalidId);
        }
        if self.question_exists(row.question.as_str()) {
            return Err(StoreError::DuplicateQuestion);
        }
        let ghost prev = self.rows@;
        self.rows.push(row);
        self.next_id = id + 1;
        assert forall|i: int, j: int|
            0 <= i < self.rows@.len() && 0 <= j < self.rows@.len() && i != j
                implies (#[trigger] self.rows@[i]).question@ != (#[trigger] self.rows@[j]).question@ by {
            if i == prev.len() {
                assert(prev[j] == self.rows@[j]);
            } else if j == prev.len() {
                assert(prev[i] == self.rows@[i]);
            }
        }
        Ok(())
    }

    /// The most recently stored row, if any.
    pub fn last_row(&self) -> (r: Option<Question>)
        requires
            self.wf(),
        ensures
            self.records().len() == 0 ==> r is None,
            self.records().len() > 0 ==> r == Some(self.records().last()),
    {
        let n = self.rows.len();
        if n == 0 {
            None
        } else {
            Some(self.rows[n - 1].copied())
        }
    }

    /// Removes every row; ids are not reused afterwards.
    pub fn clear_questions(&mut self)
        requires
            old(self).wf(),
        ensures
            final(self).wf(),
            final(self).records() == Seq::<Question>::empty(),
            final(self).next_id() == old(self).next_id(),
    {
        self.rows = Vec::new();
    }

    /// Creates each item in order, never stopping at a failure, and accounts
    /// for the outcomes: failures are logged with their 1-based position, and
    /// the log is present only when some item failed.
    pub fn import_questions(&mut self, items: &Vec<CreateQuestionRequest>) -> (r: ImportResult)
        requires
            old(self).wf(),
            items@.len() < i32::MAX,
        ensures
            final(self).wf(),
            ({
                let (stored, next, outs) = run_batch(old(self).texts(), old(self).next_id(), items@);
                &&& final(self).texts() == stored
                &&& final(self).next_id() == next
                &&& r.failed_count == failure_log(outs).len()
                &&& r.success_count == items@.len() - failure_log(outs).len()
                &&& r.errors is None <==> failure_log(outs).len() == 0
                &&& r.errors matches Some(v) ==> texts(v@) == failure_log(outs)
                &&& rows_created(
                    final(self).records(),
                    old(self).records().len() as int,
                    succeeded(items@, outs),
                    assigned_ids(outs),
                )
            }),
            final(self).records().subrange(0, old(self).records().len() as int)
                == old(self).records(),
            r.success_count >= 0,
            r.failed_count >= 0,
            r.success_count + r.failed_count == items@.len(),
    {
        let ghost old_records = self.rows@;
        let mut success_count: i32 = 0;
        let mut failed_count: i32 = 0;
        let mut errors: Vec<String> = Vec::new();
        let mut i: usize = 0;
        while i < items.len()
            invariant
                self.wf(),
                i <= items@.len(),
                items@.len() < i32::MAX,
                ({
                    let (stored, next, outs) = run_batch(old(self).texts(), old(self).next_id(), items@.subrange(0, i as int));
                    &&& self.texts() == stored
                    &&& self.next_id() == next
                    &&& outs.len() == i
                    &&& failed_count == failure_log(outs).len()
                    &&& success_count == i - failure_log(outs).len()
                    &&& texts(errors@) == failure_log(outs)
                    &&& rows_created(
                        self.records(),
                        old_records.len() as int,
                        succeeded(items@.subrange(0, i as int), outs),
                        assigned_ids(outs),
                    )
                }),
                self.records().subrange(0, old_records.len() as int) == old_records,
                old_records == old(self).records(),
                old_records.len() <= self.records().len(),
            decreases items@.len() - i,
        {
            let ghost prefix = items@.subrange(0, i as int);
            let ghost grown = items@.subrange(0, i + 1);
            let ghost before_rows = self.rows@;
            let ghost before_texts = self.texts();
            let ghost before_errors = errors@;
            proof {
                let (st, nx, outs) = run_batch(old(self).texts(), old(self).next_id(), prefix);
                assert(rows_created(self.records(), old_records.len() as int, succeeded(prefix, outs), assigned_ids(outs)));
            }
            assert(grown.drop_last() =~= prefix);
            assert(grown.last() == items@[i as int]);
            proof {
                let (st, nx, outs) = run_batch(old(self).texts(), old(self).next_id(), prefix);
                lemma_failure_log_len(outs);
            }
            let item = &items[i];
            let outcome = self.create_question(
                item.question.as_str(),
                copy_options(&item.options),
                item.question_type,
                &item.answer,
            );
            let ghost o = outcome;
            match outcome {
                Ok(_) => {
                    assert(self.texts() =~= before_texts.insert(item.question@)) by {
                        assert forall|q: Seq<char>| has_text(self.records(), q) <==> (has_text(before_rows, q) || q == item.question@) by {
                            if has_text(before_rows, q) {
                                let k = choose|k: int| 0 <= k < before_rows.len() && before_rows[k].question@ == q;
                                assert(self.records()[k] == self.records().drop_last()[k]);
                            }
                            if has_text(self.records(), q) {
                                let k = choose|k: int| 0 <= k < self.records().len() && self.records()[k].question@ == q;
                                if k < before_rows.len() {
                                    assert(self.records()[k] == self.records().drop_last()[k]);
                                }
                            }
                            if q == item.question@ {
                                assert(self.records()[self.records().len() - 1].question@ == q);
                            }
                        }
                    }
                    success_count = success_count + 1;
                },
                Err(e) => {
                    let reason = e.message();
                    errors.push(failure_line(i + 1, reason.as_str()));
                    assert(texts(errors@) =~= texts(before_errors).push(errors@.last()@));
                    failed_count = failed_count + 1;
                },
            }
            proof {
                let (st, nx, outs) = run_batch(old(self).texts(), old(self).next_id(), prefix);
                let (st2, nx2, outs2) = run_batch(old(self).texts(), old(self).next_id(), grown);
                assert(o == create_outcome(st, nx, grown.last().question@));
                assert(outs2 == outs.push(o));
                assert(outs2.drop_last() =~= outs);
                assert(outs2.last() == o);
                assert(self.texts() == st2);
                assert(self.next_id() == nx2);
                assert(texts(errors@) == failure_log(outs2));
                let sp = succeeded(prefix, outs);
                let sg = succeeded(grown, outs2);
                let ip = assigned_ids(outs);
                let ig = assigned_ids(outs2);
                let base = old_records.len() as int;
                if o is Ok {
                    assert(sg == sp.push(items@[i as int]));
                    assert(ig == ip.push(o->Ok_0));
                    assert forall|j: int| 0 <= j < sg.len() implies row_of(
                        #[trigger] self.records()[base + j],
                        ig[j],
                        sg[j].question@,
                        sg[j].options,
                        sg[j].question_type,
                        sg[j].answer,
                    ) by {
                        if j < sp.len() {
                            assert(self.records()[base + j] == self.records().drop_last()[base + j]);
                            assert(before_rows[base + j] == self.records()[base + j]);
                            assert(sg[j] == sp[j]);
                            assert(ig[j] == ip[j]);
                        } else {
                            assert(base + j == self.records().len() - 1);
                        }
                    }
                } else {
                    assert(sg == sp);
                    assert(ig == ip);
                }
            }
            i += 1;
        }
        assert(items@.subrange(0, items@.len() as int) =~= items@);
        proof {
            let (st, nx, outs) = run_batch(old(self).texts(), old(self).next_id(), items@);
            lemma_failure_log_len(outs);
        }
        if errors.len() == 0 {
            ImportResult { success_count, failed_count, errors: None }
        } else {
            ImportResult { success_count, failed_count, errors: Some(errors) }
        }
    }
}

/// Creating a question whose text is not stored succeeds, provided ids are
/// left; afterwards the text is stored.
pub proof fn lemma_create_new_text_then_exists(
    before: QuestionService,
    after: QuestionService,
    question: Seq<char>,
)
    requires
        before.wf(),
        !has_text(before.records(), question),
        before.next_id() < i64::MAX,
        after.records().drop_last() == before.records(),
        after.records().len() == before.records().len() + 1,
        after.records().last().question@ == question,
    ensures
        create_outcome(before.texts(), before.next_id(), question) == Ok::<i64, StoreError>(
            before.next_id(),
        ),
        has_text(after.records(), question),
{
    assert(!before.texts().contains(question));
    assert(after.records()[after.records().len() - 1].question@ == question);
}

/// Creating a question whose text is already stored fails as a duplicate,
/// and exactly one row holds that text.
pub proof fn lemma_create_stored_text_is_duplicate(
    store: QuestionService,
    question: Seq<char>,
)
    requires
        store.wf(),
        has_text(store.records(), question),
    ensures
        create_outcome(store.texts(), store.next_id(), question) == Err::<i64, StoreError>(
            StoreError::DuplicateQuestion,
        ),
        exists|i: int|
            0 <= i < store.records().len() && store.records()[i].question@ == question && forall|
                j: int,
            |
                0 <= j < store.records().len() && store.records()[j].question@ == question ==> j
                    == i,
{
    assert(store.texts().contains(question));
    let i = choose|i: int| 0 <= i < store.records().len() && store.records()[i].question@ == question;
    assert forall|j: int|
        0 <= j < store.records().len() && store.records()[j].question@ == question implies j == i by {
        if j != i {
            assert(store.rows@[i].question@ != store.rows@[j].question@);
        }
    }
}

/// After the row with a stored id is removed, no row has that id.
pub proof fn lemma_deleted_id_absent(store: QuestionService, i: int, id: i64)
    requires
        store.wf(),
        0 <= i < store.records().len(),
        store.records()[i].id == Some(id),
    ensures
        !has_id(store.records().remove(i), id),
{
    let rows = store.records();
    let rest = rows.remove(i);
    rows.remove_ensures(i);
    if has_id(rest, id) {
        let k = choose|k: int| 0 <= k < rest.len() && rest[k].id == Some(id);
        let pk = if k < i { k } else { k + 1 };
        assert(rest[k] == rows[pk]);
        if pk < i {
            assert(store.rows@[pk].id->0 < store.rows@[i].id->0);
        } else {
            assert(store.rows@[i].id->0 < store.rows@[pk].id->0);
        }
    }
}

/// A row is found by a keyword search exactly when it is stored and its
/// question text contains the keyword, ASCII letter case ignored; with no
/// such row the search is empty.
pub proof fn lemma_search_matches_substring(rows: Seq<Question>, k: Seq<char>)
    ensures
        forall|x: Question|
            matching(rows, k).contains(x) <==> (rows.contains(x) && contains_folded(x.question@, k)),
        (forall|i: int| 0 <= i < rows.len() ==> !contains_folded(rows[i].question@, k))
            ==> matching(rows, k).len() == 0,
    decreases rows.len(),
{
    if rows.len() > 0 {
        let init = rows.drop_last();
        lemma_search_matches_substring(init, k);
        assert(rows =~= init.push(rows.last()));
        assert forall|x: Question|
            matching(rows, k).contains(x) <==> (rows.contains(x) && contains_folded(
                x.question@,
                k,
            )) by {
            if rows.contains(x) {
                let j = choose|j: int| 0 <= j < rows.len() && rows[j] == x;
                if j < init.len() {
                    assert(init[j] == x);
                }
            }
            if init.contains(x) {
                let j = choose|j: int| 0 <= j < init.len() && init[j] == x;
                assert(rows[j] == x);
            }
            let m = matching(init, k);
            if contains_folded(rows.last().question@, k) {
                assert(m.push(rows.last())[m.len() as int] == rows.last());
                if m.push(rows.last()).contains(x) {
                    let j = choose|j: int| 0 <= j < m.len() + 1 && m.push(rows.last())[j] == x;
                    if j < m.len() {
                        assert(m[j] == x);
                    }
                }
                if m.contains(x) {
                    let j = choose|j: int| 0 <= j < m.len() && m[j] == x;
                    assert(m.push(rows.last())[j] == x);
                }
            }
        }
        if forall|i: int| 0 <= i < rows.len() ==> !contains_folded(rows[i].question@, k) {
            assert forall|i: int| 0 <= i < init.len() implies !contains_folded(init[i].question@, k) by {
                assert(init[i] == rows[i]);
            }
            assert(!contains_folded(rows[rows.len() - 1].question@, k));
        }
    }
}

/// Once the table is cleared, a listing of it is empty, whatever it held.
pub proof fn lemma_clear_then_list_empty(cleared: QuestionService, listing: Seq<Question>)
    requires
        cleared.records() == Seq::<Question>::empty(),
        listing == cleared.records(),
    ensures
        listing.len() == 0,
{
}

/// Importing three new questions into a table that holds none of their texts,
/// the second repeating the first: the first and third are stored, and the
/// single failure is the second, logged as a duplicate at position 2.
pub proof fn lemma_import_second_repeats_first(
    store: QuestionService,
    items: Seq<CreateQuestionRequest>,
)
    requires
        store.wf(),
        items.len() == 3,
        items[1].question@ == items[0].question@,
        items[2].question@ != items[0].question@,
        !has_text(store.records(), items[0].question@),
        !has_text(store.records(), items[2].question@),
        store.next_id() < i64::MAX - 2,
    ensures
        ({
            let (stored, next, outs) = run_batch(store.texts(), store.next_id(), items);
            &&& outs.len() == 3
            &&& outs[0] is Ok
            &&& outs[1] == Err::<i64, StoreError>(StoreError::DuplicateQuestion)
            &&& outs[2] is Ok
            &&& failure_log(outs) == seq![failure_text(2, StoreError::DuplicateQuestion)]
            &&& stored.contains(items[0].question@)
            &&& stored.contains(items[2].question@)
        }),
{
    let t0 = store.texts();
    let n0 = store.next_id();
    let i1 = items.subrange(0, 1);
    let i2 = items.subrange(0, 2);
    assert(i1.drop_last() =~= Seq::<CreateQuestionRequest>::empty());
    assert(i2.drop_last() =~= i1);
    assert(items.drop_last() =~= i2);
    assert(i1.last() == items[0]);
    assert(i2.last() == items[1]);
    assert(items.last() == items[2]);
    assert(!t0.contains(items[0].question@));
    assert(!t0.contains(items[2].question@));
    let (s0, m0, o0) = run_batch(t0, n0, Seq::<CreateQuestionRequest>::empty());
    assert(o0 == Seq::<Result<i64, StoreError>>::empty());
    let (s1, m1, o1) = run_batch(t0, n0, i1);
    assert(o1 == seq![Ok::<i64, StoreError>(n0)]);
    assert(s1 == t0.insert(items[0].question@));
    let (s2, m2, o2) = run_batch(t0, n0, i2);
    assert(o2 == o1.push(Err::<i64, StoreError>(StoreError::DuplicateQuestion)));
    let (s3, m3, o3) = run_batch(t0, n0, items);
    assert(o3 == o2.push(Ok::<i64, StoreError>((n0 + 1) as i64)));
    assert(o3.drop_last() =~= o2);
    assert(o2.drop_last() =~= o1);
    assert(o1.drop_last() =~= o0);
    assert(failure_log(o0) =~= Seq::<Seq<char>>::empty());
    assert(o1.last() == Ok::<i64, StoreError>(n0));
    assert(failure_log(o1) =~= Seq::<Seq<char>>::empty());
    assert(o2.last() == Err::<i64, StoreError>(StoreError::DuplicateQuestion));
    assert(o2.len() == 2);
    assert(failure_log(o2) =~= seq![failure_text(2, StoreError::DuplicateQuestion)]);
    assert(failure_log(o3) =~= failure_log(o2));
}

} // verus!
