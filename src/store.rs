use vstd::prelude::*;

use crate::bank::Bank;
use crate::criteria::SelectionSpec;
use crate::materialize::{
    project, projected, test_questions_view, test_title, title_spec, TestQuestion,
    TestQuestionView,
};
use crate::planner::{lemma_selected_rows_match_step, select, selection_outcome, SelectError};

verus! {

/// An immutable snapshot of selected questions.
pub struct TestRecord {
    pub id: usize,
    pub title: String,
    pub questions: Vec<TestQuestion>,
    pub created_at: String,
}

/// What a test record holds, as mathematical values.
pub struct TestRecordView {
    pub id: nat,
    pub title: Seq<char>,
    pub questions: Seq<TestQuestionView>,
    pub created_at: Seq<char>,
}

impl View for TestRecord {
    type V = TestRecordView;

    open spec fn view(&self) -> TestRecordView {
        TestRecordView {
            id: self.id as nat,
            title: self.title@,
            questions: test_questions_view(self.questions@),
            created_at: self.created_at@,
        }
    }
}

/// Test ids are 1, 2, 3, ... in the order the tests were made.
pub open spec fn ids_sequential(s: Seq<TestRecordView>) -> bool {
    forall|i: int| 0 <= i < s.len() ==> (#[trigger] s[i]).id == i + 1
}

/// The test with the given id, if one was made.
pub open spec fn lookup(s: Seq<TestRecordView>, id: nat) -> Option<TestRecordView> {
    if 1 <= id <= s.len() {
        Some(s[id - 1])
    } else {
        None
    }
}

/// Why a test could not be stored.
#[derive(PartialEq, Eq, Structural, Clone, Copy, Debug)]
pub enum StoreError {
    /// Every id has been used.
    Full,
}

/// The tests made so far. Tests are only ever added, each whole in one step,
/// and never changed afterwards.
pub struct TestStore {
    tests: Vec<TestRecord>,
}

impl View for TestStore {
    type V = Seq<TestRecordView>;

    closed spec fn view(&self) -> Seq<TestRecordView> {
        self.tests@.map_values(|t: TestRecord| t@)
    }
}

impl TestStore {
    pub open spec fn wf(&self) -> bool {
        ids_sequential(self@)
    }

    /// An empty store.
    pub fn new() -> (r: TestStore)
        ensures
            r@ == Seq::<TestRecordView>::empty(),
            r.wf(),
    {
        let r = TestStore { tests: Vec::new() };
        assert(r@ =~= Seq::<TestRecordView>::empty());
        r
    }

    /// How many tests have been made.
    pub fn len(&self) -> (r: usize)
        ensures
            r == self@.len(),
    {
        self.tests.len()
    }

    /// Stores a new test and returns its id, the next unused one. The record
    /// is added whole or not at all.
    pub fn materialize(
        &mut self,
        title: String,
        questions: Vec<TestQuestion>,
        created_at: String,
    ) -> (r: Result<usize, StoreError>)
        requires
            old(self).wf(),
        ensures
            final(self).wf(),
            old(self)@.len() < usize::MAX ==> r == Ok::<usize, StoreError>(
                (old(self)@.len() + 1) as usize,
            ),
            r matches Ok(id) ==> final(self)@ == old(self)@.push(
                TestRecordView {
                    id: id as nat,
                    title: title@,
                    questions: test_questions_view(questions@),
                    created_at: created_at@,
                },
            ),
            old(self)@.len() >= usize::MAX ==> r == Err::<usize, StoreError>(StoreError::Full)
                && final(self)@ == old(self)@,
    {
        let n = self.tests.len();
        if n == usize::MAX {
            return Err(StoreError::Full);
        }
        let id = n + 1;
        let record = TestRecord { id, title, questions, created_at };
        let ghost before = self@;
        self.tests.push(record);
        assert(self@ =~= before.push(record@));
        Ok(id)
    }

    /// The test with the given id, if one was made.
    pub fn retrieve(&self, id: usize) -> (r: Option<&TestRecord>)
        requires
            self.wf(),
        ensures
            r matches Some(t) ==> lookup(self@, id as nat) == Some(t@),
            r is None ==> lookup(self@, id as nat) is None,
    {
        if id >= 1 && id <= self.tests.len() {
            Some(&self.tests[id - 1])
        } else {
            None
        }
    }
}

/// Why no test was made.
#[derive(PartialEq, Eq, Structural, Clone, Copy, Debug)]
pub enum CreateTestError {
    /// No question matched, after every fallback: the bank is empty.
    NoQuestions,
    /// The store has no id left.
    StoreFull,
}

/// The record that a successful request adds: the projected questions of the
/// selected rows, titled with the level label and the timestamp.
pub open spec fn created_record(
    bank: Bank,
    spec: SelectionSpec,
    rows: Seq<usize>,
    id: nat,
    timestamp: Seq<char>,
) -> TestRecordView {
    TestRecordView {
        id,
        title: title_spec(spec.level_label@, timestamp),
        questions: projected(bank, rows),
        created_at: timestamp,
    }
}

/// Selects questions by the cascade, projects them, and stores them as a new
/// test made at `timestamp`; returns the new test's id. Nothing is stored
/// when selection fails.
pub fn create_test(
    store: &mut TestStore,
    bank: &Bank,
    spec: &SelectionSpec,
    draws: &Vec<u64>,
    timestamp: &String,
) -> (r: Result<usize, CreateTestError>)
    requires
        old(store).wf(),
        spec.wf(),
    ensures
        final(store).wf(),
        match selection_outcome(*bank, *spec, draws@) {
            None => r == Err::<usize, CreateTestError>(CreateTestError::NoQuestions)
                && final(store)@ == old(store)@,
            Some((step, rows)) => if old(store)@.len() < usize::MAX {
                r == Ok::<usize, CreateTestError>((old(store)@.len() + 1) as usize)
                    && final(store)@ == old(store)@.push(
                    created_record(
                        *bank,
                        *spec,
                        rows,
                        (old(store)@.len() + 1) as nat,
                        timestamp@,
                    ),
                )
            } else {
                r == Err::<usize, CreateTestError>(CreateTestError::StoreFull)
                    && final(store)@ == old(store)@
            },
        },
{
    let selection = match select(bank, spec, draws) {
        Ok(sel) => sel,
        Err(SelectError::NoQuestions) => {
            return Err(CreateTestError::NoQuestions);
        },
    };
    proof {
        lemma_selected_rows_match_step(
            *bank,
            *spec,
            draws@,
            selection.step as nat,
            selection.rows@,
        );
    }
    let questions = project(bank, &selection.rows);
    let title = test_title(&spec.level_label, timestamp);
    match store.materialize(title, questions, timestamp.clone()) {
        Ok(id) => Ok(id),
        Err(StoreError::Full) => Err(CreateTestError::StoreFull),
    }
}

/// A test can be retrieved exactly when it was stored: after a successful
/// store of the record with the next id, the ids that retrieval finds are the
/// ones found before and the new one, and a failed store changes nothing.
pub proof fn lemma_retrieval_sees_only_stored(
    s: Seq<TestRecordView>,
    rec: TestRecordView,
    id: nat,
)
    requires
        ids_sequential(s),
        rec.id == s.len() + 1,
    ensures
        ids_sequential(s.push(rec)),
        lookup(s.push(rec), id) is Some <==> (lookup(s, id) is Some || id == rec.id),
{
    assert forall|i: int| 0 <= i < s.push(rec).len() implies (#[trigger] s.push(rec)[i]).id == i
        + 1 by {
        if i < s.len() {
            assert(s.push(rec)[i] == s[i]);
        }
    }
}

/// Round trip: retrieving a stored test by its id gives back exactly the
/// record that was stored, also after any later tests have been stored.
pub proof fn lemma_round_trip(s: Seq<TestRecordView>, rec: TestRecordView, later: Seq<TestRecordView>)
    requires
        ids_sequential(s),
        rec.id == s.len() + 1,
    ensures
        lookup(s.push(rec) + later, rec.id) == Some(rec),
{
    assert((s.push(rec) + later)[s.len() as int] == rec);
}

} // verus!
