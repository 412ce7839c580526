use vstd::prelude::*;

use crate::bank::{Bank, BankQuestion};

verus! {

/// A question as a test shows it, frozen when the test is made.
pub struct TestQuestion {
    pub id: i32,
    pub text: String,
    pub options: Vec<String>,
    pub correct_index: i32,
}

/// What a test question holds, as mathematical values.
pub struct TestQuestionView {
    pub id: i32,
    pub text: Seq<char>,
    pub options: Seq<Seq<char>>,
    pub correct_index: i32,
}

pub open spec fn strings_view(v: Seq<String>) -> Seq<Seq<char>> {
    v.map_values(|s: String| s@)
}

impl View for TestQuestion {
    type V = TestQuestionView;

    open spec fn view(&self) -> TestQuestionView {
        TestQuestionView {
            id: self.id,
            text: self.text@,
            options: strings_view(self.options@),
            correct_index: self.correct_index,
        }
    }
}

pub open spec fn test_questions_view(v: Seq<TestQuestion>) -> Seq<TestQuestionView> {
    v.map_values(|t: TestQuestion| t@)
}

/// The index of the right option: `correct_index`, else the legacy numeric
/// answer, else 0.
pub open spec fn answer_index(q: BankQuestion) -> i32 {
    match q.correct_index {
        Some(c) => c,
        None => match q.correct_answer {
            Some(a) => a,
            None => 0,
        },
    }
}

/// The test form of a bank question.
pub open spec fn projection(q: BankQuestion) -> TestQuestionView {
    TestQuestionView {
        id: q.id,
        text: q.prompt@,
        options: strings_view(q.options@),
        correct_index: answer_index(q),
    }
}

/// The test form of the bank's questions at the given positions, in order.
pub open spec fn projected(bank: Bank, rows: Seq<usize>) -> Seq<TestQuestionView> {
    rows.map_values(|i: usize| projection(bank.questions@[i as int]))
}

/// The title of a test: `Test - <label> - <timestamp>`.
pub open spec fn title_spec(label: Seq<char>, timestamp: Seq<char>) -> Seq<char> {
    "Test - "@ + label + " - "@ + timestamp
}

/// A copy of a list of strings.
pub fn copy_strings(v: &Vec<String>) -> (r: Vec<String>)
    ensures
        r@ == v@,
{
    let mut r: Vec<String> = Vec::new();
    let mut i: usize = 0;
    while i < v.len()
        invariant
            i <= v.len(),
            r@ == v@.take(i as int),
        decreases v.len() - i,
    {
        r.push(v[i].clone());
        i = i + 1;
        assert(r@ =~= v@.take(i as int));
    }
    assert(v@.take(v@.len() as int) =~= v@);
    r
}

/// The test form of one bank question.
pub fn project_question(q: &BankQuestion) -> (r: TestQuestion)
    ensures
        r@ == projection(*q),
{
    let correct_index = match q.correct_index {
        Some(c) => c,
        None => match q.correct_answer {
            Some(a) => a,
            None => 0,
        },
    };
    TestQuestion {
        id: q.id,
        text: q.prompt.clone(),
        options: copy_strings(&q.options),
        correct_index,
    }
}

/// The test form of the bank's questions at the given positions, in order.
pub fn project(bank: &Bank, rows: &Vec<usize>) -> (r: Vec<TestQuestion>)
    requires
        forall|k: int| 0 <= k < rows@.len() ==> (#[trigger] rows@[k] as int) < bank.questions@.len(),
    ensures
        test_questions_view(r@) == projected(*bank, rows@),
{
    let mut r: Vec<TestQuestion> = Vec::new();
    let mut i: usize = 0;
    while i < rows.len()
        invariant
            i <= rows.len(),
            forall|k: int| 0 <= k < rows@.len() ==> (#[trigger] rows@[k] as int) < bank.questions@.len(),
            test_questions_view(r@) == projected(*bank, rows@.take(i as int)),
        decreases rows.len() - i,
    {
        let t = project_question(&bank.questions[rows[i]]);
        let ghost before = r@;
        r.push(t);
        i = i + 1;
        assert(test_questions_view(r@) =~= test_questions_view(before).push(t@));
        assert(projected(*bank, rows@.take(i as int)) =~= projected(*bank, rows@.take(i - 1)).push(
            projection(bank.questions@[rows@[i - 1] as int]),
        ));
    }
    assert(rows@.take(rows@.len() as int) =~= rows@);
    r
}

/// Builds a test's title from the level label and the creation time.
pub fn test_title(label: &String, timestamp: &String) -> (r: String)
    ensures
        r@ == title_spec(label@, timestamp@),
{
    let mut t = String::from_str("Test - ");
    t.append(label.as_str());
    t.append(" - ");
    t.append(timestamp.as_str());
    t
}

} // verus!
