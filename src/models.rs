use vstd::prelude::*;

verus! {

/// A question of a hand-authored quiz.
#[derive(Clone, Debug)]
pub struct Question {
    /// The stored question's id; absent before it is stored.
    pub id: Option<i32>,
    pub text: String,
    pub options: Vec<String>,
    /// Index of the right option.
    pub correct_answer: i32,
}

/// A hand-authored quiz and its questions, in order.
#[derive(Clone, Debug)]
pub struct Quiz {
    pub id: i32,
    pub title: String,
    pub description: Option<String>,
    pub questions: Vec<Question>,
}

/// A request to author a quiz.
#[derive(Debug)]
pub struct CreateQuizRequest {
    pub title: String,
    pub description: Option<String>,
    pub questions: Vec<QuestionInput>,
}

/// One question of a request to author a quiz.
#[derive(Debug)]
pub struct QuestionInput {
    pub text: String,
    pub options: Vec<String>,
    pub correct_answer: i32,
}

impl Question {
    /// A question read back from storage under the given id.
    pub fn stored(id: i32, text: String, options: Vec<String>, correct_answer: i32) -> (r: Question)
        ensures
            r.id == Some(id),
            r.text == text,
            r.options == options,
            r.correct_answer == correct_answer,
    {
        Question { id: Some(id), text, options, correct_answer }
    }
}

impl QuestionInput {
    /// The question this input describes, not yet stored.
    pub fn into_question(self) -> (r: Question)
        ensures
            r.id is None,
            r.text == self.text,
            r.options == self.options,
            r.correct_answer == self.correct_answer,
    {
        Question { id: None, text: self.text, options: self.options, correct_answer: self.correct_answer }
    }
}

impl Quiz {
    /// A quiz with the given questions, in order.
    pub fn new(id: i32, title: String, description: Option<String>, questions: Vec<Question>) -> (r:
        Quiz)
        ensures
            r.id == id,
            r.title == title,
            r.description == description,
            r.questions == questions,
    {
        Quiz { id, title, description, questions }
    }

    /// How many questions the quiz holds.
    pub fn question_count(&self) -> (r: usize)
        ensures
            r == self.questions@.len(),
    {
        self.questions.len()
    }
}

} // verus!
