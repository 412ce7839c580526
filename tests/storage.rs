use vocab_quiz::bank::{Bank, BankQuestion};
use vocab_quiz::criteria::{normalize, SelectionRequest};
use vocab_quiz::level::{contains_level, level_id_of, level_label, seed_levels, LevelRow};
use vocab_quiz::materialize::{copy_strings, project, project_question, test_title};
use vocab_quiz::models::{Question, QuestionInput, Quiz};
use vocab_quiz::planner::copy_ints;
use vocab_quiz::store::{create_test, CreateTestError, TestStore};

fn question(id: i32, correct_index: Option<i32>, correct_answer: Option<i32>, chapter: Option<i32>) -> BankQuestion {
    BankQuestion {
        id,
        entry_id: None,
        quiz_id: Some(1),
        prompt: format!("What is {}?", id),
        correct_answer,
        options: vec![format!("{}-a", id), format!("{}-b", id)],
        correct_index,
        level: Some(2),
        chapter,
    }
}

fn bank() -> Bank {
    Bank {
        entries: vec![],
        questions: vec![
            question(10, Some(1), Some(0), Some(1)),
            question(11, None, Some(1), Some(1)),
            question(12, None, None, Some(2)),
        ],
    }
}

fn plain_request(chapters: Vec<i32>) -> SelectionRequest {
    SelectionRequest { level: None, mode: None, chapters, range: None, num_questions: None }
}

#[test]
fn level_labels_and_ids() {
    assert_eq!(level_label(1), "n5");
    assert_eq!(level_label(2), "n4");
    assert_eq!(level_label(3), "n3");
    assert_eq!(level_label(4), "n2");
    assert_eq!(level_label(5), "n1");
    for id in 1..=5 {
        assert_eq!(level_id_of(&level_label(id)), Some(id));
    }
    assert_eq!(level_id_of(&"N5".to_string()), None);
    assert_eq!(level_id_of(&"".to_string()), None);
}

#[test]
fn seeding_fills_an_empty_table() {
    let mut rows: Vec<LevelRow> = Vec::new();
    seed_levels(&mut rows);
    let got: Vec<(i32, String)> = rows.iter().map(|r| (r.id, r.label.clone())).collect();
    let want: Vec<(i32, String)> = vec![
        (1, "n5".to_string()),
        (2, "n4".to_string()),
        (3, "n3".to_string()),
        (4, "n2".to_string()),
        (5, "n1".to_string()),
    ];
    assert_eq!(got, want);
}

#[test]
fn seeding_twice_changes_nothing() {
    let mut rows: Vec<LevelRow> = vec![LevelRow { id: 3, label: "n3".to_string() }];
    seed_levels(&mut rows);
    let once: Vec<(i32, String)> = rows.iter().map(|r| (r.id, r.label.clone())).collect();
    seed_levels(&mut rows);
    seed_levels(&mut rows);
    let thrice: Vec<(i32, String)> = rows.iter().map(|r| (r.id, r.label.clone())).collect();
    assert_eq!(once, thrice);
    assert_eq!(rows.len(), 5);
    for id in 1..=5 {
        assert_eq!(rows.iter().filter(|r| r.id == id).count(), 1);
        assert!(contains_level(&rows, id));
    }
    assert!(!contains_level(&rows, 6));
    assert_eq!(once[0], (3, "n3".to_string()));
}

#[test]
fn seeding_keeps_a_conflicting_row() {
    let mut rows: Vec<LevelRow> = vec![LevelRow { id: 2, label: "custom".to_string() }];
    seed_levels(&mut rows);
    assert_eq!(rows.len(), 5);
    assert_eq!(rows[0].label, "custom");
    assert_eq!(rows.iter().filter(|r| r.id == 2).count(), 1);
}

#[test]
fn projection_prefers_correct_index() {
    let b = bank();
    let t = project_question(&b.questions[0]);
    assert_eq!(t.id, 10);
    assert_eq!(t.text, "What is 10?");
    assert_eq!(t.options, vec!["10-a".to_string(), "10-b".to_string()]);
    assert_eq!(t.correct_index, 1);
}

#[test]
fn projection_falls_back_to_legacy_answer_then_zero() {
    let b = bank();
    assert_eq!(project_question(&b.questions[1]).correct_index, 1);
    assert_eq!(project_question(&b.questions[2]).correct_index, 0);
}

#[test]
fn project_keeps_row_order() {
    let b = bank();
    let t = project(&b, &vec![2, 0]);
    assert_eq!(t.len(), 2);
    assert_eq!(t[0].id, 12);
    assert_eq!(t[1].id, 10);
    assert_eq!(t[0].text, "What is 12?");
}

#[test]
fn title_has_label_and_time() {
    let t = test_title(&"n3".to_string(), &"2024-05-01T10:00:00Z".to_string());
    assert_eq!(t, "Test - n3 - 2024-05-01T10:00:00Z");
}

#[test]
fn copies_are_equal() {
    let v = vec!["x".to_string(), "yz".to_string()];
    assert_eq!(copy_strings(&v), v);
    assert_eq!(copy_ints(&vec![4, -1, 9]), vec![4, -1, 9]);
    assert_eq!(copy_ints(&vec![]), Vec::<i32>::new());
}

#[test]
fn store_issues_sequential_ids() {
    let mut store = TestStore::new();
    assert_eq!(store.len(), 0);
    assert!(store.retrieve(1).is_none());
    let a = store.materialize("first".to_string(), vec![], "t1".to_string()).unwrap();
    let b = store.materialize("second".to_string(), vec![], "t2".to_string()).unwrap();
    assert_eq!((a, b), (1, 2));
    assert_eq!(store.len(), 2);
    assert_eq!(store.retrieve(1).unwrap().title, "first");
    assert_eq!(store.retrieve(2).unwrap().created_at, "t2");
    assert!(store.retrieve(0).is_none());
    assert!(store.retrieve(3).is_none());
}

#[test]
fn create_test_round_trip() {
    let mut store = TestStore::new();
    let mut b = bank();
    let spec = normalize(plain_request(vec![1]));
    let id = create_test(&mut store, &b, &spec, &vec![1, 0], &"2024-01-02T03:04:05Z".to_string()).unwrap();
    assert_eq!(id, 1);
    let ids_before: Vec<i32> = store.retrieve(id).unwrap().questions.iter().map(|q| q.id).collect();
    assert_eq!(ids_before, vec![11, 10]);
    // Later edits to the bank and later tests leave the stored test as it was.
    b.questions[0].prompt = "changed".to_string();
    b.questions.clear();
    let spec2 = normalize(plain_request(vec![]));
    assert_eq!(
        create_test(&mut store, &b, &spec2, &vec![], &"later".to_string()),
        Err(CreateTestError::NoQuestions)
    );
    let t = store.retrieve(id).unwrap();
    assert_eq!(t.title, "Test - n4 - 2024-01-02T03:04:05Z");
    assert_eq!(t.questions[1].text, "What is 10?");
    assert_eq!(t.questions[1].correct_index, 1);
    assert_eq!(t.questions[0].correct_index, 1);
    assert_eq!(store.len(), 1);
}

#[test]
fn empty_bank_creates_no_test() {
    let mut store = TestStore::new();
    let b = Bank { entries: vec![], questions: vec![] };
    let spec = normalize(plain_request(vec![]));
    let r = create_test(&mut store, &b, &spec, &vec![], &"now".to_string());
    assert_eq!(r, Err(CreateTestError::NoQuestions));
    assert_eq!(store.len(), 0);
    assert!(store.retrieve(1).is_none());
}

#[test]
fn quiz_builders_keep_fields() {
    let q = Question::stored(7, "Q".to_string(), vec!["a".to_string()], 0);
    assert_eq!(q.id, Some(7));
    let input = QuestionInput { text: "I".to_string(), options: vec!["b".to_string(), "c".to_string()], correct_answer: 1 };
    let q2 = input.into_question();
    assert_eq!(q2.id, None);
    assert_eq!(q2.text, "I");
    assert_eq!(q2.correct_answer, 1);
    let quiz = Quiz::new(3, "T".to_string(), Some("D".to_string()), vec![q, q2]);
    assert_eq!(quiz.id, 3);
    assert_eq!(quiz.description.as_deref(), Some("D"));
    assert_eq!(quiz.question_count(), 2);
}
