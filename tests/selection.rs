use vocab_quiz::bank::{Bank, BankQuestion, Entry};
use vocab_quiz::criteria::{normalize, EntryRange, Mode, SelectionRequest, SelectionSpec};
use vocab_quiz::planner::{plan, select, SelectError};
use vocab_quiz::query::{contains_int, matching_rows, run_query, shuffle, QuerySpec};

fn question(id: i32, entry_id: Option<i32>, level: Option<i32>, chapter: Option<i32>) -> BankQuestion {
    BankQuestion {
        id,
        entry_id,
        quiz_id: None,
        prompt: format!("prompt {}", id),
        correct_answer: None,
        options: vec!["a".to_string(), "b".to_string(), "c".to_string(), "d".to_string()],
        correct_index: Some(0),
        level,
        chapter,
    }
}

fn entry(id: i32, chapter: Option<i32>) -> Entry {
    Entry {
        id,
        list_index: id,
        kanji: "ji".to_string(),
        kana: "ji".to_string(),
        meaning: "character".to_string(),
        chapter,
    }
}

/// Five questions with chapters 1, 1, 2, 2, 3; entries 10 (chapter 99) and
/// 11 (chapter 5) own some of them.
fn chapter_bank() -> Bank {
    Bank {
        entries: vec![entry(10, Some(99)), entry(11, Some(5))],
        questions: vec![
            question(1, Some(10), Some(2), Some(1)),
            question(2, Some(11), Some(1), Some(1)),
            question(3, Some(10), Some(2), Some(2)),
            question(4, None, Some(3), Some(2)),
            question(5, Some(11), None, Some(3)),
        ],
    }
}

fn request(level: Option<&str>, mode: Option<&str>, chapters: Vec<i32>, range: Option<EntryRange>, n: Option<i64>) -> SelectionRequest {
    SelectionRequest {
        level: level.map(|s| s.to_string()),
        mode: mode.map(|s| s.to_string()),
        chapters,
        range,
        num_questions: n,
    }
}

fn sorted(mut v: Vec<usize>) -> Vec<usize> {
    v.sort();
    v
}

fn no_draws() -> Vec<u64> {
    Vec::new()
}

#[test]
fn normalize_known_level() {
    let spec = normalize(request(Some("n3"), None, vec![], None, None));
    assert_eq!(spec.level_id, Some(3));
    assert_eq!(spec.level_label, "n3");
    assert_eq!(spec.mode, Mode::Chapter);
    assert!(spec.chapters.is_none());
    assert!(spec.range.is_none());
    assert_eq!(spec.limit, None);
}

#[test]
fn normalize_unknown_level_means_no_filter() {
    let spec = normalize(request(Some("n9"), None, vec![1], None, Some(3)));
    assert_eq!(spec.level_id, None);
    assert_eq!(spec.level_label, "n4");
    assert_eq!(spec.chapters, Some(vec![1]));
    assert_eq!(spec.limit, Some(3));
}

#[test]
fn normalize_absent_level_uses_default_label() {
    let spec = normalize(request(None, None, vec![], None, None));
    assert_eq!(spec.level_id, None);
    assert_eq!(spec.level_label, "n4");
}

#[test]
fn normalize_range_mode_drops_chapters() {
    let r = EntryRange { start: 5, end: 9 };
    let spec = normalize(request(Some("n1"), Some("range"), vec![1, 2], Some(r), Some(0)));
    assert_eq!(spec.level_id, Some(5));
    assert_eq!(spec.mode, Mode::Range);
    assert!(spec.chapters.is_none());
    assert_eq!(spec.range, Some(r));
    assert_eq!(spec.limit, None);
}

#[test]
fn normalize_unknown_mode_is_chapter() {
    let r = EntryRange { start: 5, end: 9 };
    let spec = normalize(request(None, Some("bogus"), vec![4], Some(r), Some(-2)));
    assert_eq!(spec.mode, Mode::Chapter);
    assert_eq!(spec.chapters, Some(vec![4]));
    assert!(spec.range.is_none());
    assert_eq!(spec.limit, None);
}

#[test]
fn contains_int_finds_members() {
    assert!(contains_int(&vec![3, 5, 7], 5));
    assert!(!contains_int(&vec![3, 5, 7], 4));
    assert!(!contains_int(&vec![], 4));
}

#[test]
fn entry_chapter_lookup_uses_the_join() {
    let bank = chapter_bank();
    assert_eq!(bank.entry_chapter_of(10), Some(99));
    assert_eq!(bank.entry_chapter_of(11), Some(5));
    assert_eq!(bank.entry_chapter_of(12), None);
}

#[test]
fn shuffle_follows_the_draws() {
    let mut rows = vec![0, 1, 2, 3];
    shuffle(&mut rows, &vec![3, 2, 1, 0]);
    assert_eq!(rows, vec![3, 0, 1, 2]);
    let mut rows = vec![0, 1, 2, 3];
    shuffle(&mut rows, &vec![1]);
    assert_eq!(rows, vec![1, 0, 2, 3]);
    let mut rows = vec![4, 5, 6];
    shuffle(&mut rows, &no_draws());
    assert_eq!(rows, vec![4, 5, 6]);
}

#[test]
fn matching_rows_apply_every_filter() {
    let bank = chapter_bank();
    let q = QuerySpec {
        level: Some(2),
        question_chapters: Some(vec![1, 2]),
        entry_chapters: None,
        entry_ids: None,
        limit: None,
    };
    assert_eq!(matching_rows(&bank, &q), vec![0, 2]);
    let q = QuerySpec {
        level: None,
        question_chapters: None,
        entry_chapters: None,
        entry_ids: Some(EntryRange { start: 11, end: 20 }),
        limit: None,
    };
    assert_eq!(matching_rows(&bank, &q), vec![1, 4]);
}

#[test]
fn run_query_cuts_to_the_limit() {
    let bank = chapter_bank();
    let q = QuerySpec {
        level: None,
        question_chapters: None,
        entry_chapters: None,
        entry_ids: None,
        limit: Some(2),
    };
    assert_eq!(run_query(&bank, &q, &vec![4, 0, 0, 0, 0]), vec![4, 1]);
}

#[test]
fn plan_has_four_steps_in_chapter_mode() {
    let spec = normalize(request(Some("n5"), None, vec![1], None, Some(4)));
    let steps = plan(&spec);
    assert_eq!(steps.len(), 4);
    assert_eq!(steps[0].level, Some(1));
    assert_eq!(steps[0].question_chapters, Some(vec![1]));
    assert_eq!(steps[1].level, Some(1));
    assert_eq!(steps[1].entry_chapters, Some(vec![1]));
    assert_eq!(steps[2].level, None);
    assert_eq!(steps[2].question_chapters, Some(vec![1]));
    assert_eq!(steps[3].level, None);
    assert!(steps[3].question_chapters.is_none() && steps[3].entry_chapters.is_none());
    assert!(steps.iter().all(|s| s.limit == Some(4)));
}

#[test]
fn plan_has_three_steps_in_range_mode() {
    let r = EntryRange { start: 1, end: 2 };
    let spec = normalize(request(Some("n2"), Some("range"), vec![], Some(r), None));
    let steps = plan(&spec);
    assert_eq!(steps.len(), 3);
    assert_eq!(steps[0].level, Some(4));
    assert_eq!(steps[0].entry_ids, Some(r));
    assert_eq!(steps[1].level, None);
    assert_eq!(steps[1].entry_ids, Some(r));
    assert!(steps[2].entry_ids.is_none());
}

#[test]
fn chapter_one_gives_its_two_questions() {
    let bank = chapter_bank();
    let spec = normalize(request(None, Some("chapter"), vec![1], None, None));
    let sel = select(&bank, &spec, &vec![7, 7]).unwrap();
    assert_eq!(sel.step, 0);
    assert_eq!(sorted(sel.rows), vec![0, 1]);
}

#[test]
fn chapter_via_entry_fallback() {
    let bank = chapter_bank();
    let spec = normalize(request(None, Some("chapter"), vec![99], None, None));
    let sel = select(&bank, &spec, &no_draws()).unwrap();
    assert_eq!(sel.step, 1);
    assert_eq!(sorted(sel.rows), vec![0, 2]);
}

#[test]
fn chapter_without_any_match_falls_back_to_everything() {
    let bank = chapter_bank();
    let spec = normalize(request(None, Some("chapter"), vec![42], None, None));
    let sel = select(&bank, &spec, &no_draws()).unwrap();
    assert_eq!(sel.step, 3);
    assert_eq!(sorted(sel.rows), vec![0, 1, 2, 3, 4]);
}

#[test]
fn level_is_relaxed_before_chapter() {
    let bank = chapter_bank();
    // No question is level n1 (id 5) in chapter 3, nor via its entry.
    let spec = normalize(request(Some("n1"), None, vec![3], None, None));
    let sel = select(&bank, &spec, &no_draws()).unwrap();
    assert_eq!(sel.step, 2);
    assert_eq!(sel.rows, vec![4]);
}

#[test]
fn level_and_chapter_exact_intent() {
    let bank = chapter_bank();
    let spec = normalize(request(Some("n4"), None, vec![1, 2], None, None));
    let sel = select(&bank, &spec, &no_draws()).unwrap();
    assert_eq!(sel.step, 0);
    assert_eq!(sorted(sel.rows), vec![0, 2]);
}

#[test]
fn range_mode_exact_then_relaxed() {
    let bank = chapter_bank();
    let r = EntryRange { start: 11, end: 11 };
    let spec = normalize(request(Some("n5"), Some("range"), vec![], Some(r), None));
    let sel = select(&bank, &spec, &no_draws()).unwrap();
    assert_eq!(sel.step, 0);
    assert_eq!(sel.rows, vec![1]);
    let spec = normalize(request(Some("n3"), Some("range"), vec![], Some(r), None));
    let sel = select(&bank, &spec, &no_draws()).unwrap();
    assert_eq!(sel.step, 1);
    assert_eq!(sorted(sel.rows), vec![1, 4]);
    let r = EntryRange { start: 50, end: 60 };
    let spec = normalize(request(None, Some("range"), vec![], Some(r), None));
    let sel = select(&bank, &spec, &no_draws()).unwrap();
    assert_eq!(sel.step, 2);
    assert_eq!(sel.rows.len(), 5);
}

#[test]
fn unfiltered_request_takes_min_of_bank_and_limit() {
    let bank = chapter_bank();
    let spec = normalize(request(Some("unknown"), Some("chapter"), vec![], None, Some(3)));
    let sel = select(&bank, &spec, &vec![9, 8, 7, 6, 5]).unwrap();
    assert_eq!(sel.step, 0);
    assert_eq!(sel.rows.len(), 3);
    let spec = normalize(request(None, None, vec![], None, Some(50)));
    let sel = select(&bank, &spec, &vec![1, 2, 3]).unwrap();
    assert_eq!(sorted(sel.rows), vec![0, 1, 2, 3, 4]);
    let spec = normalize(request(None, None, vec![], None, None));
    let sel = select(&bank, &spec, &no_draws()).unwrap();
    assert_eq!(sel.rows.len(), 5);
}

#[test]
fn exact_intent_rows_only_come_from_step_one() {
    let bank = chapter_bank();
    let spec = normalize(request(None, None, vec![2], None, Some(1)));
    for d in 0..6u64 {
        let sel = select(&bank, &spec, &vec![d, d]).unwrap();
        assert_eq!(sel.step, 0);
        assert_eq!(sel.rows.len(), 1);
        assert!(sel.rows[0] == 2 || sel.rows[0] == 3);
    }
}

#[test]
fn nonempty_bank_always_selects_something() {
    let bank = Bank { entries: vec![], questions: vec![question(8, None, None, None)] };
    let r = EntryRange { start: 1, end: 2 };
    let spec = normalize(request(Some("n2"), Some("range"), vec![], Some(r), None));
    let sel = select(&bank, &spec, &no_draws()).unwrap();
    assert_eq!(sel.step, 2);
    assert_eq!(sel.rows, vec![0]);
}

#[test]
fn empty_bank_fails_selection() {
    let bank = Bank { entries: vec![], questions: vec![] };
    let spec = normalize(request(None, None, vec![], None, None));
    assert!(matches!(select(&bank, &spec, &no_draws()), Err(SelectError::NoQuestions)));
}

#[test]
fn hand_built_spec_is_selected() {
    let bank = chapter_bank();
    let spec = SelectionSpec {
        level_id: Some(3),
        level_label: "n3".to_string(),
        mode: Mode::Chapter,
        chapters: None,
        range: None,
        limit: Some(1),
    };
    let sel = select(&bank, &spec, &no_draws()).unwrap();
    assert_eq!(sel.step, 0);
    assert_eq!(sel.rows, vec![3]);
}
