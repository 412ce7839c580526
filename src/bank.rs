use vstd::prelude::*;

verus! {

/// A source vocabulary item.
pub struct Entry {
    pub id: i32,
    pub list_index: i32,
    pub kanji: String,
    pub kana: String,
    pub meaning: String,
    pub chapter: Option<i32>,
}

/// A multiple-choice question of the bank.
pub struct BankQuestion {
    pub id: i32,
    /// The entry the question was derived from.
    pub entry_id: Option<i32>,
    /// The quiz that owns the question.
    pub quiz_id: Option<i32>,
    pub prompt: String,
    /// The legacy numeric answer, used when `correct_index` is absent.
    pub correct_answer: Option<i32>,
    pub options: Vec<String>,
    /// Index of the right option in `options`.
    pub correct_index: Option<i32>,
    /// The level id, 1..=5.
    pub level: Option<i32>,
    /// The question's own chapter, independent of its entry's chapter.
    pub chapter: Option<i32>,
}

/// A snapshot of the entries and questions that selection reads.
pub struct Bank {
    pub entries: Vec<Entry>,
    pub questions: Vec<BankQuestion>,
}

/// The chapter of the first entry at or after position `i` whose id is `id`;
/// `None` where there is no such entry or it has no chapter.
pub open spec fn entry_chapter_from(entries: Seq<Entry>, id: i32, i: int) -> Option<i32>
    decreases entries.len() - i,
{
    if i < 0 || i >= entries.len() {
        None
    } else if entries[i].id == id {
        entries[i].chapter
    } else {
        entry_chapter_from(entries, id, i + 1)
    }
}

/// The chapter of the entry with the given id, reached by the join from a
/// question to its entry.
pub open spec fn entry_chapter(entries: Seq<Entry>, id: i32) -> Option<i32> {
    entry_chapter_from(entries, id, 0)
}

impl Bank {
    /// Looks up the chapter of the entry with the given id.
    pub fn entry_chapter_of(&self, id: i32) -> (r: Option<i32>)
        ensures
            r == entry_chapter(self.entries@, id),
    {
        let mut i: usize = 0;
        while i < self.entries.len()
            invariant
                i <= self.entries.len(),
                entry_chapter(self.entries@, id) == entry_chapter_from(self.entries@, id, i as int),
            decreases self.entries.len() - i,
        {
            if self.entries[i].id == id {
                return self.entries[i].chapter;
            }
            i = i + 1;
        }
        None
    }
}

} // verus!
