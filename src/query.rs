use vstd::prelude::*;

use crate::bank::{entry_chapter, Bank, BankQuestion, Entry};
use crate::criteria::EntryRange;

verus! {

/// One query against the bank: the filters that a question must all pass,
/// a random order, and an optional cap on the number of rows.
pub struct QuerySpec {
    /// The question's level must be this one.
    pub level: Option<i32>,
    /// The question's own chapter must be one of these.
    pub question_chapters: Option<Vec<i32>>,
    /// The chapter of the question's entry must be one of these.
    pub entry_chapters: Option<Vec<i32>>,
    /// The question's entry id must lie in this inclusive range.
    pub entry_ids: Option<EntryRange>,
    pub limit: Option<u64>,
}

pub open spec fn level_passes(level: Option<i32>, q: BankQuestion) -> bool {
    match level {
        Some(l) => q.level == Some(l),
        None => true,
    }
}

pub open spec fn question_chapter_passes(chapters: Option<Vec<i32>>, q: BankQuestion) -> bool {
    match chapters {
        Some(cs) => q.chapter matches Some(c) && cs@.contains(c),
        None => true,
    }
}

pub open spec fn entry_chapter_passes(
    entries: Seq<Entry>,
    chapters: Option<Vec<i32>>,
    q: BankQuestion,
) -> bool {
    match chapters {
        Some(cs) => q.entry_id matches Some(e) && entry_chapter(entries, e) matches Some(c)
            && cs@.contains(c),
        None => true,
    }
}

pub open spec fn entry_id_passes(range: Option<EntryRange>, q: BankQuestion) -> bool {
    match range {
        Some(r) => q.entry_id matches Some(e) && r.start <= e && e <= r.end,
        None => true,
    }
}

/// Whether a question passes every filter of a query.
pub open spec fn query_holds(entries: Seq<Entry>, qs: QuerySpec, q: BankQuestion) -> bool {
    &&& level_passes(qs.level, q)
    &&& question_chapter_passes(qs.question_chapters, q)
    &&& entry_chapter_passes(entries, qs.entry_chapters, q)
    &&& entry_id_passes(qs.entry_ids, q)
}

/// The indices `i < n` with `f(i)`, in increasing order.
pub open spec fn filter_indices(n: nat, f: spec_fn(int) -> bool) -> Seq<usize>
    decreases n,
{
    if n == 0 {
        Seq::empty()
    } else {
        let prev = filter_indices((n - 1) as nat, f);
        if f(n - 1) {
            prev.push((n - 1) as usize)
        } else {
            prev
        }
    }
}

/// The positions of the bank's questions that pass a query, in bank order.
pub open spec fn query_rows(bank: Bank, qs: QuerySpec) -> Seq<usize> {
    filter_indices(
        bank.questions@.len(),
        |i: int| query_holds(bank.entries@, qs, bank.questions@[i]),
    )
}

/// The random number drawn for position `i`, 0 where none was drawn.
pub open spec fn draw_at(draws: Seq<u64>, i: int) -> u64 {
    if 0 <= i < draws.len() {
        draws[i]
    } else {
        0
    }
}

pub open spec fn swap(s: Seq<usize>, i: int, j: int) -> Seq<usize> {
    s.update(i, s[j]).update(j, s[i])
}

/// Fisher-Yates from position `i` on: position `i` is swapped with a position
/// `j` in `i..len` chosen by the draw for `i`.
pub open spec fn shuffle_from(s: Seq<usize>, draws: Seq<u64>, i: nat) -> Seq<usize>
    decreases s.len() - i,
{
    if i >= s.len() {
        s
    } else {
        let j = i + (draw_at(draws, i as int) as int) % (s.len() - i);
        shuffle_from(swap(s, i as int, j), draws, i + 1)
    }
}

/// The permutation of `s` that the draws pick.
pub open spec fn shuffled(s: Seq<usize>, draws: Seq<u64>) -> Seq<usize> {
    shuffle_from(s, draws, 0)
}

/// `s` cut to its first `limit` items, when a limit is given.
pub open spec fn limited(s: Seq<usize>, limit: Option<u64>) -> Seq<usize> {
    match limit {
        Some(l) => if (l as int) < s.len() {
            s.take(l as int)
        } else {
            s
        },
        None => s,
    }
}

/// The rows a query returns for the given draws.
pub open spec fn query_result(bank: Bank, qs: QuerySpec, draws: Seq<u64>) -> Seq<usize> {
    limited(shuffled(query_rows(bank, qs), draws), qs.limit)
}

/// Swapping two positions keeps the items and how often each occurs.
pub proof fn lemma_swap_multiset(s: Seq<usize>, i: int, j: int)
    requires
        0 <= i < s.len(),
        0 <= j < s.len(),
    ensures
        swap(s, i, j).to_multiset() == s.to_multiset(),
        swap(s, i, j).len() == s.len(),
{
    broadcast use {
        vstd::seq_lib::to_multiset_update,
        vstd::multiset::group_multiset_axioms,
        vstd::seq_lib::group_to_multiset_ensures,
    };

    let m = s.to_multiset();
    let s1 = s.update(i, s[j]);
    assert(s1[j] == s[j]);
    assert(s.contains(s[i]));
    assert(m.count(s[i]) > 0);
    let m1 = m.insert(s[j]).remove(s[i]);
    assert(s1.to_multiset() == m1);
    let m2 = m1.insert(s[i]).remove(s[j]);
    assert(s1.update(j, s[i]).to_multiset() == m2);
    assert forall|x: usize| m2.count(x) == m.count(x) by {}
    assert(m2 =~= m);
}

/// A shuffle only reorders: it keeps every item, as often as it occurs.
pub proof fn lemma_shuffle_from_permutes(s: Seq<usize>, draws: Seq<u64>, i: nat)
    ensures
        shuffle_from(s, draws, i).to_multiset() == s.to_multiset(),
        shuffle_from(s, draws, i).len() == s.len(),
    decreases s.len() - i,
{
    if i < s.len() {
        let j = i + (draw_at(draws, i as int) as int) % (s.len() - i);
        lemma_swap_multiset(s, i as int, j);
        lemma_shuffle_from_permutes(swap(s, i as int, j), draws, i + 1);
    }
}

/// Runs a query: the passing rows in bank order, shuffled by the draws, then
/// cut to the limit.
pub fn run_query(bank: &Bank, qs: &QuerySpec, draws: &Vec<u64>) -> (r: Vec<usize>)
    ensures
        r@ == query_result(*bank, *qs, draws@),
{
    let mut rows = matching_rows(bank, qs);
    shuffle(&mut rows, draws);
    match qs.limit {
        Some(l) => {
            if l < rows.len() as u64 {
                rows.truncate(l as usize);
                assert(rows@ =~= shuffled(query_rows(*bank, *qs), draws@).take(l as int));
            }
        },
        None => {},
    }
    rows
}

/// Whether a question passes every filter of a query.
pub fn question_passes(bank: &Bank, qs: &QuerySpec, q: &BankQuestion) -> (r: bool)
    ensures
        r == query_holds(bank.entries@, *qs, *q),
{
    let level_ok = match qs.level {
        Some(l) => match q.level {
            Some(x) => x == l,
            None => false,
        },
        None => true,
    };
    let question_ok = match &qs.question_chapters {
        Some(cs) => match q.chapter {
            Some(c) => contains_int(cs, c),
            None => false,
        },
        None => true,
    };
    let entry_ok = match &qs.entry_chapters {
        Some(cs) => match q.entry_id {
            Some(e) => match bank.entry_chapter_of(e) {
                Some(c) => contains_int(cs, c),
                None => false,
            },
            None => false,
        },
        None => true,
    };
    let range_ok = match qs.entry_ids {
        Some(r) => match q.entry_id {
            Some(e) => r.start <= e && e <= r.end,
            None => false,
        },
        None => true,
    };
    level_ok && question_ok && entry_ok && range_ok
}

/// Whether `v` holds `x`.
pub fn contains_int(v: &Vec<i32>, x: i32) -> (r: bool)
    ensures
        r == v@.contains(x),
{
    let mut i: usize = 0;
    while i < v.len()
        invariant
            i <= v.len(),
            forall|k: int| 0 <= k < i ==> v@[k] != x,
        decreases v.len() - i,
    {
        if v[i] == x {
            assert(v@[i as int] == x);
            return true;
        }
        i = i + 1;
    }
    false
}

/// The positions of the questions that pass a query, in bank order.
pub fn matching_rows(bank: &Bank, qs: &QuerySpec) -> (r: Vec<usize>)
    ensures
        r@ == query_rows(*bank, *qs),
{
    let ghost f = |i: int| query_holds(bank.entries@, *qs, bank.questions@[i]);
    let mut rows: Vec<usize> = Vec::new();
    let mut i: usize = 0;
    while i < bank.questions.len()
        invariant
            i <= bank.questions.len(),
            f == (|i: int| query_holds(bank.entries@, *qs, bank.questions@[i])),
            rows@ == filter_indices(i as nat, f),
        decreases bank.questions.len() - i,
    {
        if question_passes(bank, qs, &bank.questions[i]) {
            rows.push(i);
        }
        i = i + 1;
    }
    rows
}

/// Reorders `rows` in place by Fisher-Yates, each swap chosen by a draw.
pub fn shuffle(rows: &mut Vec<usize>, draws: &Vec<u64>)
    ensures
        final(rows)@ == shuffled(old(rows)@, draws@),
{
    let ghost start = rows@;
    let n = rows.len();
    let mut i: usize = 0;
    while i < n
        invariant
            n == rows.len(),
            i <= n,
            shuffle_from(rows@, draws@, i as nat) == shuffled(start, draws@),
        decreases n - i,
    {
        let d: u64 = if i < draws.len() {
            draws[i]
        } else {
            0
        };
        let span: u64 = (n - i) as u64;
        let off: u64 = d % span;
        let j: usize = i + off as usize;
        assert(j == i + (draw_at(draws@, i as int) as int) % (rows@.len() - i));
        let ghost prev = rows@;
        let a = rows[i];
        let b = rows[j];
        rows.set(i, b);
        rows.set(j, a);
        assert(rows@ =~= swap(prev, i as int, j as int));
        i = i + 1;
    }
}

} // verus!
