use vstd::prelude::*;

use crate::bank::{Bank, BankQuestion, Entry};
use crate::criteria::{Mode, SelectionSpec};
use crate::query::{
    entry_chapter_passes, entry_id_passes, filter_indices, level_passes, limited,
    query_holds, query_result, query_rows, run_query, shuffled, question_chapter_passes,
    lemma_shuffle_from_permutes, QuerySpec,
};

verus! {

/// How many queries the cascade runs at most: chapter mode has the extra
/// step that reads the chapter through the entry.
pub open spec fn cascade_len(spec: SelectionSpec) -> nat {
    if spec.mode == Mode::Chapter {
        4
    } else {
        3
    }
}

/// Whether a question passes step `step` of the cascade.
///
/// Chapter mode: the level and the question's chapter; then the level and the
/// entry's chapter; then the question's chapter alone; then nothing.
/// Range mode: the level and the entry-id range; then the range alone; then
/// nothing.
pub open spec fn step_holds(
    entries: Seq<Entry>,
    spec: SelectionSpec,
    step: int,
    q: BankQuestion,
) -> bool {
    if spec.mode == Mode::Chapter {
        if step == 0 {
            level_passes(spec.level_id, q) && question_chapter_passes(spec.chapters, q)
        } else if step == 1 {
            level_passes(spec.level_id, q) && entry_chapter_passes(entries, spec.chapters, q)
        } else if step == 2 {
            question_chapter_passes(spec.chapters, q)
        } else {
            true
        }
    } else {
        if step == 0 {
            level_passes(spec.level_id, q) && entry_id_passes(spec.range, q)
        } else if step == 1 {
            entry_id_passes(spec.range, q)
        } else {
            true
        }
    }
}

/// The positions of the questions that step `step` matches, in bank order.
pub open spec fn step_rows(bank: Bank, spec: SelectionSpec, step: int) -> Seq<usize> {
    filter_indices(
        bank.questions@.len(),
        |i: int| step_holds(bank.entries@, spec, step, bank.questions@[i]),
    )
}

/// The first step at or after `s` that matches a question.
pub open spec fn first_step_from(bank: Bank, spec: SelectionSpec, s: nat) -> Option<nat>
    decreases cascade_len(spec) - s,
{
    if s >= cascade_len(spec) {
        None
    } else if step_rows(bank, spec, s as int).len() > 0 {
        Some(s)
    } else {
        first_step_from(bank, spec, s + 1)
    }
}

/// What selection yields: the first step that matches a question, and its
/// rows shuffled by the draws and cut to the limit; `None` where no step
/// matches anything.
pub open spec fn selection_outcome(bank: Bank, spec: SelectionSpec, draws: Seq<u64>) -> Option<
    (nat, Seq<usize>),
> {
    match first_step_from(bank, spec, 0) {
        Some(s) => Some((s, limited(shuffled(step_rows(bank, spec, s as int), draws), spec.limit))),
        None => None,
    }
}

/// The rows chosen for a test and the cascade step that chose them.
pub struct Selection {
    /// The deciding step, counted from 0. Chapter mode: 0 exact intent,
    /// 1 chapter through the entry, 2 level dropped, 3 no filter. Range mode:
    /// 0 exact intent, 1 level dropped, 2 no filter.
    pub step: usize,
    /// Positions in the bank's question list, in the order drawn.
    pub rows: Vec<usize>,
}

/// Why no selection was made.
#[derive(PartialEq, Eq, Structural, Clone, Copy, Debug)]
pub enum SelectError {
    /// No step of the cascade matched a question: the bank is empty.
    NoQuestions,
}

/// A copy of a list of integers.
pub fn copy_ints(v: &Vec<i32>) -> (r: Vec<i32>)
    ensures
        r@ == v@,
{
    let mut r: Vec<i32> = Vec::new();
    let mut i: usize = 0;
    while i < v.len()
        invariant
            i <= v.len(),
            r@ == v@.take(i as int),
        decreases v.len() - i,
    {
        r.push(v[i]);
        i = i + 1;
        assert(r@ =~= v@.take(i as int));
    }
    assert(v@.take(v@.len() as int) =~= v@);
    r
}

pub fn copy_chapters(c: &Option<Vec<i32>>) -> (r: Option<Vec<i32>>)
    ensures
        r is Some == c is Some,
        c matches Some(v) ==> r->0@ == v@,
{
    match c {
        Some(v) => Some(copy_ints(v)),
        None => None,
    }
}

/// Builds the cascade of queries for a selection spec, strictest first.
pub fn plan(spec: &SelectionSpec) -> (r: Vec<QuerySpec>)
    ensures
        r@.len() == cascade_len(*spec),
        forall|k: int| 0 <= k < r@.len() ==> (#[trigger] r@[k]).limit == spec.limit,
        forall|k: int, entries: Seq<Entry>, q: BankQuestion|
            0 <= k < r@.len() ==> #[trigger] query_holds(entries, r@[k], q) == step_holds(
                entries,
                *spec,
                k,
                q,
            ),
{
    let mut r: Vec<QuerySpec> = Vec::new();
    if spec.mode == Mode::Chapter {
        r.push(
            QuerySpec {
                level: spec.level_id,
                question_chapters: copy_chapters(&spec.chapters),
                entry_chapters: None,
                entry_ids: None,
                limit: spec.limit,
            },
        );
        r.push(
            QuerySpec {
                level: spec.level_id,
                question_chapters: None,
                entry_chapters: copy_chapters(&spec.chapters),
                entry_ids: None,
                limit: spec.limit,
            },
        );
        r.push(
            QuerySpec {
                level: None,
                question_chapters: copy_chapters(&spec.chapters),
                entry_chapters: None,
                entry_ids: None,
                limit: spec.limit,
            },
        );
    } else {
        r.push(
            QuerySpec {
                level: spec.level_id,
                question_chapters: None,
                entry_chapters: None,
                entry_ids: spec.range,
                limit: spec.limit,
            },
        );
        r.push(
            QuerySpec {
                level: None,
                question_chapters: None,
                entry_chapters: None,
                entry_ids: spec.range,
                limit: spec.limit,
            },
        );
    }
    r.push(
        QuerySpec {
            level: None,
            question_chapters: None,
            entry_chapters: None,
            entry_ids: None,
            limit: spec.limit,
        },
    );
    r
}

/// Runs the cascade: the first query that returns a row decides the
/// selection, and later steps are not run.
pub fn select(bank: &Bank, spec: &SelectionSpec, draws: &Vec<u64>) -> (r: Result<
    Selection,
    SelectError,
>)
    requires
        spec.wf(),
    ensures
        r matches Ok(sel) ==> selection_outcome(*bank, *spec, draws@) == Some(
            (sel.step as nat, sel.rows@),
        ),
        r is Err ==> selection_outcome(*bank, *spec, draws@) is None,
{
    let queries = plan(spec);
    let mut k: usize = 0;
    while k < queries.len()
        invariant
            k <= queries@.len(),
            queries@.len() == cascade_len(*spec),
            spec.wf(),
            forall|j: int| 0 <= j < queries@.len() ==> (#[trigger] queries@[j]).limit == spec.limit,
            forall|j: int, entries: Seq<Entry>, q: BankQuestion|
                0 <= j < queries@.len() ==> #[trigger] query_holds(entries, queries@[j], q)
                    == step_holds(entries, *spec, j, q),
            first_step_from(*bank, *spec, 0) == first_step_from(*bank, *spec, k as nat),
        decreases queries@.len() - k,
    {
        let rows = run_query(bank, &queries[k], draws);
        proof {
            let qk = queries@[k as int];
            assert((|i: int| query_holds(bank.entries@, qk, bank.questions@[i])) =~= (|i: int|
                step_holds(bank.entries@, *spec, k as int, bank.questions@[i])));
            assert(query_rows(*bank, qk) == step_rows(*bank, *spec, k as int));
            lemma_shuffle_from_permutes(query_rows(*bank, qk), draws@, 0);
        }
        if rows.len() > 0 {
            return Ok(Selection { step: k, rows });
        }
        k = k + 1;
    }
    Err(SelectError::NoQuestions)
}

proof fn lemma_filter_indices_members(n: nat, f: spec_fn(int) -> bool)
    requires
        n <= usize::MAX,
    ensures
        filter_indices(n, f).len() <= n,
        forall|k: int|
            0 <= k < filter_indices(n, f).len() ==> (#[trigger] filter_indices(n, f)[k] as int)
                < n && f(filter_indices(n, f)[k] as int),
    decreases n,
{
    if n > 0 {
        lemma_filter_indices_members((n - 1) as nat, f);
        let prev = filter_indices((n - 1) as nat, f);
        let cur = filter_indices(n, f);
        assert forall|k: int| 0 <= k < cur.len() implies (#[trigger] cur[k] as int) < n && f(
            cur[k] as int,
        ) by {
            if k < prev.len() {
                assert(cur[k] == prev[k]);
            }
        }
    }
}

proof fn lemma_first_step_matches(bank: Bank, spec: SelectionSpec, s: nat)
    ensures
        first_step_from(bank, spec, s) matches Some(u) ==> u < cascade_len(spec) && step_rows(
            bank,
            spec,
            u as int,
        ).len() > 0,
    decreases cascade_len(spec) - s,
{
    if s < cascade_len(spec) && step_rows(bank, spec, s as int).len() == 0 {
        lemma_first_step_matches(bank, spec, s + 1);
    }
}

proof fn lemma_filter_indices_all(n: nat, f: spec_fn(int) -> bool)
    requires
        forall|i: int| 0 <= i < n ==> #[trigger] f(i),
    ensures
        filter_indices(n, f).len() == n,
    decreases n,
{
    if n > 0 {
        lemma_filter_indices_all((n - 1) as nat, f);
    }
}

proof fn lemma_first_step_found(bank: Bank, spec: SelectionSpec, s: nat, t: nat)
    requires
        s <= t < cascade_len(spec),
        step_rows(bank, spec, t as int).len() > 0,
    ensures
        first_step_from(bank, spec, s) matches Some(u) && s <= u <= t,
    decreases t - s,
{
    if s < t && step_rows(bank, spec, s as int).len() == 0 {
        lemma_first_step_found(bank, spec, s + 1, t);
    }
}

proof fn lemma_last_step_takes_all(bank: Bank, spec: SelectionSpec)
    ensures
        step_rows(bank, spec, cascade_len(spec) - 1).len() == bank.questions@.len(),
{
    let last = cascade_len(spec) - 1;
    let f = |i: int| step_holds(bank.entries@, spec, last, bank.questions@[i]);
    assert forall|i: int| 0 <= i < bank.questions@.len() implies #[trigger] f(i) by {}
    lemma_filter_indices_all(bank.questions@.len(), f);
}

/// A request with no filters (no known level, chapter mode, no chapters) on a
/// non-empty bank always succeeds, with as many rows as the bank holds, or
/// the limit where that is smaller.
pub proof fn lemma_unfiltered_request_takes_min(bank: Bank, spec: SelectionSpec, draws: Seq<u64>)
    requires
        spec.wf(),
        spec.level_id is None,
        spec.mode == Mode::Chapter,
        spec.chapters is None,
        bank.questions@.len() > 0,
    ensures
        selection_outcome(bank, spec, draws) matches Some((step, rows)) && rows.len() == (
        match spec.limit {
            Some(l) => if (l as int) < bank.questions@.len() {
                l as int
            } else {
                bank.questions@.len() as int
            },
            None => bank.questions@.len() as int,
        }),
{
    let f = |i: int| step_holds(bank.entries@, spec, 0, bank.questions@[i]);
    assert forall|i: int| 0 <= i < bank.questions@.len() implies #[trigger] f(i) by {}
    lemma_filter_indices_all(bank.questions@.len(), f);
    let rows = step_rows(bank, spec, 0);
    lemma_shuffle_from_permutes(rows, draws, 0);
}

/// Every row that selection yields is a position in the bank whose question
/// passes the step that decided.
pub proof fn lemma_selected_rows_match_step(
    bank: Bank,
    spec: SelectionSpec,
    draws: Seq<u64>,
    step: nat,
    rows: Seq<usize>,
)
    requires
        selection_outcome(bank, spec, draws) == Some((step, rows)),
    ensures
        forall|k: int|
            0 <= k < rows.len() ==> (#[trigger] rows[k] as int) < bank.questions@.len()
                && step_holds(bank.entries@, spec, step as int, bank.questions@[rows[k] as int]),
{
    broadcast use vstd::seq_lib::group_to_multiset_ensures;

    assert(bank.questions@.len() == bank.questions.len());
    let all = step_rows(bank, spec, step as int);
    let f = |i: int| step_holds(bank.entries@, spec, step as int, bank.questions@[i]);
    lemma_filter_indices_members(bank.questions@.len(), f);
    lemma_shuffle_from_permutes(all, draws, 0);
    let mixed = shuffled(all, draws);
    assert(rows == limited(mixed, spec.limit));
    assert forall|k: int| 0 <= k < rows.len() implies (#[trigger] rows[k] as int)
        < bank.questions@.len() && step_holds(
        bank.entries@,
        spec,
        step as int,
        bank.questions@[rows[k] as int],
    ) by {
        assert(mixed[k] == rows[k]);
        assert(mixed.contains(rows[k]));
        assert(mixed.to_multiset().count(rows[k]) > 0);
        assert(all.contains(rows[k]));
        let m = choose|m: int| 0 <= m < all.len() && all[m] == rows[k];
        assert(all[m] == rows[k]);
    }
}

/// When the exact intent (step 0) matches at least one question, it decides
/// the selection: the later steps are not reached, and every chosen row is a
/// question that step 0 matches.
pub proof fn lemma_exact_intent_wins(bank: Bank, spec: SelectionSpec, draws: Seq<u64>)
    requires
        spec.wf(),
        step_rows(bank, spec, 0).len() > 0,
    ensures
        selection_outcome(bank, spec, draws) matches Some((step, rows)) && step == 0 && rows.len()
            > 0 && forall|k: int|
            0 <= k < rows.len() ==> (#[trigger] rows[k] as int) < bank.questions@.len()
                && step_holds(bank.entries@, spec, 0, bank.questions@[rows[k] as int]),
{
    lemma_shuffle_from_permutes(step_rows(bank, spec, 0), draws, 0);
    let rows = limited(shuffled(step_rows(bank, spec, 0), draws), spec.limit);
    lemma_selected_rows_match_step(bank, spec, draws, 0, rows);
}

/// Whenever the bank holds a question, selection succeeds with at least one
/// row, whatever the filters: the last step of the cascade has none. Where no
/// earlier step matches anything, that last step decides, over the whole bank.
pub proof fn lemma_nonempty_bank_always_selects(bank: Bank, spec: SelectionSpec, draws: Seq<u64>)
    requires
        spec.wf(),
        bank.questions@.len() > 0,
    ensures
        selection_outcome(bank, spec, draws) matches Some((step, rows)) && step < cascade_len(spec)
            && rows.len() > 0,
        (forall|s: int| 0 <= s < cascade_len(spec) - 1 ==> #[trigger] step_rows(bank, spec, s).len()
            == 0) ==> (selection_outcome(bank, spec, draws) matches Some((step, rows)) && step
            == cascade_len(spec) - 1),
{
    let last = (cascade_len(spec) - 1) as nat;
    lemma_last_step_takes_all(bank, spec);
    lemma_first_step_found(bank, spec, 0, last);
    lemma_first_step_matches(bank, spec, 0);
    let s = first_step_from(bank, spec, 0)->0;
    lemma_shuffle_from_permutes(step_rows(bank, spec, s as int), draws, 0);
    if forall|s: int| 0 <= s < cascade_len(spec) - 1 ==> #[trigger] step_rows(bank, spec, s).len()
        == 0 {
        assert(step_rows(bank, spec, s as int).len() > 0);
    }
}

/// On an empty bank no step matches anything, and selection fails.
pub proof fn lemma_empty_bank_fails(bank: Bank, spec: SelectionSpec, draws: Seq<u64>)
    requires
        bank.questions@.len() == 0,
    ensures
        selection_outcome(bank, spec, draws) is None,
{
    assert forall|s: nat| s <= cascade_len(spec) implies first_step_from(bank, spec, s) is None by {
        lemma_no_step_from(bank, spec, s);
    }
}

proof fn lemma_no_step_from(bank: Bank, spec: SelectionSpec, s: nat)
    requires
        bank.questions@.len() == 0,
    ensures
        first_step_from(bank, spec, s) is None,
    decreases cascade_len(spec) - s,
{
    if s < cascade_len(spec) {
        lemma_no_step_from(bank, spec, s + 1);
    }
}

} // verus!
