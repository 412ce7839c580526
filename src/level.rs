use vstd::prelude::*;

verus! {

/// Number of proficiency tiers.
pub const LEVEL_COUNT: i32 = 5;

/// The canonical label of the tier with the given id: id 1 is `n5`, the easiest,
/// and id 5 is `n1`.
pub open spec fn level_label_spec(id: int) -> Seq<char> {
    if id == 1 {
        seq!['n', '5']
    } else if id == 2 {
        seq!['n', '4']
    } else if id == 3 {
        seq!['n', '3']
    } else if id == 4 {
        seq!['n', '2']
    } else if id == 5 {
        seq!['n', '1']
    } else {
        Seq::empty()
    }
}

pub open spec fn is_level_id(id: int) -> bool {
    1 <= id <= 5
}

/// The id of the tier whose label is `label`, if any.
pub open spec fn level_id_spec(label: Seq<char>) -> Option<int> {
    if label == seq!['n', '5'] {
        Some(1)
    } else if label == seq!['n', '4'] {
        Some(2)
    } else if label == seq!['n', '3'] {
        Some(3)
    } else if label == seq!['n', '2'] {
        Some(4)
    } else if label == seq!['n', '1'] {
        Some(5)
    } else {
        None
    }
}

/// Looks a label up in the fixed label-to-id table.
pub fn level_id_of(label: &String) -> (r: Option<i32>)
    ensures
        r matches Some(id) ==> level_id_spec(label@) == Some(id as int),
        r is None ==> level_id_spec(label@) is None,
{
    proof {
        reveal_strlit("n5");
        reveal_strlit("n4");
        reveal_strlit("n3");
        reveal_strlit("n2");
        reveal_strlit("n1");
        assert("n5"@ =~= seq!['n', '5']);
        assert("n4"@ =~= seq!['n', '4']);
        assert("n3"@ =~= seq!['n', '3']);
        assert("n2"@ =~= seq!['n', '2']);
        assert("n1"@ =~= seq!['n', '1']);
    }
    if *label == String::from_str("n5") {
        Some(1)
    } else if *label == String::from_str("n4") {
        Some(2)
    } else if *label == String::from_str("n3") {
        Some(3)
    } else if *label == String::from_str("n2") {
        Some(4)
    } else if *label == String::from_str("n1") {
        Some(5)
    } else {
        None
    }
}

/// Returns the canonical label of a tier.
pub fn level_label(id: i32) -> (r: String)
    requires
        is_level_id(id as int),
    ensures
        r@ == level_label_spec(id as int),
{
    let s = if id == 1 {
        "n5"
    } else if id == 2 {
        "n4"
    } else if id == 3 {
        "n3"
    } else if id == 4 {
        "n2"
    } else {
        "n1"
    };
    proof {
        reveal_strlit("n5");
        reveal_strlit("n4");
        reveal_strlit("n3");
        reveal_strlit("n2");
        reveal_strlit("n1");
        assert("n5"@ =~= seq!['n', '5']);
        assert("n4"@ =~= seq!['n', '4']);
        assert("n3"@ =~= seq!['n', '3']);
        assert("n2"@ =~= seq!['n', '2']);
        assert("n1"@ =~= seq!['n', '1']);
    }
    String::from_str(s)
}

/// A row of the level table: a tier id and its label.
pub struct LevelRow {
    pub id: i32,
    pub label: String,
}

/// What a level row holds, as mathematical values.
pub struct LevelRowView {
    pub id: int,
    pub label: Seq<char>,
}

impl View for LevelRow {
    type V = LevelRowView;

    open spec fn view(&self) -> LevelRowView {
        LevelRowView { id: self.id as int, label: self.label@ }
    }
}

pub open spec fn level_rows_view(rows: Seq<LevelRow>) -> Seq<LevelRowView> {
    rows.map_values(|r: LevelRow| r@)
}

pub open spec fn has_level_id(rows: Seq<LevelRowView>, id: int) -> bool {
    exists|i: int| 0 <= i < rows.len() && #[trigger] rows[i].id == id
}

/// Adds the tier `id` unless a row with that id is already there
/// (insert, or do nothing on a conflicting id).
pub open spec fn seed_step(rows: Seq<LevelRowView>, id: int) -> Seq<LevelRowView> {
    if has_level_id(rows, id) {
        rows
    } else {
        rows.push(LevelRowView { id, label: level_label_spec(id) })
    }
}

/// The table after seeding the tiers `1..=n` in order.
pub open spec fn seeded_upto(rows: Seq<LevelRowView>, n: nat) -> Seq<LevelRowView>
    decreases n,
{
    if n == 0 {
        rows
    } else {
        seed_step(seeded_upto(rows, (n - 1) as nat), n as int)
    }
}

/// The table after seeding every tier.
pub open spec fn seeded(rows: Seq<LevelRowView>) -> Seq<LevelRowView> {
    seeded_upto(rows, 5)
}

pub open spec fn level_ids_unique(rows: Seq<LevelRowView>) -> bool {
    forall|i: int, j: int|
        0 <= i < rows.len() && 0 <= j < rows.len() && i != j ==> #[trigger] rows[i].id
            != #[trigger] rows[j].id
}

/// Whether a row with the given id is in the table.
pub fn contains_level(rows: &Vec<LevelRow>, id: i32) -> (r: bool)
    ensures
        r == has_level_id(level_rows_view(rows@), id as int),
{
    let ghost v = level_rows_view(rows@);
    let mut i: usize = 0;
    while i < rows.len()
        invariant
            i <= rows.len(),
            v == level_rows_view(rows@),
            forall|k: int| 0 <= k < i ==> v[k].id != id as int,
        decreases rows.len() - i,
    {
        if rows[i].id == id {
            assert(v[i as int].id == id as int);
            return true;
        }
        i = i + 1;
    }
    false
}

/// Seeds the level table: each tier missing from it is added with its
/// canonical label, and rows already there are left alone, so running it
/// again changes nothing.
pub fn seed_levels(rows: &mut Vec<LevelRow>)
    ensures
        level_rows_view(final(rows)@) == seeded(level_rows_view(old(rows)@)),
{
    let ghost start = level_rows_view(rows@);
    let mut id: i32 = 1;
    while id <= LEVEL_COUNT
        invariant
            1 <= id <= 6,
            level_rows_view(rows@) == seeded_upto(start, (id - 1) as nat),
        decreases 6 - id,
    {
        if !contains_level(rows, id) {
            let label = level_label(id);
            let ghost before = rows@;
            rows.push(LevelRow { id, label });
            assert(level_rows_view(rows@) =~= level_rows_view(before).push(
                LevelRowView { id: id as int, label: level_label_spec(id as int) },
            ));
        }
        id = id + 1;
    }
}

proof fn lemma_seed_step_keeps(rows: Seq<LevelRowView>, id: int, k: int)
    requires
        has_level_id(rows, k),
    ensures
        has_level_id(seed_step(rows, id), k),
{
    let i = choose|i: int| 0 <= i < rows.len() && #[trigger] rows[i].id == k;
    assert(seed_step(rows, id)[i].id == k);
}

proof fn lemma_seeded_upto_has(rows: Seq<LevelRowView>, n: nat, k: int)
    requires
        1 <= k <= n,
    ensures
        has_level_id(seeded_upto(rows, n), k),
    decreases n,
{
    let prev = seeded_upto(rows, (n - 1) as nat);
    if k == n {
        if !has_level_id(prev, k) {
            assert(seed_step(prev, k)[prev.len() as int].id == k);
        }
    } else {
        lemma_seeded_upto_has(rows, (n - 1) as nat, k);
        lemma_seed_step_keeps(prev, n as int, k);
    }
}

proof fn lemma_seeded_upto_fixed(rows: Seq<LevelRowView>, n: nat)
    requires
        forall|k: int| 1 <= k <= n ==> has_level_id(rows, k),
    ensures
        seeded_upto(rows, n) == rows,
    decreases n,
{
    if n > 0 {
        lemma_seeded_upto_fixed(rows, (n - 1) as nat);
    }
}

pub open spec fn level_labels_canonical(rows: Seq<LevelRowView>) -> bool {
    forall|i: int| 0 <= i < rows.len() ==> (#[trigger] rows[i]).label == level_label_spec(rows[i].id)
}

proof fn lemma_seeded_upto_unique(rows: Seq<LevelRowView>, n: nat)
    ensures
        level_ids_unique(rows) ==> level_ids_unique(seeded_upto(rows, n)),
        level_labels_canonical(rows) ==> level_labels_canonical(seeded_upto(rows, n)),
    decreases n,
{
    if n > 0 {
        lemma_seeded_upto_unique(rows, (n - 1) as nat);
    }
}

/// Seeding is idempotent: seeding a table that was already seeded leaves it
/// as it is.
pub proof fn lemma_seeding_is_idempotent(rows: Seq<LevelRowView>)
    ensures
        seeded(seeded(rows)) == seeded(rows),
{
    assert forall|k: int| 1 <= k <= 5 implies has_level_id(seeded(rows), k) by {
        lemma_seeded_upto_has(rows, 5, k);
    }
    lemma_seeded_upto_fixed(seeded(rows), 5);
}

/// After seeding, every tier id 1..=5 is present. Where the table held no
/// duplicate ids, it still holds none, so each tier appears exactly once; and
/// where every row had its tier's canonical label, every row still has.
pub proof fn lemma_seeding_gives_each_tier_once(rows: Seq<LevelRowView>)
    ensures
        forall|k: int| is_level_id(k) ==> has_level_id(seeded(rows), k),
        level_ids_unique(rows) ==> level_ids_unique(seeded(rows)),
        level_labels_canonical(rows) ==> level_labels_canonical(seeded(rows)),
{
    assert forall|k: int| is_level_id(k) implies has_level_id(seeded(rows), k) by {
        lemma_seeded_upto_has(rows, 5, k);
    }
    lemma_seeded_upto_unique(rows, 5);
}

proof fn lemma_seeded_from_empty(n: nat)
    requires
        n <= 5,
    ensures
        seeded_upto(Seq::empty(), n) =~= Seq::new(
            5,
            |i: int| LevelRowView { id: i + 1, label: level_label_spec(i + 1) },
        ).take(n as int),
    decreases n,
{
    let full = Seq::new(5, |i: int| LevelRowView { id: i + 1, label: level_label_spec(i + 1) });
    if n > 0 {
        lemma_seeded_from_empty((n - 1) as nat);
        let prev = seeded_upto(Seq::empty(), (n - 1) as nat);
        assert(prev =~= full.take(n - 1));
        assert(!has_level_id(prev, n as int));
        assert(full.take(n as int) =~= prev.push(full[n - 1]));
    }
}

/// Seeding an empty table gives the five tiers, ids 1..=5 in order, each with
/// its canonical label.
pub proof fn lemma_seeding_empty_table(rows: Seq<LevelRowView>)
    requires
        rows.len() == 0,
    ensures
        seeded(rows) == Seq::new(
            5,
            |i: int| LevelRowView { id: i + 1, label: level_label_spec(i + 1) },
        ),
{
    let full = Seq::new(5, |i: int| LevelRowView { id: i + 1, label: level_label_spec(i + 1) });
    assert(rows =~= Seq::empty());
    lemma_seeded_from_empty(5);
    assert(full.take(5) =~= full);
}

} // verus!
