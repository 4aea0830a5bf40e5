//! Grouped aggregation: rows are bucketed by a key and each bucket is reduced
//! to one summary row.

use vstd::prelude::*;

use crate::table::{concat_rows, lemma_concat_rows_grows, rows_fit, rows_view, LogicalTable};
use crate::value::{make_number, number, Value};

verus! {

/// Where one cell of a group key comes from: a column of the row, as it is or
/// truncated to its calendar month.
#[derive(Clone, Copy, Debug, PartialEq, Eq, Structural)]
pub struct KeySource {
    pub index: usize,
    pub month: bool,
}

/// How the rows of a group are reduced to one cell.
#[derive(Clone, Copy, Debug, PartialEq, Eq, Structural)]
pub enum Reducer {
    /// The number of rows of the group.
    CountRows,
    /// The sum of the defined cells of a column.
    Sum(usize),
    /// The sum of the defined cells of a column over their number.
    Avg(usize),
}

/// Every key source reads a column below `width`.
pub open spec fn keys_in_range(keys: Seq<KeySource>, width: int) -> bool {
    forall|j: int| 0 <= j < keys.len() ==> (#[trigger] keys[j]).index < width
}

/// The column that a reducer reads lies below `width`.
pub open spec fn reducer_in_range(r: Reducer, width: int) -> bool {
    match r {
        Reducer::CountRows => true,
        Reducer::Sum(c) => c < width,
        Reducer::Avg(c) => c < width,
    }
}

/// Every reducer reads a column below `width`.
pub open spec fn reducers_in_range(reducers: Seq<Reducer>, width: int) -> bool {
    forall|j: int| 0 <= j < reducers.len() ==> reducer_in_range(#[trigger] reducers[j], width)
}

/// One cell of the group key of a row.
pub open spec fn key_cell(row: Seq<Value>, source: KeySource) -> Value {
    if source.month {
        row[source.index as int].month_start()
    } else {
        row[source.index as int]
    }
}

/// The group key of a row.
pub open spec fn key_of(row: Seq<Value>, keys: Seq<KeySource>) -> Seq<Value> {
    Seq::new(keys.len(), |j: int| key_cell(row, keys[j]))
}

/// The rows whose group key is `key`, in the order of `rows`.
pub open spec fn members(rows: Seq<Seq<Value>>, keys: Seq<KeySource>, key: Seq<Value>) -> Seq<
    Seq<Value>,
>
    decreases rows.len(),
{
    if rows.len() == 0 {
        Seq::empty()
    } else {
        let earlier = members(rows.drop_last(), keys, key);
        if key_of(rows.last(), keys) == key {
            earlier.push(rows.last())
        } else {
            earlier
        }
    }
}

/// The group keys that occur in `rows`, each once, in the order in which they
/// are first met.
pub open spec fn distinct_keys(rows: Seq<Seq<Value>>, keys: Seq<KeySource>) -> Seq<Seq<Value>>
    decreases rows.len(),
{
    if rows.len() == 0 {
        Seq::empty()
    } else {
        let earlier = distinct_keys(rows.drop_last(), keys);
        let key = key_of(rows.last(), keys);
        if earlier.contains(key) {
            earlier
        } else {
            earlier.push(key)
        }
    }
}

/// How many rows of `group` hold a number in column `c`.
pub open spec fn defined_count(group: Seq<Seq<Value>>, c: int) -> nat
    decreases group.len(),
{
    if group.len() == 0 {
        0
    } else {
        defined_count(group.drop_last(), c) + if group.last()[c] is Num {
            1nat
        } else {
            0nat
        }
    }
}

/// The sum of the numerators that the rows of `group` hold in column `c`.
pub open spec fn defined_sum(group: Seq<Seq<Value>>, c: int) -> int
    decreases group.len(),
{
    if group.len() == 0 {
        0
    } else {
        defined_sum(group.drop_last(), c) + match group.last()[c] {
            Value::Num { num, .. } => num as int,
            _ => 0,
        }
    }
}

/// What a reducer has counted and summed over `group`: all rows for a row
/// count, the defined cells of its column otherwise.
pub open spec fn tally(r: Reducer, group: Seq<Seq<Value>>) -> (nat, int) {
    match r {
        Reducer::CountRows => (group.len(), 0),
        Reducer::Sum(c) => (defined_count(group, c as int), defined_sum(group, c as int)),
        Reducer::Avg(c) => (defined_count(group, c as int), defined_sum(group, c as int)),
    }
}

/// The cell that a reducer yields from a count and a sum.
///
/// A row count is the count. A sum or an average over no defined cell is
/// undefined; otherwise the sum is the sum and the average is the exact
/// fraction of sum over count.
pub open spec fn finish(r: Reducer, t: (nat, int)) -> Value {
    match r {
        Reducer::CountRows => number(t.0 as int, 1),
        Reducer::Sum(_) => if t.0 == 0 {
            Value::Null
        } else {
            number(t.1, 1)
        },
        Reducer::Avg(_) => if t.0 == 0 {
            Value::Null
        } else {
            number(t.1, t.0 as int)
        },
    }
}

/// The cell that a reducer yields for `group`.
pub open spec fn reduce(r: Reducer, group: Seq<Seq<Value>>) -> Value {
    finish(r, tally(r, group))
}

/// The summary row of the group `key`: the key, then one cell per reducer.
pub open spec fn summary_row(
    rows: Seq<Seq<Value>>,
    keys: Seq<KeySource>,
    reducers: Seq<Reducer>,
    key: Seq<Value>,
) -> Seq<Value> {
    key + Seq::new(reducers.len(), |j: int| reduce(reducers[j], members(rows, keys, key)))
}

/// The summary rows of `rows`: one per distinct group key, in the order in
/// which the keys are first met.
pub open spec fn aggregate_rows(
    rows: Seq<Seq<Value>>,
    keys: Seq<KeySource>,
    reducers: Seq<Reducer>,
) -> Seq<Seq<Value>> {
    let found = distinct_keys(rows, keys);
    Seq::new(found.len(), |g: int| summary_row(rows, keys, reducers, found[g]))
}

/// What one more row adds to a count and a sum.
pub open spec fn tally_step(r: Reducer, t: (nat, int), row: Seq<Value>) -> (nat, int) {
    match r {
        Reducer::CountRows => (t.0 + 1, 0),
        Reducer::Sum(c) => match row[c as int] {
            Value::Num { num, .. } => (t.0 + 1, t.1 + num),
            _ => t,
        },
        Reducer::Avg(c) => match row[c as int] {
            Value::Num { num, .. } => (t.0 + 1, t.1 + num),
            _ => t,
        },
    }
}

/// Counting and summing a group with one more row is one step from the group
/// without it.
pub proof fn lemma_tally_push(r: Reducer, group: Seq<Seq<Value>>, row: Seq<Value>)
    ensures
        tally(r, group.push(row)) == tally_step(r, tally(r, group), row),
{
    assert(group.push(row).drop_last() =~= group);
}

/// A row joins the members of its own key and of no other.
pub proof fn lemma_members_push(
    rows: Seq<Seq<Value>>,
    row: Seq<Value>,
    keys: Seq<KeySource>,
    key: Seq<Value>,
)
    ensures
        members(rows.push(row), keys, key) == if key_of(row, keys) == key {
            members(rows, keys, key).push(row)
        } else {
            members(rows, keys, key)
        },
{
    assert(rows.push(row).drop_last() =~= rows);
}

/// A row adds its key to the distinct keys exactly when the key is new.
pub proof fn lemma_distinct_keys_push(rows: Seq<Seq<Value>>, row: Seq<Value>, keys: Seq<KeySource>)
    ensures
        distinct_keys(rows.push(row), keys) == if distinct_keys(rows, keys).contains(
            key_of(row, keys),
        ) {
            distinct_keys(rows, keys)
        } else {
            distinct_keys(rows, keys).push(key_of(row, keys))
        },
{
    assert(rows.push(row).drop_last() =~= rows);
}

/// The key of every row is among the distinct keys.
pub proof fn lemma_key_is_listed(rows: Seq<Seq<Value>>, keys: Seq<KeySource>, i: int)
    requires
        0 <= i < rows.len(),
    ensures
        distinct_keys(rows, keys).contains(key_of(rows[i], keys)),
    decreases rows.len(),
{
    let earlier = distinct_keys(rows.drop_last(), keys);
    let last_key = key_of(rows.last(), keys);
    if i < rows.len() - 1 {
        lemma_key_is_listed(rows.drop_last(), keys, i);
        let k = key_of(rows[i], keys);
        assert(rows.drop_last()[i] == rows[i]);
        let w = choose|w: int| 0 <= w < earlier.len() && earlier[w] == k;
        if !earlier.contains(last_key) {
            assert(earlier.push(last_key)[w] == k);
        }
    } else {
        if !earlier.contains(last_key) {
            assert(earlier.push(last_key)[earlier.len() as int] == last_key);
        }
    }
}

/// Every distinct key is the key of some row.
pub proof fn lemma_listed_key_occurs(rows: Seq<Seq<Value>>, keys: Seq<KeySource>, g: int)
    requires
        0 <= g < distinct_keys(rows, keys).len(),
    ensures
        exists|i: int| 0 <= i < rows.len() && key_of(#[trigger] rows[i], keys) == distinct_keys(
            rows,
            keys,
        )[g],
    decreases rows.len(),
{
    let earlier = distinct_keys(rows.drop_last(), keys);
    if g < earlier.len() {
        lemma_listed_key_occurs(rows.drop_last(), keys, g);
        let i = choose|i: int|
            0 <= i < rows.drop_last().len() && key_of(#[trigger] rows.drop_last()[i], keys)
                == earlier[g];
        assert(rows.drop_last()[i] == rows[i]);
        assert(key_of(rows[i], keys) == distinct_keys(rows, keys)[g]);
    } else {
        assert(key_of(rows[rows.len() - 1], keys) == distinct_keys(rows, keys)[g]);
    }
}

/// No key is listed twice among the distinct keys.
pub proof fn lemma_distinct_keys_differ(rows: Seq<Seq<Value>>, keys: Seq<KeySource>)
    ensures
        forall|g: int, h: int|
            0 <= g < h < distinct_keys(rows, keys).len() ==> distinct_keys(rows, keys)[g]
                != distinct_keys(rows, keys)[h],
    decreases rows.len(),
{
    if rows.len() > 0 {
        lemma_distinct_keys_differ(rows.drop_last(), keys);
        let earlier = distinct_keys(rows.drop_last(), keys);
        let found = distinct_keys(rows, keys);
        assert forall|g: int, h: int| 0 <= g < h < found.len() implies found[g] != found[h] by {
            if h < earlier.len() {
                assert(found[g] == earlier[g] && found[h] == earlier[h]);
            } else {
                assert(!earlier.contains(found[h]));
                assert(found[g] == earlier[g]);
            }
        }
    }
}

/// A key that is not listed has no members.
pub proof fn lemma_unlisted_key_has_no_members(
    rows: Seq<Seq<Value>>,
    keys: Seq<KeySource>,
    key: Seq<Value>,
)
    requires
        !distinct_keys(rows, keys).contains(key),
    ensures
        members(rows, keys, key) == Seq::<Seq<Value>>::empty(),
    decreases rows.len(),
{
    if rows.len() > 0 {
        let earlier = distinct_keys(rows.drop_last(), keys);
        let last_key = key_of(rows.last(), keys);
        lemma_key_is_listed(rows, keys, rows.len() - 1);
        if earlier.contains(key) {
            let w = choose|w: int| 0 <= w < earlier.len() && earlier[w] == key;
            if !earlier.contains(last_key) {
                assert(earlier.push(last_key)[w] == key);
            }
        }
        lemma_unlisted_key_has_no_members(rows.drop_last(), keys, key);
    }
}

/// Every member of a group has the key of the group.
pub proof fn lemma_members_share_key(rows: Seq<Seq<Value>>, keys: Seq<KeySource>, key: Seq<Value>)
    ensures
        forall|i: int|
            0 <= i < members(rows, keys, key).len() ==> key_of(
                #[trigger] members(rows, keys, key)[i],
                keys,
            ) == key,
    decreases rows.len(),
{
    if rows.len() > 0 {
        lemma_members_share_key(rows.drop_last(), keys, key);
        let earlier = members(rows.drop_last(), keys, key);
        let all = members(rows, keys, key);
        assert forall|i: int| 0 <= i < all.len() implies key_of(#[trigger] all[i], keys) == key by {
            if i < earlier.len() {
                assert(all[i] == earlier[i]);
            }
        }
    }
}

/// A row is a member of the group of its key.
pub proof fn lemma_row_is_member(rows: Seq<Seq<Value>>, keys: Seq<KeySource>, i: int)
    requires
        0 <= i < rows.len(),
    ensures
        members(rows, keys, key_of(rows[i], keys)).len() > 0,
    decreases rows.len(),
{
    if i < rows.len() - 1 {
        assert(rows.drop_last()[i] == rows[i]);
        lemma_row_is_member(rows.drop_last(), keys, i);
    }
}

/// Every listed group has a member.
pub proof fn lemma_listed_key_has_members(rows: Seq<Seq<Value>>, keys: Seq<KeySource>, g: int)
    requires
        0 <= g < distinct_keys(rows, keys).len(),
    ensures
        members(rows, keys, distinct_keys(rows, keys)[g]).len() > 0,
{
    lemma_listed_key_occurs(rows, keys, g);
    let i = choose|i: int|
        0 <= i < rows.len() && key_of(#[trigger] rows[i], keys) == distinct_keys(rows, keys)[g];
    lemma_row_is_member(rows, keys, i);
}

/// The cells of a summary row: the key of its group, then what each reducer
/// yields for the members of the group.
pub proof fn lemma_summary_cells(
    rows: Seq<Seq<Value>>,
    keys: Seq<KeySource>,
    reducers: Seq<Reducer>,
    g: int,
)
    requires
        0 <= g < distinct_keys(rows, keys).len(),
    ensures
        distinct_keys(rows, keys)[g].len() == keys.len(),
        aggregate_rows(rows, keys, reducers)[g].len() == keys.len() + reducers.len(),
        forall|j: int|
            0 <= j < keys.len() ==> #[trigger] aggregate_rows(rows, keys, reducers)[g][j]
                == distinct_keys(rows, keys)[g][j],
        forall|j: int|
            0 <= j < reducers.len() ==> #[trigger] aggregate_rows(rows, keys, reducers)[g][keys.len()
                + j] == reduce(reducers[j], members(rows, keys, distinct_keys(rows, keys)[g])),
{
    let found = distinct_keys(rows, keys);
    lemma_listed_key_occurs(rows, keys, g);
    let i = choose|i: int| 0 <= i < rows.len() && key_of(#[trigger] rows[i], keys) == found[g];
    assert(found[g].len() == keys.len());
    assert(aggregate_rows(rows, keys, reducers)[g] == summary_row(rows, keys, reducers, found[g]));
}

/// The members of a listed group: there is one, and each has in every key
/// cell what the key of the group holds.
pub proof fn lemma_group_members(rows: Seq<Seq<Value>>, keys: Seq<KeySource>, g: int)
    requires
        0 <= g < distinct_keys(rows, keys).len(),
    ensures
        members(rows, keys, distinct_keys(rows, keys)[g]).len() > 0,
        forall|i: int, j: int|
            0 <= i < members(rows, keys, distinct_keys(rows, keys)[g]).len() && 0 <= j < keys.len()
                ==> key_cell(
                #[trigger] members(rows, keys, distinct_keys(rows, keys)[g])[i],
                #[trigger] keys[j],
            ) == distinct_keys(rows, keys)[g][j],
{
    let key = distinct_keys(rows, keys)[g];
    let group = members(rows, keys, key);
    lemma_listed_key_has_members(rows, keys, g);
    lemma_members_share_key(rows, keys, key);
    assert forall|i: int, j: int| 0 <= i < group.len() && 0 <= j < keys.len() implies key_cell(
        #[trigger] group[i],
        #[trigger] keys[j],
    ) == key[j] by {
        assert(key_of(group[i], keys) == key);
        assert(key_of(group[i], keys)[j] == key_cell(group[i], keys[j]));
    }
}

/// There are no more distinct keys than rows.
pub proof fn lemma_distinct_keys_bounded(rows: Seq<Seq<Value>>, keys: Seq<KeySource>)
    ensures
        distinct_keys(rows, keys).len() <= rows.len(),
    decreases rows.len(),
{
    if rows.len() > 0 {
        lemma_distinct_keys_bounded(rows.drop_last(), keys);
    }
}

/// Every summary row holds one cell per key source and one per reducer.
pub proof fn lemma_summary_width(
    rows: Seq<Seq<Value>>,
    keys: Seq<KeySource>,
    reducers: Seq<Reducer>,
)
    ensures
        forall|g: int|
            0 <= g < aggregate_rows(rows, keys, reducers).len() ==> (#[trigger] aggregate_rows(
                rows,
                keys,
                reducers,
            )[g]).len() == keys.len() + reducers.len(),
{
    let found = distinct_keys(rows, keys);
    assert forall|g: int| 0 <= g < aggregate_rows(rows, keys, reducers).len() implies (
    #[trigger] aggregate_rows(rows, keys, reducers)[g]).len() == keys.len() + reducers.len() by {
        lemma_listed_key_occurs(rows, keys, g);
        let i = choose|i: int|
            0 <= i < rows.len() && key_of(#[trigger] rows[i], keys) == found[g];
        assert(found[g].len() == keys.len());
    }
}

/// Running count and sum of one reducer over one group.
#[derive(Clone, Copy)]
struct Acc {
    count: u64,
    sum: i128,
}

spec fn acc_is(acc: Acc, t: (nat, int)) -> bool {
    acc.count == t.0 && acc.sum == t.1
}

spec fn acc_bounded(acc: Acc, seen: int) -> bool {
    &&& acc.count <= seen
    &&& -(acc.count * 0x8000_0000_0000_0000) <= acc.sum <= acc.count * 0x8000_0000_0000_0000
}

/// The running state holds, for every distinct key of `seen` and every
/// reducer, the count and sum over the members of that key.
spec fn tracks(
    group_keys: Seq<Vec<Value>>,
    accs: Seq<Vec<Acc>>,
    seen: Seq<Seq<Value>>,
    keys: Seq<KeySource>,
    reducers: Seq<Reducer>,
) -> bool {
    let found = distinct_keys(seen, keys);
    &&& group_keys.len() == found.len()
    &&& accs.len() == found.len()
    &&& forall|g: int| 0 <= g < found.len() ==> (#[trigger] group_keys[g])@ == found[g]
    &&& forall|g: int| 0 <= g < found.len() ==> (#[trigger] accs[g]).len() == reducers.len()
    &&& forall|g: int, j: int|
        0 <= g < found.len() && 0 <= j < reducers.len() ==> acc_is(
            #[trigger] accs[g][j],
            tally(reducers[j], members(seen, keys, found[g])),
        ) && acc_bounded(accs[g][j], seen.len() as int)
}

fn row_key(row: &Vec<Value>, keys: &Vec<KeySource>) -> (key: Vec<Value>)
    requires
        keys_in_range(keys@, row.len() as int),
    ensures
        key@ == key_of(row@, keys@),
{
    let mut key: Vec<Value> = Vec::new();
    let mut j: usize = 0;
    while j < keys.len()
        invariant
            0 <= j <= keys.len(),
            keys_in_range(keys@, row.len() as int),
            key.len() == j,
            forall|k: int| 0 <= k < j ==> key@[k] == key_cell(row@, keys@[k]),
        decreases keys.len() - j,
    {
        let source = keys[j];
        let cell = if source.month {
            row[source.index].truncate_to_month()
        } else {
            row[source.index]
        };
        key.push(cell);
        j = j + 1;
    }
    assert(key@ =~= key_of(row@, keys@));
    key
}

fn same_key(a: &Vec<Value>, b: &Vec<Value>) -> (r: bool)
    ensures
        r == (a@ == b@),
{
    if a.len() != b.len() {
        return false;
    }
    let mut j: usize = 0;
    while j < a.len()
        invariant
            0 <= j <= a.len(),
            a.len() == b.len(),
            forall|k: int| 0 <= k < j ==> a@[k] == b@[k],
        decreases a.len() - j,
    {
        if a[j] != b[j] {
            return false;
        }
        j = j + 1;
    }
    assert(a@ =~= b@);
    true
}

fn find_group(group_keys: &Vec<Vec<Value>>, key: &Vec<Value>) -> (r: Option<usize>)
    ensures
        r matches Some(g) ==> g < group_keys.len() && group_keys[g as int]@ == key@,
        r is None ==> forall|g: int| 0 <= g < group_keys.len() ==> (#[trigger] group_keys[g])@ != key@,
{
    let mut g: usize = 0;
    while g < group_keys.len()
        invariant
            0 <= g <= group_keys.len(),
            forall|h: int| 0 <= h < g ==> (#[trigger] group_keys[h])@ != key@,
        decreases group_keys.len() - g,
    {
        if same_key(&group_keys[g], key) {
            return Some(g);
        }
        g = g + 1;
    }
    None
}

fn step(r: Reducer, acc: Acc, row: &Vec<Value>, Ghost(seen): Ghost<int>) -> (out: Acc)
    requires
        reducer_in_range(r, row.len() as int),
        acc_bounded(acc, seen),
        seen < u64::MAX,
    ensures
        acc_is(out, tally_step(r, (acc.count as nat, acc.sum as int), row@)),
        acc_bounded(out, seen + 1),
{
    match r {
        Reducer::CountRows => Acc { count: acc.count + 1, sum: 0 },
        Reducer::Sum(c) => match row[c] {
            Value::Num { num, den: _ } => Acc { count: acc.count + 1, sum: acc.sum + num as i128 },
            _ => acc,
        },
        Reducer::Avg(c) => match row[c] {
            Value::Num { num, den: _ } => Acc { count: acc.count + 1, sum: acc.sum + num as i128 },
            _ => acc,
        },
    }
}

fn finish_cell(r: Reducer, acc: Acc) -> (v: Value)
    ensures
        v == finish(r, (acc.count as nat, acc.sum as int)),
{
    match r {
        Reducer::CountRows => make_number(acc.count as i128, 1),
        Reducer::Sum(_) => if acc.count == 0 {
            Value::Null
        } else {
            make_number(acc.sum, 1)
        },
        Reducer::Avg(_) => if acc.count == 0 {
            Value::Null
        } else {
            make_number(acc.sum, acc.count as i128)
        },
    }
}

fn fold_row(
    group_keys: &mut Vec<Vec<Value>>,
    accs: &mut Vec<Vec<Acc>>,
    row: &Vec<Value>,
    keys: &Vec<KeySource>,
    reducers: &Vec<Reducer>,
    Ghost(seen): Ghost<Seq<Seq<Value>>>,
)
    requires
        tracks(old(group_keys)@, old(accs)@, seen, keys@, reducers@),
        keys_in_range(keys@, row.len() as int),
        reducers_in_range(reducers@, row.len() as int),
        seen.len() < u64::MAX,
    ensures
        tracks(final(group_keys)@, final(accs)@, seen.push(row@), keys@, reducers@),
{
    let ghost found = distinct_keys(seen, keys@);
    let ghost grown = seen.push(row@);
    let key = row_key(row, keys);
    proof {
        lemma_distinct_keys_push(seen, row@, keys@);
        lemma_distinct_keys_differ(seen, keys@);
    }
    match find_group(group_keys, &key) {
        Some(g) => {
            let mut updated: Vec<Acc> = Vec::new();
            let mut j: usize = 0;
            while j < reducers.len()
                invariant
                    0 <= j <= reducers.len(),
                    found == distinct_keys(seen, keys@),
                    g < found.len(),
                    g < accs.len(),
                    accs@ == old(accs)@,
                    tracks(old(group_keys)@, old(accs)@, seen, keys@, reducers@),
                    reducers_in_range(reducers@, row.len() as int),
                    seen.len() < u64::MAX,
                    updated.len() == j,
                    forall|k: int|
                        0 <= k < j ==> acc_is(
                            #[trigger] updated@[k],
                            tally_step(
                                reducers@[k],
                                tally(reducers@[k], members(seen, keys@, found[g as int])),
                                row@,
                            ),
                        ) && acc_bounded(updated@[k], (seen.len() + 1) as int),
                decreases reducers.len() - j,
            {
                assert(acc_is(
                    accs@[g as int][j as int],
                    tally(reducers@[j as int], members(seen, keys@, found[g as int])),
                ));
                let next = step(reducers[j], accs[g][j], row, Ghost(seen.len() as int));
                updated.push(next);
                j = j + 1;
            }
            accs.set(g, updated);
            proof {
                assert(found[g as int] == key@);
                assert(found.contains(key@));
                assert(distinct_keys(grown, keys@) == found);
                assert forall|h: int, k: int|
                    0 <= h < found.len() && 0 <= k < reducers.len() implies acc_is(
                    #[trigger] accs@[h][k],
                    tally(reducers@[k], members(grown, keys@, found[h])),
                ) && acc_bounded(accs@[h][k], grown.len() as int) by {
                    lemma_members_push(seen, row@, keys@, found[h]);
                    if h == g {
                        lemma_tally_push(reducers@[k], members(seen, keys@, found[h]), row@);
                        assert(accs@[h][k] == updated@[k]);
                    } else {
                        assert(found[h] != found[g as int]);
                        assert(accs@[h][k] == old(accs)@[h][k]);
                    }
                }
            }
        },
        None => {
            let mut fresh: Vec<Acc> = Vec::new();
            let mut j: usize = 0;
            let ghost none: Seq<Seq<Value>> = Seq::empty();
            while j < reducers.len()
                invariant
                    0 <= j <= reducers.len(),
                    reducers_in_range(reducers@, row.len() as int),
                    seen.len() < u64::MAX,
                    none == Seq::<Seq<Value>>::empty(),
                    fresh.len() == j,
                    forall|k: int|
                        0 <= k < j ==> acc_is(
                            #[trigger] fresh@[k],
                            tally_step(reducers@[k], tally(reducers@[k], none), row@),
                        ) && acc_bounded(fresh@[k], (seen.len() + 1) as int),
                decreases reducers.len() - j,
            {
                let zero = Acc { count: 0, sum: 0 };
                assert(tally(reducers@[j as int], none) == (0nat, 0int));
                let next = step(reducers[j], zero, row, Ghost(seen.len() as int));
                fresh.push(next);
                j = j + 1;
            }
            proof {
                assert(!found.contains(key@)) by {
                    if found.contains(key@) {
                        let w = choose|w: int| 0 <= w < found.len() && found[w] == key@;
                        assert(old(group_keys)@[w]@ == found[w]);
                    }
                }
                lemma_unlisted_key_has_no_members(seen, keys@, key@);
            }
            group_keys.push(key);
            accs.push(fresh);
            proof {
                let after = distinct_keys(grown, keys@);
                assert(after == found.push(key@));
                assert forall|h: int| 0 <= h < after.len() implies (#[trigger] group_keys@[h])@
                    == after[h] by {
                    if h < found.len() {
                        assert(group_keys@[h] == old(group_keys)@[h]);
                    }
                }
                assert forall|h: int| 0 <= h < after.len() implies (#[trigger] accs@[h]).len()
                    == reducers.len() by {
                    if h < found.len() {
                        assert(accs@[h] == old(accs)@[h]);
                    }
                }
                assert forall|h: int, k: int|
                    0 <= h < after.len() && 0 <= k < reducers.len() implies acc_is(
                    #[trigger] accs@[h][k],
                    tally(reducers@[k], members(grown, keys@, after[h])),
                ) && acc_bounded(accs@[h][k], grown.len() as int) by {
                    lemma_members_push(seen, row@, keys@, after[h]);
                    if h < found.len() {
                        assert(found.contains(found[h]));
                        assert(after[h] != key@);
                        assert(accs@[h][k] == old(accs)@[h][k]);
                    } else {
                        lemma_tally_push(reducers@[k], none, row@);
                        assert(accs@[h][k] == fresh@[k]);
                    }
                }
            }
        },
    }
}

fn summary(key: &Vec<Value>, accs: &Vec<Acc>, reducers: &Vec<Reducer>) -> (cells: Vec<Value>)
    requires
        accs.len() == reducers.len(),
    ensures
        cells@ == key@ + Seq::new(
            reducers.len() as nat,
            |j: int| finish(reducers@[j], (accs@[j].count as nat, accs@[j].sum as int)),
        ),
{
    let mut cells: Vec<Value> = Vec::new();
    let mut k: usize = 0;
    while k < key.len()
        invariant
            0 <= k <= key.len(),
            cells@ == key@.take(k as int),
        decreases key.len() - k,
    {
        cells.push(key[k]);
        assert(cells@ =~= key@.take(k + 1));
        k = k + 1;
    }
    assert(key@.take(k as int) =~= key@);
    let mut j: usize = 0;
    while j < reducers.len()
        invariant
            0 <= j <= reducers.len(),
            accs.len() == reducers.len(),
            cells@ == key@ + Seq::new(
                j as nat,
                |j: int| finish(reducers@[j], (accs@[j].count as nat, accs@[j].sum as int)),
            ),
        decreases reducers.len() - j,
    {
        cells.push(finish_cell(reducers[j], accs[j]));
        assert(cells@ =~= key@ + Seq::new(
            (j + 1) as nat,
            |j: int| finish(reducers@[j], (accs@[j].count as nat, accs@[j].sum as int)),
        ));
        j = j + 1;
    }
    cells
}

/// Groups the rows of a table by `keys` and reduces every group with
/// `reducers`.
///
/// The partitions are read one after the other and folded into the running
/// state of the groups; no group is finished before the last row is folded.
pub fn aggregate(table: &LogicalTable, keys: &Vec<KeySource>, reducers: &Vec<Reducer>) -> (out: Vec<
    Vec<Value>,
>)
    requires
        table.wf(),
        keys_in_range(keys@, table.schema.len() as int),
        reducers_in_range(reducers@, table.schema.len() as int),
    ensures
        rows_view(out@) == aggregate_rows(table.rows(), keys@, reducers@),
{
    let mut group_keys: Vec<Vec<Value>> = Vec::new();
    let mut accs: Vec<Vec<Acc>> = Vec::new();
    let ghost mut seen: Seq<Seq<Value>> = Seq::empty();
    let mut p: usize = 0;
    while p < table.partitions.len()
        invariant
            table.wf(),
            keys_in_range(keys@, table.schema.len() as int),
            reducers_in_range(reducers@, table.schema.len() as int),
            0 <= p <= table.partitions.len(),
            seen == concat_rows(table.partitions@.take(p as int)),
            tracks(group_keys@, accs@, seen, keys@, reducers@),
        decreases table.partitions.len() - p,
    {
        let part = &table.partitions[p];
        let ghost base = seen;
        proof {
            assert(table.partitions@.take(p + 1).drop_last() =~= table.partitions@.take(p as int));
            assert(table.partitions@.take(p + 1).last() == table.partitions@[p as int]);
            lemma_concat_rows_grows(table.partitions@, p + 1);
            assert(part.wf());
            assert(crate::table::schema_view(part.schema@) == crate::table::schema_view(
                table.schema@,
            ));
        }
        let mut i: usize = 0;
        while i < part.rows.len()
            invariant
                keys_in_range(keys@, table.schema.len() as int),
                reducers_in_range(reducers@, table.schema.len() as int),
                0 <= i <= part.rows.len(),
                rows_fit(rows_view(part.rows@), crate::table::schema_view(table.schema@)),
                base.len() + part.rows.len() <= u64::MAX,
                seen == base + rows_view(part.rows@).take(i as int),
                tracks(group_keys@, accs@, seen, keys@, reducers@),
            decreases part.rows.len() - i,
        {
            let row = &part.rows[i];
            assert(rows_view(part.rows@)[i as int] == row@);
            fold_row(&mut group_keys, &mut accs, row, keys, reducers, Ghost(seen));
            proof {
                assert(seen.push(row@) =~= base + rows_view(part.rows@).take(i + 1));
                seen = seen.push(row@);
            }
            i = i + 1;
        }
        proof {
            assert(rows_view(part.rows@).take(i as int) =~= rows_view(part.rows@));
        }
        p = p + 1;
    }
    proof {
        assert(table.partitions@.take(p as int) =~= table.partitions@);
    }
    let ghost found = distinct_keys(seen, keys@);
    let mut out: Vec<Vec<Value>> = Vec::new();
    let mut g: usize = 0;
    while g < group_keys.len()
        invariant
            0 <= g <= group_keys.len(),
            found == distinct_keys(seen, keys@),
            tracks(group_keys@, accs@, seen, keys@, reducers@),
            out.len() == g,
            forall|h: int|
                0 <= h < g ==> (#[trigger] out@[h])@ == summary_row(seen, keys@, reducers@, found[h]),
        decreases group_keys.len() - g,
    {
        assert(accs@[g as int].len() == reducers.len());
        let cells = summary(&group_keys[g], &accs[g], reducers);
        proof {
            assert(group_keys@[g as int]@ == found[g as int]);
            assert forall|j: int| 0 <= j < reducers.len() implies finish(
                reducers@[j],
                (accs@[g as int]@[j].count as nat, accs@[g as int]@[j].sum as int),
            ) == reduce(reducers@[j], members(seen, keys@, found[g as int])) by {
                assert(acc_is(
                    accs@[g as int][j],
                    tally(reducers@[j], members(seen, keys@, found[g as int])),
                ));
            }
            assert(cells@ =~= summary_row(seen, keys@, reducers@, found[g as int]));
        }
        out.push(cells);
        g = g + 1;
    }
    assert(rows_view(out@) =~= aggregate_rows(seen, keys@, reducers@));
    out
}

} // verus!
