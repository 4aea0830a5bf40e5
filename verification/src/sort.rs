//! Stable ordering of rows by one or more columns.

use vstd::prelude::*;

use crate::group::defined_sum;
use crate::table::rows_view;
use crate::value::Value;

verus! {

/// One column to order by, and the direction.
#[derive(Clone, Copy, Debug, PartialEq, Eq, Structural)]
pub struct SortColumn {
    pub index: usize,
    pub ascending: bool,
}

/// Every sort column lies below `width`.
pub open spec fn sort_in_range(keys: Seq<SortColumn>, width: int) -> bool {
    forall|j: int| 0 <= j < keys.len() ==> (#[trigger] keys[j]).index < width
}

/// Every row is wide enough for every sort column.
pub open spec fn rows_sortable(rows: Seq<Seq<Value>>, keys: Seq<SortColumn>) -> bool {
    forall|i: int| 0 <= i < rows.len() ==> sort_in_range(keys, (#[trigger] rows[i]).len() as int)
}

/// Whether cell `x` must come before cell `y`.
///
/// An undefined cell comes before every defined one, in either direction.
/// Defined cells follow the order of their values, reversed when descending.
pub open spec fn cell_before(x: Value, y: Value, ascending: bool) -> bool {
    if x is Null || y is Null {
        x is Null && !(y is Null)
    } else if ascending {
        x.before(y)
    } else {
        y.before(x)
    }
}

/// Whether row `a` must come before row `b`, judged by the sort columns from
/// position `from` on: the first column on which the rows differ decides.
pub open spec fn row_before_from(a: Seq<Value>, b: Seq<Value>, keys: Seq<SortColumn>, from: int) -> bool
    decreases keys.len() - from,
{
    if from < 0 || from >= keys.len() {
        false
    } else {
        let k = keys[from];
        if cell_before(a[k.index as int], b[k.index as int], k.ascending) {
            true
        } else if cell_before(b[k.index as int], a[k.index as int], k.ascending) {
            false
        } else {
            row_before_from(a, b, keys, from + 1)
        }
    }
}

/// Whether row `a` must come before row `b`.
pub open spec fn row_before(a: Seq<Value>, b: Seq<Value>, keys: Seq<SortColumn>) -> bool {
    row_before_from(a, b, keys, 0)
}

/// Where row `x` enters an order of earlier rows: behind the last row that it
/// need not come before.
pub open spec fn insertion_point(
    order: Seq<usize>,
    rows: Seq<Seq<Value>>,
    keys: Seq<SortColumn>,
    x: int,
) -> int
    decreases order.len(),
{
    if order.len() == 0 {
        0
    } else if row_before(rows[x], rows[order.last() as int], keys) {
        insertion_point(order.drop_last(), rows, keys, x)
    } else {
        order.len() as int
    }
}

/// The positions of the first `n` rows in sorted order: each row in turn
/// enters the order of the rows before it at its insertion point.
pub open spec fn sorted_order(rows: Seq<Seq<Value>>, keys: Seq<SortColumn>, n: nat) -> Seq<usize>
    decreases n,
{
    if n == 0 {
        Seq::empty()
    } else {
        let earlier = sorted_order(rows, keys, (n - 1) as nat);
        earlier.insert(insertion_point(earlier, rows, keys, n - 1), (n - 1) as usize)
    }
}

/// The rows in sorted order.
pub open spec fn sort_rows(rows: Seq<Seq<Value>>, keys: Seq<SortColumn>) -> Seq<Seq<Value>> {
    let order = sorted_order(rows, keys, rows.len());
    Seq::new(rows.len(), |k: int| rows[order[k] as int])
}

/// The sorted order of `n` rows has `n` entries, each below `n`.
pub proof fn lemma_sorted_order_shape(rows: Seq<Seq<Value>>, keys: Seq<SortColumn>, n: nat)
    ensures
        sorted_order(rows, keys, n).len() == n,
        forall|k: int| 0 <= k < n ==> (#[trigger] sorted_order(rows, keys, n)[k]) < n,
    decreases n,
{
    if n > 0 {
        let earlier = sorted_order(rows, keys, (n - 1) as nat);
        lemma_sorted_order_shape(rows, keys, (n - 1) as nat);
        lemma_insertion_point(earlier, rows, keys, n - 1);
    }
}

fn cell_precedes(x: &Value, y: &Value, ascending: bool) -> (r: bool)
    ensures
        r == cell_before(*x, *y, ascending),
{
    if x.is_null() || y.is_null() {
        x.is_null() && !y.is_null()
    } else if ascending {
        x.is_before(y)
    } else {
        y.is_before(x)
    }
}

/// Computes [`row_before`].
pub fn row_precedes(a: &Vec<Value>, b: &Vec<Value>, keys: &Vec<SortColumn>) -> (r: bool)
    requires
        sort_in_range(keys@, a.len() as int),
        sort_in_range(keys@, b.len() as int),
    ensures
        r == row_before(a@, b@, keys@),
{
    let mut j: usize = 0;
    while j < keys.len()
        invariant
            0 <= j <= keys.len(),
            sort_in_range(keys@, a.len() as int),
            sort_in_range(keys@, b.len() as int),
            row_before(a@, b@, keys@) == row_before_from(a@, b@, keys@, j as int),
        decreases keys.len() - j,
    {
        let k = keys[j];
        if cell_precedes(&a[k.index], &b[k.index], k.ascending) {
            return true;
        }
        if cell_precedes(&b[k.index], &a[k.index], k.ascending) {
            return false;
        }
        j = j + 1;
    }
    false
}

fn copy_row(row: &Vec<Value>) -> (r: Vec<Value>)
    ensures
        r@ == row@,
{
    let mut r: Vec<Value> = Vec::new();
    let mut j: usize = 0;
    while j < row.len()
        invariant
            0 <= j <= row.len(),
            r@ == row@.take(j as int),
        decreases row.len() - j,
    {
        r.push(row[j]);
        assert(r@ =~= row@.take(j + 1));
        j = j + 1;
    }
    assert(row@.take(j as int) =~= row@);
    r
}

/// Sorts rows by `keys`. Rows that no key tells apart keep the order in which
/// they came.
pub fn sort(rows: &Vec<Vec<Value>>, keys: &Vec<SortColumn>) -> (out: Vec<Vec<Value>>)
    requires
        rows_sortable(rows_view(rows@), keys@),
    ensures
        rows_view(out@) == sort_rows(rows_view(rows@), keys@),
{
    let ghost all = rows_view(rows@);
    let mut order: Vec<usize> = Vec::new();
    let mut n: usize = 0;
    while n < rows.len()
        invariant
            0 <= n <= rows.len(),
            all == rows_view(rows@),
            rows_sortable(all, keys@),
            order@ == sorted_order(all, keys@, n as nat),
        decreases rows.len() - n,
    {
        proof {
            lemma_sorted_order_shape(all, keys@, n as nat);
            assert(order@.take(order.len() as int) =~= order@);
        }
        let mut pos: usize = order.len();
        let mut placed = false;
        while pos > 0 && !placed
            invariant
                0 <= pos <= order.len(),
                n < rows.len(),
                order.len() == n,
                all == rows_view(rows@),
                rows_sortable(all, keys@),
                forall|k: int| 0 <= k < n ==> (#[trigger] order@[k]) < n,
                insertion_point(order@, all, keys@, n as int) == insertion_point(
                    order@.take(pos as int),
                    all,
                    keys@,
                    n as int,
                ),
                placed ==> insertion_point(order@.take(pos as int), all, keys@, n as int) == pos,
            decreases pos + if placed { 0int } else { 1int },
        {
            let candidate = order[pos - 1];
            proof {
                assert(order@.take(pos as int).last() == candidate);
                assert(order@.take(pos as int).drop_last() =~= order@.take(pos - 1));
                assert(all[n as int] == rows@[n as int]@);
                assert(all[candidate as int] == rows@[candidate as int]@);
            }
            if row_precedes(&rows[n], &rows[candidate], keys) {
                pos = pos - 1;
            } else {
                placed = true;
            }
        }
        proof {
            assert(order@.take(0) =~= Seq::<usize>::empty());
        }
        order.insert(pos, n);
        n = n + 1;
    }
    proof {
        lemma_sorted_order_shape(all, keys@, n as nat);
    }
    let mut out: Vec<Vec<Value>> = Vec::new();
    let mut k: usize = 0;
    while k < order.len()
        invariant
            0 <= k <= order.len(),
            order.len() == rows.len(),
            all == rows_view(rows@),
            forall|h: int| 0 <= h < order.len() ==> (#[trigger] order@[h]) < rows.len(),
            out.len() == k,
            forall|h: int| 0 <= h < k ==> (#[trigger] out@[h])@ == all[order@[h] as int],
        decreases order.len() - k,
    {
        let source = order[k];
        out.push(copy_row(&rows[source]));
        k = k + 1;
    }
    assert(rows_view(out@) =~= sort_rows(all, keys@));
    out
}

/// Every cell of every row is well formed.
pub open spec fn cells_wf(rows: Seq<Seq<Value>>) -> bool {
    forall|i: int, j: int|
        0 <= i < rows.len() && 0 <= j < rows[i].len() ==> (#[trigger] rows[i][j]).wf()
}

proof fn lemma_fraction_order(an: int, ad: int, bn: int, bd: int, cn: int, cd: int)
    requires
        ad > 0,
        bd > 0,
        cd > 0,
        an * bd >= bn * ad,
        bn * cd >= cn * bd,
    ensures
        an * cd >= cn * ad,
{
    assert((an * bd) * cd >= (bn * ad) * cd) by (nonlinear_arith)
        requires
            an * bd >= bn * ad,
            cd > 0,
    ;
    assert((bn * cd) * ad >= (cn * bd) * ad) by (nonlinear_arith)
        requires
            bn * cd >= cn * bd,
            ad > 0,
    ;
    assert((bn * ad) * cd == (bn * cd) * ad) by (nonlinear_arith);
    assert((an * bd) * cd == (an * cd) * bd) by (nonlinear_arith);
    assert((cn * bd) * ad == (cn * ad) * bd) by (nonlinear_arith);
    assert(an * cd >= cn * ad) by (nonlinear_arith)
        requires
            (an * cd) * bd >= (cn * ad) * bd,
            bd > 0,
    ;
}

/// The order of values is strict: no value is before one that is before it,
/// and a value that is not before a second, which is not before a third, is
/// not before the third.
pub proof fn lemma_value_order(x: Value, y: Value, z: Value)
    requires
        x.wf(),
        y.wf(),
        z.wf(),
    ensures
        !(x.before(y) && y.before(x)),
        !x.before(y) && !y.before(z) ==> !x.before(z),
{
    match (x, y, z) {
        (
            Value::Num { num: an, den: ad },
            Value::Num { num: bn, den: bd },
            Value::Num { num: cn, den: cd },
        ) => {
            if !x.before(y) && !y.before(z) {
                lemma_fraction_order(
                    an as int,
                    ad as int,
                    bn as int,
                    bd as int,
                    cn as int,
                    cd as int,
                );
            }
        },
        _ => {},
    }
}

/// The order of cells in one direction is strict in the same sense.
pub proof fn lemma_cell_order(x: Value, y: Value, z: Value, ascending: bool)
    requires
        x.wf(),
        y.wf(),
        z.wf(),
    ensures
        !(cell_before(x, y, ascending) && cell_before(y, x, ascending)),
        !cell_before(x, y, ascending) && !cell_before(y, z, ascending) ==> !cell_before(
            x,
            z,
            ascending,
        ),
{
    lemma_value_order(x, y, z);
    lemma_value_order(z, y, x);
}

/// Rows whose cells are well formed where the sort columns read them.
pub open spec fn sortable(row: Seq<Value>, keys: Seq<SortColumn>) -> bool {
    forall|j: int| 0 <= j < keys.len() ==> row[(#[trigger] keys[j]).index as int].wf()
}

/// The order of rows from a position on is strict.
pub proof fn lemma_row_order_from(
    a: Seq<Value>,
    b: Seq<Value>,
    c: Seq<Value>,
    keys: Seq<SortColumn>,
    from: int,
)
    requires
        sortable(a, keys),
        sortable(b, keys),
        sortable(c, keys),
        0 <= from,
    ensures
        !(row_before_from(a, b, keys, from) && row_before_from(b, a, keys, from)),
        !row_before_from(a, b, keys, from) && !row_before_from(b, c, keys, from)
            ==> !row_before_from(a, c, keys, from),
    decreases keys.len() - from,
{
    if from < keys.len() {
        let k = keys[from];
        let x = a[k.index as int];
        let y = b[k.index as int];
        let z = c[k.index as int];
        lemma_cell_order(x, y, z, k.ascending);
        lemma_cell_order(y, z, x, k.ascending);
        lemma_cell_order(z, x, y, k.ascending);
        lemma_cell_order(x, z, y, k.ascending);
        lemma_cell_order(y, x, z, k.ascending);
        lemma_cell_order(z, y, x, k.ascending);
        lemma_row_order_from(a, b, c, keys, from + 1);
    }
}

/// The order of rows is strict: it is asymmetric, and "not before" is
/// transitive.
pub proof fn lemma_row_order(a: Seq<Value>, b: Seq<Value>, c: Seq<Value>, keys: Seq<SortColumn>)
    requires
        sortable(a, keys),
        sortable(b, keys),
        sortable(c, keys),
    ensures
        !(row_before(a, b, keys) && row_before(b, a, keys)),
        !row_before(a, b, keys) && !row_before(b, c, keys) ==> !row_before(a, c, keys),
{
    lemma_row_order_from(a, b, c, keys, 0);
}

/// Whether the row at position `i` must stand before the row at position `j`
/// in the sorted result: it comes before it, or neither comes before the other
/// and `i` is the earlier position.
pub open spec fn precedes(rows: Seq<Seq<Value>>, keys: Seq<SortColumn>, i: int, j: int) -> bool {
    row_before(rows[i], rows[j], keys) || (!row_before(rows[j], rows[i], keys) && i < j)
}

/// Every entry of the order stands before every later entry.
pub open spec fn ordered(order: Seq<usize>, rows: Seq<Seq<Value>>, keys: Seq<SortColumn>) -> bool {
    forall|k: int, l: int|
        0 <= k < l < order.len() ==> precedes(
            rows,
            keys,
            #[trigger] order[k] as int,
            #[trigger] order[l] as int,
        )
}

/// The order holds every position below `n` exactly once.
pub open spec fn permutes(order: Seq<usize>, n: nat) -> bool {
    &&& order.len() == n
    &&& forall|k: int| 0 <= k < n ==> (#[trigger] order[k]) < n
    &&& forall|k: int, l: int| 0 <= k < l < n ==> #[trigger] order[k] != #[trigger] order[l]
    &&& forall|i: int| 0 <= i < n ==> #[trigger] order.contains(i as usize)
}

/// An insertion point lies within the order or at its end; the row comes
/// before every entry from there on, and not before the entry in front.
pub proof fn lemma_insertion_point(
    order: Seq<usize>,
    rows: Seq<Seq<Value>>,
    keys: Seq<SortColumn>,
    x: int,
)
    ensures
        0 <= insertion_point(order, rows, keys, x) <= order.len(),
        forall|l: int|
            insertion_point(order, rows, keys, x) <= l < order.len() ==> row_before(
                rows[x],
                rows[#[trigger] order[l] as int],
                keys,
            ),
        insertion_point(order, rows, keys, x) > 0 ==> !row_before(
            rows[x],
            rows[order[insertion_point(order, rows, keys, x) - 1] as int],
            keys,
        ),
    decreases order.len(),
{
    if order.len() > 0 {
        lemma_insertion_point(order.drop_last(), rows, keys, x);
        let front = order.drop_last();
        assert forall|l: int| 0 <= l < front.len() implies front[l] == order[l] by {}
    }
}

proof fn lemma_insert_ordered(
    earlier: Seq<usize>,
    rows: Seq<Seq<Value>>,
    keys: Seq<SortColumn>,
    x: int,
    pos: int,
)
    requires
        0 <= x < rows.len(),
        x <= usize::MAX,
        0 <= pos <= earlier.len(),
        forall|i: int| 0 <= i < rows.len() ==> sortable(#[trigger] rows[i], keys),
        forall|k: int| 0 <= k < earlier.len() ==> (#[trigger] earlier[k]) < x,
        ordered(earlier, rows, keys),
        forall|l: int|
            pos <= l < earlier.len() ==> row_before(rows[x], rows[#[trigger] earlier[l] as int], keys),
        pos > 0 ==> !row_before(rows[x], rows[earlier[pos - 1] as int], keys),
    ensures
        ordered(earlier.insert(pos, x as usize), rows, keys),
{
    let order = earlier.insert(pos, x as usize);
    assert forall|k: int, l: int| 0 <= k < l < order.len() implies precedes(
        rows,
        keys,
        #[trigger] order[k] as int,
        #[trigger] order[l] as int,
    ) by {
        if l < pos {
            assert(order[k] == earlier[k] && order[l] == earlier[l]);
        } else if l == pos {
            assert(order[k] == earlier[k]);
            assert(order[l] == x);
            let last = earlier[pos - 1] as int;
            let here = earlier[k] as int;
            assert(sortable(rows[x], keys));
            assert(sortable(rows[here], keys));
            assert(sortable(rows[last], keys));
            if k < pos - 1 {
                assert(precedes(rows, keys, here, last));
                lemma_row_order(rows[last], rows[here], rows[last], keys);
                lemma_row_order(rows[x], rows[last], rows[here], keys);
            }
            assert(!row_before(rows[x], rows[here], keys));
        } else if k == pos {
            assert(order[k] == x);
            assert(order[l] == earlier[l - 1]);
        } else if k < pos {
            assert(order[k] == earlier[k] && order[l] == earlier[l - 1]);
        } else {
            assert(order[k] == earlier[k - 1] && order[l] == earlier[l - 1]);
        }
    }
}

proof fn lemma_insert_permutes(earlier: Seq<usize>, n: nat, pos: int)
    requires
        n < usize::MAX,
        0 <= pos <= earlier.len(),
        permutes(earlier, n),
    ensures
        permutes(earlier.insert(pos, n as usize), n + 1),
{
    let order = earlier.insert(pos, n as usize);
    assert forall|k: int| 0 <= k < n + 1 implies (#[trigger] order[k]) < n + 1 by {
        if k < pos {
            assert(order[k] == earlier[k]);
        } else if k > pos {
            assert(order[k] == earlier[k - 1]);
        }
    }
    assert forall|k: int, l: int| 0 <= k < l < n + 1 implies #[trigger] order[k]
        != #[trigger] order[l] by {
        let ok = if k < pos {
            k
        } else {
            k - 1
        };
        let ol = if l < pos {
            l
        } else {
            l - 1
        };
        if k != pos {
            assert(order[k] == earlier[ok]);
        }
        if l != pos {
            assert(order[l] == earlier[ol]);
        }
    }
    assert forall|i: int| 0 <= i < n + 1 implies #[trigger] order.contains(i as usize) by {
        if i == n {
            assert(order[pos] == n as usize);
        } else {
            assert(earlier.contains(i as usize));
            let w = choose|w: int| 0 <= w < earlier.len() && earlier[w] == i as usize;
            if w < pos {
                assert(order[w] == earlier[w]);
            } else {
                assert(order[w + 1] == earlier[w]);
            }
        }
    }
}

/// The sorted order of the first `n` rows holds each of them once, and every
/// entry stands before every later one.
pub proof fn lemma_sorted_order(rows: Seq<Seq<Value>>, keys: Seq<SortColumn>, n: nat)
    requires
        n <= rows.len(),
        n <= usize::MAX,
        forall|i: int| 0 <= i < rows.len() ==> sortable(#[trigger] rows[i], keys),
    ensures
        permutes(sorted_order(rows, keys, n), n),
        ordered(sorted_order(rows, keys, n), rows, keys),
    decreases n,
{
    if n > 0 {
        let earlier = sorted_order(rows, keys, (n - 1) as nat);
        let x = n - 1;
        let pos = insertion_point(earlier, rows, keys, x);
        lemma_sorted_order(rows, keys, (n - 1) as nat);
        lemma_insertion_point(earlier, rows, keys, x);
        lemma_insert_permutes(earlier, (n - 1) as nat, pos);
        lemma_insert_ordered(earlier, rows, keys, x, pos);
    }
}

/// What a cell adds to a sum: its numerator, or nothing where it is no number.
pub open spec fn addend(v: Value) -> int {
    match v {
        Value::Num { num, .. } => num as int,
        _ => 0,
    }
}

/// A row that enters a list adds its cell to the sum of a column, wherever it
/// enters.
pub proof fn lemma_sum_insert(rows: Seq<Seq<Value>>, pos: int, row: Seq<Value>, c: int)
    requires
        0 <= pos <= rows.len(),
    ensures
        defined_sum(rows.insert(pos, row), c) == defined_sum(rows, c) + addend(row[c]),
    decreases rows.len(),
{
    let grown = rows.insert(pos, row);
    if pos == rows.len() {
        assert(grown.drop_last() =~= rows);
    } else {
        assert(grown.drop_last() =~= rows.drop_last().insert(pos, row));
        assert(grown.last() == rows.last());
        lemma_sum_insert(rows.drop_last(), pos, row, c);
    }
}

/// The sorted order of the first rows depends on those rows alone.
pub proof fn lemma_sorted_order_prefix(rows: Seq<Seq<Value>>, keys: Seq<SortColumn>, n: nat, m: nat)
    requires
        m <= n <= rows.len(),
    ensures
        sorted_order(rows.take(n as int), keys, m) == sorted_order(rows, keys, m),
    decreases m,
{
    if m > 0 {
        lemma_sorted_order_prefix(rows, keys, n, (m - 1) as nat);
        let earlier = sorted_order(rows, keys, (m - 1) as nat);
        lemma_sorted_order_shape(rows, keys, (m - 1) as nat);
        lemma_insertion_point_prefix(earlier, rows, keys, n, m - 1);
    }
}

proof fn lemma_insertion_point_prefix(
    order: Seq<usize>,
    rows: Seq<Seq<Value>>,
    keys: Seq<SortColumn>,
    n: nat,
    x: int,
)
    requires
        0 <= x < n <= rows.len(),
        forall|k: int| 0 <= k < order.len() ==> (#[trigger] order[k]) < n,
    ensures
        insertion_point(order, rows.take(n as int), keys, x) == insertion_point(order, rows, keys, x),
    decreases order.len(),
{
    if order.len() > 0 {
        assert(rows.take(n as int)[x] == rows[x]);
        assert(rows.take(n as int)[order.last() as int] == rows[order.last() as int]);
        let front = order.drop_last();
        assert forall|k: int| 0 <= k < front.len() implies (#[trigger] front[k]) < n by {
            assert(front[k] == order[k]);
        }
        lemma_insertion_point_prefix(front, rows, keys, n, x);
    }
}

/// Sorting keeps the sum of every column.
pub proof fn lemma_sort_keeps_sum(rows: Seq<Seq<Value>>, keys: Seq<SortColumn>, c: int)
    requires
        rows.len() <= usize::MAX,
    ensures
        defined_sum(sort_rows(rows, keys), c) == defined_sum(rows, c),
    decreases rows.len(),
{
    let n = rows.len();
    if n > 0 {
        let before = rows.drop_last();
        assert(rows.take(n - 1) =~= before);
        lemma_sort_keeps_sum(before, keys, c);
        lemma_sorted_order_prefix(rows, keys, (n - 1) as nat, (n - 1) as nat);
        let earlier = sorted_order(rows, keys, (n - 1) as nat);
        let pos = insertion_point(earlier, rows, keys, n - 1);
        let order = sorted_order(rows, keys, n);
        lemma_sorted_order_shape(rows, keys, (n - 1) as nat);
        lemma_sorted_order_shape(rows, keys, n);
        lemma_insertion_point(earlier, rows, keys, n - 1);
        assert(order == earlier.insert(pos, (n - 1) as usize));
        let sorted = sort_rows(rows, keys);
        let grown = sort_rows(before, keys).insert(pos, rows[n - 1]);
        assert(sorted.len() == grown.len());
        assert forall|k: int| 0 <= k < n implies sorted[k] == grown[k] by {
            if k < pos {
                assert(order[k] == earlier[k]);
                assert(earlier[k] < n - 1);
                assert(before[earlier[k] as int] == rows[earlier[k] as int]);
            } else if k > pos {
                assert(order[k] == earlier[k - 1]);
                assert(earlier[k - 1] < n - 1);
                assert(before[earlier[k - 1] as int] == rows[earlier[k - 1] as int]);
            } else {
                assert(order[k] == (n - 1) as usize);
            }
        }
        assert(sorted =~= grown);
        lemma_sum_insert(sort_rows(before, keys), pos, rows[n - 1], c);
    } else {
        assert(sort_rows(rows, keys) =~= rows);
    }
}

} // verus!
