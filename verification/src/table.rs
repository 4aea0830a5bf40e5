//! Partitions and the logical table formed by their ordered union.

use vstd::prelude::*;

use crate::error::Error;
use crate::value::Value;

verus! {

/// What a column holds.
#[derive(Clone, Copy, Debug, PartialEq, Eq, Structural)]
pub enum ColumnType {
    /// Dates and times.
    Timestamp,
    /// Whole amounts that arithmetic is defined on.
    Numeric,
    /// Whole codes that name a category.
    Categorical,
}

/// A column of a schema.
#[derive(Clone, Debug, PartialEq, Eq)]
pub struct Column {
    pub name: String,
    pub ty: ColumnType,
}

/// A column as specifications see it.
pub struct ColumnView {
    pub name: Seq<char>,
    pub ty: ColumnType,
}

impl View for Column {
    type V = ColumnView;

    open spec fn view(&self) -> ColumnView {
        ColumnView { name: self.name@, ty: self.ty }
    }
}

/// A schema as specifications see it.
pub open spec fn schema_view(columns: Seq<Column>) -> Seq<ColumnView> {
    Seq::new(columns.len(), |i: int| columns[i]@)
}

/// The column names of a schema, in order.
pub open spec fn schema_names(schema: Seq<ColumnView>) -> Seq<Seq<char>> {
    Seq::new(schema.len(), |i: int| schema[i].name)
}

/// Rows as specifications see them.
pub open spec fn rows_view(rows: Seq<Vec<Value>>) -> Seq<Seq<Value>> {
    Seq::new(rows.len(), |i: int| rows[i]@)
}

/// A cell agrees with the type of its column: it is undefined, a timestamp in
/// a timestamp column, or a whole number in a numeric or categorical column.
pub open spec fn value_fits(v: Value, ty: ColumnType) -> bool {
    match v {
        Value::Null => true,
        Value::Num { den, .. } => den == 1 && ty != ColumnType::Timestamp,
        Value::Time(_) => ty == ColumnType::Timestamp,
    }
}

/// A row agrees with a schema: one cell per column, each of the column's type.
pub open spec fn row_fits(row: Seq<Value>, schema: Seq<ColumnView>) -> bool {
    &&& row.len() == schema.len()
    &&& forall|j: int| 0 <= j < row.len() ==> value_fits(#[trigger] row[j], schema[j].ty)
}

/// Every row agrees with the schema.
pub open spec fn rows_fit(rows: Seq<Seq<Value>>, schema: Seq<ColumnView>) -> bool {
    forall|i: int| 0 <= i < rows.len() ==> row_fits(#[trigger] rows[i], schema)
}

/// One batch of rows under a schema of its own.
#[derive(Clone, Debug, PartialEq, Eq)]
pub struct Partition {
    pub schema: Vec<Column>,
    pub rows: Vec<Vec<Value>>,
}

/// The rows of the partitions, one partition after the other.
pub open spec fn concat_rows(partitions: Seq<Partition>) -> Seq<Seq<Value>>
    decreases partitions.len(),
{
    if partitions.len() == 0 {
        Seq::empty()
    } else {
        concat_rows(partitions.drop_last()) + rows_view(partitions.last().rows@)
    }
}

/// Every partition has the schema `schema`.
pub open spec fn schemas_agree(partitions: Seq<Partition>, schema: Seq<ColumnView>) -> bool {
    forall|p: int|
        0 <= p < partitions.len() ==> schema_view((#[trigger] partitions[p]).schema@) == schema
}

/// The schema of the first partition; the empty schema without partitions.
pub open spec fn first_schema(partitions: Seq<Partition>) -> Seq<ColumnView> {
    if partitions.len() == 0 {
        Seq::empty()
    } else {
        schema_view(partitions[0].schema@)
    }
}

/// A table under one name and one schema, whose rows are those of its
/// partitions in order.
#[derive(Clone, Debug, PartialEq, Eq)]
pub struct LogicalTable {
    pub name: String,
    pub schema: Vec<Column>,
    pub partitions: Vec<Partition>,
}

fn value_agrees(v: &Value, ty: ColumnType) -> (r: bool)
    ensures
        r == value_fits(*v, ty),
{
    match v {
        Value::Null => true,
        Value::Num { num: _, den } => *den == 1 && ty != ColumnType::Timestamp,
        Value::Time(_) => ty == ColumnType::Timestamp,
    }
}

fn row_agrees(row: &Vec<Value>, schema: &Vec<Column>) -> (r: bool)
    ensures
        r == row_fits(row@, schema_view(schema@)),
{
    if row.len() != schema.len() {
        return false;
    }
    let mut j: usize = 0;
    while j < row.len()
        invariant
            0 <= j <= row.len(),
            row.len() == schema.len(),
            forall|k: int| 0 <= k < j ==> value_fits(#[trigger] row@[k], schema_view(schema@)[k].ty),
        decreases row.len() - j,
    {
        if !value_agrees(&row[j], schema[j].ty) {
            assert(!value_fits(row@[j as int], schema_view(schema@)[j as int].ty));
            return false;
        }
        j = j + 1;
    }
    true
}

fn same_schema(a: &Vec<Column>, b: &Vec<Column>) -> (r: bool)
    ensures
        r == (schema_view(a@) == schema_view(b@)),
{
    if a.len() != b.len() {
        assert(schema_view(a@).len() != schema_view(b@).len());
        return false;
    }
    let mut j: usize = 0;
    while j < a.len()
        invariant
            0 <= j <= a.len(),
            a.len() == b.len(),
            forall|k: int| 0 <= k < j ==> a@[k]@ == b@[k]@,
        decreases a.len() - j,
    {
        if !(a[j].name == b[j].name && a[j].ty == b[j].ty) {
            assert(schema_view(a@)[j as int] != schema_view(b@)[j as int]);
            return false;
        }
        j = j + 1;
    }
    assert(schema_view(a@) =~= schema_view(b@));
    true
}

fn copy_schema(schema: &Vec<Column>) -> (r: Vec<Column>)
    ensures
        r@ == schema@,
{
    let mut r: Vec<Column> = Vec::new();
    let mut j: usize = 0;
    while j < schema.len()
        invariant
            0 <= j <= schema.len(),
            r@ == schema@.take(j as int),
        decreases schema.len() - j,
    {
        r.push(Column { name: schema[j].name.clone(), ty: schema[j].ty });
        assert(r@ =~= schema@.take(j + 1));
        j = j + 1;
    }
    assert(schema@.take(j as int) =~= schema@);
    r
}

impl Partition {
    /// Every row agrees with the schema of the partition.
    pub open spec fn wf(&self) -> bool {
        rows_fit(rows_view(self.rows@), schema_view(self.schema@))
    }

    /// Forms a partition from a schema and rows, and refuses rows that do not
    /// agree with the schema.
    pub fn new(schema: Vec<Column>, rows: Vec<Vec<Value>>) -> (r: Result<Partition, Error>)
        ensures
            rows_fit(rows_view(rows@), schema_view(schema@)) ==> r.is_ok() && r.unwrap().schema
                == schema && r.unwrap().rows == rows && r.unwrap().wf(),
            !rows_fit(rows_view(rows@), schema_view(schema@)) ==> r.is_err() && r.unwrap_err()
                == Error::SchemaMismatch,
    {
        let mut i: usize = 0;
        while i < rows.len()
            invariant
                0 <= i <= rows.len(),
                forall|k: int|
                    0 <= k < i ==> row_fits(#[trigger] rows_view(rows@)[k], schema_view(schema@)),
            decreases rows.len() - i,
        {
            if !row_agrees(&rows[i], &schema) {
                assert(!row_fits(rows_view(rows@)[i as int], schema_view(schema@)));
                return Err(Error::SchemaMismatch);
            }
            i = i + 1;
        }
        Ok(Partition { schema, rows })
    }
}

impl LogicalTable {
    /// All rows of the table, partition by partition.
    pub open spec fn rows(&self) -> Seq<Seq<Value>> {
        concat_rows(self.partitions@)
    }

    /// The partitions are well formed and share the schema of the table, and
    /// the rows can be counted in 64 bits.
    pub open spec fn wf(&self) -> bool {
        &&& forall|p: int| 0 <= p < self.partitions.len() ==> (#[trigger] self.partitions[p]).wf()
        &&& schemas_agree(self.partitions@, schema_view(self.schema@))
        &&& self.rows().len() <= u64::MAX
    }

    /// Forms the table `name` from partitions.
    ///
    /// The schema is that of the first partition. A later partition with
    /// another schema is refused at once. A table without partitions has no
    /// columns and no rows.
    pub fn open(name: String, partitions: Vec<Partition>) -> (r: Result<LogicalTable, Error>)
        requires
            forall|p: int| 0 <= p < partitions.len() ==> (#[trigger] partitions[p]).wf(),
            concat_rows(partitions@).len() <= u64::MAX,
        ensures
            schemas_agree(partitions@, first_schema(partitions@)) ==> r.is_ok() && r.unwrap().wf()
                && r.unwrap().name == name && r.unwrap().partitions == partitions && schema_view(
                r.unwrap().schema@,
            ) == first_schema(partitions@),
            !schemas_agree(partitions@, first_schema(partitions@)) ==> r.is_err()
                && r.unwrap_err() == Error::SchemaMismatch,
    {
        if partitions.len() == 0 {
            let schema: Vec<Column> = Vec::new();
            assert(schema_view(schema@) =~= first_schema(partitions@));
            return Ok(LogicalTable { name, schema, partitions });
        }
        let schema = copy_schema(&partitions[0].schema);
        let mut p: usize = 1;
        while p < partitions.len()
            invariant
                1 <= p <= partitions.len(),
                schema@ == partitions[0].schema@,
                forall|q: int|
                    0 <= q < p ==> schema_view((#[trigger] partitions[q]).schema@) == first_schema(
                        partitions@,
                    ),
            decreases partitions.len() - p,
        {
            if !same_schema(&partitions[p].schema, &schema) {
                return Err(Error::SchemaMismatch);
            }
            p = p + 1;
        }
        Ok(LogicalTable { name, schema, partitions })
    }

    /// Number of rows of the table.
    pub fn row_count(&self) -> (n: u64)
        requires
            self.wf(),
        ensures
            n == self.rows().len(),
    {
        let mut n: u64 = 0;
        let mut p: usize = 0;
        while p < self.partitions.len()
            invariant
                0 <= p <= self.partitions.len(),
                n == concat_rows(self.partitions@.take(p as int)).len(),
                concat_rows(self.partitions@).len() <= u64::MAX,
            decreases self.partitions.len() - p,
        {
            proof {
                assert(self.partitions@.take(p + 1).drop_last() =~= self.partitions@.take(p as int));
                lemma_concat_rows_grows(self.partitions@, p + 1);
            }
            n = n + self.partitions[p].rows.len() as u64;
            p = p + 1;
        }
        proof {
            assert(self.partitions@.take(p as int) =~= self.partitions@);
        }
        n
    }
}

/// The rows of the first `n` partitions are no more than the rows of all.
pub proof fn lemma_concat_rows_grows(partitions: Seq<Partition>, n: int)
    requires
        0 <= n <= partitions.len(),
    ensures
        concat_rows(partitions.take(n)).len() <= concat_rows(partitions).len(),
    decreases partitions.len() - n,
{
    if n < partitions.len() {
        assert(partitions.take(n + 1).drop_last() =~= partitions.take(n));
        lemma_concat_rows_grows(partitions, n + 1);
    } else {
        assert(partitions.take(n) =~= partitions);
    }
}

} // verus!
