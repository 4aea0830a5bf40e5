use trip_analytics::error::Error;
use trip_analytics::table::{Column, ColumnType, LogicalTable, Partition};
use trip_analytics::value::{Timestamp, Value};

fn col(name: &str, ty: ColumnType) -> Column {
    Column { name: name.to_string(), ty }
}

fn two_columns() -> Vec<Column> {
    vec![col("at", ColumnType::Timestamp), col("amount", ColumnType::Numeric)]
}

fn at(day: u8) -> Value {
    Value::Time(Timestamp { year: 2025, month: 1, day, hour: 0, minute: 0, second: 0 })
}

#[test]
fn a_partition_accepts_rows_of_its_schema() {
    let rows = vec![vec![at(1), Value::whole(5)], vec![Value::Null, Value::Null]];
    let p = Partition::new(two_columns(), rows.clone()).expect("rows fit");
    assert_eq!(p.rows, rows);
    assert_eq!(p.schema, two_columns());
}

#[test]
fn a_partition_refuses_a_short_row() {
    let rows = vec![vec![at(1), Value::whole(5)], vec![at(2)]];
    assert_eq!(Partition::new(two_columns(), rows), Err(Error::SchemaMismatch));
}

#[test]
fn a_partition_refuses_a_cell_of_the_wrong_type() {
    let rows = vec![vec![Value::whole(1), Value::whole(5)]];
    assert_eq!(Partition::new(two_columns(), rows), Err(Error::SchemaMismatch));
    let rows = vec![vec![at(1), at(2)]];
    assert_eq!(Partition::new(two_columns(), rows), Err(Error::SchemaMismatch));
}

#[test]
fn a_partition_refuses_a_fraction_as_input() {
    let rows = vec![vec![at(1), Value::Num { num: 1, den: 2 }]];
    assert_eq!(Partition::new(two_columns(), rows), Err(Error::SchemaMismatch));
}

#[test]
fn a_categorical_column_holds_whole_codes() {
    let schema = vec![col("kind", ColumnType::Categorical)];
    assert!(Partition::new(schema.clone(), vec![vec![Value::whole(4)]]).is_ok());
    assert_eq!(
        Partition::new(schema, vec![vec![at(1)]]),
        Err(Error::SchemaMismatch)
    );
}

#[test]
fn a_table_takes_the_schema_of_its_first_partition() {
    let a = Partition::new(two_columns(), vec![vec![at(1), Value::whole(5)]]).unwrap();
    let b = Partition::new(two_columns(), vec![]).unwrap();
    let t = LogicalTable::open("t".to_string(), vec![a, b]).expect("schemas agree");
    assert_eq!(t.name, "t");
    assert_eq!(t.schema, two_columns());
    assert_eq!(t.partitions.len(), 2);
    assert_eq!(t.row_count(), 1);
}

#[test]
fn a_table_refuses_partitions_of_different_schemas() {
    let a = Partition::new(two_columns(), vec![]).unwrap();
    let other = vec![col("at", ColumnType::Timestamp), col("amount", ColumnType::Categorical)];
    let b = Partition::new(other, vec![]).unwrap();
    assert_eq!(
        LogicalTable::open("t".to_string(), vec![a, b]),
        Err(Error::SchemaMismatch)
    );
}

#[test]
fn a_table_refuses_a_renamed_or_missing_column() {
    let a = Partition::new(two_columns(), vec![]).unwrap();
    let renamed = vec![col("at", ColumnType::Timestamp), col("Amount", ColumnType::Numeric)];
    let b = Partition::new(renamed, vec![]).unwrap();
    assert_eq!(
        LogicalTable::open("t".to_string(), vec![a.clone(), b]),
        Err(Error::SchemaMismatch)
    );
    let shorter = Partition::new(vec![col("at", ColumnType::Timestamp)], vec![]).unwrap();
    assert_eq!(
        LogicalTable::open("t".to_string(), vec![a, shorter]),
        Err(Error::SchemaMismatch)
    );
}

#[test]
fn a_table_without_partitions_is_empty() {
    let t = LogicalTable::open("t".to_string(), vec![]).expect("no partition to disagree");
    assert!(t.schema.is_empty());
    assert_eq!(t.row_count(), 0);
}

#[test]
fn row_count_adds_the_partitions() {
    let a = Partition::new(
        two_columns(),
        vec![vec![at(1), Value::whole(5)], vec![at(2), Value::whole(6)]],
    )
    .unwrap();
    let b = Partition::new(two_columns(), vec![vec![at(3), Value::whole(7)]]).unwrap();
    let t = LogicalTable::open("t".to_string(), vec![a, b]).unwrap();
    assert_eq!(t.row_count(), 3);
}
