//! The row of the decimal table: an integer key and a nullable decimal.

use vstd::prelude::*;
use vstd::utf8::encode_utf8;
use crate::error::{Error, FieldFault};
use crate::mapper::{
    field_spec, get_by_name, get_r_by_name, is_field_error, map_row, map_row_spec,
    required_field_spec, FieldSpec, FieldSpecView,
};
use crate::query::{NamedValue, Query, QueryValues, QueryValuesView, QueryView, Consistency};
use crate::rows::{Row, RowView};
use crate::value::{ColumnType, Decimal, Value};

verus! {

/// One row of `test_decimal.my_test_table`.
#[derive(Clone, Copy, Debug, PartialEq, Eq)]
pub struct RowStruct {
    pub key: i32,
    pub decimal: Option<Decimal>,
}

/// A nullable decimal as a nullable value.
pub open spec fn decimal_value(d: Option<Decimal>) -> Option<Value> {
    match d {
        Some(x) => Some(Value::Decimal(x)),
        None => None,
    }
}

/// The statement that creates the keyspace.
pub fn create_keyspace_query() -> (q: Query)
    ensures
        q@ == (QueryView {
            text: "CREATE KEYSPACE IF NOT EXISTS test_decimal WITH REPLICATION = { 'class' : 'SimpleStrategy', 'replication_factor' : 1 };"@,
            values: None,
            consistency: Consistency::One,
        }),
{
    Query::new(
        "CREATE KEYSPACE IF NOT EXISTS test_decimal WITH REPLICATION = { 'class' : 'SimpleStrategy', 'replication_factor' : 1 };",
    )
}

/// The statement that creates the table.
pub fn create_table_query() -> (q: Query)
    ensures
        q@ == (QueryView {
            text: "CREATE TABLE IF NOT EXISTS test_decimal.my_test_table (key int PRIMARY KEY, decimal decimal);"@,
            values: None,
            consistency: Consistency::One,
        }),
{
    Query::new(
        "CREATE TABLE IF NOT EXISTS test_decimal.my_test_table (key int PRIMARY KEY, decimal decimal);",
    )
}

/// The statement that selects every row of the table.
pub fn select_query() -> (q: Query)
    ensures
        q@ == (QueryView {
            text: "SELECT * FROM test_decimal.my_test_table"@,
            values: None,
            consistency: Consistency::One,
        }),
{
    Query::new("SELECT * FROM test_decimal.my_test_table")
}

impl RowStruct {
    /// The values of the row under the names of their columns.
    pub open spec fn named_values(self) -> Seq<(Seq<char>, Option<Value>)> {
        seq![("key"@, Some(Value::Int(self.key))), ("decimal"@, decimal_value(self.decimal))]
    }

    /// The fields of the record: the key, which must be present, and the
    /// decimal, which may be null.
    pub open spec fn schema_view() -> Seq<FieldSpecView> {
        seq![
            FieldSpecView { name: "key"@, ty: ColumnType::Int, nullable: false },
            FieldSpecView { name: "decimal"@, ty: ColumnType::Decimal, nullable: true },
        ]
    }

    /// The record that a row holds, read column by column, or the name of
    /// the first column that cannot be read and why.
    pub open spec fn spec_from_row(row: RowView) -> Result<RowStruct, (Seq<char>, FieldFault)> {
        match required_field_spec(row, encode_utf8("key"@), ColumnType::Int) {
            Err(fault) => Err(("key"@, fault)),
            Ok(k) => match field_spec(row, encode_utf8("decimal"@), ColumnType::Decimal) {
                Err(fault) => Err(("decimal"@, fault)),
                Ok(d) => Ok(
                    RowStruct {
                        key: k->Int_0,
                        decimal: match d {
                            Some(Value::Decimal(x)) => Some(x),
                            _ => None,
                        },
                    },
                ),
            },
        }
    }

    /// The record that the values of the two fields make.
    pub open spec fn spec_from_values(values: Seq<Option<Value>>) -> RowStruct {
        RowStruct {
            key: values[0]->0->Int_0,
            decimal: match values[1] {
                Some(Value::Decimal(x)) => Some(x),
                _ => None,
            },
        }
    }

    /// Mapping by the schema and reading column by column give the same
    /// record, and fail on the same column with the same fault.
    pub proof fn lemma_strategies_agree(row: RowView)
        ensures
            match map_row_spec(RowStruct::schema_view(), row) {
                Ok(values) => RowStruct::spec_from_row(row) == Ok::<
                    RowStruct,
                    (Seq<char>, FieldFault),
                >(RowStruct::spec_from_values(values)),
                Err((at, fault)) => 0 <= at < 2 && RowStruct::spec_from_row(row) == Err::<
                    RowStruct,
                    (Seq<char>, FieldFault),
                >((RowStruct::schema_view()[at].name, fault)),
            },
    {
        reveal_with_fuel(crate::mapper::map_fields, 3);
    }

    /// The schema of the record.
    pub fn schema() -> (s: Vec<FieldSpec>)
        ensures
            s@.map_values(|f: FieldSpec| f@) == RowStruct::schema_view(),
    {
        let mut s: Vec<FieldSpec> = Vec::new();
        s.push(FieldSpec { name: "key".to_owned(), ty: ColumnType::Int, nullable: false });
        s.push(FieldSpec { name: "decimal".to_owned(), ty: ColumnType::Decimal, nullable: true });
        assert(s@.map_values(|f: FieldSpec| f@) =~= RowStruct::schema_view());
        s
    }

    /// The values to bind when the row is written: `key` and `decimal`, by
    /// name.
    pub fn into_query_values(self) -> (r: QueryValues)
        ensures
            r@ == QueryValuesView::Named(self.named_values()),
    {
        let mut vs: Vec<NamedValue> = Vec::new();
        vs.push(NamedValue { name: "key".to_owned(), value: Some(Value::Int(self.key)) });
        let decimal = match self.decimal {
            Some(d) => Some(Value::Decimal(d)),
            None => None,
        };
        vs.push(NamedValue { name: "decimal".to_owned(), value: decimal });
        assert(vs@.map_values(|nv: NamedValue| nv@) =~= self.named_values());
        QueryValues::Named(vs)
    }

    /// The statement that writes the row.
    pub fn insert_query(self) -> (q: Query)
        ensures
            q@ == (QueryView {
                text: "INSERT INTO test_decimal.my_test_table (key, decimal) VALUES (?, ?)"@,
                values: Some(QueryValuesView::Named(self.named_values())),
                consistency: Consistency::One,
            }),
    {
        Query::with_values(
            "INSERT INTO test_decimal.my_test_table (key, decimal) VALUES (?, ?)",
            self.into_query_values(),
        )
    }

    /// Maps a row to the record by the record's schema.
    pub fn try_from_row(row: &Row) -> (r: Result<RowStruct, Error>)
        ensures
            match r {
                Ok(s) => RowStruct::spec_from_row(row@) == Ok::<RowStruct, (Seq<char>, FieldFault)>(
                    s,
                ),
                Err(e) => RowStruct::spec_from_row(row@) is Err && is_field_error(
                    e,
                    RowStruct::spec_from_row(row@)->Err_0.0,
                    RowStruct::spec_from_row(row@)->Err_0.1,
                ),
            },
    {
        let schema = RowStruct::schema();
        proof {
            RowStruct::lemma_strategies_agree(row@);
            reveal_with_fuel(crate::mapper::map_fields, 3);
        }
        let values = map_row(&schema, row)?;
        let key = match values[0] {
            Some(Value::Int(k)) => k,
            _ => {
                return Err(
                    Error::FieldDecodeError {
                        column: "key".to_owned(),
                        fault: FieldFault::TypeMismatch,
                    },
                );
            },
        };
        let decimal = match values[1] {
            Some(Value::Decimal(d)) => Some(d),
            Some(Value::Int(_)) => {
                return Err(
                    Error::FieldDecodeError {
                        column: "decimal".to_owned(),
                        fault: FieldFault::TypeMismatch,
                    },
                );
            },
            None => None,
        };
        Ok(RowStruct { key, decimal })
    }

    /// Reads the record from a row column by column.
    pub fn from_row_manual(row: &Row) -> (r: Result<RowStruct, Error>)
        ensures
            match r {
                Ok(s) => RowStruct::spec_from_row(row@) == Ok::<RowStruct, (Seq<char>, FieldFault)>(
                    s,
                ),
                Err(e) => RowStruct::spec_from_row(row@) is Err && is_field_error(
                    e,
                    RowStruct::spec_from_row(row@)->Err_0.0,
                    RowStruct::spec_from_row(row@)->Err_0.1,
                ),
            },
    {
        let key = match get_r_by_name(row, "key", ColumnType::Int)? {
            Value::Int(k) => k,
            Value::Decimal(_) => {
                return Err(
                    Error::FieldDecodeError {
                        column: "key".to_owned(),
                        fault: FieldFault::TypeMismatch,
                    },
                );
            },
        };
        let decimal = match get_by_name(row, "decimal", ColumnType::Decimal)? {
            Some(Value::Decimal(d)) => Some(d),
            Some(Value::Int(_)) => {
                return Err(
                    Error::FieldDecodeError {
                        column: "decimal".to_owned(),
                        fault: FieldFault::TypeMismatch,
                    },
                );
            },
            None => None,
        };
        Ok(RowStruct { key, decimal })
    }
}

} // verus!
