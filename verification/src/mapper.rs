//! From rows to typed fields: one column at a time by name, or a whole
//! record by a schema.

use vstd::prelude::*;
use vstd::utf8::encode_utf8;
use crate::error::{Error, FieldFault};
use crate::rows::{ColumnView, Row, RowView};
use crate::value::{decode_value, decode_value_spec, ColumnType, Value};

verus! {

impl ColumnType {
    /// The number that stands for the type in column metadata.
    pub open spec fn spec_type_id(self) -> u16 {
        match self {
            ColumnType::Int => 0x0009,
            ColumnType::Decimal => 0x0006,
        }
    }

    #[verifier::when_used_as_spec(spec_type_id)]
    pub fn type_id(self) -> (id: u16)
        ensures
            id == self.spec_type_id(),
    {
        match self {
            ColumnType::Int => 0x0009,
            ColumnType::Decimal => 0x0006,
        }
    }
}

/// The position of the first column called `name`.
pub open spec fn find_column(columns: Seq<ColumnView>, name: Seq<u8>) -> Option<int>
    decreases columns.len(),
{
    if columns.len() == 0 {
        None
    } else {
        match find_column(columns.drop_last(), name) {
            Some(i) => Some(i),
            None => if columns.last().name == name {
                Some(columns.len() - 1)
            } else {
                None
            },
        }
    }
}

/// What the column called `name` holds when read as `ty`: a value, null, or
/// the reason why it cannot be read.
pub open spec fn field_spec(row: RowView, name: Seq<u8>, ty: ColumnType) -> Result<
    Option<Value>,
    FieldFault,
> {
    match find_column(row.columns, name) {
        None => Err(FieldFault::MissingColumn),
        Some(i) => if i >= row.cells.len() {
            Err(FieldFault::MissingColumn)
        } else if row.columns[i].type_id != ty.spec_type_id() {
            Err(FieldFault::TypeMismatch)
        } else {
            match row.cells[i] {
                None => Ok(None),
                Some(body) => match decode_value_spec(ty, body) {
                    Some(v) => Ok(Some(v)),
                    None => Err(FieldFault::CorruptEncoding),
                },
            }
        },
    }
}

/// What the column called `name` holds when it must not be null.
pub open spec fn required_field_spec(row: RowView, name: Seq<u8>, ty: ColumnType) -> Result<
    Value,
    FieldFault,
> {
    match field_spec(row, name, ty) {
        Err(fault) => Err(fault),
        Ok(None) => Err(FieldFault::UnexpectedNull),
        Ok(Some(v)) => Ok(v),
    }
}

/// Whether `e` reports `fault` for the column called `name`.
pub open spec fn is_field_error(e: Error, name: Seq<char>, fault: FieldFault) -> bool {
    e matches Error::FieldDecodeError { column, fault: f } && column@ == name && f == fault
}

/// The first position found in a part of the columns is the first position
/// in all of them.
proof fn lemma_find_column_extends(columns: Seq<ColumnView>, name: Seq<u8>, n: int)
    requires
        0 <= n <= columns.len(),
        find_column(columns.subrange(0, n), name) is Some,
    ensures
        find_column(columns, name) == find_column(columns.subrange(0, n), name),
    decreases columns.len(),
{
    if n < columns.len() {
        assert(columns.drop_last().subrange(0, n) =~= columns.subrange(0, n));
        lemma_find_column_extends(columns.drop_last(), name, n);
    } else {
        assert(columns.subrange(0, n) =~= columns);
    }
}

fn same_bytes(a: &[u8], b: &[u8]) -> (r: bool)
    ensures
        r == (a@ == b@),
{
    if a.len() != b.len() {
        return false;
    }
    let mut i: usize = 0;
    while i < a.len()
        invariant
            i <= a@.len(),
            a@.len() == b@.len(),
            a@.subrange(0, i as int) == b@.subrange(0, i as int),
        decreases a@.len() - i,
    {
        if a[i] != b[i] {
            return false;
        }
        assert(a@.subrange(0, i + 1) =~= a@.subrange(0, i as int).push(a@[i as int]));
        assert(b@.subrange(0, i + 1) =~= b@.subrange(0, i as int).push(b@[i as int]));
        i = i + 1;
    }
    assert(a@.subrange(0, a@.len() as int) =~= a@);
    assert(b@.subrange(0, b@.len() as int) =~= b@);
    true
}

fn position(row: &Row, name: &[u8]) -> (r: Option<usize>)
    ensures
        match r {
            Some(i) => find_column(row@.columns, name@) == Some(i as int) && i
                < row@.columns.len() && i < row@.cells.len(),
            None => find_column(row@.columns, name@) is None,
        },
{
    let n: usize = row.width();
    let mut i: usize = 0;
    let ghost columns = row@.columns;
    while i < n
        invariant
            i <= n,
            n == columns.len(),
            n == row@.cells.len(),
            columns == row@.columns,
            find_column(columns.subrange(0, i as int), name@) is None,
        decreases n - i,
    {
        let c = row.column(i);
        let ghost next = columns.subrange(0, i + 1);
        assert(next.drop_last() =~= columns.subrange(0, i as int));
        assert(next.last() == columns[i as int]);
        if same_bytes(c.name.as_slice(), name) {
            proof {
                lemma_find_column_extends(columns, name@, i + 1);
            }
            return Some(i);
        }
        i = i + 1;
    }
    assert(columns.subrange(0, n as int) =~= columns);
    None
}

fn field_error(name: &str, fault: FieldFault) -> (e: Error)
    ensures
        is_field_error(e, name@, fault),
{
    Error::FieldDecodeError { column: name.to_owned(), fault }
}

/// Reads the column called `name` as a value of type `ty`. A null column is
/// reported as `Ok(None)`, never as a value. It fails, naming the column,
/// where the row has no such column, the column has another type, or its
/// bytes are no encoding of the type.
pub fn get_by_name(row: &Row, name: &str, ty: ColumnType) -> (r: Result<Option<Value>, Error>)
    ensures
        match r {
            Ok(v) => field_spec(row@, encode_utf8(name@), ty) == Ok::<Option<Value>, FieldFault>(
                v,
            ),
            Err(e) => field_spec(row@, encode_utf8(name@), ty) is Err && is_field_error(
                e,
                name@,
                field_spec(row@, encode_utf8(name@), ty)->Err_0,
            ),
        },
{
    let i = match position(row, name.as_bytes()) {
        Some(i) => i,
        None => {
            return Err(field_error(name, FieldFault::MissingColumn));
        },
    };
    if row.column(i).type_id != ty.type_id() {
        return Err(field_error(name, FieldFault::TypeMismatch));
    }
    match row.cell(i) {
        None => Ok(None),
        Some(body) => match decode_value(ty, body) {
            Some(v) => Ok(Some(v)),
            None => Err(field_error(name, FieldFault::CorruptEncoding)),
        },
    }
}

/// Reads the column called `name` as a value of type `ty` that must be
/// present: null is a failure too.
pub fn get_r_by_name(row: &Row, name: &str, ty: ColumnType) -> (r: Result<Value, Error>)
    ensures
        match r {
            Ok(v) => required_field_spec(row@, encode_utf8(name@), ty) == Ok::<Value, FieldFault>(
                v,
            ),
            Err(e) => required_field_spec(row@, encode_utf8(name@), ty) is Err && is_field_error(
                e,
                name@,
                required_field_spec(row@, encode_utf8(name@), ty)->Err_0,
            ),
        },
{
    match get_by_name(row, name, ty) {
        Err(e) => Err(e),
        Ok(None) => Err(field_error(name, FieldFault::UnexpectedNull)),
        Ok(Some(v)) => Ok(v),
    }
}

/// One field of a record: the column it comes from, its type, and whether it
/// may be null.
#[derive(Clone, Debug, PartialEq, Eq)]
pub struct FieldSpec {
    pub name: String,
    pub ty: ColumnType,
    pub nullable: bool,
}

/// A field specification as a mathematical value.
pub struct FieldSpecView {
    pub name: Seq<char>,
    pub ty: ColumnType,
    pub nullable: bool,
}

impl View for FieldSpec {
    type V = FieldSpecView;

    open spec fn view(&self) -> FieldSpecView {
        FieldSpecView { name: self.name@, ty: self.ty, nullable: self.nullable }
    }
}

/// What a row holds for one field: the manual reading of its column, with
/// null refused where the field is not nullable.
pub open spec fn field_value_spec(row: RowView, f: FieldSpecView) -> Result<
    Option<Value>,
    FieldFault,
> {
    if f.nullable {
        field_spec(row, encode_utf8(f.name), f.ty)
    } else {
        match required_field_spec(row, encode_utf8(f.name), f.ty) {
            Ok(v) => Ok(Some(v)),
            Err(fault) => Err(fault),
        }
    }
}

/// The values of the first `n` fields in declared order, or the position and
/// fault of the first field that cannot be read.
pub open spec fn map_fields(schema: Seq<FieldSpecView>, row: RowView, n: nat) -> Result<
    Seq<Option<Value>>,
    (int, FieldFault),
>
    decreases n,
{
    if n == 0 {
        Ok(Seq::empty())
    } else {
        match map_fields(schema, row, (n - 1) as nat) {
            Err(failure) => Err(failure),
            Ok(values) => match field_value_spec(row, schema[n - 1]) {
                Err(fault) => Err((n - 1, fault)),
                Ok(v) => Ok(values.push(v)),
            },
        }
    }
}

/// The record that a schema makes of a row.
pub open spec fn map_row_spec(schema: Seq<FieldSpecView>, row: RowView) -> Result<
    Seq<Option<Value>>,
    (int, FieldFault),
> {
    map_fields(schema, row, schema.len())
}

proof fn lemma_map_fields_fault_stays(schema: Seq<FieldSpecView>, row: RowView, i: nat, n: nat)
    requires
        i <= n,
        map_fields(schema, row, i) is Err,
    ensures
        map_fields(schema, row, n) == map_fields(schema, row, i),
    decreases n,
{
    if i < n {
        lemma_map_fields_fault_stays(schema, row, i, (n - 1) as nat);
    }
}

proof fn lemma_map_fields_manual(schema: Seq<FieldSpecView>, row: RowView, n: nat)
    requires
        n <= schema.len(),
    ensures
        match map_fields(schema, row, n) {
            Ok(values) => values.len() == n && forall|i: int|
                0 <= i < n ==> field_value_spec(row, schema[i]) == Ok::<
                    Option<Value>,
                    FieldFault,
                >(#[trigger] values[i]),
            Err((at, fault)) => 0 <= at < n && field_value_spec(row, schema[at]) == Err::<
                Option<Value>,
                FieldFault,
            >(fault) && forall|j: int|
                0 <= j < at ==> (#[trigger] field_value_spec(row, schema[j])) is Ok,
        },
    decreases n,
{
    if n > 0 {
        lemma_map_fields_manual(schema, row, (n - 1) as nat);
        match map_fields(schema, row, (n - 1) as nat) {
            Ok(before) => {
                match field_value_spec(row, schema[n - 1]) {
                    Ok(v) => {
                        let values = before.push(v);
                        assert forall|i: int| 0 <= i < n implies field_value_spec(
                            row,
                            schema[i],
                        ) == Ok::<Option<Value>, FieldFault>(#[trigger] values[i]) by {
                            if i < n - 1 {
                                assert(values[i] == before[i]);
                            }
                        }
                    },
                    Err(fault) => {
                        assert forall|j: int| 0 <= j < n - 1 implies (#[trigger] field_value_spec(
                            row,
                            schema[j],
                        )) is Ok by {
                            assert(field_value_spec(row, schema[j]) == Ok::<
                                Option<Value>,
                                FieldFault,
                            >(before[j]));
                        }
                    },
                }
            },
            Err(failure) => {},
        }
    }
}

/// Mapping a row by a schema and reading its columns one by one agree: the
/// record holds, field for field, what the manual reading of that field
/// gives, and the mapping fails exactly at the first field whose manual
/// reading fails, with the same fault.
pub proof fn lemma_schema_agrees_with_manual(schema: Seq<FieldSpecView>, row: RowView)
    ensures
        match map_row_spec(schema, row) {
            Ok(values) => values.len() == schema.len() && forall|i: int|
                0 <= i < schema.len() ==> field_value_spec(row, schema[i]) == Ok::<
                    Option<Value>,
                    FieldFault,
                >(#[trigger] values[i]),
            Err((at, fault)) => 0 <= at < schema.len() && field_value_spec(row, schema[at])
                == Err::<Option<Value>, FieldFault>(fault) && forall|j: int|
                0 <= j < at ==> (#[trigger] field_value_spec(row, schema[j])) is Ok,
        },
{
    lemma_map_fields_manual(schema, row, schema.len());
}

/// Reads one field of a record from its column.
pub fn get_field(row: &Row, f: &FieldSpec) -> (r: Result<Option<Value>, Error>)
    ensures
        match r {
            Ok(v) => field_value_spec(row@, f@) == Ok::<Option<Value>, FieldFault>(v),
            Err(e) => field_value_spec(row@, f@) is Err && is_field_error(
                e,
                f@.name,
                field_value_spec(row@, f@)->Err_0,
            ),
        },
{
    if f.nullable {
        get_by_name(row, f.name.as_str(), f.ty)
    } else {
        match get_r_by_name(row, f.name.as_str(), f.ty) {
            Ok(v) => Ok(Some(v)),
            Err(e) => Err(e),
        }
    }
}

/// Maps a row to a record: the value of each field of the schema, in
/// declared order. It fails at the first field that cannot be read, naming
/// its column.
pub fn map_row(schema: &Vec<FieldSpec>, row: &Row) -> (r: Result<Vec<Option<Value>>, Error>)
    ensures
        match r {
            Ok(values) => map_row_spec(schema@.map_values(|f: FieldSpec| f@), row@) == Ok::<
                Seq<Option<Value>>,
                (int, FieldFault),
            >(values@),
            Err(e) => {
                let failure = map_row_spec(schema@.map_values(|f: FieldSpec| f@), row@);
                failure is Err && is_field_error(
                    e,
                    schema@[failure->Err_0.0]@.name,
                    failure->Err_0.1,
                )
            },
        },
{
    let ghost fields = schema@.map_values(|f: FieldSpec| f@);
    let mut out: Vec<Option<Value>> = Vec::new();
    let mut i: usize = 0;
    while i < schema.len()
        invariant
            i <= schema@.len(),
            fields == schema@.map_values(|f: FieldSpec| f@),
            map_fields(fields, row@, i as nat) == Ok::<Seq<Option<Value>>, (int, FieldFault)>(
                out@,
            ),
        decreases schema@.len() - i,
    {
        assert(fields[i as int] == schema@[i as int]@);
        match get_field(row, &schema[i]) {
            Ok(v) => {
                out.push(v);
            },
            Err(e) => {
                proof {
                    lemma_map_fields_fault_stays(
                        fields,
                        row@,
                        (i + 1) as nat,
                        schema@.len() as nat,
                    );
                }
                return Err(e);
            },
        }
        i = i + 1;
    }
    Ok(out)
}

/// The records of the first `n` rows, or the row, the field and the fault
/// of the first field that cannot be read.
pub open spec fn map_rows_spec(schema: Seq<FieldSpecView>, rows: Seq<RowView>, n: nat) -> Result<
    Seq<Seq<Option<Value>>>,
    (int, int, FieldFault),
>
    decreases n,
{
    if n == 0 {
        Ok(Seq::empty())
    } else {
        match map_rows_spec(schema, rows, (n - 1) as nat) {
            Err(failure) => Err(failure),
            Ok(records) => match map_row_spec(schema, rows[n - 1]) {
                Err((field, fault)) => Err((n - 1, field, fault)),
                Ok(record) => Ok(records.push(record)),
            },
        }
    }
}

proof fn lemma_map_rows_fault_stays(
    schema: Seq<FieldSpecView>,
    rows: Seq<RowView>,
    i: nat,
    n: nat,
)
    requires
        i <= n,
        map_rows_spec(schema, rows, i) is Err,
    ensures
        map_rows_spec(schema, rows, n) == map_rows_spec(schema, rows, i),
    decreases n,
{
    if i < n {
        lemma_map_rows_fault_stays(schema, rows, i, (n - 1) as nat);
    }
}

/// Maps every row of a result to a record, one record per row and in the
/// order of the rows. It fails at the first field of the first row that
/// cannot be read, naming its column.
pub fn map_rows(schema: &Vec<FieldSpec>, rows: &Vec<Row>) -> (r: Result<
    Vec<Vec<Option<Value>>>,
    Error,
>)
    ensures
        match r {
            Ok(records) => map_rows_spec(
                schema@.map_values(|f: FieldSpec| f@),
                rows@.map_values(|r: Row| r@),
                rows@.len(),
            ) == Ok::<Seq<Seq<Option<Value>>>, (int, int, FieldFault)>(
                records@.map_values(|record: Vec<Option<Value>>| record@),
            ),
            Err(e) => {
                let failure = map_rows_spec(
                    schema@.map_values(|f: FieldSpec| f@),
                    rows@.map_values(|r: Row| r@),
                    rows@.len(),
                );
                failure is Err && is_field_error(
                    e,
                    schema@[failure->Err_0.1]@.name,
                    failure->Err_0.2,
                )
            },
        },
{
    let ghost fields = schema@.map_values(|f: FieldSpec| f@);
    let ghost views = rows@.map_values(|r: Row| r@);
    let mut out: Vec<Vec<Option<Value>>> = Vec::new();
    let mut i: usize = 0;
    assert(out@.map_values(|record: Vec<Option<Value>>| record@) =~= Seq::<
        Seq<Option<Value>>,
    >::empty());
    while i < rows.len()
        invariant
            i <= rows@.len(),
            fields == schema@.map_values(|f: FieldSpec| f@),
            views == rows@.map_values(|r: Row| r@),
            map_rows_spec(fields, views, i as nat) == Ok::<
                Seq<Seq<Option<Value>>>,
                (int, int, FieldFault),
            >(out@.map_values(|record: Vec<Option<Value>>| record@)),
        decreases rows@.len() - i,
    {
        let ghost before = out@.map_values(|record: Vec<Option<Value>>| record@);
        assert(views[i as int] == rows@[i as int]@);
        match map_row(schema, &rows[i]) {
            Ok(record) => {
                out.push(record);
                assert(out@.map_values(|record: Vec<Option<Value>>| record@) =~= before.push(
                    record@,
                ));
            },
            Err(e) => {
                proof {
                    lemma_map_rows_fault_stays(fields, views, (i + 1) as nat, rows@.len() as nat);
                }
                return Err(e);
            },
        }
        i = i + 1;
    }
    Ok(out)
}

} // verus!
