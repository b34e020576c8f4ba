//! The body of a result message: column metadata and rows of cells.

use vstd::prelude::*;
use crate::error::{Error, ProtocolFault};
use crate::value::{
    cell_bytes, decode_value, decode_value_spec, lemma_value_round_trip, value_body, value_cell,
    ColumnType, Value,
};
use crate::wire::{
    be_signed, be_unsigned, copy_range, get_i32, get_u16, i32_bytes, lemma_i32_round_trip,
};

verus! {

/// A column of a result: its name in UTF-8 and the number of its type.
#[derive(Clone, Debug, PartialEq, Eq)]
pub struct Column {
    pub name: Vec<u8>,
    pub type_id: u16,
}

/// A column as a mathematical value.
pub struct ColumnView {
    pub name: Seq<u8>,
    pub type_id: u16,
}

impl View for Column {
    type V = ColumnView;

    open spec fn view(&self) -> ColumnView {
        ColumnView { name: self.name@, type_id: self.type_id }
    }
}

/// A cell as a mathematical value: its bytes, or nothing for null.
pub open spec fn cell_view(c: Option<Vec<u8>>) -> Option<Seq<u8>> {
    match c {
        Some(b) => Some(b@),
        None => None,
    }
}

/// A row as a mathematical value: one cell for each column.
pub struct RowView {
    pub columns: Seq<ColumnView>,
    pub cells: Seq<Option<Seq<u8>>>,
}

/// One row of a result, with the columns it belongs to. It has exactly one
/// cell for each column.
#[derive(Debug, PartialEq, Eq)]
pub struct Row {
    columns: Vec<Column>,
    cells: Vec<Option<Vec<u8>>>,
}

impl View for Row {
    type V = RowView;

    closed spec fn view(&self) -> RowView {
        RowView {
            columns: self.columns@.map_values(|c: Column| c@),
            cells: self.cells@.map_values(|c: Option<Vec<u8>>| cell_view(c)),
        }
    }
}

impl Row {
    #[verifier::type_invariant]
    spec fn well_formed(self) -> bool {
        self.columns@.len() == self.cells@.len()
    }

    /// A row of the given cells under the given columns; `None` where their
    /// numbers differ.
    pub fn new(columns: Vec<Column>, cells: Vec<Option<Vec<u8>>>) -> (r: Option<Row>)
        ensures
            r is Some <==> columns@.len() == cells@.len(),
            r is Some ==> r->0@ == (RowView {
                columns: columns@.map_values(|c: Column| c@),
                cells: cells@.map_values(|c: Option<Vec<u8>>| cell_view(c)),
            }),
    {
        if columns.len() == cells.len() {
            Some(Row { columns, cells })
        } else {
            None
        }
    }

    /// The number of columns.
    pub fn width(&self) -> (n: usize)
        ensures
            n == self@.columns.len(),
            n == self@.cells.len(),
    {
        proof {
            use_type_invariant(self);
        }
        self.columns.len()
    }

    /// The column at `i`.
    pub fn column(&self, i: usize) -> (c: &Column)
        requires
            i < self@.columns.len(),
        ensures
            c@ == self@.columns[i as int],
    {
        &self.columns[i]
    }

    /// The cell at `i`: its bytes, or `None` for null.
    pub fn cell(&self, i: usize) -> (c: Option<&[u8]>)
        requires
            i < self@.cells.len(),
        ensures
            match c {
                Some(b) => self@.cells[i as int] == Some(b@),
                None => self@.cells[i as int] is None,
            },
    {
        match &self.cells[i] {
            Some(b) => Some(b.as_slice()),
            None => None,
        }
    }
}

/// The signed 32-bit number at `at`, and the position after it.
pub open spec fn read_i32(s: Seq<u8>, at: int) -> Option<(int, int)> {
    if 0 <= at && at + 4 <= s.len() {
        Some((be_signed(s.subrange(at, at + 4)), at + 4))
    } else {
        None
    }
}

/// The unsigned 16-bit number at `at`, and the position after it.
pub open spec fn read_u16(s: Seq<u8>, at: int) -> Option<(int, int)> {
    if 0 <= at && at + 2 <= s.len() {
        Some((be_unsigned(s.subrange(at, at + 2)) as int, at + 2))
    } else {
        None
    }
}

/// The `[string]` at `at`, and the position after it.
pub open spec fn read_string(s: Seq<u8>, at: int) -> Option<(Seq<u8>, int)> {
    match read_u16(s, at) {
        None => None,
        Some((n, body)) => if body + n <= s.len() {
            Some((s.subrange(body, body + n), body + n))
        } else {
            None
        },
    }
}

/// The `[bytes]` cell at `at`, and the position after it. A negative length
/// stands for null; a length that reaches past the end makes the cell
/// unreadable.
pub open spec fn read_cell(s: Seq<u8>, at: int) -> Option<(Option<Seq<u8>>, int)> {
    match read_i32(s, at) {
        None => None,
        Some((n, body)) => if n < 0 {
            Some((None, body))
        } else if body + n <= s.len() {
            Some((Some(s.subrange(body, body + n)), body + n))
        } else {
            None
        },
    }
}

/// Whether a column type is followed by a description of its parts, which
/// this codec does not read.
pub open spec fn spec_has_payload(type_id: u16) -> bool {
    type_id == 0x0000 || type_id == 0x0020 || type_id == 0x0021 || type_id == 0x0022 || type_id
        == 0x0030 || type_id == 0x0031
}

#[verifier::when_used_as_spec(spec_has_payload)]
pub fn has_payload(type_id: u16) -> (b: bool)
    ensures
        b == spec_has_payload(type_id),
{
    type_id == 0x0000 || type_id == 0x0020 || type_id == 0x0021 || type_id == 0x0022 || type_id
        == 0x0030 || type_id == 0x0031
}

/// The position after the keyspace and table names that precede a column's
/// own name where the result gives them for each column.
pub open spec fn skip_table(s: Seq<u8>, at: int, global: bool) -> Option<int> {
    if global {
        Some(at)
    } else {
        match read_string(s, at) {
            None => None,
            Some((_, a)) => match read_string(s, a) {
                None => None,
                Some((_, b)) => Some(b),
            },
        }
    }
}

/// The column specification at `at`, and the position after it.
pub open spec fn read_column(s: Seq<u8>, at: int, global: bool) -> Result<
    (ColumnView, int),
    ProtocolFault,
> {
    match skip_table(s, at, global) {
        None => Err(ProtocolFault::MalformedBody),
        Some(p) => match read_string(s, p) {
            None => Err(ProtocolFault::MalformedBody),
            Some((name, q)) => match read_u16(s, q) {
                None => Err(ProtocolFault::MalformedBody),
                Some((id, r)) => if spec_has_payload(id as u16) {
                    Err(ProtocolFault::UnsupportedColumnType)
                } else {
                    Ok((ColumnView { name, type_id: id as u16 }, r))
                },
            },
        },
    }
}

/// The `n` column specifications from `at` on, and the position after them.
pub open spec fn read_columns(s: Seq<u8>, at: int, n: nat, global: bool) -> Result<
    (Seq<ColumnView>, int),
    ProtocolFault,
>
    decreases n,
{
    if n == 0 {
        Ok((Seq::empty(), at))
    } else {
        match read_columns(s, at, (n - 1) as nat, global) {
            Err(fault) => Err(fault),
            Ok((cs, mid)) => match read_column(s, mid, global) {
                Err(fault) => Err(fault),
                Ok((c, next)) => Ok((cs.push(c), next)),
            },
        }
    }
}

/// The `n` cells from `at` on, and the position after them.
pub open spec fn read_cells(s: Seq<u8>, at: int, n: nat) -> Option<(Seq<Option<Seq<u8>>>, int)>
    decreases n,
{
    if n == 0 {
        Some((Seq::empty(), at))
    } else {
        match read_cells(s, at, (n - 1) as nat) {
            None => None,
            Some((cs, mid)) => match read_cell(s, mid) {
                None => None,
                Some((c, next)) => Some((cs.push(c), next)),
            },
        }
    }
}

/// The `rows` rows of `cols` cells each from `at` on, and the position after
/// them.
pub open spec fn read_rows(s: Seq<u8>, at: int, rows: nat, cols: nat) -> Option<
    (Seq<Seq<Option<Seq<u8>>>>, int),
>
    decreases rows,
{
    if rows == 0 {
        Some((Seq::empty(), at))
    } else {
        match read_rows(s, at, (rows - 1) as nat, cols) {
            None => None,
            Some((rs, mid)) => match read_cells(s, mid, cols) {
                None => None,
                Some((r, next)) => Some((rs.push(r), next)),
            },
        }
    }
}

/// Reading a cell in front of anything gives back what was written: the
/// body, or null.
pub proof fn lemma_cell_round_trip(body: Option<Seq<u8>>, rest: Seq<u8>)
    requires
        body is Some ==> body->0.len() <= i32::MAX,
    ensures
        read_cell(cell_bytes(body) + rest, 0) == Some((body, cell_bytes(body).len() as int)),
{
    let s = cell_bytes(body) + rest;
    match body {
        Some(b) => {
            lemma_i32_round_trip(b.len() as i32);
            assert(s.subrange(0, 4) =~= i32_bytes(b.len() as i32));
            assert(s.subrange(4, 4 + b.len() as int) =~= b);
        },
        None => {
            lemma_i32_round_trip(-1i32);
            assert(s.subrange(0, 4) =~= i32_bytes(-1i32));
        },
    }
}

proof fn lemma_columns_fault_stays(s: Seq<u8>, at: int, i: nat, n: nat, global: bool)
    requires
        i <= n,
        read_columns(s, at, i, global) is Err,
    ensures
        read_columns(s, at, n, global) == read_columns(s, at, i, global),
    decreases n,
{
    if i < n {
        lemma_columns_fault_stays(s, at, i, (n - 1) as nat, global);
    }
}

proof fn lemma_cells_fault_stays(s: Seq<u8>, at: int, i: nat, n: nat)
    requires
        i <= n,
        read_cells(s, at, i) is None,
    ensures
        read_cells(s, at, n) is None,
    decreases n,
{
    if i < n {
        lemma_cells_fault_stays(s, at, i, (n - 1) as nat);
    }
}

proof fn lemma_rows_fault_stays(s: Seq<u8>, at: int, i: nat, n: nat, cols: nat)
    requires
        i <= n,
        read_rows(s, at, i, cols) is None,
    ensures
        read_rows(s, at, n, cols) is None,
    decreases n,
{
    if i < n {
        lemma_rows_fault_stays(s, at, i, (n - 1) as nat, cols);
    }
}

fn take_i32(bytes: &[u8], at: usize) -> (r: Option<(i32, usize)>)
    requires
        at <= bytes@.len(),
    ensures
        match r {
            Some((v, next)) => read_i32(bytes@, at as int) == Some((v as int, next as int))
                && next <= bytes@.len(),
            None => read_i32(bytes@, at as int) is None,
        },
{
    if bytes.len() - at < 4 {
        None
    } else {
        Some((get_i32(bytes, at), at + 4))
    }
}

fn take_u16(bytes: &[u8], at: usize) -> (r: Option<(u16, usize)>)
    requires
        at <= bytes@.len(),
    ensures
        match r {
            Some((v, next)) => read_u16(bytes@, at as int) == Some((v as int, next as int))
                && next <= bytes@.len(),
            None => read_u16(bytes@, at as int) is None,
        },
{
    if bytes.len() - at < 2 {
        None
    } else {
        Some((get_u16(bytes, at), at + 2))
    }
}

/// The extent of the `[string]` at `at`: where its text starts and ends.
fn take_string(bytes: &[u8], at: usize) -> (r: Option<(usize, usize)>)
    requires
        at <= bytes@.len(),
    ensures
        match r {
            Some((from, to)) => from <= to <= bytes@.len() && read_string(bytes@, at as int)
                == Some((bytes@.subrange(from as int, to as int), to as int)),
            None => read_string(bytes@, at as int) is None,
        },
{
    match take_u16(bytes, at) {
        None => None,
        Some((n, body)) => {
            if bytes.len() - body < n as usize {
                None
            } else {
                Some((body, body + n as usize))
            }
        },
    }
}

fn take_cell(bytes: &[u8], at: usize) -> (r: Option<(Option<Vec<u8>>, usize)>)
    requires
        at <= bytes@.len(),
    ensures
        match r {
            Some((c, next)) => read_cell(bytes@, at as int) == Some((cell_view(c), next as int))
                && next <= bytes@.len(),
            None => read_cell(bytes@, at as int) is None,
        },
{
    match take_i32(bytes, at) {
        None => None,
        Some((n, body)) => {
            if n < 0 {
                Some((None, body))
            } else if bytes.len() - body < n as usize {
                None
            } else {
                let end: usize = body + n as usize;
                Some((Some(copy_range(bytes, body, end)), end))
            }
        },
    }
}

fn take_table(bytes: &[u8], at: usize, global: bool) -> (r: Option<usize>)
    requires
        at <= bytes@.len(),
    ensures
        match r {
            Some(next) => skip_table(bytes@, at as int, global) == Some(next as int) && next
                <= bytes@.len(),
            None => skip_table(bytes@, at as int, global) is None,
        },
{
    if global {
        Some(at)
    } else {
        match take_string(bytes, at) {
            None => None,
            Some((_, a)) => match take_string(bytes, a) {
                None => None,
                Some((_, b)) => Some(b),
            },
        }
    }
}

fn take_column(bytes: &[u8], at: usize, global: bool) -> (r: Result<(Column, usize), ProtocolFault>)
    requires
        at <= bytes@.len(),
    ensures
        match r {
            Ok((c, next)) => read_column(bytes@, at as int, global) == Ok::<
                (ColumnView, int),
                ProtocolFault,
            >((c@, next as int)) && next <= bytes@.len(),
            Err(fault) => read_column(bytes@, at as int, global) == Err::<
                (ColumnView, int),
                ProtocolFault,
            >(fault),
        },
{
    let p = match take_table(bytes, at, global) {
        Some(p) => p,
        None => {
            return Err(ProtocolFault::MalformedBody);
        },
    };
    let (from, to) = match take_string(bytes, p) {
        Some(extent) => extent,
        None => {
            return Err(ProtocolFault::MalformedBody);
        },
    };
    let (id, next) = match take_u16(bytes, to) {
        Some(found) => found,
        None => {
            return Err(ProtocolFault::MalformedBody);
        },
    };
    if has_payload(id) {
        return Err(ProtocolFault::UnsupportedColumnType);
    }
    Ok((Column { name: copy_range(bytes, from, to), type_id: id }, next))
}

fn take_columns(bytes: &[u8], at: usize, n: usize, global: bool) -> (r: Result<
    (Vec<Column>, usize),
    ProtocolFault,
>)
    requires
        at <= bytes@.len(),
    ensures
        match r {
            Ok((cs, next)) => read_columns(bytes@, at as int, n as nat, global) == Ok::<
                (Seq<ColumnView>, int),
                ProtocolFault,
            >((cs@.map_values(|c: Column| c@), next as int)) && next <= bytes@.len() && cs@.len()
                == n,
            Err(fault) => read_columns(bytes@, at as int, n as nat, global) == Err::<
                (Seq<ColumnView>, int),
                ProtocolFault,
            >(fault),
        },
{
    let mut cs: Vec<Column> = Vec::new();
    let mut cur: usize = at;
    let mut i: usize = 0;
    assert(cs@.map_values(|c: Column| c@) =~= Seq::<ColumnView>::empty());
    while i < n
        invariant
            i <= n,
            cur <= bytes@.len(),
            cs@.len() == i,
            read_columns(bytes@, at as int, i as nat, global) == Ok::<
                (Seq<ColumnView>, int),
                ProtocolFault,
            >((cs@.map_values(|c: Column| c@), cur as int)),
        decreases n - i,
    {
        let ghost before = cs@.map_values(|c: Column| c@);
        match take_column(bytes, cur, global) {
            Err(fault) => {
                proof {
                    lemma_columns_fault_stays(bytes@, at as int, (i + 1) as nat, n as nat, global);
                }
                return Err(fault);
            },
            Ok((c, next)) => {
                cs.push(c);
                cur = next;
                assert(cs@.map_values(|c: Column| c@) =~= before.push(c@));
            },
        }
        i = i + 1;
    }
    Ok((cs, cur))
}

fn take_cells(bytes: &[u8], at: usize, n: usize) -> (r: Option<(Vec<Option<Vec<u8>>>, usize)>)
    requires
        at <= bytes@.len(),
    ensures
        match r {
            Some((cs, next)) => read_cells(bytes@, at as int, n as nat) == Some(
                (cs@.map_values(|c: Option<Vec<u8>>| cell_view(c)), next as int),
            ) && next <= bytes@.len() && cs@.len() == n,
            None => read_cells(bytes@, at as int, n as nat) is None,
        },
{
    let mut cs: Vec<Option<Vec<u8>>> = Vec::new();
    let mut cur: usize = at;
    let mut i: usize = 0;
    assert(cs@.map_values(|c: Option<Vec<u8>>| cell_view(c)) =~= Seq::<
        Option<Seq<u8>>,
    >::empty());
    while i < n
        invariant
            i <= n,
            cur <= bytes@.len(),
            cs@.len() == i,
            read_cells(bytes@, at as int, i as nat) == Some(
                (cs@.map_values(|c: Option<Vec<u8>>| cell_view(c)), cur as int),
            ),
        decreases n - i,
    {
        let ghost before = cs@.map_values(|c: Option<Vec<u8>>| cell_view(c));
        match take_cell(bytes, cur) {
            None => {
                proof {
                    lemma_cells_fault_stays(bytes@, at as int, (i + 1) as nat, n as nat);
                }
                return None;
            },
            Some((c, next)) => {
                cs.push(c);
                cur = next;
                assert(cs@.map_values(|c: Option<Vec<u8>>| cell_view(c)) =~= before.push(
                    cell_view(c),
                ));
            },
        }
        i = i + 1;
    }
    Some((cs, cur))
}

/// What a result message holds.
#[derive(Debug, PartialEq, Eq)]
pub enum QueryResult {
    /// Nothing: the statement returns no rows.
    Void,
    /// The rows of a selection.
    Rows(Vec<Row>),
    /// The keyspace was changed.
    SetKeyspace,
    /// A statement was prepared.
    Prepared,
    /// The schema was changed.
    SchemaChange,
}

/// A result as a mathematical value.
pub enum ResultView {
    Void,
    Rows(Seq<RowView>),
    SetKeyspace,
    Prepared,
    SchemaChange,
}

impl View for QueryResult {
    type V = ResultView;

    open spec fn view(&self) -> ResultView {
        match self {
            QueryResult::Void => ResultView::Void,
            QueryResult::Rows(rows) => ResultView::Rows(rows@.map_values(|r: Row| r@)),
            QueryResult::SetKeyspace => ResultView::SetKeyspace,
            QueryResult::Prepared => ResultView::Prepared,
            QueryResult::SchemaChange => ResultView::SchemaChange,
        }
    }
}

/// Each list of cells as a row under the same columns.
pub open spec fn rows_under(columns: Seq<ColumnView>, rows: Seq<Seq<Option<Seq<u8>>>>) -> Seq<
    RowView,
> {
    rows.map_values(|cells: Seq<Option<Seq<u8>>>| RowView { columns, cells })
}

/// The position after the paging state, which is present where the flags
/// say that more pages follow.
pub open spec fn skip_paging(s: Seq<u8>, at: int, flags: i32) -> Option<int> {
    if flags & 0x0002 != 0 {
        match read_cell(s, at) {
            None => None,
            Some((_, next)) => Some(next),
        }
    } else {
        Some(at)
    }
}

/// The rows that the part of a result body after its kind holds: flags,
/// column count, column specifications, row count and cells, with nothing
/// left over.
pub open spec fn parse_rows_spec(s: Seq<u8>, at: int) -> Result<Seq<RowView>, ProtocolFault> {
    match read_i32(s, at) {
        None => Err(ProtocolFault::MalformedBody),
        Some((flags, a)) => match read_i32(s, a) {
            None => Err(ProtocolFault::MalformedBody),
            Some((ncols, b)) => if ncols < 0 {
                Err(ProtocolFault::MalformedBody)
            } else if (flags as i32) & 0x0004 != 0 {
                Err(ProtocolFault::MissingMetadata)
            } else {
                match skip_paging(s, b, flags as i32) {
                    None => Err(ProtocolFault::MalformedBody),
                    Some(c) => match skip_table(s, c, (flags as i32) & 0x0001 == 0) {
                        None => Err(ProtocolFault::MalformedBody),
                        Some(d) => match read_columns(
                            s,
                            d,
                            ncols as nat,
                            (flags as i32) & 0x0001 != 0,
                        ) {
                            Err(fault) => Err(fault),
                            Ok((columns, e)) => match read_i32(s, e) {
                                None => Err(ProtocolFault::MalformedBody),
                                Some((nrows, f)) => if nrows < 0 {
                                    Err(ProtocolFault::MalformedBody)
                                } else {
                                    match read_rows(s, f, nrows as nat, ncols as nat) {
                                        None => Err(ProtocolFault::MalformedBody),
                                        Some((rows, end)) => if end != s.len() {
                                            Err(ProtocolFault::TrailingBytes)
                                        } else {
                                            Ok(rows_under(columns, rows))
                                        },
                                    }
                                },
                            },
                        },
                    },
                }
            },
        },
    }
}

/// What the body of a result message holds, or what is wrong with it. The
/// body starts with the kind of result; only rows are read further.
pub open spec fn parse_result_spec(s: Seq<u8>) -> Result<ResultView, ProtocolFault> {
    match read_i32(s, 0) {
        None => Err(ProtocolFault::MalformedBody),
        Some((kind, at)) => if kind == 1 {
            Ok(ResultView::Void)
        } else if kind == 2 {
            match parse_rows_spec(s, at) {
                Ok(rows) => Ok(ResultView::Rows(rows)),
                Err(fault) => Err(fault),
            }
        } else if kind == 3 {
            Ok(ResultView::SetKeyspace)
        } else if kind == 4 {
            Ok(ResultView::Prepared)
        } else if kind == 5 {
            Ok(ResultView::SchemaChange)
        } else {
            Err(ProtocolFault::UnknownResultKind)
        },
    }
}

fn clone_columns(columns: &Vec<Column>) -> (r: Vec<Column>)
    ensures
        r@.map_values(|c: Column| c@) == columns@.map_values(|c: Column| c@),
        r@.len() == columns@.len(),
{
    let mut r: Vec<Column> = Vec::new();
    let mut i: usize = 0;
    while i < columns.len()
        invariant
            i <= columns@.len(),
            r@.len() == i,
            forall|j: int| 0 <= j < i ==> (#[trigger] r@[j])@ == columns@[j]@,
        decreases columns@.len() - i,
    {
        let name = &columns[i].name;
        r.push(Column { name: copy_range(name.as_slice(), 0, name.len()), type_id: columns[i].type_id });
        assert(name@.subrange(0, name@.len() as int) =~= name@);
        i = i + 1;
    }
    assert(r@.map_values(|c: Column| c@) =~= columns@.map_values(|c: Column| c@));
    r
}

fn take_rows(bytes: &[u8], at: usize, rows: usize, columns: &Vec<Column>) -> (r: Option<
    (Vec<Row>, usize),
>)
    requires
        at <= bytes@.len(),
    ensures
        match r {
            Some((out, next)) => {
                &&& read_rows(bytes@, at as int, rows as nat, columns@.len()) is Some
                &&& out@.map_values(|r: Row| r@) == rows_under(
                    columns@.map_values(|c: Column| c@),
                    read_rows(bytes@, at as int, rows as nat, columns@.len()).unwrap().0,
                )
                &&& next == read_rows(bytes@, at as int, rows as nat, columns@.len()).unwrap().1
                &&& next <= bytes@.len()
            },
            None => read_rows(bytes@, at as int, rows as nat, columns@.len()) is None,
        },
{
    let ghost cols = columns@.map_values(|c: Column| c@);
    let ghost width = columns@.len();
    let mut out: Vec<Row> = Vec::new();
    let mut cur: usize = at;
    let mut i: usize = 0;
    assert(out@.map_values(|r: Row| r@) =~= rows_under(cols, Seq::empty()));
    while i < rows
        invariant
            i <= rows,
            cur <= bytes@.len(),
            cols == columns@.map_values(|c: Column| c@),
            width == columns@.len(),
            read_rows(bytes@, at as int, i as nat, width) is Some,
            cur == read_rows(bytes@, at as int, i as nat, width).unwrap().1,
            out@.map_values(|r: Row| r@) == rows_under(
                cols,
                read_rows(bytes@, at as int, i as nat, width).unwrap().0,
            ),
        decreases rows - i,
    {
        let ghost before = out@.map_values(|r: Row| r@);
        let ghost raw = read_rows(bytes@, at as int, i as nat, width).unwrap().0;
        match take_cells(bytes, cur, columns.len()) {
            None => {
                proof {
                    lemma_rows_fault_stays(bytes@, at as int, (i + 1) as nat, rows as nat, width);
                }
                return None;
            },
            Some((cells, next)) => {
                let ghost cells_view = cells@.map_values(|c: Option<Vec<u8>>| cell_view(c));
                let row = Row { columns: clone_columns(columns), cells };
                assert(row@ == RowView { columns: cols, cells: cells_view });
                out.push(row);
                cur = next;
                assert(out@.map_values(|r: Row| r@) =~= before.push(row@));
                assert(rows_under(cols, raw.push(cells_view)) =~= rows_under(cols, raw).push(
                    RowView { columns: cols, cells: cells_view },
                ));
            },
        }
        i = i + 1;
    }
    Some((out, cur))
}

fn parse_rows(bytes: &[u8], at: usize) -> (r: Result<Vec<Row>, ProtocolFault>)
    requires
        at <= bytes@.len(),
    ensures
        match r {
            Ok(rows) => parse_rows_spec(bytes@, at as int) == Ok::<Seq<RowView>, ProtocolFault>(
                rows@.map_values(|r: Row| r@),
            ),
            Err(fault) => parse_rows_spec(bytes@, at as int) == Err::<
                Seq<RowView>,
                ProtocolFault,
            >(fault),
        },
{
    let (flags, a) = match take_i32(bytes, at) {
        Some(found) => found,
        None => {
            return Err(ProtocolFault::MalformedBody);
        },
    };
    let (ncols, b) = match take_i32(bytes, a) {
        Some(found) => found,
        None => {
            return Err(ProtocolFault::MalformedBody);
        },
    };
    if ncols < 0 {
        return Err(ProtocolFault::MalformedBody);
    }
    if flags & 0x0004 != 0 {
        return Err(ProtocolFault::MissingMetadata);
    }
    let c: usize = if flags & 0x0002 != 0 {
        match take_cell(bytes, b) {
            Some((_, next)) => next,
            None => {
                return Err(ProtocolFault::MalformedBody);
            },
        }
    } else {
        b
    };
    let global: bool = flags & 0x0001 != 0;
    let d = match take_table(bytes, c, !global) {
        Some(next) => next,
        None => {
            return Err(ProtocolFault::MalformedBody);
        },
    };
    let (columns, e) = take_columns(bytes, d, ncols as usize, global)?;
    let (nrows, f) = match take_i32(bytes, e) {
        Some(found) => found,
        None => {
            return Err(ProtocolFault::MalformedBody);
        },
    };
    if nrows < 0 {
        return Err(ProtocolFault::MalformedBody);
    }
    let (rows, end) = match take_rows(bytes, f, nrows as usize, &columns) {
        Some(found) => found,
        None => {
            return Err(ProtocolFault::MalformedBody);
        },
    };
    if end != bytes.len() {
        return Err(ProtocolFault::TrailingBytes);
    }
    Ok(rows)
}

/// Reads the body of a result message. A body whose declared counts and
/// lengths do not match its bytes is rejected.
pub fn parse_result(body: &[u8]) -> (r: Result<QueryResult, Error>)
    ensures
        match r {
            Ok(result) => parse_result_spec(body@) == Ok::<ResultView, ProtocolFault>(result@),
            Err(e) => parse_result_spec(body@) is Err && e == Error::ProtocolError(
                parse_result_spec(body@)->Err_0,
            ),
        },
{
    let (kind, at) = match take_i32(body, 0) {
        Some(found) => found,
        None => {
            return Err(Error::ProtocolError(ProtocolFault::MalformedBody));
        },
    };
    if kind == 1 {
        Ok(QueryResult::Void)
    } else if kind == 2 {
        match parse_rows(body, at) {
            Ok(rows) => Ok(QueryResult::Rows(rows)),
            Err(fault) => Err(Error::ProtocolError(fault)),
        }
    } else if kind == 3 {
        Ok(QueryResult::SetKeyspace)
    } else if kind == 4 {
        Ok(QueryResult::Prepared)
    } else if kind == 5 {
        Ok(QueryResult::SchemaChange)
    } else {
        Err(Error::ProtocolError(ProtocolFault::UnknownResultKind))
    }
}

/// What a byte string holds when read as one cell of type `ty`: a value or
/// null, or nothing where it is no such cell.
pub open spec fn decode_cell_spec(ty: ColumnType, s: Seq<u8>) -> Option<Option<Value>> {
    match read_cell(s, 0) {
        None => None,
        Some((body, end)) => if end != s.len() {
            None
        } else {
            match body {
                None => Some(None),
                Some(b) => match decode_value_spec(ty, b) {
                    Some(v) => Some(Some(v)),
                    None => None,
                },
            }
        },
    }
}

/// Round trip: the cell written for a nullable value reads back as that
/// value, and the cell written for null reads back as null, whatever the
/// type.
pub proof fn lemma_cell_value_round_trip(v: Option<Value>, ty: ColumnType)
    requires
        v is Some ==> v->0.spec_column_type() == ty,
    ensures
        decode_cell_spec(ty, value_cell(v)) == Some(v),
{
    let s = value_cell(v);
    match v {
        Some(x) => {
            lemma_value_round_trip(x);
            match x {
                Value::Int(_) => {},
                Value::Decimal(d) => {
                    crate::value::lemma_varint_len_i64(d.unscaled);
                },
            }
            lemma_cell_round_trip(Some(value_body(x)), Seq::empty());
            assert(cell_bytes(Some(value_body(x))) + Seq::<u8>::empty() =~= s);
        },
        None => {
            lemma_cell_round_trip(None, Seq::empty());
            assert(cell_bytes(None) + Seq::<u8>::empty() =~= s);
        },
    }
}

/// Reads a byte string as one cell of type `ty`: the inverse of writing a
/// nullable value. `None` says that the bytes are no such cell: the length
/// does not match the bytes, or the body is no encoding of the type.
pub fn decode_cell(ty: ColumnType, bytes: &[u8]) -> (r: Option<Option<Value>>)
    ensures
        r == decode_cell_spec(ty, bytes@),
{
    match take_cell(bytes, 0) {
        None => None,
        Some((body, end)) => {
            if end != bytes.len() {
                None
            } else {
                match body {
                    None => Some(None),
                    Some(b) => match decode_value(ty, b.as_slice()) {
                        Some(v) => Some(Some(v)),
                        None => None,
                    },
                }
            }
        },
    }
}

} // verus!
