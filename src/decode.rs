//! Row decoding: a row of cells becomes a sequence of field texts, by a layout
//! that names each field, the data column it is read from, and how.
use vstd::prelude::*;
use crate::html::{body_rows, row_views, table_found, Cell, CellView, ExtractError, RawTable};
use crate::text::{join_spaced, join_with_spaces, texts, trim, trim_of};

verus! {

/// How a field is read from its cell.
#[derive(Debug, Clone, Copy, PartialEq, Eq, Structural)]
pub enum Extract {
    /// The cell's trimmed text.
    Text,
    /// The trimmed text of the cell's hyperlink.
    LinkText,
    /// The texts of the cell's spans, joined by spaces and trimmed.
    Spans,
    /// The trimmed target of the cell's hyperlink.
    Href,
    /// The cell's inner markup as it stands.
    Markup,
    /// The inner markup of the cell's first child where that child is an
    /// element, else the cell's own, as it stands.
    Label,
}

/// One field of a row layout.
#[derive(Debug, Clone, Copy)]
pub struct Field {
    /// The field's name, which errors on it carry.
    pub name: &'static str,
    /// The data column that the field is read from.
    pub column: usize,
    pub how: Extract,
}

/// Why a row did not decode.
#[derive(Debug, Clone, PartialEq, Eq)]
pub enum DecodeError {
    /// The row does not have the layout's number of data cells.
    InvalidColumnCount { expected: usize, actual: usize },
    /// The named field's cell lacks the hyperlink or target that it is read from.
    MissingExpectedCell { column: &'static str },
}

/// The plain values of a row's cells.
pub open spec fn cell_views(row: Seq<Cell>) -> Seq<CellView> {
    row.map_values(|c: Cell| c.view())
}

/// The cells of a row that hold data: all but the decorative ones, in order.
pub open spec fn data_cells(row: Seq<CellView>) -> Seq<CellView>
    decreases row.len(),
{
    if row.len() == 0 {
        Seq::empty()
    } else if row.last().decorative {
        data_cells(row.drop_last())
    } else {
        data_cells(row.drop_last()).push(row.last())
    }
}

/// What a field reads from its cell, or `None` where the cell lacks it.
pub open spec fn extract_spec(c: CellView, how: Extract) -> Option<Seq<char>> {
    match how {
        Extract::Text => Some(trim_of(c.text)),
        Extract::LinkText => match c.link {
            Some((t, _)) => Some(trim_of(t)),
            None => None,
        },
        Extract::Spans => Some(trim_of(join_spaced(c.spans))),
        Extract::Href => match c.link {
            Some((_, Some(h))) => Some(trim_of(h)),
            _ => None,
        },
        Extract::Markup => Some(c.text),
        Extract::Label => match c.first_child {
            Some(m) => Some(m),
            None => Some(c.text),
        },
    }
}

/// Whether every field of a layout reads a column below `arity`.
pub open spec fn layout_fits(fields: Seq<Field>, arity: nat) -> bool {
    forall|i: int| 0 <= i < fields.len() ==> (#[trigger] fields[i]).column < arity
}

/// The fields read from data cells, in layout order; the first field that
/// cannot be read fails the whole row.
pub open spec fn decode_fields(cells: Seq<CellView>, fields: Seq<Field>) -> Result<
    Seq<Seq<char>>,
    DecodeError,
>
    decreases fields.len(),
{
    if fields.len() == 0 {
        Ok(Seq::empty())
    } else {
        match decode_fields(cells, fields.drop_last()) {
            Err(e) => Err(e),
            Ok(vals) => {
                let f = fields.last();
                match extract_spec(cells[f.column as int], f.how) {
                    Some(v) => Ok(vals.push(v)),
                    None => Err(DecodeError::MissingExpectedCell { column: f.name }),
                }
            },
        }
    }
}

proof fn lemma_decode_fields_failure_stays(cells: Seq<CellView>, fields: Seq<Field>, j: int)
    requires
        0 <= j <= fields.len(),
        decode_fields(cells, fields.subrange(0, j)) is Err,
    ensures
        decode_fields(cells, fields) == decode_fields(cells, fields.subrange(0, j)),
    decreases fields.len() - j,
{
    if j < fields.len() {
        assert(fields.subrange(0, j + 1).drop_last() =~= fields.subrange(0, j));
        lemma_decode_fields_failure_stays(cells, fields, j + 1);
    } else {
        assert(fields.subrange(0, j) =~= fields);
    }
}

/// A row decoded by a layout of `arity` data columns.
pub open spec fn decode_row_spec(row: Seq<CellView>, arity: nat, fields: Seq<Field>) -> Result<
    Seq<Seq<char>>,
    DecodeError,
> {
    let cells = data_cells(row);
    if cells.len() != arity {
        Err(DecodeError::InvalidColumnCount { expected: arity as usize, actual: cells.len() as usize })
    } else {
        decode_fields(cells, fields)
    }
}

/// Reads one field from its cell.
pub fn extract(c: &Cell, how: Extract) -> (r: Option<String>)
    ensures
        match extract_spec(c.view(), how) {
            Some(v) => r is Some && r->Some_0@ == v,
            None => r is None,
        },
{
    match how {
        Extract::Text => Some(trim(c.text.as_str())),
        Extract::LinkText => match &c.link {
            Some(l) => Some(trim(l.text.as_str())),
            None => None,
        },
        Extract::Spans => {
            let joined = join_with_spaces(&c.spans);
            Some(trim(joined.as_str()))
        },
        Extract::Href => match &c.link {
            Some(l) => match &l.href {
                Some(h) => Some(trim(h.as_str())),
                None => None,
            },
            None => None,
        },
        Extract::Markup => Some(c.text.clone()),
        Extract::Label => match &c.first_child {
            Some(m) => Some(m.clone()),
            None => Some(c.text.clone()),
        },
    }
}

/// The positions of a row's data cells.
fn data_positions(row: &Vec<Cell>) -> (r: Vec<usize>)
    ensures
        r@.len() == data_cells(cell_views(row@)).len(),
        forall|k: int| 0 <= k < r@.len() ==> (#[trigger] r@[k]) < row@.len() && row@[r@[k] as int].view()
            == data_cells(cell_views(row@))[k],
{
    let mut out: Vec<usize> = Vec::new();
    let mut i: usize = 0;
    while i < row.len()
        invariant
            i <= row@.len(),
            out@.len() == data_cells(cell_views(row@).subrange(0, i as int)).len(),
            forall|k: int| 0 <= k < out@.len() ==> (#[trigger] out@[k]) < i && row@[out@[k] as int].view()
                == data_cells(cell_views(row@).subrange(0, i as int))[k],
        decreases row.len() - i,
    {
        assert(cell_views(row@).subrange(0, i + 1).drop_last() =~= cell_views(row@).subrange(0, i as int));
        assert(cell_views(row@).subrange(0, i + 1).last() == row@[i as int].view());
        if !row[i].decorative {
            out.push(i);
        }
        i = i + 1;
    }
    assert(cell_views(row@).subrange(0, row@.len() as int) =~= cell_views(row@));
    out
}

/// Decodes one row by a layout of `arity` data columns: the decorative cells
/// are left out, the count of the others must be `arity`, and each field is
/// read from its column.
pub fn decode_row(row: &Vec<Cell>, arity: usize, fields: &Vec<Field>) -> (r: Result<
    Vec<String>,
    DecodeError,
>)
    requires
        layout_fits(fields@, arity as nat),
    ensures
        match decode_row_spec(cell_views(row@), arity as nat, fields@) {
            Ok(vals) => r is Ok && texts(r->Ok_0@) == vals,
            Err(e) => r == Err::<Vec<String>, DecodeError>(e),
        },
{
    let pos = data_positions(row);
    let ghost cells = data_cells(cell_views(row@));
    if pos.len() != arity {
        return Err(DecodeError::InvalidColumnCount { expected: arity, actual: pos.len() });
    }
    let mut vals: Vec<String> = Vec::new();
    let mut i: usize = 0;
    assert(fields@.subrange(0, 0) =~= Seq::<Field>::empty());
    assert(texts(vals@) =~= Seq::empty());
    while i < fields.len()
        invariant
            i <= fields@.len(),
            pos@.len() == arity,
            cells == data_cells(cell_views(row@)),
            cells.len() == arity,
            layout_fits(fields@, arity as nat),
            forall|k: int| 0 <= k < pos@.len() ==> (#[trigger] pos@[k]) < row@.len() && row@[pos@[k] as int].view()
                == cells[k],
            decode_fields(cells, fields@.subrange(0, i as int)) == Ok::<
                Seq<Seq<char>>,
                DecodeError,
            >(texts(vals@)),
        decreases fields.len() - i,
    {
        let f = fields[i];
        assert(fields@.subrange(0, i + 1).drop_last() =~= fields@.subrange(0, i as int));
        assert(fields@.subrange(0, i + 1).last() == f);
        assert(f.column < arity);
        let c = &row[pos[f.column]];
        match extract(c, f.how) {
            Some(v) => {
                let ghost before = vals@;
                vals.push(v);
                assert(texts(vals@) =~= texts(before).push(v@));
            },
            None => {
                proof {
                    lemma_decode_fields_failure_stays(cells, fields@, i + 1);
                }
                return Err(DecodeError::MissingExpectedCell { column: f.name });
            },
        }
        i = i + 1;
    }
    assert(fields@.subrange(0, fields@.len() as int) =~= fields@);
    Ok(vals)
}

/// Why a page did not parse into records.
#[derive(Debug, Clone, PartialEq, Eq)]
pub enum ParseError {
    /// The table was not read from the page.
    Extract(ExtractError),
    /// The table's header row did not decode.
    Headers(DecodeError),
    /// The body row at `index` did not decode.
    Row { index: usize, error: DecodeError },
}

/// The body rows of a table as sequences of plain cell values.
pub open spec fn row_cells(table: RawTable) -> Seq<Seq<CellView>> {
    row_views(table)
}

/// What a page's table yields by a layout: every body row decoded, or why
/// not.
pub open spec fn page_rows(doc: Seq<char>, table_sel: Seq<char>, arity: nat, fields: Seq<Field>) -> Result<
    Seq<Seq<Seq<char>>>,
    ParseError,
> {
    match table_found(doc, table_sel) {
        Err(e) => Err(ParseError::Extract(e)),
        Ok(()) => decode_rows_spec(body_rows(doc, table_sel), arity, fields),
    }
}

/// Every row decoded by a layout; the first row that does not decode fails
/// the whole table, so that no row is silently dropped.
pub open spec fn decode_rows_spec(rows: Seq<Seq<CellView>>, arity: nat, fields: Seq<Field>) -> Result<
    Seq<Seq<Seq<char>>>,
    ParseError,
>
    decreases rows.len(),
{
    if rows.len() == 0 {
        Ok(Seq::empty())
    } else {
        match decode_rows_spec(rows.drop_last(), arity, fields) {
            Err(e) => Err(e),
            Ok(done) => match decode_row_spec(rows.last(), arity, fields) {
                Ok(v) => Ok(done.push(v)),
                Err(e) => Err(ParseError::Row { index: (rows.len() - 1) as usize, error: e }),
            },
        }
    }
}

proof fn lemma_decode_rows_failure_stays(
    rows: Seq<Seq<CellView>>,
    arity: nat,
    fields: Seq<Field>,
    j: int,
)
    requires
        0 <= j <= rows.len(),
        decode_rows_spec(rows.subrange(0, j), arity, fields) is Err,
    ensures
        decode_rows_spec(rows, arity, fields) == decode_rows_spec(rows.subrange(0, j), arity, fields),
    decreases rows.len() - j,
{
    if j < rows.len() {
        assert(rows.subrange(0, j + 1).drop_last() =~= rows.subrange(0, j));
        lemma_decode_rows_failure_stays(rows, arity, fields, j + 1);
    } else {
        assert(rows.subrange(0, j) =~= rows);
    }
}

/// Decodes every body row of a table by a layout of `arity` data columns.
pub fn decode_rows(table: &RawTable, arity: usize, fields: &Vec<Field>) -> (r: Result<
    Vec<Vec<String>>,
    ParseError,
>)
    requires
        layout_fits(fields@, arity as nat),
    ensures
        match decode_rows_spec(row_cells(*table), arity as nat, fields@) {
            Ok(vals) => r is Ok && r->Ok_0@.len() == vals.len() && forall|i: int|
                0 <= i < vals.len() ==> texts(#[trigger] r->Ok_0@[i]@) == vals[i],
            Err(e) => r == Err::<Vec<Vec<String>>, ParseError>(e),
        },
{
    let ghost rows = row_cells(*table);
    let ghost done: Seq<Seq<Seq<char>>> = Seq::empty();
    let mut out: Vec<Vec<String>> = Vec::new();
    let mut i: usize = 0;
    assert(rows.subrange(0, 0) =~= Seq::<Seq<CellView>>::empty());
    while i < table.rows.len()
        invariant
            i <= table.rows@.len(),
            rows == row_cells(*table),
            rows.len() == table.rows@.len(),
            layout_fits(fields@, arity as nat),
            decode_rows_spec(rows.subrange(0, i as int), arity as nat, fields@) == Ok::<
                Seq<Seq<Seq<char>>>,
                ParseError,
            >(done),
            out@.len() == i,
            done.len() == i,
            forall|k: int| 0 <= k < i ==> texts(#[trigger] out@[k]@) == done[k],
        decreases table.rows@.len() - i,
    {
        assert(rows.subrange(0, i + 1).drop_last() =~= rows.subrange(0, i as int));
        assert(rows.subrange(0, i + 1).last() == cell_views(table.rows@[i as int]@));
        match decode_row(&table.rows[i], arity, fields) {
            Ok(v) => {
                proof {
                    done = done.push(texts(v@));
                }
                out.push(v);
            },
            Err(e) => {
                proof {
                    lemma_decode_rows_failure_stays(rows, arity as nat, fields@, i + 1);
                }
                return Err(ParseError::Row { index: i, error: e });
            },
        }
        i = i + 1;
    }
    assert(rows.subrange(0, rows.len() as int) =~= rows);
    Ok(out)
}

/// A decoded row has one text per field of its layout.
pub proof fn lemma_decoded_row_length(row: Seq<CellView>, arity: nat, fields: Seq<Field>)
    requires
        decode_row_spec(row, arity, fields) is Ok,
    ensures
        decode_row_spec(row, arity, fields)->Ok_0.len() == fields.len(),
{
    lemma_decode_fields_length(data_cells(row), fields);
}

proof fn lemma_decode_fields_length(cells: Seq<CellView>, fields: Seq<Field>)
    requires
        decode_fields(cells, fields) is Ok,
    ensures
        decode_fields(cells, fields)->Ok_0.len() == fields.len(),
    decreases fields.len(),
{
    if fields.len() > 0 {
        lemma_decode_fields_length(cells, fields.drop_last());
    }
}

/// A decoded table has one decoded row per body row, each with one text per
/// field of the layout.
pub proof fn lemma_decoded_rows_length(rows: Seq<Seq<CellView>>, arity: nat, fields: Seq<Field>)
    requires
        decode_rows_spec(rows, arity, fields) is Ok,
    ensures
        decode_rows_spec(rows, arity, fields)->Ok_0.len() == rows.len(),
        forall|i: int|
            0 <= i < rows.len() ==> (#[trigger] decode_rows_spec(rows, arity, fields)->Ok_0[i]).len()
                == fields.len(),
    decreases rows.len(),
{
    if rows.len() > 0 {
        lemma_decoded_rows_length(rows.drop_last(), arity, fields);
        lemma_decoded_row_length(rows.last(), arity, fields);
    }
}

/// Decoding a row is a function of its cells: two rows with the same cells
/// decode alike, and a row that decodes has one text per layout field.
pub proof fn lemma_decode_row_is_pure(a: Seq<CellView>, b: Seq<CellView>, arity: nat, fields: Seq<Field>)
    requires
        a == b,
    ensures
        decode_row_spec(a, arity, fields) == decode_row_spec(b, arity, fields),
        decode_row_spec(a, arity, fields) is Ok ==> decode_row_spec(a, arity, fields)->Ok_0.len()
            == fields.len(),
{
    if decode_row_spec(a, arity, fields) is Ok {
        lemma_decoded_row_length(a, arity, fields);
    }
}

/// A table whose body rows each have one data cell fewer than the layout asks
/// for fails on every row with a column count error, and so fails as a whole,
/// at its first row.
pub proof fn lemma_rows_one_cell_short(rows: Seq<Seq<CellView>>, arity: nat, fields: Seq<Field>)
    requires
        1 <= arity <= usize::MAX,
        rows.len() >= 1,
        forall|i: int| 0 <= i < rows.len() ==> data_cells(#[trigger] rows[i]).len() == arity - 1,
    ensures
        forall|i: int|
            0 <= i < rows.len() ==> #[trigger] decode_row_spec(rows[i], arity, fields) == Err::<
                Seq<Seq<char>>,
                DecodeError,
            >(
                DecodeError::InvalidColumnCount {
                    expected: arity as usize,
                    actual: (arity - 1) as usize,
                },
            ),
        decode_rows_spec(rows, arity, fields) == Err::<Seq<Seq<Seq<char>>>, ParseError>(
            ParseError::Row {
                index: 0,
                error: DecodeError::InvalidColumnCount {
                    expected: arity as usize,
                    actual: (arity - 1) as usize,
                },
            },
        ),
{
    let first = rows.subrange(0, 1);
    assert(first.drop_last() =~= Seq::<Seq<CellView>>::empty());
    assert(first.last() == rows[0]);
    assert(decode_rows_spec(first.drop_last(), arity, fields) == Ok::<
        Seq<Seq<Seq<char>>>,
        ParseError,
    >(Seq::empty()));
    assert(data_cells(rows[0]).len() == arity - 1);
    assert(decode_rows_spec(first, arity, fields) is Err);
    lemma_decode_rows_failure_stays(rows, arity, fields, 1);
}

} // verus!
