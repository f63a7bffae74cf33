//! Race tables with their header rows: each table keeps the labels of its
//! columns beside its records, and the header row is held to the same column
//! count as the body rows.
use vstd::prelude::*;
use crate::decode::{
    cell_views,
    decode_row, decode_row_spec, decode_rows, decode_rows_spec, layout_fits, lemma_decoded_row_length,
    lemma_decoded_rows_length, row_cells, Extract, Field, ParseError, DecodeError,
};
use crate::html::{body_rows, header_cells, header_views, locate, table_found, Cell, RawTable};
use crate::race::{
    circuit_of, race_result_layout, race_summary_layout, resolve_circuit, Circuit, FastestLap,
    Qualifying, RaceResultEntry, RaceSummaryEntry, RACE_RESULT_ARITY, RACE_RESULT_TABLE,
    RACE_SUMMARY_ARITY, RACE_SUMMARY_TABLE,
};
use crate::resolve::ResolveError;
use crate::text::texts;

verus! {

/// Everything that the archive holds about one race.
#[derive(Default, Debug)]
pub struct Race {
    pub name: String,
    pub circuit: String,
    pub date: String,
    pub race_results: Vec<Table<RaceResultHeaders, RaceResultData>>,
    pub fastest_laps: Vec<FastestLap>,
    pub qualifyings: Vec<Qualifying>,
}

/// A table of one season: its header labels, its records, and the circuit it
/// was read for, where it concerns one.
#[derive(Default, Debug)]
pub struct Table<Headers, Data> {
    pub year: u16,
    pub circuit: Option<Circuit>,
    pub headers: Headers,
    pub data: Vec<Data>,
}

impl<Headers, Data> Table<Headers, Data> {
    pub fn new(year: u16, headers: Headers, data: Vec<Data>) -> (r: Self)
        ensures
            r.year == year,
            r.circuit is None,
            r.headers == headers,
            r.data == data,
    {
        Table { year, circuit: None, headers, data }
    }

    /// The table, marked as read for `circuit`.
    pub fn with_circuit(self, circuit: Circuit) -> (r: Self)
        ensures
            r.year == self.year,
            r.circuit == Some(circuit),
            r.headers == self.headers,
            r.data == self.data,
    {
        let mut t = self;
        t.circuit = Some(circuit);
        t
    }
}

/// A layout that reads every column, in order, the same way, as header labels
/// are read.
pub open spec fn header_layout(names: Seq<&'static str>, how: Extract) -> Seq<Field> {
    Seq::new(names.len(), |i: int| Field { name: names[i], column: i as usize, how })
}

/// One row of a race's result table.
#[derive(Default, Debug, Clone, PartialEq, Eq)]
pub struct RaceResultData {
    pub pos: String,
    pub no: String,
    pub driver: String,
    pub car: String,
    pub laps: String,
    pub time_retired: String,
    pub pts: String,
}

impl RaceResultData {
    /// The fields, in layout order.
    pub open spec fn fields(&self) -> Seq<Seq<char>> {
        seq![self.pos@, self.no@, self.driver@, self.car@, self.laps@, self.time_retired@, self.pts@]
    }

    /// The record whose fields are `v`, in layout order.
    pub fn from_values(v: &Vec<String>) -> (r: RaceResultData)
        requires
            v@.len() == 7,
        ensures
            r.fields() == texts(v@),
    {
        let r = RaceResultData {
            pos: v[0].clone(),
            no: v[1].clone(),
            driver: v[2].clone(),
            car: v[3].clone(),
            laps: v[4].clone(),
            time_retired: v[5].clone(),
            pts: v[6].clone(),
        };
        assert(r.fields() =~= texts(v@));
        r
    }
}
/// The header labels of a race's result table.
#[derive(Default, Debug, Clone, PartialEq, Eq)]
pub struct RaceResultHeaders {
    pub pos: String,
    pub no: String,
    pub driver: String,
    pub car: String,
    pub laps: String,
    pub time_retired: String,
    pub pts: String,
}

impl RaceResultHeaders {
    /// The fields, in layout order.
    pub open spec fn fields(&self) -> Seq<Seq<char>> {
        seq![self.pos@, self.no@, self.driver@, self.car@, self.laps@, self.time_retired@, self.pts@]
    }

    /// The record whose fields are `v`, in layout order.
    pub fn from_values(v: &Vec<String>) -> (r: RaceResultHeaders)
        requires
            v@.len() == 7,
        ensures
            r.fields() == texts(v@),
    {
        let r = RaceResultHeaders {
            pos: v[0].clone(),
            no: v[1].clone(),
            driver: v[2].clone(),
            car: v[3].clone(),
            laps: v[4].clone(),
            time_retired: v[5].clone(),
            pts: v[6].clone(),
        };
        assert(r.fields() =~= texts(v@));
        r
    }
}
/// The header labels of a season's race summary.
#[derive(Default, Debug, Clone, PartialEq, Eq)]
pub struct RaceResultSummaryHeaders {
    pub grand_prix: String,
    pub date: String,
    pub winner: String,
    pub car: String,
    pub laps: String,
    pub time: String,
}

impl RaceResultSummaryHeaders {
    /// The fields, in layout order.
    pub open spec fn fields(&self) -> Seq<Seq<char>> {
        seq![self.grand_prix@, self.date@, self.winner@, self.car@, self.laps@, self.time@]
    }

    /// The record whose fields are `v`, in layout order.
    pub fn from_values(v: &Vec<String>) -> (r: RaceResultSummaryHeaders)
        requires
            v@.len() == 6,
        ensures
            r.fields() == texts(v@),
    {
        let r = RaceResultSummaryHeaders {
            grand_prix: v[0].clone(),
            date: v[1].clone(),
            winner: v[2].clone(),
            car: v[3].clone(),
            laps: v[4].clone(),
            time: v[5].clone(),
        };
        assert(r.fields() =~= texts(v@));
        r
    }
}
/// One row of a season's race summary.
#[derive(Default, Debug, Clone, PartialEq, Eq)]
pub struct RaceResultSummaryData {
    pub grand_prix: String,
    pub url: String,
    pub date: String,
    pub winner: String,
    pub car: String,
    pub laps: String,
    pub time: String,
}

impl RaceResultSummaryData {
    /// The fields, in layout order.
    pub open spec fn fields(&self) -> Seq<Seq<char>> {
        seq![self.grand_prix@, self.url@, self.date@, self.winner@, self.car@, self.laps@, self.time@]
    }

    /// The record whose fields are `v`, in layout order.
    pub fn from_values(v: &Vec<String>) -> (r: RaceResultSummaryData)
        requires
            v@.len() == 7,
        ensures
            r.fields() == texts(v@),
    {
        let r = RaceResultSummaryData {
            grand_prix: v[0].clone(),
            url: v[1].clone(),
            date: v[2].clone(),
            winner: v[3].clone(),
            car: v[4].clone(),
            laps: v[5].clone(),
            time: v[6].clone(),
        };
        assert(r.fields() =~= texts(v@));
        r
    }
}

impl RaceResultSummaryData {
    /// The circuit that this row links to, labelled with the grand prix name.
    pub fn circuit(&self) -> (r: Result<Circuit, ResolveError>)
        ensures
            match circuit_of(self.url@) {
                Ok((idx, slug)) => r is Ok && r->Ok_0.idx == idx && r->Ok_0.name@ == slug
                    && r->Ok_0.display_name@ == self.grand_prix@,
                Err(e) => r == Err::<Circuit, ResolveError>(e),
            },
    {
        resolve_circuit(self.url.as_str(), &self.grand_prix)
    }
}

/// The names of the race summary's header columns.
pub open spec fn race_summary_header_names() -> Seq<&'static str> {
    seq!["grand_prix", "date", "winner", "car", "laps", "time"]
}

/// The names of a race result's header columns.
pub open spec fn race_result_header_names() -> Seq<&'static str> {
    seq!["pos", "no", "driver", "car", "laps", "time_retired", "pts"]
}

fn header_fields(names: Vec<&'static str>, how: Extract) -> (r: Vec<Field>)
    ensures
        r@ == header_layout(names@, how),
        layout_fits(r@, names@.len()),
{
    let mut out: Vec<Field> = Vec::new();
    let mut i: usize = 0;
    while i < names.len()
        invariant
            i <= names@.len(),
            out@ == header_layout(names@, how).subrange(0, i as int),
        decreases names@.len() - i,
    {
        out.push(Field { name: names[i], column: i, how });
        assert(out@ =~= header_layout(names@, how).subrange(0, i + 1));
        i = i + 1;
    }
    assert(out@ =~= header_layout(names@, how));
    out
}

/// Reads the header labels of a race summary table.
pub fn parse_races_summary_headers(table: &RawTable) -> (r: Result<RaceResultSummaryHeaders, DecodeError>)
    ensures
        match decode_row_spec(cell_views(table.headers@), RACE_SUMMARY_ARITY as nat, header_layout(race_summary_header_names(), Extract::Markup)) {
            Ok(vals) => r is Ok && r->Ok_0.fields() == vals,
            Err(e) => r == Err::<RaceResultSummaryHeaders, DecodeError>(e),
        },
{
    let layout = header_fields(vec!["grand_prix", "date", "winner", "car", "laps", "time"], Extract::Markup);
    assert(layout@ == header_layout(race_summary_header_names(), Extract::Markup));
    let vals = decode_row(&table.headers, RACE_SUMMARY_ARITY, &layout)?;
    proof {
        lemma_decoded_row_length(cell_views(table.headers@), RACE_SUMMARY_ARITY as nat, layout@);
    }
    Ok(RaceResultSummaryHeaders::from_values(&vals))
}

/// Reads one row of a race summary table.
pub fn parse_races_summary_data(row: &Vec<Cell>) -> (r: Result<RaceResultSummaryData, DecodeError>)
    ensures
        match decode_row_spec(cell_views(row@), RACE_SUMMARY_ARITY as nat, race_summary_layout()) {
            Ok(vals) => r is Ok && r->Ok_0.fields() == vals,
            Err(e) => r == Err::<RaceResultSummaryData, DecodeError>(e),
        },
{
    let layout = RaceSummaryEntry::layout();
    let vals = decode_row(row, RACE_SUMMARY_ARITY, &layout)?;
    proof {
        lemma_decoded_row_length(cell_views(row@), RACE_SUMMARY_ARITY as nat, layout@);
    }
    Ok(RaceResultSummaryData::from_values(&vals))
}

/// A race summary table with its header labels.
pub type RaceResultSummaryTable = Table<RaceResultSummaryHeaders, RaceResultSummaryData>;

/// A race result table with its header labels.
pub type RaceResultTable = Table<RaceResultHeaders, RaceResultData>;

/// The race summary of `table`: its header labels, then its rows; the first
/// part that does not decode fails the whole table.
pub fn races_summary_from_table(table: &RawTable, year: u16) -> (r: Result<RaceResultSummaryTable, ParseError>)
    ensures
        match decode_row_spec(cell_views(table.headers@), RACE_SUMMARY_ARITY as nat, header_layout(race_summary_header_names(), Extract::Markup)) {
            Err(e) => r == Err::<RaceResultSummaryTable, ParseError>(ParseError::Headers(e)),
            Ok(labels) => match decode_rows_spec(row_cells(*table), RACE_SUMMARY_ARITY as nat, race_summary_layout()) {
                Err(e) => r == Err::<RaceResultSummaryTable, ParseError>(e),
                Ok(vals) => r is Ok && r->Ok_0.year == year && r->Ok_0.circuit is None
                    && r->Ok_0.headers.fields() == labels && r->Ok_0.data@.len() == vals.len()
                    && forall|i: int| 0 <= i < vals.len() ==> (#[trigger] r->Ok_0.data@[i]).fields() == vals[i],
            },
        },
{
    let headers = match parse_races_summary_headers(table) {
        Ok(h) => h,
        Err(e) => return Err(ParseError::Headers(e)),
    };
    let layout = RaceSummaryEntry::layout();
    let rows = decode_rows(table, RACE_SUMMARY_ARITY, &layout)?;
    proof {
        lemma_decoded_rows_length(row_cells(*table), RACE_SUMMARY_ARITY as nat, layout@);
        assert forall|k: int| 0 <= k < rows@.len() implies (#[trigger] rows@[k]@).len() == 7 by {
            assert(texts(rows@[k]@).len() == rows@[k]@.len());
        }
    }
    let mut data: Vec<RaceResultSummaryData> = Vec::new();
    let mut i: usize = 0;
    while i < rows.len()
        invariant
            i <= rows@.len(),
            data@.len() == i,
            forall|k: int| 0 <= k < rows@.len() ==> (#[trigger] rows@[k]@).len() == 7,
            forall|k: int| 0 <= k < i ==> (#[trigger] data@[k]).fields() == texts(rows@[k]@),
        decreases rows@.len() - i,
    {
        data.push(RaceResultSummaryData::from_values(&rows[i]));
        i = i + 1;
    }
    Ok(Table::new(year, headers, data))
}

/// Reads the race summary table of a page, with its header labels.
pub fn parse_races_summary(html: &str, year: u16) -> (r: Result<RaceResultSummaryTable, ParseError>)
    ensures
        match table_found(html@, RACE_SUMMARY_TABLE@) {
            Err(e) => r == Err::<RaceResultSummaryTable, ParseError>(ParseError::Extract(e)),
            Ok(()) => match decode_row_spec(header_cells(html@, RACE_SUMMARY_TABLE@), RACE_SUMMARY_ARITY as nat, header_layout(race_summary_header_names(), Extract::Markup)) {
                Err(e) => r == Err::<RaceResultSummaryTable, ParseError>(ParseError::Headers(e)),
                Ok(labels) => match decode_rows_spec(body_rows(html@, RACE_SUMMARY_TABLE@), RACE_SUMMARY_ARITY as nat, race_summary_layout()) {
                    Err(e) => r == Err::<RaceResultSummaryTable, ParseError>(e),
                    Ok(vals) => r is Ok && r->Ok_0.year == year && r->Ok_0.circuit is None
                        && r->Ok_0.headers.fields() == labels && r->Ok_0.data@.len() == vals.len()
                        && forall|i: int| 0 <= i < vals.len() ==> (#[trigger] r->Ok_0.data@[i]).fields() == vals[i],
                },
            },
        },
{
    match locate(html, RACE_SUMMARY_TABLE) {
        Ok(table) => {
            assert(cell_views(table.headers@) =~= header_views(table));
            races_summary_from_table(&table, year)
        },
        Err(e) => Err(ParseError::Extract(e)),
    }
}

/// The race result of `table` for `circuit`: its header labels, then its rows;
/// the first part that does not decode fails the whole table.
pub fn races_from_table(table: &RawTable, year: u16, circuit: &Circuit) -> (r: Result<RaceResultTable, ParseError>)
    ensures
        match decode_row_spec(cell_views(table.headers@), RACE_RESULT_ARITY as nat, header_layout(race_result_header_names(), Extract::Label)) {
            Err(e) => r == Err::<RaceResultTable, ParseError>(ParseError::Headers(e)),
            Ok(labels) => match decode_rows_spec(row_cells(*table), RACE_RESULT_ARITY as nat, race_result_layout()) {
                Err(e) => r == Err::<RaceResultTable, ParseError>(e),
                Ok(vals) => r is Ok && r->Ok_0.year == year && r->Ok_0.circuit == Some(*circuit)
                    && r->Ok_0.headers.fields() == labels && r->Ok_0.data@.len() == vals.len()
                    && forall|i: int| 0 <= i < vals.len() ==> (#[trigger] r->Ok_0.data@[i]).fields() == vals[i],
            },
        },
{
    let layout = header_fields(vec!["pos", "no", "driver", "car", "laps", "time_retired", "pts"], Extract::Label);
    assert(layout@ == header_layout(race_result_header_names(), Extract::Label));
    let labels = match decode_row(&table.headers, RACE_RESULT_ARITY, &layout) {
        Ok(v) => v,
        Err(e) => return Err(ParseError::Headers(e)),
    };
    proof {
        lemma_decoded_row_length(cell_views(table.headers@), RACE_RESULT_ARITY as nat, layout@);
    }
    let headers = RaceResultHeaders::from_values(&labels);
    let layout = RaceResultEntry::layout();
    let rows = decode_rows(table, RACE_RESULT_ARITY, &layout)?;
    proof {
        lemma_decoded_rows_length(row_cells(*table), RACE_RESULT_ARITY as nat, layout@);
        assert forall|k: int| 0 <= k < rows@.len() implies (#[trigger] rows@[k]@).len() == 7 by {
            assert(texts(rows@[k]@).len() == rows@[k]@.len());
        }
    }
    let mut data: Vec<RaceResultData> = Vec::new();
    let mut i: usize = 0;
    while i < rows.len()
        invariant
            i <= rows@.len(),
            data@.len() == i,
            forall|k: int| 0 <= k < rows@.len() ==> (#[trigger] rows@[k]@).len() == 7,
            forall|k: int| 0 <= k < i ==> (#[trigger] data@[k]).fields() == texts(rows@[k]@),
        decreases rows@.len() - i,
    {
        data.push(RaceResultData::from_values(&rows[i]));
        i = i + 1;
    }
    Ok(Table::new(year, headers, data).with_circuit(circuit.cloned()))
}

/// Reads the result table of a race's page, with its header labels.
pub fn parse_races(html: &str, year: u16, circuit: &Circuit) -> (r: Result<RaceResultTable, ParseError>)
    ensures
        match table_found(html@, RACE_RESULT_TABLE@) {
            Err(e) => r == Err::<RaceResultTable, ParseError>(ParseError::Extract(e)),
            Ok(()) => match decode_row_spec(header_cells(html@, RACE_RESULT_TABLE@), RACE_RESULT_ARITY as nat, header_layout(race_result_header_names(), Extract::Label)) {
                Err(e) => r == Err::<RaceResultTable, ParseError>(ParseError::Headers(e)),
                Ok(labels) => match decode_rows_spec(body_rows(html@, RACE_RESULT_TABLE@), RACE_RESULT_ARITY as nat, race_result_layout()) {
                    Err(e) => r == Err::<RaceResultTable, ParseError>(e),
                    Ok(vals) => r is Ok && r->Ok_0.year == year && r->Ok_0.circuit == Some(*circuit)
                        && r->Ok_0.headers.fields() == labels && r->Ok_0.data@.len() == vals.len()
                        && forall|i: int| 0 <= i < vals.len() ==> (#[trigger] r->Ok_0.data@[i]).fields() == vals[i],
                },
            },
        },
{
    match locate(html, RACE_RESULT_TABLE) {
        Ok(table) => {
            assert(cell_views(table.headers@) =~= header_views(table));
            races_from_table(&table, year, circuit)
        },
        Err(e) => Err(ParseError::Extract(e)),
    }
}

} // verus!
