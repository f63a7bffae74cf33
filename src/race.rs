//! Races: the season's race summary, each race's result table, and the
//! circuit identity that links the two.
use vstd::prelude::*;
use crate::resolve::{
    identity_pieces, join_slash, lemma_split_join, slash_free, take_identity_pieces, ResolveError,
};
use crate::decode::{page_rows, decode_rows, lemma_decoded_rows_length, decode_rows_spec, layout_fits, row_cells, Extract, Field, ParseError};
use crate::html::{locate, RawTable};
use crate::text::{texts, digits_value, is_u16_text, parse_u16, strip_html, strip_html_suffix, unsigned_digits};

verus! {

/// The identity of a race's circuit, as a summary row links to it.
#[derive(Default, Debug, Clone, PartialEq, Eq)]
pub struct Circuit {
    /// The circuit's index in the archive.
    pub idx: u16,
    /// The circuit's slug in the archive's links.
    pub name: String,
    /// The label that the summary row shows.
    pub display_name: String,
}

impl Circuit {
    pub fn new(idx: u16, name: String, display_name: String) -> (r: Circuit)
        ensures
            r.idx == idx,
            r.name@ == name@,
            r.display_name@ == display_name@,
    {
        Circuit { idx, name, display_name }
    }

    /// A copy of this circuit.
    pub fn cloned(&self) -> (r: Circuit)
        ensures
            r == *self,
    {
        Circuit { idx: self.idx, name: self.name.clone(), display_name: self.display_name.clone() }
    }
}

/// The circuit that a race link names, or why it names none: the first
/// identity piece is the index, the second the slug.
pub open spec fn circuit_of(href: Seq<char>) -> Result<(nat, Seq<char>), ResolveError> {
    let p = identity_pieces(href, 2);
    if p.len() != 2 {
        Err(ResolveError::MalformedUrl)
    } else if !is_u16_text(p[0]) {
        Err(ResolveError::IndexParseFailure)
    } else {
        Ok((digits_value(unsigned_digits(p[0])), strip_html(p[1])))
    }
}

/// The circuit that a race link names, labelled `label`.
pub fn resolve_circuit(href: &str, label: &String) -> (r: Result<Circuit, ResolveError>)
    ensures
        match circuit_of(href@) {
            Ok((idx, slug)) => r is Ok && r->Ok_0.idx == idx && r->Ok_0.name@ == slug
                && r->Ok_0.display_name@ == label@,
            Err(e) => r == Err::<Circuit, ResolveError>(e),
        },
{
    let pieces = take_identity_pieces(href, 2);
    if pieces.len() != 2 {
        return Err(ResolveError::MalformedUrl);
    }
    let idx = match parse_u16(pieces[0].as_str()) {
        Some(idx) => idx,
        None => return Err(ResolveError::IndexParseFailure),
    };
    let name = strip_html_suffix(pieces[1].as_str());
    Ok(Circuit::new(idx, name, label.clone()))
}

/// One row of a season's race summary.
#[derive(Default, Debug, Clone, PartialEq, Eq)]
pub struct RaceSummaryEntry {
    pub grand_prix: String,
    /// The link of the grand prix cell, to the race's result page.
    pub url: String,
    pub date: String,
    pub winner: String,
    pub car: String,
    pub laps: String,
    pub time: String,
}

/// Where the race summary table stands in its page.
pub const RACE_SUMMARY_TABLE: &'static str =
    "div.resultsarchive-content>div.table-wrap>table.resultsarchive-table";

/// The number of data cells of a race summary row.
pub const RACE_SUMMARY_ARITY: usize = 6;

/// How a race summary row is read: the grand prix cell gives its label and its
/// link, the winner cell the spans of the driver's name.
pub open spec fn race_summary_layout() -> Seq<Field> {
    seq![
        Field { name: "grand_prix", column: 0, how: Extract::LinkText },
        Field { name: "url", column: 0, how: Extract::Href },
        Field { name: "date", column: 1, how: Extract::Text },
        Field { name: "winner", column: 2, how: Extract::Spans },
        Field { name: "car", column: 3, how: Extract::Text },
        Field { name: "laps", column: 4, how: Extract::Text },
        Field { name: "time", column: 5, how: Extract::Text },
    ]
}

impl RaceSummaryEntry {
    /// The row's fields, in layout order.
    pub open spec fn fields(&self) -> Seq<Seq<char>> {
        seq![self.grand_prix@, self.url@, self.date@, self.winner@, self.car@, self.laps@, self.time@]
    }

    /// How a race summary row is read.
    pub fn layout() -> (r: Vec<Field>)
        ensures
            r@ == race_summary_layout(),
            layout_fits(r@, RACE_SUMMARY_ARITY as nat),
    {
        let r = vec![
            Field { name: "grand_prix", column: 0, how: Extract::LinkText },
            Field { name: "url", column: 0, how: Extract::Href },
            Field { name: "date", column: 1, how: Extract::Text },
            Field { name: "winner", column: 2, how: Extract::Spans },
            Field { name: "car", column: 3, how: Extract::Text },
            Field { name: "laps", column: 4, how: Extract::Text },
            Field { name: "time", column: 5, how: Extract::Text },
        ];
        assert(r@ =~= race_summary_layout());
        r
    }

    /// The entry whose fields are `v`, in layout order.
    pub fn from_values(v: &Vec<String>) -> (r: RaceSummaryEntry)
        requires
            v@.len() == 7,
        ensures
            r.fields() == texts(v@),
    {
        let r = RaceSummaryEntry {
            grand_prix: v[0].clone(),
            url: v[1].clone(),
            date: v[2].clone(),
            winner: v[3].clone(),
            car: v[4].clone(),
            laps: v[5].clone(),
            time: v[6].clone(),
        };
        assert(r.fields() =~= texts(v@));
        r
    }

    /// The circuit that this row links to, labelled with the grand prix name.
    pub fn circuit(&self) -> (r: Result<Circuit, ResolveError>)
        ensures
            match circuit_of(self.url@) {
                Ok((idx, slug)) => r is Ok && r->Ok_0.idx == idx && r->Ok_0.name@ == slug
                    && r->Ok_0.display_name@ == self.grand_prix@,
                Err(e) => r == Err::<Circuit, ResolveError>(e),
            },
    {
        resolve_circuit(self.url.as_str(), &self.grand_prix)
    }
}

/// A link whose pieces after the fifth are a circuit index and a slug resolves
/// to that index and slug, whatever page follows.
pub proof fn lemma_circuit_link(pieces: Seq<Seq<char>>)
    requires
        pieces.len() >= 7,
        forall|i: int| 0 <= i < pieces.len() ==> slash_free(#[trigger] pieces[i]),
        is_u16_text(pieces[5]),
    ensures
        circuit_of(join_slash(pieces)) == Ok::<(nat, Seq<char>), ResolveError>(
            (digits_value(unsigned_digits(pieces[5])), strip_html(pieces[6])),
        ),
{
    lemma_split_join(pieces);
}

/// A link with fewer than seven pieces names no circuit.
pub proof fn lemma_circuit_link_too_short(pieces: Seq<Seq<char>>)
    requires
        1 <= pieces.len() < 7,
        forall|i: int| 0 <= i < pieces.len() ==> slash_free(#[trigger] pieces[i]),
    ensures
        circuit_of(join_slash(pieces)) == Err::<(nat, Seq<char>), ResolveError>(
            ResolveError::MalformedUrl,
        ),
{
    lemma_split_join(pieces);
}

/// A link whose index piece is not a `u16` number names no circuit.
pub proof fn lemma_circuit_index_not_number(pieces: Seq<Seq<char>>)
    requires
        pieces.len() >= 7,
        forall|i: int| 0 <= i < pieces.len() ==> slash_free(#[trigger] pieces[i]),
        !is_u16_text(pieces[5]),
    ensures
        circuit_of(join_slash(pieces)) == Err::<(nat, Seq<char>), ResolveError>(
            ResolveError::IndexParseFailure,
        ),
{
    lemma_split_join(pieces);
}

/// A season's race summary: one entry per race.
#[derive(Default, Debug, Clone, PartialEq, Eq)]
pub struct RaceSummary {
    pub year: u16,
    pub data: Vec<RaceSummaryEntry>,
}

impl RaceSummary {
    /// The summary whose rows are those of `table`; the first row that does not
    /// decode fails the whole summary.
    pub fn from_table(table: &RawTable, year: u16) -> (r: Result<RaceSummary, ParseError>)
        ensures
            match decode_rows_spec(row_cells(*table), RACE_SUMMARY_ARITY as nat, race_summary_layout()) {
                Ok(vals) => r is Ok && r->Ok_0.year == year && r->Ok_0.data@.len() == vals.len()
                    && forall|i: int| 0 <= i < vals.len() ==> (#[trigger] r->Ok_0.data@[i]).fields() == vals[i],
                Err(e) => r == Err::<RaceSummary, ParseError>(e),
            },
    {
        let layout = RaceSummaryEntry::layout();
        let rows = decode_rows(table, RACE_SUMMARY_ARITY, &layout)?;
        proof {
            lemma_decoded_rows_length(row_cells(*table), RACE_SUMMARY_ARITY as nat, layout@);
            assert forall|k: int| 0 <= k < rows@.len() implies (#[trigger] rows@[k]@).len() == 7 by {
                assert(texts(rows@[k]@).len() == rows@[k]@.len());
            }
        }
        let mut data: Vec<RaceSummaryEntry> = Vec::new();
        let mut i: usize = 0;
        while i < rows.len()
            invariant
                i <= rows@.len(),
                data@.len() == i,
                forall|k: int| 0 <= k < rows@.len() ==> (#[trigger] rows@[k]@).len() == 7,
                forall|k: int| 0 <= k < i ==> (#[trigger] data@[k]).fields() == texts(rows@[k]@),
            decreases rows@.len() - i,
        {
            data.push(RaceSummaryEntry::from_values(&rows[i]));
            i = i + 1;
        }
        Ok(RaceSummary { year, data })
    }

    /// Reads the race summary table of a page.
    pub fn parse(html: &str, year: u16) -> (r: Result<RaceSummary, ParseError>)
        ensures
            match page_rows(html@, RACE_SUMMARY_TABLE@, RACE_SUMMARY_ARITY as nat, race_summary_layout()) {
                Ok(vals) => r is Ok && r->Ok_0.year == year && r->Ok_0.data@.len()
                    == vals.len() && forall|i: int|
                    0 <= i < vals.len() ==> (#[trigger] r->Ok_0.data@[i]).fields() == vals[i],
                Err(e) => r == Err::<RaceSummary, ParseError>(e),
            },
    {
        match locate(html, RACE_SUMMARY_TABLE) {
            Ok(table) => RaceSummary::from_table(&table, year),
            Err(e) => Err(ParseError::Extract(e)),
        }
    }
}

/// Where a race's result table stands in its page.
pub const RACE_RESULT_TABLE: &'static str =
    "div.resultsarchive-wrapper>div.resultsarchive-content>div.resultsarchive-col-right>table.resultsarchive-table";

/// The number of data cells of a race result row.
pub const RACE_RESULT_ARITY: usize = 7;

/// One row of a race's result table.
#[derive(Default, Debug, Clone, PartialEq, Eq)]
pub struct RaceResultEntry {
    pub pos: String,
    pub no: String,
    pub driver: String,
    pub car: String,
    pub laps: String,
    pub time_retired: String,
    pub pts: String,
}

/// How a race result row is read.
pub open spec fn race_result_layout() -> Seq<Field> {
    seq![
        Field { name: "pos", column: 0, how: Extract::Text },
        Field { name: "no", column: 1, how: Extract::Text },
        Field { name: "driver", column: 2, how: Extract::Spans },
        Field { name: "car", column: 3, how: Extract::Text },
        Field { name: "laps", column: 4, how: Extract::Text },
        Field { name: "time_retired", column: 5, how: Extract::Text },
        Field { name: "pts", column: 6, how: Extract::Text },
    ]
}

impl RaceResultEntry {
    /// The row's fields, in layout order.
    pub open spec fn fields(&self) -> Seq<Seq<char>> {
        seq![self.pos@, self.no@, self.driver@, self.car@, self.laps@, self.time_retired@, self.pts@]
    }

    /// How a race result row is read.
    pub fn layout() -> (r: Vec<Field>)
        ensures
            r@ == race_result_layout(),
            layout_fits(r@, RACE_RESULT_ARITY as nat),
    {
        let r = vec![
            Field { name: "pos", column: 0, how: Extract::Text },
            Field { name: "no", column: 1, how: Extract::Text },
            Field { name: "driver", column: 2, how: Extract::Spans },
            Field { name: "car", column: 3, how: Extract::Text },
            Field { name: "laps", column: 4, how: Extract::Text },
            Field { name: "time_retired", column: 5, how: Extract::Text },
            Field { name: "pts", column: 6, how: Extract::Text },
        ];
        assert(r@ =~= race_result_layout());
        r
    }

    /// The entry whose fields are `v`, in layout order.
    pub fn from_values(v: &Vec<String>) -> (r: RaceResultEntry)
        requires
            v@.len() == 7,
        ensures
            r.fields() == texts(v@),
    {
        let r = RaceResultEntry {
            pos: v[0].clone(),
            no: v[1].clone(),
            driver: v[2].clone(),
            car: v[3].clone(),
            laps: v[4].clone(),
            time_retired: v[5].clone(),
            pts: v[6].clone(),
        };
        assert(r.fields() =~= texts(v@));
        r
    }
}

/// A race's result table, with the circuit it was read for.
#[derive(Default, Debug, Clone, PartialEq, Eq)]
pub struct RaceResult {
    pub year: u16,
    pub circuit: Circuit,
    pub data: Vec<RaceResultEntry>,
}

impl RaceResult {
    /// The records of the rows of `table`; the first row that does not decode
    /// fails the whole table.
    pub fn from_table(table: &RawTable, year: u16, circuit: &Circuit) -> (r: Result<RaceResult, ParseError>)
        ensures
            match decode_rows_spec(row_cells(*table), RACE_RESULT_ARITY as nat, race_result_layout()) {
                Ok(vals) => r is Ok && r->Ok_0.year == year && r->Ok_0.circuit == *circuit && r->Ok_0.data@.len()
                    == vals.len() && forall|i: int|
                    0 <= i < vals.len() ==> (#[trigger] r->Ok_0.data@[i]).fields() == vals[i],
                Err(e) => r == Err::<RaceResult, ParseError>(e),
            },
    {
        let layout = RaceResultEntry::layout();
        let rows = decode_rows(table, RACE_RESULT_ARITY, &layout)?;
        proof {
            lemma_decoded_rows_length(row_cells(*table), RACE_RESULT_ARITY as nat, layout@);
            assert forall|k: int| 0 <= k < rows@.len() implies (#[trigger] rows@[k]@).len() == 7 by {
                assert(texts(rows@[k]@).len() == rows@[k]@.len());
            }
        }
        let mut data: Vec<RaceResultEntry> = Vec::new();
        let mut i: usize = 0;
        while i < rows.len()
            invariant
                i <= rows@.len(),
                data@.len() == i,
                forall|k: int| 0 <= k < rows@.len() ==> (#[trigger] rows@[k]@).len() == 7,
                forall|k: int| 0 <= k < i ==> (#[trigger] data@[k]).fields() == texts(rows@[k]@),
            decreases rows@.len() - i,
        {
            data.push(RaceResultEntry::from_values(&rows[i]));
            i = i + 1;
        }
        Ok(RaceResult { year, circuit: circuit.cloned(), data })
    }

    /// Reads the race result table of a page.
    pub fn parse(html: &str, year: u16, circuit: &Circuit) -> (r: Result<RaceResult, ParseError>)
        ensures
            match page_rows(html@, RACE_RESULT_TABLE@, RACE_RESULT_ARITY as nat, race_result_layout()) {
                Ok(vals) => r is Ok && r->Ok_0.year == year && r->Ok_0.circuit == *circuit && r->Ok_0.data@.len()
                    == vals.len() && forall|i: int|
                    0 <= i < vals.len() ==> (#[trigger] r->Ok_0.data@[i]).fields() == vals[i],
                Err(e) => r == Err::<RaceResult, ParseError>(e),
            },
    {
        match locate(html, RACE_RESULT_TABLE) {
            Ok(table) => RaceResult::from_table(&table, year, circuit),
            Err(e) => Err(ParseError::Extract(e)),
        }
    }
}

/// One driver's fastest lap of a race.
#[derive(Default, Debug, Clone, PartialEq, Eq)]
pub struct FastestLap {
    pub pos: String,
    pub no: String,
    pub driver: String,
    pub car: String,
    pub lap: String,
    pub time: String,
}

/// One driver's qualifying time of a race.
#[derive(Default, Debug, Clone, PartialEq, Eq)]
pub struct Qualifying {
    pub pos: String,
    pub no: String,
    pub driver: String,
    pub car: String,
    pub time: String,
}

} // verus!
