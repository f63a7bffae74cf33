//! Fastest laps: the season's fastest lap of each race.
use vstd::prelude::*;
use crate::decode::{page_rows, decode_rows, lemma_decoded_rows_length, decode_rows_spec, layout_fits, row_cells, Extract, Field, ParseError};
use crate::html::{locate, RawTable};
use crate::text::texts;

verus! {

/// Where the fastest lap table stands in its page.
pub const FASTEST_LAP_SUMMARY_TABLE: &'static str =
    "div.resultsarchive-content>div.table-wrap>table.resultsarchive-table";

/// The number of data cells of a fastest lap row.
pub const FASTEST_LAP_SUMMARY_ARITY: usize = 4;

/// One race's fastest lap.
#[derive(Default, Debug, Clone, PartialEq, Eq)]
pub struct FastestLapSummaryEntry {
    pub grand_prix: String,
    pub driver: String,
    pub car: String,
    pub time: String,
}

/// How a fastest lap row is read.
pub open spec fn fastest_lap_summary_layout() -> Seq<Field> {
    seq![
        Field { name: "grand_prix", column: 0, how: Extract::Text },
        Field { name: "driver", column: 1, how: Extract::Spans },
        Field { name: "car", column: 2, how: Extract::Text },
        Field { name: "time", column: 3, how: Extract::Text },
    ]
}

impl FastestLapSummaryEntry {
    /// The row's fields, in layout order.
    pub open spec fn fields(&self) -> Seq<Seq<char>> {
        seq![self.grand_prix@, self.driver@, self.car@, self.time@]
    }

    /// How a fastest lap row is read.
    pub fn layout() -> (r: Vec<Field>)
        ensures
            r@ == fastest_lap_summary_layout(),
            layout_fits(r@, FASTEST_LAP_SUMMARY_ARITY as nat),
    {
        let r = vec![
            Field { name: "grand_prix", column: 0, how: Extract::Text },
            Field { name: "driver", column: 1, how: Extract::Spans },
            Field { name: "car", column: 2, how: Extract::Text },
            Field { name: "time", column: 3, how: Extract::Text },
        ];
        assert(r@ =~= fastest_lap_summary_layout());
        r
    }

    /// The entry whose fields are `v`, in layout order.
    pub fn from_values(v: &Vec<String>) -> (r: FastestLapSummaryEntry)
        requires
            v@.len() == 4,
        ensures
            r.fields() == texts(v@),
    {
        let r = FastestLapSummaryEntry {
            grand_prix: v[0].clone(),
            driver: v[1].clone(),
            car: v[2].clone(),
            time: v[3].clone(),
        };
        assert(r.fields() =~= texts(v@));
        r
    }
}

/// A season's fastest laps: one entry per race.
#[derive(Default, Debug, Clone, PartialEq, Eq)]
pub struct FastestLapSummary {
    pub year: u16,
    pub data: Vec<FastestLapSummaryEntry>,
}

impl FastestLapSummary {
    /// The records of the rows of `table`; the first row that does not decode
    /// fails the whole table.
    pub fn from_table(table: &RawTable, year: u16) -> (r: Result<FastestLapSummary, ParseError>)
        ensures
            match decode_rows_spec(row_cells(*table), FASTEST_LAP_SUMMARY_ARITY as nat, fastest_lap_summary_layout()) {
                Ok(vals) => r is Ok && r->Ok_0.year == year && r->Ok_0.data@.len()
                    == vals.len() && forall|i: int|
                    0 <= i < vals.len() ==> (#[trigger] r->Ok_0.data@[i]).fields() == vals[i],
                Err(e) => r == Err::<FastestLapSummary, ParseError>(e),
            },
    {
        let layout = FastestLapSummaryEntry::layout();
        let rows = decode_rows(table, FASTEST_LAP_SUMMARY_ARITY, &layout)?;
        proof {
            lemma_decoded_rows_length(row_cells(*table), FASTEST_LAP_SUMMARY_ARITY as nat, layout@);
            assert forall|k: int| 0 <= k < rows@.len() implies (#[trigger] rows@[k]@).len() == 4 by {
                assert(texts(rows@[k]@).len() == rows@[k]@.len());
            }
        }
        let mut data: Vec<FastestLapSummaryEntry> = Vec::new();
        let mut i: usize = 0;
        while i < rows.len()
            invariant
                i <= rows@.len(),
                data@.len() == i,
                forall|k: int| 0 <= k < rows@.len() ==> (#[trigger] rows@[k]@).len() == 4,
                forall|k: int| 0 <= k < i ==> (#[trigger] data@[k]).fields() == texts(rows@[k]@),
            decreases rows@.len() - i,
        {
            data.push(FastestLapSummaryEntry::from_values(&rows[i]));
            i = i + 1;
        }
        Ok(FastestLapSummary { year, data })
    }

    /// Reads the fastest lap table of a page.
    pub fn parse(html: &str, year: u16) -> (r: Result<FastestLapSummary, ParseError>)
        ensures
            match page_rows(html@, FASTEST_LAP_SUMMARY_TABLE@, FASTEST_LAP_SUMMARY_ARITY as nat, fastest_lap_summary_layout()) {
                Ok(vals) => r is Ok && r->Ok_0.year == year && r->Ok_0.data@.len()
                    == vals.len() && forall|i: int|
                    0 <= i < vals.len() ==> (#[trigger] r->Ok_0.data@[i]).fields() == vals[i],
                Err(e) => r == Err::<FastestLapSummary, ParseError>(e),
            },
    {
        match locate(html, FASTEST_LAP_SUMMARY_TABLE) {
            Ok(table) => FastestLapSummary::from_table(&table, year),
            Err(e) => Err(ParseError::Extract(e)),
        }
    }
}

} // verus!
