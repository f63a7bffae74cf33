//! Drivers: the season's driver standings, each driver's result table, and
//! the driver identity that links the two.
use vstd::prelude::*;
use crate::resolve::{
    identity_pieces, join_slash, lemma_split_join, slash_free, take_identity_pieces, ResolveError,
};
use crate::decode::{page_rows, decode_rows, lemma_decoded_rows_length, decode_rows_spec, layout_fits, row_cells, Extract, Field, ParseError};
use crate::html::{locate, RawTable};
use crate::text::{texts, strip_html, strip_html_suffix};

verus! {

/// The identity of a driver, as a standings row links to it.
#[derive(Default, Debug, Clone, PartialEq, Eq)]
pub struct DriverFragment {
    /// The driver's id in the archive.
    pub id: String,
    /// The driver's slug in the archive's links.
    pub name: String,
    /// The label that the standings row shows.
    pub display_name: String,
}

impl DriverFragment {
    pub fn new(id: String, name: String, display_name: String) -> (r: DriverFragment)
        ensures
            r.id@ == id@,
            r.name@ == name@,
            r.display_name@ == display_name@,
    {
        DriverFragment { id, name, display_name }
    }

    /// A copy of this driver.
    pub fn cloned(&self) -> (r: DriverFragment)
        ensures
            r == *self,
    {
        DriverFragment {
            id: self.id.clone(),
            name: self.name.clone(),
            display_name: self.display_name.clone(),
        }
    }
}

/// The driver that a driver link names, or why it names none: the first
/// identity piece is the id, the second the slug with its extension.
pub open spec fn driver_of(href: Seq<char>) -> Result<(Seq<char>, Seq<char>), ResolveError> {
    let p = identity_pieces(href, 2);
    if p.len() != 2 {
        Err(ResolveError::MalformedUrl)
    } else {
        Ok((p[0], strip_html(p[1])))
    }
}

/// One row of a season's driver standings.
#[derive(Default, Debug, Clone, PartialEq, Eq)]
pub struct DriverSummaryEntry {
    pub pos: String,
    /// The link of the driver cell, to the driver's result page.
    pub url: String,
    pub driver: String,
    pub nationality: String,
    pub car: String,
    pub pts: String,
}

impl DriverSummaryEntry {
    /// The driver that this row links to, labelled with the driver's name.
    pub fn driver(&self) -> (r: Result<DriverFragment, ResolveError>)
        ensures
            match driver_of(self.url@) {
                Ok((id, slug)) => r is Ok && r->Ok_0.id@ == id && r->Ok_0.name@ == slug
                    && r->Ok_0.display_name@ == self.driver@,
                Err(e) => r == Err::<DriverFragment, ResolveError>(e),
            },
    {
        let pieces = take_identity_pieces(self.url.as_str(), 2);
        if pieces.len() != 2 {
            return Err(ResolveError::MalformedUrl);
        }
        let name = strip_html_suffix(pieces[1].as_str());
        Ok(DriverFragment::new(pieces[0].clone(), name, self.driver.clone()))
    }
}

/// A link whose pieces after the fifth are a driver id and a slug resolves to
/// that id and the slug without its extension.
pub proof fn lemma_driver_link(pieces: Seq<Seq<char>>)
    requires
        pieces.len() >= 7,
        forall|i: int| 0 <= i < pieces.len() ==> slash_free(#[trigger] pieces[i]),
    ensures
        driver_of(join_slash(pieces)) == Ok::<(Seq<char>, Seq<char>), ResolveError>(
            (pieces[5], strip_html(pieces[6])),
        ),
{
    lemma_split_join(pieces);
}

/// A link with fewer than seven pieces names no driver.
pub proof fn lemma_driver_link_too_short(pieces: Seq<Seq<char>>)
    requires
        1 <= pieces.len() < 7,
        forall|i: int| 0 <= i < pieces.len() ==> slash_free(#[trigger] pieces[i]),
    ensures
        driver_of(join_slash(pieces)) == Err::<(Seq<char>, Seq<char>), ResolveError>(
            ResolveError::MalformedUrl,
        ),
{
    lemma_split_join(pieces);
}

/// Where a driver's result table stands in its page.
pub const DRIVER_RESULT_TABLE: &'static str =
    "div.resultsarchive-wrapper>div.resultsarchive-content>div.table-wrap>table.resultsarchive-table";

/// The number of data cells of a driver result row.
pub const DRIVER_RESULT_ARITY: usize = 5;

/// One race of a driver's season.
#[derive(Default, Debug, Clone, PartialEq, Eq)]
pub struct DriverResultEntry {
    pub grand_prix: String,
    pub date: String,
    pub car: String,
    pub pos: String,
    pub pts: String,
}

/// How a driver result row is read.
pub open spec fn driver_result_layout() -> Seq<Field> {
    seq![
        Field { name: "grand_prix", column: 0, how: Extract::LinkText },
        Field { name: "date", column: 1, how: Extract::Text },
        Field { name: "car", column: 2, how: Extract::LinkText },
        Field { name: "pos", column: 3, how: Extract::Text },
        Field { name: "pts", column: 4, how: Extract::Text },
    ]
}

impl DriverResultEntry {
    /// The row's fields, in layout order.
    pub open spec fn fields(&self) -> Seq<Seq<char>> {
        seq![self.grand_prix@, self.date@, self.car@, self.pos@, self.pts@]
    }

    /// How a driver result row is read.
    pub fn layout() -> (r: Vec<Field>)
        ensures
            r@ == driver_result_layout(),
            layout_fits(r@, DRIVER_RESULT_ARITY as nat),
    {
        let r = vec![
            Field { name: "grand_prix", column: 0, how: Extract::LinkText },
            Field { name: "date", column: 1, how: Extract::Text },
            Field { name: "car", column: 2, how: Extract::LinkText },
            Field { name: "pos", column: 3, how: Extract::Text },
            Field { name: "pts", column: 4, how: Extract::Text },
        ];
        assert(r@ =~= driver_result_layout());
        r
    }

    /// The entry whose fields are `v`, in layout order.
    pub fn from_values(v: &Vec<String>) -> (r: DriverResultEntry)
        requires
            v@.len() == 5,
        ensures
            r.fields() == texts(v@),
    {
        let r = DriverResultEntry {
            grand_prix: v[0].clone(),
            date: v[1].clone(),
            car: v[2].clone(),
            pos: v[3].clone(),
            pts: v[4].clone(),
        };
        assert(r.fields() =~= texts(v@));
        r
    }
}

/// A driver's season results, with the driver they were read for.
#[derive(Default, Debug, Clone, PartialEq, Eq)]
pub struct DriverResult {
    pub year: u16,
    pub driver: DriverFragment,
    pub data: Vec<DriverResultEntry>,
}

impl DriverResult {
    /// The records of the rows of `table`; the first row that does not decode
    /// fails the whole table.
    pub fn from_table(table: &RawTable, year: u16, driver: &DriverFragment) -> (r: Result<DriverResult, ParseError>)
        ensures
            match decode_rows_spec(row_cells(*table), DRIVER_RESULT_ARITY as nat, driver_result_layout()) {
                Ok(vals) => r is Ok && r->Ok_0.year == year && r->Ok_0.driver == *driver && r->Ok_0.data@.len()
                    == vals.len() && forall|i: int|
                    0 <= i < vals.len() ==> (#[trigger] r->Ok_0.data@[i]).fields() == vals[i],
                Err(e) => r == Err::<DriverResult, ParseError>(e),
            },
    {
        let layout = DriverResultEntry::layout();
        let rows = decode_rows(table, DRIVER_RESULT_ARITY, &layout)?;
        proof {
            lemma_decoded_rows_length(row_cells(*table), DRIVER_RESULT_ARITY as nat, layout@);
            assert forall|k: int| 0 <= k < rows@.len() implies (#[trigger] rows@[k]@).len() == 5 by {
                assert(texts(rows@[k]@).len() == rows@[k]@.len());
            }
        }
        let mut data: Vec<DriverResultEntry> = Vec::new();
        let mut i: usize = 0;
        while i < rows.len()
            invariant
                i <= rows@.len(),
                data@.len() == i,
                forall|k: int| 0 <= k < rows@.len() ==> (#[trigger] rows@[k]@).len() == 5,
                forall|k: int| 0 <= k < i ==> (#[trigger] data@[k]).fields() == texts(rows@[k]@),
            decreases rows@.len() - i,
        {
            data.push(DriverResultEntry::from_values(&rows[i]));
            i = i + 1;
        }
        Ok(DriverResult { year, driver: driver.cloned(), data })
    }

    /// Reads the driver result table of a page.
    pub fn parse(html: &str, year: u16, driver: &DriverFragment) -> (r: Result<DriverResult, ParseError>)
        ensures
            match page_rows(html@, DRIVER_RESULT_TABLE@, DRIVER_RESULT_ARITY as nat, driver_result_layout()) {
                Ok(vals) => r is Ok && r->Ok_0.year == year && r->Ok_0.driver == *driver && r->Ok_0.data@.len()
                    == vals.len() && forall|i: int|
                    0 <= i < vals.len() ==> (#[trigger] r->Ok_0.data@[i]).fields() == vals[i],
                Err(e) => r == Err::<DriverResult, ParseError>(e),
            },
    {
        match locate(html, DRIVER_RESULT_TABLE) {
            Ok(table) => DriverResult::from_table(&table, year, driver),
            Err(e) => Err(ParseError::Extract(e)),
        }
    }
}

/// Where the driver standings table stands in its page.
pub const DRIVER_SUMMARY_TABLE: &'static str =
    "div.resultsarchive-wrapper>div.resultsarchive-content>div.table-wrap>table.resultsarchive-table";

/// The number of data cells of a driver standings row.
pub const DRIVER_SUMMARY_ARITY: usize = 5;

/// How a driver standings row is read.
pub open spec fn driver_summary_layout() -> Seq<Field> {
    seq![
        Field { name: "pos", column: 0, how: Extract::Text },
        Field { name: "url", column: 1, how: Extract::Href },
        Field { name: "driver", column: 1, how: Extract::Spans },
        Field { name: "nationality", column: 2, how: Extract::Text },
        Field { name: "car", column: 3, how: Extract::LinkText },
        Field { name: "pts", column: 4, how: Extract::Text },
    ]
}

impl DriverSummaryEntry {
    /// The row's fields, in layout order.
    pub open spec fn fields(&self) -> Seq<Seq<char>> {
        seq![self.pos@, self.url@, self.driver@, self.nationality@, self.car@, self.pts@]
    }

    /// How a driver standings row is read.
    pub fn layout() -> (r: Vec<Field>)
        ensures
            r@ == driver_summary_layout(),
            layout_fits(r@, DRIVER_SUMMARY_ARITY as nat),
    {
        let r = vec![
            Field { name: "pos", column: 0, how: Extract::Text },
            Field { name: "url", column: 1, how: Extract::Href },
            Field { name: "driver", column: 1, how: Extract::Spans },
            Field { name: "nationality", column: 2, how: Extract::Text },
            Field { name: "car", column: 3, how: Extract::LinkText },
            Field { name: "pts", column: 4, how: Extract::Text },
        ];
        assert(r@ =~= driver_summary_layout());
        r
    }

    /// The entry whose fields are `v`, in layout order.
    pub fn from_values(v: &Vec<String>) -> (r: DriverSummaryEntry)
        requires
            v@.len() == 6,
        ensures
            r.fields() == texts(v@),
    {
        let r = DriverSummaryEntry {
            pos: v[0].clone(),
            url: v[1].clone(),
            driver: v[2].clone(),
            nationality: v[3].clone(),
            car: v[4].clone(),
            pts: v[5].clone(),
        };
        assert(r.fields() =~= texts(v@));
        r
    }
}

/// A season's driver standings: one entry per driver.
#[derive(Default, Debug, Clone, PartialEq, Eq)]
pub struct DriverSummary {
    pub year: u16,
    pub data: Vec<DriverSummaryEntry>,
}

impl DriverSummary {
    /// The records of the rows of `table`; the first row that does not decode
    /// fails the whole table.
    pub fn from_table(table: &RawTable, year: u16) -> (r: Result<DriverSummary, ParseError>)
        ensures
            match decode_rows_spec(row_cells(*table), DRIVER_SUMMARY_ARITY as nat, driver_summary_layout()) {
                Ok(vals) => r is Ok && r->Ok_0.year == year && r->Ok_0.data@.len()
                    == vals.len() && forall|i: int|
                    0 <= i < vals.len() ==> (#[trigger] r->Ok_0.data@[i]).fields() == vals[i],
                Err(e) => r == Err::<DriverSummary, ParseError>(e),
            },
    {
        let layout = DriverSummaryEntry::layout();
        let rows = decode_rows(table, DRIVER_SUMMARY_ARITY, &layout)?;
        proof {
            lemma_decoded_rows_length(row_cells(*table), DRIVER_SUMMARY_ARITY as nat, layout@);
            assert forall|k: int| 0 <= k < rows@.len() implies (#[trigger] rows@[k]@).len() == 6 by {
                assert(texts(rows@[k]@).len() == rows@[k]@.len());
            }
        }
        let mut data: Vec<DriverSummaryEntry> = Vec::new();
        let mut i: usize = 0;
        while i < rows.len()
            invariant
                i <= rows@.len(),
                data@.len() == i,
                forall|k: int| 0 <= k < rows@.len() ==> (#[trigger] rows@[k]@).len() == 6,
                forall|k: int| 0 <= k < i ==> (#[trigger] data@[k]).fields() == texts(rows@[k]@),
            decreases rows@.len() - i,
        {
            data.push(DriverSummaryEntry::from_values(&rows[i]));
            i = i + 1;
        }
        Ok(DriverSummary { year, data })
    }

    /// Reads the driver standings table of a page.
    pub fn parse(html: &str, year: u16) -> (r: Result<DriverSummary, ParseError>)
        ensures
            match page_rows(html@, DRIVER_SUMMARY_TABLE@, DRIVER_SUMMARY_ARITY as nat, driver_summary_layout()) {
                Ok(vals) => r is Ok && r->Ok_0.year == year && r->Ok_0.data@.len()
                    == vals.len() && forall|i: int|
                    0 <= i < vals.len() ==> (#[trigger] r->Ok_0.data@[i]).fields() == vals[i],
                Err(e) => r == Err::<DriverSummary, ParseError>(e),
            },
    {
        match locate(html, DRIVER_SUMMARY_TABLE) {
            Ok(table) => DriverSummary::from_table(&table, year),
            Err(e) => Err(ParseError::Extract(e)),
        }
    }
}

} // verus!
