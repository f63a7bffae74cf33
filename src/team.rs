//! Teams: the season's constructor standings, each team's result table, and
//! the team identity that links the two.
use vstd::prelude::*;
use crate::resolve::{
    identity_pieces, join_slash, lemma_split_join, slash_free, take_identity_pieces, ResolveError,
};
use crate::decode::{page_rows, decode_rows, lemma_decoded_rows_length, decode_rows_spec, layout_fits, row_cells, Extract, Field, ParseError};
use crate::html::{locate, RawTable};
use crate::text::{texts, strip_html, strip_html_suffix};

verus! {

/// The identity of a team, as a standings row links to it.
#[derive(Default, Debug, Clone, PartialEq, Eq)]
pub struct Team {
    /// The team's slug in the archive's links.
    pub name: String,
    /// The label that the standings row shows.
    pub display_name: String,
}

impl Team {
    pub fn new(name: String, display_name: String) -> (r: Team)
        ensures
            r.name@ == name@,
            r.display_name@ == display_name@,
    {
        Team { name, display_name }
    }

    /// A copy of this team.
    pub fn cloned(&self) -> (r: Team)
        ensures
            r == *self,
    {
        Team { name: self.name.clone(), display_name: self.display_name.clone() }
    }
}

/// The team that a team link names, or why it names none: the one identity
/// piece is the slug with its extension.
pub open spec fn team_of(href: Seq<char>) -> Result<Seq<char>, ResolveError> {
    let p = identity_pieces(href, 1);
    if p.len() != 1 {
        Err(ResolveError::MalformedUrl)
    } else {
        Ok(strip_html(p[0]))
    }
}

/// One row of a season's constructor standings.
#[derive(Default, Debug, Clone, PartialEq, Eq)]
pub struct TeamSummaryEntry {
    pub pos: String,
    /// The link of the team cell, to the team's result page.
    pub url: String,
    pub team: String,
    pub pts: String,
}

impl TeamSummaryEntry {
    /// The team that this row links to, labelled with the team's name.
    pub fn team(&self) -> (r: Result<Team, ResolveError>)
        ensures
            match team_of(self.url@) {
                Ok(slug) => r is Ok && r->Ok_0.name@ == slug && r->Ok_0.display_name@
                    == self.team@,
                Err(e) => r == Err::<Team, ResolveError>(e),
            },
    {
        let pieces = take_identity_pieces(self.url.as_str(), 1);
        if pieces.len() != 1 {
            return Err(ResolveError::MalformedUrl);
        }
        let name = strip_html_suffix(pieces[0].as_str());
        Ok(Team::new(name, self.team.clone()))
    }
}

/// A link whose sixth piece is a team page resolves to the page's name without
/// its extension.
pub proof fn lemma_team_link(pieces: Seq<Seq<char>>)
    requires
        pieces.len() >= 6,
        forall|i: int| 0 <= i < pieces.len() ==> slash_free(#[trigger] pieces[i]),
    ensures
        team_of(join_slash(pieces)) == Ok::<Seq<char>, ResolveError>(strip_html(pieces[5])),
{
    lemma_split_join(pieces);
}

/// A link with fewer than six pieces names no team.
pub proof fn lemma_team_link_too_short(pieces: Seq<Seq<char>>)
    requires
        1 <= pieces.len() < 6,
        forall|i: int| 0 <= i < pieces.len() ==> slash_free(#[trigger] pieces[i]),
    ensures
        team_of(join_slash(pieces)) == Err::<Seq<char>, ResolveError>(ResolveError::MalformedUrl),
{
    lemma_split_join(pieces);
}

/// Where a team's result table stands in its page.
pub const TEAM_RESULT_TABLE: &'static str =
    "div.resultsarchive-wrapper>div.resultsarchive-content>div.table-wrap>table.resultsarchive-table";

/// The number of data cells of a team result row.
pub const TEAM_RESULT_ARITY: usize = 3;

/// One race of a team's season.
#[derive(Default, Debug, Clone, PartialEq, Eq)]
pub struct TeamResultEntry {
    pub grand_prix: String,
    pub date: String,
    pub pts: String,
}

/// How a team result row is read.
pub open spec fn team_result_layout() -> Seq<Field> {
    seq![
        Field { name: "grand_prix", column: 0, how: Extract::LinkText },
        Field { name: "date", column: 1, how: Extract::Text },
        Field { name: "pts", column: 2, how: Extract::Text },
    ]
}

impl TeamResultEntry {
    /// The row's fields, in layout order.
    pub open spec fn fields(&self) -> Seq<Seq<char>> {
        seq![self.grand_prix@, self.date@, self.pts@]
    }

    /// How a team result row is read.
    pub fn layout() -> (r: Vec<Field>)
        ensures
            r@ == team_result_layout(),
            layout_fits(r@, TEAM_RESULT_ARITY as nat),
    {
        let r = vec![
            Field { name: "grand_prix", column: 0, how: Extract::LinkText },
            Field { name: "date", column: 1, how: Extract::Text },
            Field { name: "pts", column: 2, how: Extract::Text },
        ];
        assert(r@ =~= team_result_layout());
        r
    }

    /// The entry whose fields are `v`, in layout order.
    pub fn from_values(v: &Vec<String>) -> (r: TeamResultEntry)
        requires
            v@.len() == 3,
        ensures
            r.fields() == texts(v@),
    {
        let r = TeamResultEntry {
            grand_prix: v[0].clone(),
            date: v[1].clone(),
            pts: v[2].clone(),
        };
        assert(r.fields() =~= texts(v@));
        r
    }
}

/// A team's season results, with the team they were read for.
#[derive(Default, Debug, Clone, PartialEq, Eq)]
pub struct TeamResult {
    pub year: u16,
    pub team: Team,
    pub data: Vec<TeamResultEntry>,
}

impl TeamResult {
    /// The records of the rows of `table`; the first row that does not decode
    /// fails the whole table.
    pub fn from_table(table: &RawTable, year: u16, team: &Team) -> (r: Result<TeamResult, ParseError>)
        ensures
            match decode_rows_spec(row_cells(*table), TEAM_RESULT_ARITY as nat, team_result_layout()) {
                Ok(vals) => r is Ok && r->Ok_0.year == year && r->Ok_0.team == *team && r->Ok_0.data@.len()
                    == vals.len() && forall|i: int|
                    0 <= i < vals.len() ==> (#[trigger] r->Ok_0.data@[i]).fields() == vals[i],
                Err(e) => r == Err::<TeamResult, ParseError>(e),
            },
    {
        let layout = TeamResultEntry::layout();
        let rows = decode_rows(table, TEAM_RESULT_ARITY, &layout)?;
        proof {
            lemma_decoded_rows_length(row_cells(*table), TEAM_RESULT_ARITY as nat, layout@);
            assert forall|k: int| 0 <= k < rows@.len() implies (#[trigger] rows@[k]@).len() == 3 by {
                assert(texts(rows@[k]@).len() == rows@[k]@.len());
            }
        }
        let mut data: Vec<TeamResultEntry> = Vec::new();
        let mut i: usize = 0;
        while i < rows.len()
            invariant
                i <= rows@.len(),
                data@.len() == i,
                forall|k: int| 0 <= k < rows@.len() ==> (#[trigger] rows@[k]@).len() == 3,
                forall|k: int| 0 <= k < i ==> (#[trigger] data@[k]).fields() == texts(rows@[k]@),
            decreases rows@.len() - i,
        {
            data.push(TeamResultEntry::from_values(&rows[i]));
            i = i + 1;
        }
        Ok(TeamResult { year, team: team.cloned(), data })
    }

    /// Reads the team result table of a page.
    pub fn parse(html: &str, year: u16, team: &Team) -> (r: Result<TeamResult, ParseError>)
        ensures
            match page_rows(html@, TEAM_RESULT_TABLE@, TEAM_RESULT_ARITY as nat, team_result_layout()) {
                Ok(vals) => r is Ok && r->Ok_0.year == year && r->Ok_0.team == *team && r->Ok_0.data@.len()
                    == vals.len() && forall|i: int|
                    0 <= i < vals.len() ==> (#[trigger] r->Ok_0.data@[i]).fields() == vals[i],
                Err(e) => r == Err::<TeamResult, ParseError>(e),
            },
    {
        match locate(html, TEAM_RESULT_TABLE) {
            Ok(table) => TeamResult::from_table(&table, year, team),
            Err(e) => Err(ParseError::Extract(e)),
        }
    }
}

/// Where the constructor standings table stands in its page.
pub const TEAM_SUMMARY_TABLE: &'static str =
    "div.resultsarchive-content>div.table-wrap>table.resultsarchive-table";

/// The number of data cells of a constructor standings row.
pub const TEAM_SUMMARY_ARITY: usize = 3;

/// How a constructor standings row is read.
pub open spec fn team_summary_layout() -> Seq<Field> {
    seq![
        Field { name: "pos", column: 0, how: Extract::Text },
        Field { name: "url", column: 1, how: Extract::Href },
        Field { name: "team", column: 1, how: Extract::LinkText },
        Field { name: "pts", column: 2, how: Extract::Text },
    ]
}

impl TeamSummaryEntry {
    /// The row's fields, in layout order.
    pub open spec fn fields(&self) -> Seq<Seq<char>> {
        seq![self.pos@, self.url@, self.team@, self.pts@]
    }

    /// How a constructor standings row is read.
    pub fn layout() -> (r: Vec<Field>)
        ensures
            r@ == team_summary_layout(),
            layout_fits(r@, TEAM_SUMMARY_ARITY as nat),
    {
        let r = vec![
            Field { name: "pos", column: 0, how: Extract::Text },
            Field { name: "url", column: 1, how: Extract::Href },
            Field { name: "team", column: 1, how: Extract::LinkText },
            Field { name: "pts", column: 2, how: Extract::Text },
        ];
        assert(r@ =~= team_summary_layout());
        r
    }

    /// The entry whose fields are `v`, in layout order.
    pub fn from_values(v: &Vec<String>) -> (r: TeamSummaryEntry)
        requires
            v@.len() == 4,
        ensures
            r.fields() == texts(v@),
    {
        let r = TeamSummaryEntry {
            pos: v[0].clone(),
            url: v[1].clone(),
            team: v[2].clone(),
            pts: v[3].clone(),
        };
        assert(r.fields() =~= texts(v@));
        r
    }
}

/// A season's constructor standings: one entry per team.
#[derive(Default, Debug, Clone, PartialEq, Eq)]
pub struct TeamSummary {
    pub year: u16,
    pub data: Vec<TeamSummaryEntry>,
}

impl TeamSummary {
    /// The records of the rows of `table`; the first row that does not decode
    /// fails the whole table.
    pub fn from_table(table: &RawTable, year: u16) -> (r: Result<TeamSummary, ParseError>)
        ensures
            match decode_rows_spec(row_cells(*table), TEAM_SUMMARY_ARITY as nat, team_summary_layout()) {
                Ok(vals) => r is Ok && r->Ok_0.year == year && r->Ok_0.data@.len()
                    == vals.len() && forall|i: int|
                    0 <= i < vals.len() ==> (#[trigger] r->Ok_0.data@[i]).fields() == vals[i],
                Err(e) => r == Err::<TeamSummary, ParseError>(e),
            },
    {
        let layout = TeamSummaryEntry::layout();
        let rows = decode_rows(table, TEAM_SUMMARY_ARITY, &layout)?;
        proof {
            lemma_decoded_rows_length(row_cells(*table), TEAM_SUMMARY_ARITY as nat, layout@);
            assert forall|k: int| 0 <= k < rows@.len() implies (#[trigger] rows@[k]@).len() == 4 by {
                assert(texts(rows@[k]@).len() == rows@[k]@.len());
            }
        }
        let mut data: Vec<TeamSummaryEntry> = Vec::new();
        let mut i: usize = 0;
        while i < rows.len()
            invariant
                i <= rows@.len(),
                data@.len() == i,
                forall|k: int| 0 <= k < rows@.len() ==> (#[trigger] rows@[k]@).len() == 4,
                forall|k: int| 0 <= k < i ==> (#[trigger] data@[k]).fields() == texts(rows@[k]@),
            decreases rows@.len() - i,
        {
            data.push(TeamSummaryEntry::from_values(&rows[i]));
            i = i + 1;
        }
        Ok(TeamSummary { year, data })
    }

    /// Reads the constructor standings table of a page.
    pub fn parse(html: &str, year: u16) -> (r: Result<TeamSummary, ParseError>)
        ensures
            match page_rows(html@, TEAM_SUMMARY_TABLE@, TEAM_SUMMARY_ARITY as nat, team_summary_layout()) {
                Ok(vals) => r is Ok && r->Ok_0.year == year && r->Ok_0.data@.len()
                    == vals.len() && forall|i: int|
                    0 <= i < vals.len() ==> (#[trigger] r->Ok_0.data@[i]).fields() == vals[i],
                Err(e) => r == Err::<TeamSummary, ParseError>(e),
            },
    {
        match locate(html, TEAM_SUMMARY_TABLE) {
            Ok(table) => TeamSummary::from_table(&table, year),
            Err(e) => Err(ParseError::Extract(e)),
        }
    }
}

} // verus!
