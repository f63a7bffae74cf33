//! The orchestration of a detail scrape over a range of seasons, as a state
//! machine: for each season the summary page is fetched and indexed, the
//! entities are selected by an optional name, and each one's detail page is
//! fetched and parsed in turn. The caller performs each fetch that the run
//! asks for and hands the page text back.
use vstd::prelude::*;
use crate::decode::{page_rows, ParseError};
use crate::driver::{
    driver_of, driver_result_layout, driver_summary_layout, DriverResult, DriverResultEntry,
    DriverSummary, DRIVER_RESULT_ARITY, DRIVER_RESULT_TABLE, DRIVER_SUMMARY_ARITY,
    DRIVER_SUMMARY_TABLE,
};
use crate::index::{
    index_drivers, index_races, index_teams, key_of, selection, EntityFragment, IndexError,
    NameIndex,
};
use crate::race::{
    circuit_of, race_result_layout, race_summary_layout, RaceResult, RaceResultEntry, RaceSummary,
    RACE_RESULT_ARITY, RACE_RESULT_TABLE, RACE_SUMMARY_ARITY, RACE_SUMMARY_TABLE,
};
use crate::resolve::ResolveError;
use crate::text::{lowercase, trim};
use crate::scrape::{
    driver_summary_address, race_summary_address, team_summary_address, url_parses,
    DriverResultSummaryTarget, PageTarget, RaceResultSummaryTarget, TeamResultSummaryTarget,
    UrlError,
};
use crate::team::{
    team_of, team_result_layout, team_summary_layout, TeamResult, TeamResultEntry, TeamSummary,
    TEAM_RESULT_ARITY, TEAM_RESULT_TABLE, TEAM_SUMMARY_ARITY, TEAM_SUMMARY_TABLE,
};

verus! {

/// The seasons that a command asks for: one season, or an inclusive range.
#[derive(Debug, Clone, Copy, PartialEq, Eq)]
pub struct YearFlags {
    /// The one season to scrape; it takes precedence over the range.
    pub year: Option<u16>,
    pub year_min: u16,
    pub year_max: u16,
}

impl YearFlags {
    /// The first and last season to scrape.
    pub fn min_max(&self) -> (r: (u16, u16))
        ensures
            r == match self.year {
                Some(y) => (y, y),
                None => (self.year_min, self.year_max),
            },
    {
        match self.year {
            Some(year) => (year, year),
            None => (self.year_min, self.year_max),
        }
    }
}

/// The kind of entity whose detail pages a run scrapes.
#[derive(Debug, Clone, Copy, PartialEq, Eq, Structural)]
pub enum EntityKind {
    Race,
    Driver,
    Team,
}

/// The address of a season's summary page of a kind.
pub open spec fn summary_address(kind: EntityKind, year: u16) -> Seq<char> {
    match kind {
        EntityKind::Race => race_summary_address(year),
        EntityKind::Driver => driver_summary_address(year),
        EntityKind::Team => team_summary_address(year),
    }
}

/// The target of a season's summary page of a kind.
pub fn summary_target(kind: EntityKind, year: u16) -> (r: Result<PageTarget, UrlError>)
    ensures
        r is Ok <==> url_parses(summary_address(kind, year)),
        r is Ok ==> r->Ok_0.address_view() == summary_address(kind, year),
{
    match kind {
        EntityKind::Race => Ok(RaceResultSummaryTarget::new(year)?.page),
        EntityKind::Driver => Ok(DriverResultSummaryTarget::new(year)?.page),
        EntityKind::Team => Ok(TeamResultSummaryTarget::new(year)?.page),
    }
}

/// Why a run stopped.
#[derive(Debug, Clone, PartialEq, Eq)]
pub enum ScrapeError {
    /// A page's target was not built.
    Url { year: u16, error: UrlError },
    /// A fetched page did not parse.
    Parse { year: u16, error: ParseError },
    /// A summary row links to no entity.
    Index { year: u16, error: IndexError },
    /// No entity of the season is known by the name asked for.
    EntityNotFound { year: u16, name: String },
}

/// A detail page's records.
#[derive(Debug, Clone, PartialEq, Eq)]
pub enum DetailRecord {
    Race(RaceResult),
    Driver(DriverResult),
    Team(TeamResult),
}

/// Whether `rec` holds a season's records of the entity `e`.
pub open spec fn is_record_of(rec: DetailRecord, e: EntityFragment, year: u16) -> bool {
    match (rec, e) {
        (DetailRecord::Race(r), EntityFragment::Circuit(c)) => r.year == year && r.circuit == c,
        (DetailRecord::Driver(r), EntityFragment::Driver(d)) => r.year == year && r.driver == d,
        (DetailRecord::Team(r), EntityFragment::Team(t)) => r.year == year && r.team == t,
        _ => false,
    }
}

/// What a run asks its caller to do next.
#[derive(Debug)]
pub enum Action {
    /// Fetch a season's summary page and hand its text to `summary_fetched`.
    FetchSummary { year: u16, page: PageTarget },
    /// Fetch an entity's detail page and hand its text to `detail_fetched`.
    FetchDetail { year: u16, entity: EntityFragment, page: PageTarget },
    /// The run is over.
    Done,
}

/// Where a run stands.
#[derive(Debug, Clone, Copy, PartialEq, Eq, Structural)]
pub enum Phase {
    /// The current season's summary page is due.
    Summary,
    /// The detail page of the entity at `next` is due.
    Details,
    /// Every season is done.
    Done,
}

/// A detail scrape over a range of seasons.
#[derive(Debug)]
pub struct ResultRun {
    pub kind: EntityKind,
    /// The season in progress.
    pub year: u16,
    /// The last season of the range.
    pub last: u16,
    /// The name that selects one entity per season, if any.
    pub filter: Option<String>,
    /// The entities selected in the season in progress.
    pub queue: Vec<EntityFragment>,
    /// The position in `queue` of the entity whose detail page is due.
    pub next: usize,
    pub phase: Phase,
}

/// The text of an optional name.
pub open spec fn filter_view(filter: Option<String>) -> Option<Seq<char>> {
    match filter {
        Some(n) => Some(n@),
        None => None,
    }
}

impl ResultRun {
    pub open spec fn wf(&self) -> bool {
        &&& self.next <= self.queue@.len()
        &&& self.phase == Phase::Details ==> self.next < self.queue@.len()
        &&& self.phase != Phase::Done ==> self.year <= self.last
    }

    /// A run over the seasons `first` to `last`, inclusive.
    pub fn new(kind: EntityKind, first: u16, last: u16, filter: Option<String>) -> (r: ResultRun)
        ensures
            r.wf(),
            r.kind == kind,
            r.year == first,
            r.last == last,
            r.filter == filter,
            r.queue@.len() == 0,
            r.next == 0,
            r.phase == if first <= last {
                Phase::Summary
            } else {
                Phase::Done
            },
    {
        let phase = if first <= last {
            Phase::Summary
        } else {
            Phase::Done
        };
        ResultRun { kind, year: first, last, filter, queue: Vec::new(), next: 0, phase }
    }

    /// What the caller is to do next.
    pub fn action(&self) -> (r: Result<Action, ScrapeError>)
        requires
            self.wf(),
        ensures
            self.phase == Phase::Done ==> r matches Ok(Action::Done),
            self.phase == Phase::Summary ==> {
                &&& r is Ok <==> url_parses(summary_address(self.kind, self.year))
                &&& r is Ok ==> r->Ok_0 is FetchSummary && r->Ok_0->FetchSummary_year == self.year
                    && r->Ok_0->FetchSummary_page.address_view() == summary_address(
                    self.kind,
                    self.year,
                )
            },
            self.phase == Phase::Details ==> {
                let e = self.queue@[self.next as int];
                &&& r is Ok <==> url_parses(e.detail_address(self.year))
                &&& r is Ok ==> r->Ok_0 is FetchDetail && r->Ok_0->FetchDetail_year == self.year
                    && r->Ok_0->FetchDetail_entity == e
                    && r->Ok_0->FetchDetail_page.address_view() == e.detail_address(self.year)
            },
            r is Err ==> r->Err_0 is Url && r->Err_0->Url_year == self.year,
    {
        match self.phase {
            Phase::Done => Ok(Action::Done),
            Phase::Summary => match summary_target(self.kind, self.year) {
                Ok(page) => Ok(Action::FetchSummary { year: self.year, page }),
                Err(error) => Err(ScrapeError::Url { year: self.year, error }),
            },
            Phase::Details => {
                let entity = self.queue[self.next].cloned();
                match entity.detail_target(self.year) {
                    Ok(page) => Ok(Action::FetchDetail { year: self.year, entity, page }),
                    Err(error) => Err(ScrapeError::Url { year: self.year, error }),
                }
            },
        }
    }

    /// Moves on past the season in progress.
    fn finish_year(&mut self)
        requires
            old(self).year <= old(self).last,
        ensures
            final(self).kind == old(self).kind,
            final(self).last == old(self).last,
            final(self).filter == old(self).filter,
            final(self).queue == old(self).queue,
            final(self).next == old(self).next,
            final(self).year == next_year(*old(self)).0,
            final(self).phase == next_year(*old(self)).1,
    {
        if self.year < self.last {
            self.year = self.year + 1;
            self.phase = Phase::Summary;
        } else {
            self.phase = Phase::Done;
        }
    }

    /// Takes the index of the season's summary page: the entities that the
    /// filter selects become the queue. A filter that selects none stops the
    /// run.
    pub fn summary_indexed(&mut self, index: &NameIndex) -> (r: Result<(), ScrapeError>)
        requires
            old(self).wf(),
            old(self).phase == Phase::Summary,
            index.wf(),
        ensures
            indexed(*old(self), *final(self), r, index.view()),
    {
        let chosen = match &self.filter {
            Some(name) => index.select(Some(name.as_str())),
            None => index.select(None),
        };
        match chosen {
            None => {
                let key = match &self.filter {
                    Some(n) => lowercase(trim(n.as_str()).as_str()),
                    None => String::new(),
                };
                Err(ScrapeError::EntityNotFound { year: self.year, name: key })
            },
            Some(queue) => {
                self.queue = queue;
                self.next = 0;
                if self.queue.len() > 0 {
                    self.phase = Phase::Details;
                } else {
                    self.finish_year();
                }
                Ok(())
            },
        }
    }

    /// Takes the text of the season's summary page: reads its table, indexes
    /// the entity of every row, then selects as `summary_indexed` does. A page
    /// whose table does not read stops the run, as does a row that links to no
    /// entity.
    pub fn summary_fetched(&mut self, page: &str) -> (r: Result<(), ScrapeError>)
        requires
            old(self).wf(),
            old(self).phase == Phase::Summary,
        ensures
            match summary_page_rows(old(self).kind, page@) {
                Err(e) => r == Err::<(), ScrapeError>(ScrapeError::Parse { year: old(self).year, error: e })
                    && *final(self) == *old(self),
                Ok(vals) => match first_unlinked(old(self).kind, vals) {
                    Some(k) => *final(self) == *old(self) && r is Err && r->Err_0 is Index
                        && r->Err_0->Index_year == old(self).year && r->Err_0->Index_error.row == k
                        && link_error(old(self).kind, vals[k as int]) == Some(
                        r->Err_0->Index_error.error,
                    ) && r->Err_0->Index_error.label@ == vals[k as int][label_field(old(self).kind)],
                    None => exists|entities: Seq<EntityFragment>|
                        #![trigger indexed(*old(self), *final(self), r, entities)]
                        entities.len() == vals.len() && (forall|i: int|
                            0 <= i < vals.len() ==> entity_of_row(
                                old(self).kind,
                                #[trigger] entities[i],
                                vals[i],
                            )) && indexed(*old(self), *final(self), r, entities),
                },
            },
    {
        let year = self.year;
        let index = match self.kind {
            EntityKind::Race => {
                let summary = match RaceSummary::parse(page, year) {
                    Ok(s) => s,
                    Err(error) => return Err(ScrapeError::Parse { year, error }),
                };
                let ghost vals = summary_page_rows(self.kind, page@)->Ok_0;
                assert forall|k: int| 0 <= k < vals.len() implies summary.data@[k].url@
                    == (#[trigger] vals[k])[1] && summary.data@[k].grand_prix@ == vals[k][0] by {
                    assert(summary.data@[k].fields() == vals[k]);
                }
                index_races(&summary)
            },
            EntityKind::Driver => {
                let summary = match DriverSummary::parse(page, year) {
                    Ok(s) => s,
                    Err(error) => return Err(ScrapeError::Parse { year, error }),
                };
                let ghost vals = summary_page_rows(self.kind, page@)->Ok_0;
                assert forall|k: int| 0 <= k < vals.len() implies summary.data@[k].url@
                    == (#[trigger] vals[k])[1] && summary.data@[k].driver@ == vals[k][2] by {
                    assert(summary.data@[k].fields() == vals[k]);
                }
                index_drivers(&summary)
            },
            EntityKind::Team => {
                let summary = match TeamSummary::parse(page, year) {
                    Ok(s) => s,
                    Err(error) => return Err(ScrapeError::Parse { year, error }),
                };
                let ghost vals = summary_page_rows(self.kind, page@)->Ok_0;
                assert forall|k: int| 0 <= k < vals.len() implies summary.data@[k].url@
                    == (#[trigger] vals[k])[1] && summary.data@[k].team@ == vals[k][2] by {
                    assert(summary.data@[k].fields() == vals[k]);
                }
                index_teams(&summary)
            },
        };
        let ghost vals = summary_page_rows(self.kind, page@)->Ok_0;
        match index {
            Ok(index) => {
                proof {
                    lemma_no_unlinked(self.kind, vals);
                }
                let r = self.summary_indexed(&index);
                assert(index.view().len() == vals.len());
                assert(forall|i: int|
                    0 <= i < vals.len() ==> entity_of_row(self.kind, #[trigger] index.view()[i], vals[i]));
                r
            },
            Err(error) => {
                proof {
                    lemma_first_unlinked(self.kind, vals, error.row as int);
                }
                Err(ScrapeError::Index { year, error })
            },
        }
    }

    /// Takes the text of the detail page of the entity at `next`: reads that
    /// entity's records from it and moves on, as `detail_done` does. A page
    /// whose table does not read stops the run.
    pub fn detail_fetched(&mut self, page: &str) -> (r: Result<DetailRecord, ScrapeError>)
        requires
            old(self).wf(),
            old(self).phase == Phase::Details,
        ensures
            match detail_page_rows(old(self).queue@[old(self).next as int], page@) {
                Err(e) => r == Err::<DetailRecord, ScrapeError>(ScrapeError::Parse { year: old(self).year, error: e })
                    && *final(self) == *old(self),
                Ok(vals) => r is Ok && is_record_of(
                    r->Ok_0,
                    old(self).queue@[old(self).next as int],
                    old(self).year,
                ) && record_fields(r->Ok_0) == vals && advanced(*old(self), *final(self)),
            },
    {
        let year = self.year;
        let record = match &self.queue[self.next] {
            EntityFragment::Circuit(c) => match RaceResult::parse(page, year, c) {
                Ok(rec) => {
                    assert(record_fields(DetailRecord::Race(rec)) =~= detail_page_rows(
                        self.queue@[self.next as int],
                        page@,
                    )->Ok_0);
                    DetailRecord::Race(rec)
                },
                Err(error) => return Err(ScrapeError::Parse { year, error }),
            },
            EntityFragment::Driver(d) => match DriverResult::parse(page, year, d) {
                Ok(rec) => {
                    assert(record_fields(DetailRecord::Driver(rec)) =~= detail_page_rows(
                        self.queue@[self.next as int],
                        page@,
                    )->Ok_0);
                    DetailRecord::Driver(rec)
                },
                Err(error) => return Err(ScrapeError::Parse { year, error }),
            },
            EntityFragment::Team(t) => match TeamResult::parse(page, year, t) {
                Ok(rec) => {
                    assert(record_fields(DetailRecord::Team(rec)) =~= detail_page_rows(
                        self.queue@[self.next as int],
                        page@,
                    )->Ok_0);
                    DetailRecord::Team(rec)
                },
                Err(error) => return Err(ScrapeError::Parse { year, error }),
            },
        };
        self.detail_done();
        Ok(record)
    }

    /// Marks the detail page of the entity at `next` as done.
    pub fn detail_done(&mut self)
        requires
            old(self).wf(),
            old(self).phase == Phase::Details,
        ensures
            advanced(*old(self), *final(self)),
    {
        let len = self.queue.len();
        self.next = self.next + 1;
        if self.next >= len {
            self.finish_year();
        }
    }
}

/// The season and phase after the season in progress is done: the next
/// season's summary, or the end of the run.
pub open spec fn next_year(run: ResultRun) -> (u16, Phase) {
    if run.year < run.last {
        ((run.year + 1) as u16, Phase::Summary)
    } else {
        (run.year, Phase::Done)
    }
}

/// Whether `new` and `r` are what taking an index of `entities` makes of
/// `old`: the entities that the filter selects become the queue; none selected
/// by a name stops the run with the name's key.
pub open spec fn indexed(
    old: ResultRun,
    new: ResultRun,
    r: Result<(), ScrapeError>,
    entities: Seq<EntityFragment>,
) -> bool {
    match selection(entities, filter_view(old.filter)) {
        None => new == old && r is Err && r->Err_0 is EntityNotFound && r->Err_0->EntityNotFound_year
            == old.year && r->Err_0->EntityNotFound_name@ == key_of(old.filter->Some_0@),
        Some(chosen) => {
            &&& r is Ok
            &&& new.wf()
            &&& new.kind == old.kind
            &&& new.last == old.last
            &&& new.filter == old.filter
            &&& new.queue@ == chosen
            &&& new.next == 0
            &&& chosen.len() > 0 ==> new.phase == Phase::Details && new.year == old.year
            &&& chosen.len() == 0 ==> (new.year, new.phase) == next_year(old)
        },
    }
}

/// Whether `new` is `old` with the entity at `next` done: the next entity of
/// the queue, else the next season.
pub open spec fn advanced(old: ResultRun, new: ResultRun) -> bool {
    &&& new.wf()
    &&& new.kind == old.kind
    &&& new.last == old.last
    &&& new.filter == old.filter
    &&& new.queue == old.queue
    &&& new.next == old.next + 1
    &&& old.next + 1 < old.queue@.len() ==> new.phase == Phase::Details && new.year == old.year
    &&& old.next + 1 >= old.queue@.len() ==> (new.year, new.phase) == next_year(old)
}

/// What a season's summary page of a kind yields: its rows' fields, or why
/// not.
pub open spec fn summary_page_rows(kind: EntityKind, doc: Seq<char>) -> Result<
    Seq<Seq<Seq<char>>>,
    ParseError,
> {
    match kind {
        EntityKind::Race => page_rows(doc, RACE_SUMMARY_TABLE@, RACE_SUMMARY_ARITY as nat, race_summary_layout()),
        EntityKind::Driver => page_rows(doc, DRIVER_SUMMARY_TABLE@, DRIVER_SUMMARY_ARITY as nat, driver_summary_layout()),
        EntityKind::Team => page_rows(doc, TEAM_SUMMARY_TABLE@, TEAM_SUMMARY_ARITY as nat, team_summary_layout()),
    }
}

/// The field of a summary row that labels its entity.
pub open spec fn label_field(kind: EntityKind) -> int {
    match kind {
        EntityKind::Race => 0,
        _ => 2,
    }
}

/// Why a summary row's link names no entity, if it names none; the link is
/// the row's second field.
pub open spec fn link_error(kind: EntityKind, row: Seq<Seq<char>>) -> Option<ResolveError> {
    match kind {
        EntityKind::Race => match circuit_of(row[1]) {
            Err(e) => Some(e),
            Ok(_) => None,
        },
        EntityKind::Driver => match driver_of(row[1]) {
            Err(e) => Some(e),
            Ok(_) => None,
        },
        EntityKind::Team => match team_of(row[1]) {
            Err(e) => Some(e),
            Ok(_) => None,
        },
    }
}

/// The first summary row whose link names no entity.
pub open spec fn first_unlinked(kind: EntityKind, rows: Seq<Seq<Seq<char>>>) -> Option<nat>
    decreases rows.len(),
{
    if rows.len() == 0 {
        None
    } else {
        match first_unlinked(kind, rows.drop_last()) {
            Some(k) => Some(k),
            None => if link_error(kind, rows.last()) is Some {
                Some((rows.len() - 1) as nat)
            } else {
                None
            },
        }
    }
}

proof fn lemma_no_unlinked(kind: EntityKind, rows: Seq<Seq<Seq<char>>>)
    requires
        forall|k: int| 0 <= k < rows.len() ==> link_error(kind, #[trigger] rows[k]) is None,
    ensures
        first_unlinked(kind, rows) is None,
    decreases rows.len(),
{
    if rows.len() > 0 {
        lemma_no_unlinked(kind, rows.drop_last());
        assert(rows.last() == rows[rows.len() - 1]);
    }
}

proof fn lemma_first_unlinked(kind: EntityKind, rows: Seq<Seq<Seq<char>>>, k: int)
    requires
        0 <= k < rows.len(),
        forall|j: int| 0 <= j < k ==> link_error(kind, #[trigger] rows[j]) is None,
        link_error(kind, rows[k]) is Some,
    ensures
        first_unlinked(kind, rows) == Some(k as nat),
    decreases rows.len(),
{
    if k < rows.len() - 1 {
        lemma_first_unlinked(kind, rows.drop_last(), k);
    } else {
        lemma_no_unlinked(kind, rows.drop_last());
    }
}

/// Whether `e` is the entity that a summary row of a kind links to.
pub open spec fn entity_of_row(kind: EntityKind, e: EntityFragment, row: Seq<Seq<char>>) -> bool {
    match kind {
        EntityKind::Race => match circuit_of(row[1]) {
            Ok((idx, slug)) => e is Circuit && e->Circuit_0.idx == idx && e->Circuit_0.name@ == slug
                && e->Circuit_0.display_name@ == row[0],
            Err(_) => false,
        },
        EntityKind::Driver => match driver_of(row[1]) {
            Ok((id, slug)) => e is Driver && e->Driver_0.id@ == id && e->Driver_0.name@ == slug
                && e->Driver_0.display_name@ == row[2],
            Err(_) => false,
        },
        EntityKind::Team => match team_of(row[1]) {
            Ok(slug) => e is Team && e->Team_0.name@ == slug && e->Team_0.display_name@ == row[2],
            Err(_) => false,
        },
    }
}

/// What an entity's detail page yields: its rows' fields, or why not.
pub open spec fn detail_page_rows(e: EntityFragment, doc: Seq<char>) -> Result<
    Seq<Seq<Seq<char>>>,
    ParseError,
> {
    match e {
        EntityFragment::Circuit(_) => page_rows(doc, RACE_RESULT_TABLE@, RACE_RESULT_ARITY as nat, race_result_layout()),
        EntityFragment::Driver(_) => page_rows(doc, DRIVER_RESULT_TABLE@, DRIVER_RESULT_ARITY as nat, driver_result_layout()),
        EntityFragment::Team(_) => page_rows(doc, TEAM_RESULT_TABLE@, TEAM_RESULT_ARITY as nat, team_result_layout()),
    }
}

/// The fields of every row of a detail record.
pub open spec fn record_fields(rec: DetailRecord) -> Seq<Seq<Seq<char>>> {
    match rec {
        DetailRecord::Race(r) => r.data@.map_values(|x: RaceResultEntry| x.fields()),
        DetailRecord::Driver(r) => r.data@.map_values(|x: DriverResultEntry| x.fields()),
        DetailRecord::Team(r) => r.data@.map_values(|x: TeamResultEntry| x.fields()),
    }
}

} // verus!
