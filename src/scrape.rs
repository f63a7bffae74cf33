//! Page targets: the address of each summary and detail page, and the check
//! that a fetched page came back whole.
use vstd::prelude::*;
use vstd::string::*;
use crate::driver::DriverFragment;
use crate::race::Circuit;
use crate::team::Team;
use crate::text::{decimal, render_decimal};

verus! {

#[verifier::external_type_specification]
#[verifier::external_body]
pub struct ExUrl(reqwest::Url);

/// Whether `reqwest::Url::parse` accepts a text.
pub uninterp spec fn url_parses(s: Seq<char>) -> bool;

/// Relies on `reqwest::Url::parse` (the `url` crate's parser): a URL, or `None`
/// where the text is no valid absolute URL; the outcome depends on the text
/// alone.
#[verifier::external_body]
fn parse_url(s: &str) -> (r: Option<reqwest::Url>)
    ensures
        r.is_some() == url_parses(s@),
{
    reqwest::Url::parse(s).ok()
}

/// Where every archive page's address starts.
pub const ARCHIVE_ROOT: &'static str = "https://www.formula1.com/en/results.html/";

/// Why no target was built.
#[derive(Debug, Clone, PartialEq, Eq)]
pub enum UrlError {
    /// The assembled address is no valid URL.
    InvalidUrl { address: String },
}

/// A page to fetch with a `GET` request.
#[derive(Debug)]
pub struct PageTarget {
    address: String,
    url: reqwest::Url,
}

impl PageTarget {
    pub closed spec fn address_view(&self) -> Seq<char> {
        self.address@
    }

    /// Builds the target of an address, where it is a valid URL.
    pub fn from_address(address: String) -> (r: Result<PageTarget, UrlError>)
        ensures
            r is Ok <==> url_parses(address@),
            r is Ok ==> r->Ok_0.address_view() == address@,
            r is Err ==> r == Err::<PageTarget, UrlError>(UrlError::InvalidUrl { address }),
    {
        match parse_url(address.as_str()) {
            Some(url) => Ok(PageTarget { address, url }),
            None => Err(UrlError::InvalidUrl { address }),
        }
    }

    /// The page's address.
    pub fn address(&self) -> (r: &str)
        ensures
            r@ == self.address_view(),
    {
        self.address.as_str()
    }

    /// The page's URL.
    pub fn url(&self) -> &reqwest::Url {
        &self.url
    }
}

/// The address of a season page: the archive root, the year, then `tail`.
pub open spec fn season_address(year: u16, tail: Seq<char>) -> Seq<char> {
    ARCHIVE_ROOT@ + decimal(year as nat) + tail
}

fn season_address_of(year: u16, tail: &str) -> (r: String)
    ensures
        r@ == season_address(year, tail@),
{
    let mut s = String::from_str(ARCHIVE_ROOT);
    s.append(render_decimal(year).as_str());
    s.append(tail);
    assert(s@ =~= season_address(year, tail@));
    s
}

/// The address of a season's race summary.
pub open spec fn race_summary_address(year: u16) -> Seq<char> {
    season_address(year, "/races.html"@)
}

/// The address of a race's result page.
pub open spec fn race_result_address(year: u16, circuit: Circuit) -> Seq<char> {
    season_address(
        year,
        "/races/"@ + decimal(circuit.idx as nat) + "/"@ + circuit.name@ + "/race-result.html"@,
    )
}

/// The address of a season's driver standings.
pub open spec fn driver_summary_address(year: u16) -> Seq<char> {
    season_address(year, "/drivers.html"@)
}

/// The address of a driver's season results.
pub open spec fn driver_result_address(year: u16, driver: DriverFragment) -> Seq<char> {
    season_address(year, "/drivers/"@ + driver.id@ + "/"@ + driver.name@ + ".html"@)
}

/// The address of a season's fastest laps.
pub open spec fn fastest_lap_summary_address(year: u16) -> Seq<char> {
    season_address(year, "/fastest-laps.html"@)
}

/// The address of a season's constructor standings.
pub open spec fn team_summary_address(year: u16) -> Seq<char> {
    season_address(year, "/team.html"@)
}

/// The address of a team's season results.
pub open spec fn team_result_address(year: u16, team: Team) -> Seq<char> {
    season_address(year, "/team/"@ + team.name@ + ".html"@)
}

/// The target of a season's race summary.
pub struct RaceResultSummaryTarget {
    pub page: PageTarget,
}

impl RaceResultSummaryTarget {
    pub fn new(year: u16) -> (r: Result<RaceResultSummaryTarget, UrlError>)
        ensures
            r is Ok <==> url_parses(race_summary_address(year)),
            r is Ok ==> r->Ok_0.page.address_view() == race_summary_address(year),
    {
        let page = PageTarget::from_address(season_address_of(year, "/races.html"))?;
        Ok(RaceResultSummaryTarget { page })
    }
}

/// The target of a race's result page.
pub struct RaceResultTarget {
    pub page: PageTarget,
}

impl RaceResultTarget {
    pub fn new(year: u16, circuit: &Circuit) -> (r: Result<RaceResultTarget, UrlError>)
        ensures
            r is Ok <==> url_parses(race_result_address(year, *circuit)),
            r is Ok ==> r->Ok_0.page.address_view() == race_result_address(year, *circuit),
    {
        let mut tail = String::from_str("/races/");
        tail.append(render_decimal(circuit.idx).as_str());
        tail.append("/");
        tail.append(circuit.name.as_str());
        tail.append("/race-result.html");
        let address = season_address_of(year, tail.as_str());
        assert(address@ =~= race_result_address(year, *circuit));
        let page = PageTarget::from_address(address)?;
        Ok(RaceResultTarget { page })
    }
}

/// The target of a season's driver standings.
pub struct DriverResultSummaryTarget {
    pub page: PageTarget,
}

impl DriverResultSummaryTarget {
    pub fn new(year: u16) -> (r: Result<DriverResultSummaryTarget, UrlError>)
        ensures
            r is Ok <==> url_parses(driver_summary_address(year)),
            r is Ok ==> r->Ok_0.page.address_view() == driver_summary_address(year),
    {
        let page = PageTarget::from_address(season_address_of(year, "/drivers.html"))?;
        Ok(DriverResultSummaryTarget { page })
    }
}

/// The target of a driver's season results.
pub struct DriverResultTarget {
    pub page: PageTarget,
}

impl DriverResultTarget {
    pub fn new(year: u16, driver: &DriverFragment) -> (r: Result<DriverResultTarget, UrlError>)
        ensures
            r is Ok <==> url_parses(driver_result_address(year, *driver)),
            r is Ok ==> r->Ok_0.page.address_view() == driver_result_address(year, *driver),
    {
        let mut tail = String::from_str("/drivers/");
        tail.append(driver.id.as_str());
        tail.append("/");
        tail.append(driver.name.as_str());
        tail.append(".html");
        let address = season_address_of(year, tail.as_str());
        assert(address@ =~= driver_result_address(year, *driver));
        let page = PageTarget::from_address(address)?;
        Ok(DriverResultTarget { page })
    }
}

/// The target of a season's fastest laps.
pub struct FastestLapResultSummaryTarget {
    pub page: PageTarget,
}

impl FastestLapResultSummaryTarget {
    pub fn new(year: u16) -> (r: Result<FastestLapResultSummaryTarget, UrlError>)
        ensures
            r is Ok <==> url_parses(fastest_lap_summary_address(year)),
            r is Ok ==> r->Ok_0.page.address_view() == fastest_lap_summary_address(year),
    {
        let page = PageTarget::from_address(season_address_of(year, "/fastest-laps.html"))?;
        Ok(FastestLapResultSummaryTarget { page })
    }
}

/// The target of a season's constructor standings.
pub struct TeamResultSummaryTarget {
    pub page: PageTarget,
}

impl TeamResultSummaryTarget {
    pub fn new(year: u16) -> (r: Result<TeamResultSummaryTarget, UrlError>)
        ensures
            r is Ok <==> url_parses(team_summary_address(year)),
            r is Ok ==> r->Ok_0.page.address_view() == team_summary_address(year),
    {
        let page = PageTarget::from_address(season_address_of(year, "/team.html"))?;
        Ok(TeamResultSummaryTarget { page })
    }
}

/// The target of a team's season results.
pub struct TeamResultTarget {
    pub page: PageTarget,
}

impl TeamResultTarget {
    pub fn new(year: u16, team: &Team) -> (r: Result<TeamResultTarget, UrlError>)
        ensures
            r is Ok <==> url_parses(team_result_address(year, *team)),
            r is Ok ==> r->Ok_0.page.address_view() == team_result_address(year, *team),
    {
        let mut tail = String::from_str("/team/");
        tail.append(team.name.as_str());
        tail.append(".html");
        let address = season_address_of(year, tail.as_str());
        assert(address@ =~= team_result_address(year, *team));
        let page = PageTarget::from_address(address)?;
        Ok(TeamResultTarget { page })
    }
}

/// A detail address depends on the year and the entity's identity alone:
/// inputs that agree on them give the same address, whatever label the entity
/// carries.
pub proof fn lemma_detail_addresses_deterministic(
    year_a: u16,
    year_b: u16,
    circuit_a: Circuit,
    circuit_b: Circuit,
    driver_a: DriverFragment,
    driver_b: DriverFragment,
    team_a: Team,
    team_b: Team,
)
    requires
        year_a == year_b,
    ensures
        circuit_a.idx == circuit_b.idx && circuit_a.name@ == circuit_b.name@ ==> race_result_address(
            year_a,
            circuit_a,
        ) == race_result_address(year_b, circuit_b),
        driver_a.id@ == driver_b.id@ && driver_a.name@ == driver_b.name@ ==> driver_result_address(
            year_a,
            driver_a,
        ) == driver_result_address(year_b, driver_b),
        team_a.name@ == team_b.name@ ==> team_result_address(year_a, team_a) == team_result_address(
            year_b,
            team_b,
        ),
{
}

/// The phase of a fetch in which the transport failed.
#[derive(Debug, Clone, Copy, PartialEq, Eq, Structural)]
pub enum FetchPhase {
    /// Sending the request and receiving the response head.
    Connect,
    /// Reading the response body.
    ReadBody,
}

/// Why a page was not fetched.
#[derive(Debug, Clone, PartialEq, Eq)]
pub enum FetchError {
    /// The transport failed.
    Transport { phase: FetchPhase, message: String },
    /// The server answered with a status other than success.
    Status { code: u16, body: String },
}

/// Whether an HTTP status code is a success (2xx).
pub open spec fn is_success(code: u16) -> bool {
    200 <= code <= 299
}

/// The page text of a response, or the status error that a response other
/// than a success is.
pub fn check_status(code: u16, body: String) -> (r: Result<String, FetchError>)
    ensures
        is_success(code) ==> r is Ok && r->Ok_0@ == body@,
        !is_success(code) ==> r == Err::<String, FetchError>(FetchError::Status { code, body }),
{
    if 200 <= code && code <= 299 {
        Ok(body)
    } else {
        Err(FetchError::Status { code, body })
    }
}

} // verus!
