use f1scraper::driver::{DriverFragment, DriverSummaryEntry};
use f1scraper::race::{Circuit, RaceSummaryEntry};
use f1scraper::resolve::ResolveError;
use f1scraper::team::{Team, TeamSummaryEntry};

fn race_row(url: &str, grand_prix: &str) -> RaceSummaryEntry {
    RaceSummaryEntry {
        grand_prix: grand_prix.to_string(),
        url: url.to_string(),
        ..Default::default()
    }
}

#[test]
fn circuit_from_race_link() {
    let row = race_row("/en/results.html/1950/races/100/italy/race-result.html", "Italy");
    let circuit = row.circuit().unwrap();
    assert_eq!(
        circuit,
        Circuit {
            idx: 100,
            name: "italy".to_string(),
            display_name: "Italy".to_string(),
        }
    );
}

#[test]
fn circuit_link_too_short_is_malformed() {
    let row = race_row("/en/results.html/1950/races/100", "Italy");
    assert_eq!(row.circuit(), Err(ResolveError::MalformedUrl));
    let row = race_row("", "Italy");
    assert_eq!(row.circuit(), Err(ResolveError::MalformedUrl));
}

#[test]
fn circuit_index_must_be_a_number() {
    let row = race_row("/en/results.html/1950/races/abc/italy/race-result.html", "Italy");
    assert_eq!(row.circuit(), Err(ResolveError::IndexParseFailure));
    let row = race_row("/en/results.html/1950/races/70000/italy/race-result.html", "Italy");
    assert_eq!(row.circuit(), Err(ResolveError::IndexParseFailure));
    let row = race_row("/en/results.html/1950/races//italy/race-result.html", "Italy");
    assert_eq!(row.circuit(), Err(ResolveError::IndexParseFailure));
}

#[test]
fn driver_from_driver_link() {
    let row = DriverSummaryEntry {
        url: "/en/results.html/1950/drivers/NINFAR01/nino-farina.html".to_string(),
        driver: "Nino Farina FAR".to_string(),
        ..Default::default()
    };
    assert_eq!(
        row.driver().unwrap(),
        DriverFragment {
            id: "NINFAR01".to_string(),
            name: "nino-farina".to_string(),
            display_name: "Nino Farina FAR".to_string(),
        }
    );
}

#[test]
fn driver_link_too_short_is_malformed() {
    let row = DriverSummaryEntry {
        url: "/en/results.html/1950/drivers/NINFAR01".to_string(),
        ..Default::default()
    };
    assert_eq!(row.driver(), Err(ResolveError::MalformedUrl));
}

#[test]
fn team_from_team_link() {
    let row = TeamSummaryEntry {
        url: "/en/results.html/1950/team/alfa_romeo_ferrari.html".to_string(),
        team: "Alfa Romeo Ferrari".to_string(),
        ..Default::default()
    };
    assert_eq!(
        row.team().unwrap(),
        Team {
            name: "alfa_romeo_ferrari".to_string(),
            display_name: "Alfa Romeo Ferrari".to_string(),
        }
    );
}

#[test]
fn team_link_too_short_is_malformed() {
    let row = TeamSummaryEntry {
        url: "/en/results.html/1950/team".to_string(),
        ..Default::default()
    };
    assert_eq!(row.team(), Err(ResolveError::MalformedUrl));
}

#[test]
fn every_trailing_extension_is_stripped() {
    let row = TeamSummaryEntry {
        url: "/en/results.html/1950/team/ferrari.html.html".to_string(),
        ..Default::default()
    };
    assert_eq!(row.team().unwrap().name, "ferrari");
}

#[test]
fn resolving_twice_gives_the_same_fragment() {
    let row = race_row("/en/results.html/1950/races/100/italy/race-result.html", "Italy");
    assert_eq!(row.circuit(), row.circuit());
}
