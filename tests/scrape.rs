use f1scraper::driver::DriverFragment;
use f1scraper::race::Circuit;
use f1scraper::scrape::{
    check_status, DriverResultSummaryTarget, DriverResultTarget, FastestLapResultSummaryTarget,
    FetchError, PageTarget, RaceResultSummaryTarget, RaceResultTarget, TeamResultSummaryTarget,
    TeamResultTarget, UrlError,
};
use f1scraper::team::Team;

fn italy() -> Circuit {
    Circuit {
        idx: 100,
        name: "italy".to_string(),
        display_name: "Italy".to_string(),
    }
}

#[test]
fn summary_targets_follow_the_templates() {
    assert_eq!(
        RaceResultSummaryTarget::new(1950).unwrap().page.address(),
        "https://www.formula1.com/en/results.html/1950/races.html"
    );
    assert_eq!(
        DriverResultSummaryTarget::new(2023).unwrap().page.address(),
        "https://www.formula1.com/en/results.html/2023/drivers.html"
    );
    assert_eq!(
        TeamResultSummaryTarget::new(1958).unwrap().page.address(),
        "https://www.formula1.com/en/results.html/1958/team.html"
    );
    assert_eq!(
        FastestLapResultSummaryTarget::new(1999).unwrap().page.address(),
        "https://www.formula1.com/en/results.html/1999/fastest-laps.html"
    );
}

#[test]
fn detail_targets_embed_the_identity() {
    let race = RaceResultTarget::new(1950, &italy()).unwrap();
    assert_eq!(
        race.page.address(),
        "https://www.formula1.com/en/results.html/1950/races/100/italy/race-result.html"
    );
    assert_eq!(
        race.page.url().as_str(),
        "https://www.formula1.com/en/results.html/1950/races/100/italy/race-result.html"
    );
    let driver = DriverFragment {
        id: "NINFAR01".to_string(),
        name: "nino-farina".to_string(),
        display_name: "Nino Farina".to_string(),
    };
    assert_eq!(
        DriverResultTarget::new(1950, &driver).unwrap().page.address(),
        "https://www.formula1.com/en/results.html/1950/drivers/NINFAR01/nino-farina.html"
    );
    let team = Team {
        name: "alfa_romeo_ferrari".to_string(),
        display_name: "Alfa Romeo Ferrari".to_string(),
    };
    assert_eq!(
        TeamResultTarget::new(1950, &team).unwrap().page.address(),
        "https://www.formula1.com/en/results.html/1950/team/alfa_romeo_ferrari.html"
    );
}

#[test]
fn building_twice_gives_the_same_address() {
    let a = RaceResultTarget::new(1950, &italy()).unwrap();
    let mut relabelled = italy();
    relabelled.display_name = "Italian Grand Prix".to_string();
    let b = RaceResultTarget::new(1950, &relabelled).unwrap();
    assert_eq!(a.page.address(), b.page.address());
}

#[test]
fn an_invalid_address_is_refused() {
    let r = PageTarget::from_address("not a url".to_string());
    assert_eq!(
        r.err(),
        Some(UrlError::InvalidUrl {
            address: "not a url".to_string()
        })
    );
    assert!(PageTarget::from_address("https://example.com/x".to_string()).is_ok());
}

#[test]
fn only_success_statuses_give_the_page() {
    assert_eq!(check_status(200, "page".to_string()), Ok("page".to_string()));
    assert_eq!(check_status(299, "page".to_string()), Ok("page".to_string()));
    assert_eq!(
        check_status(404, "missing".to_string()),
        Err(FetchError::Status {
            code: 404,
            body: "missing".to_string()
        })
    );
    assert!(check_status(199, String::new()).is_err());
    assert!(check_status(300, String::new()).is_err());
    assert!(check_status(500, String::new()).is_err());
}
