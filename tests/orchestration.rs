use f1scraper::index::{index_races, index_teams, EntityFragment, IndexError, NameIndex};
use f1scraper::race::{Circuit, RaceSummary, RaceSummaryEntry};
use f1scraper::resolve::ResolveError;
use f1scraper::run::{Action, DetailRecord, EntityKind, Phase, ResultRun, ScrapeError, YearFlags};
use f1scraper::team::{Team, TeamSummary};

fn page(body: &str) -> String {
    format!(
        "<html><body><div class=\"resultsarchive-wrapper\"><div class=\"resultsarchive-content\">\
         <div class=\"table-wrap\"><table class=\"resultsarchive-table\">\
         <thead><tr><th>A</th></tr></thead><tbody>{body}</tbody></table></div></div></div></body></html>"
    )
}

const ITALY_ROW: &str = "<tr><td><a href=\"/en/results.html/1950/races/100/italy/race-result.html\">Italy</a></td>\
    <td>03 Sep 1950</td><td><span>Nino</span> <span>Farina</span></td><td>Alfa Romeo</td><td>80</td><td>2:51:01.000</td></tr>";

fn italy() -> Circuit {
    Circuit {
        idx: 100,
        name: "italy".to_string(),
        display_name: "Italy".to_string(),
    }
}

fn team_row(slug: &str, label: &str) -> String {
    format!("<tr><td>1</td><td><a href=\"/en/results.html/1950/team/{slug}.html\">{label}</a></td><td>10</td></tr>")
}

#[test]
fn italy_is_found_by_slug_label_and_any_case() {
    let summary = RaceSummary::parse(&page(ITALY_ROW), 1950).unwrap();
    let index = index_races(&summary).unwrap();
    let expected = EntityFragment::Circuit(italy());
    assert_eq!(index.get("italy", false), Some(expected.clone()));
    assert_eq!(index.get("italy", true), Some(expected.clone()));
    assert_eq!(index.select(Some("ITALY")), Some(vec![expected.clone()]));
    assert_eq!(index.select(Some("  Italy ")), Some(vec![expected.clone()]));
    assert_eq!(index.select(None), Some(vec![expected]));
    assert_eq!(index.select(Some("monaco")), None);
}

#[test]
fn slug_match_wins_over_label_match() {
    let mut index = NameIndex::new();
    let by_label = EntityFragment::Team(Team {
        name: "first".to_string(),
        display_name: "Second".to_string(),
    });
    let by_slug = EntityFragment::Team(Team {
        name: "second".to_string(),
        display_name: "Other".to_string(),
    });
    index.insert(by_label);
    index.insert(by_slug.clone());
    assert_eq!(index.select(Some("second")), Some(vec![by_slug]));
}

#[test]
fn a_later_entity_replaces_an_earlier_one_with_the_same_slug() {
    let summary = TeamSummary::parse(
        &page(&format!(
            "{}{}{}",
            team_row("ferrari", "Ferrari"),
            team_row("alfa_romeo", "Alfa Romeo"),
            team_row("ferrari", "Scuderia Ferrari")
        )),
        1950,
    )
    .unwrap();
    let index = index_teams(&summary).unwrap();
    assert_eq!(index.len(), 3);
    let all = index.select(None).unwrap();
    assert_eq!(all.len(), 2);
    assert_eq!(
        all[0],
        EntityFragment::Team(Team {
            name: "alfa_romeo".to_string(),
            display_name: "Alfa Romeo".to_string()
        })
    );
    assert_eq!(
        all[1],
        EntityFragment::Team(Team {
            name: "ferrari".to_string(),
            display_name: "Scuderia Ferrari".to_string()
        })
    );
}

#[test]
fn an_unresolvable_row_fails_the_index() {
    let mut summary = RaceSummary::parse(&page(ITALY_ROW), 1950).unwrap();
    summary.data.push(RaceSummaryEntry {
        grand_prix: "Broken".to_string(),
        url: "/en/results.html".to_string(),
        ..Default::default()
    });
    assert_eq!(
        index_races(&summary).err(),
        Some(IndexError {
            row: 1,
            label: "Broken".to_string(),
            error: ResolveError::MalformedUrl
        })
    );
}

#[test]
fn exact_year_takes_precedence_over_the_range() {
    let flags = YearFlags {
        year: Some(1960),
        year_min: 1950,
        year_max: 2023,
    };
    assert_eq!(flags.min_max(), (1960, 1960));
    let flags = YearFlags {
        year: None,
        year_min: 1950,
        year_max: 2023,
    };
    assert_eq!(flags.min_max(), (1950, 2023));
}

#[test]
fn team_run_fetches_each_distinct_team_once() {
    let summary_page = page(&format!(
        "{}{}{}",
        team_row("alfa_romeo", "Alfa Romeo"),
        team_row("ferrari", "Ferrari"),
        team_row("ferrari", "Ferrari")
    ));
    let detail_page = page("<tr><td><a href=\"/r\">Monaco</a></td><td>21 May 1950</td><td>0</td></tr>");
    let mut run = ResultRun::new(EntityKind::Team, 1950, 1950, None);
    match run.action().unwrap() {
        Action::FetchSummary { year, page } => {
            assert_eq!(year, 1950);
            assert_eq!(page.address(), "https://www.formula1.com/en/results.html/1950/team.html");
        }
        other => panic!("unexpected action {other:?}"),
    }
    run.summary_fetched(&summary_page).unwrap();
    let mut fetched = Vec::new();
    loop {
        match run.action().unwrap() {
            Action::FetchDetail { year, entity, page } => {
                assert_eq!(year, 1950);
                fetched.push(page.address().to_string());
                match run.detail_fetched(&detail_page).unwrap() {
                    DetailRecord::Team(result) => {
                        assert_eq!(EntityFragment::Team(result.team.clone()), entity);
                        assert_eq!(result.data[0].grand_prix, "Monaco");
                    }
                    other => panic!("unexpected record {other:?}"),
                }
            }
            Action::Done => break,
            other => panic!("unexpected action {other:?}"),
        }
    }
    assert_eq!(
        fetched,
        vec![
            "https://www.formula1.com/en/results.html/1950/team/alfa_romeo.html".to_string(),
            "https://www.formula1.com/en/results.html/1950/team/ferrari.html".to_string(),
        ]
    );
    assert_eq!(run.phase, Phase::Done);
}

#[test]
fn race_run_with_an_unknown_name_stops() {
    let mut run = ResultRun::new(EntityKind::Race, 1950, 1951, Some(" Monaco ".to_string()));
    run.action().unwrap();
    assert_eq!(
        run.summary_fetched(&page(ITALY_ROW)),
        Err(ScrapeError::EntityNotFound {
            year: 1950,
            name: "monaco".to_string()
        })
    );
}

#[test]
fn race_run_moves_to_the_next_season() {
    let mut run = ResultRun::new(EntityKind::Race, 1950, 1951, Some("italy".to_string()));
    run.action().unwrap();
    run.summary_fetched(&page(ITALY_ROW)).unwrap();
    match run.action().unwrap() {
        Action::FetchDetail { entity, page, .. } => {
            assert_eq!(entity, EntityFragment::Circuit(italy()));
            assert_eq!(
                page.address(),
                "https://www.formula1.com/en/results.html/1950/races/100/italy/race-result.html"
            );
        }
        other => panic!("unexpected action {other:?}"),
    }
    let detail = page("<tr><td>1</td><td>2</td><td><span>Nino</span></td><td>Alfa Romeo</td><td>80</td><td>2:51</td><td>9</td></tr>");
    // the race result table stands in another container than the summary's
    assert!(run.detail_fetched(&detail).is_err());
    assert_eq!(run.phase, Phase::Details);
    let detail = detail.replace("table-wrap", "resultsarchive-col-right");
    assert!(matches!(run.detail_fetched(&detail), Ok(DetailRecord::Race(_))));
    match run.action().unwrap() {
        Action::FetchSummary { year, page } => {
            assert_eq!(year, 1951);
            assert_eq!(page.address(), "https://www.formula1.com/en/results.html/1951/races.html");
        }
        other => panic!("unexpected action {other:?}"),
    }
}

#[test]
fn an_empty_range_is_done_at_once() {
    let run = ResultRun::new(EntityKind::Driver, 1951, 1950, None);
    assert!(matches!(run.action(), Ok(Action::Done)));
}
