use f1scraper::decode::{decode_row, DecodeError, Extract, Field, ParseError};
use f1scraper::driver::{DriverResult, DriverSummary};
use f1scraper::fastestlap::FastestLapSummary;
use f1scraper::html::{locate, Cell, ExtractError, Link};
use f1scraper::race::{Circuit, RaceResult, RaceSummary};
use f1scraper::team::{Team, TeamResult, TeamSummary};

fn page(container: &str, head: &str, body: &str) -> String {
    format!(
        "<html><body><div class=\"resultsarchive-wrapper\"><div class=\"resultsarchive-content\">\
         <div class=\"{container}\"><table class=\"resultsarchive-table\">\
         <thead><tr>{head}</tr></thead><tbody>{body}</tbody></table></div></div></div></body></html>"
    )
}

const RACE_SUMMARY_HEAD: &str = "<th class=\"limiter\"></th><th>Grand Prix</th><th>Date</th>\
    <th>Winner</th><th>Car</th><th>Laps</th><th>Time</th><th class=\"limiter\"></th>";

const ITALY_ROW: &str = "<tr><td class=\"limiter\"></td>\
    <td class=\"dark bold\"><a href=\" /en/results.html/1950/races/100/italy/race-result.html \" class=\"dark bold ArchiveLink\">\n  Italy\n</a></td>\
    <td class=\"dark hide-for-mobile\">03 Sep 1950</td>\
    <td class=\"dark bold\"><span class=\"hide-for-tablet\">Nino</span>\n<span class=\"hide-for-mobile\">Farina</span>\n<span class=\"uppercase hide-for-desktop\">FAR</span></td>\
    <td class=\"semi-bold uppercase hide-for-tablet\">Alfa Romeo</td>\
    <td class=\"bold hide-for-mobile\">80</td>\
    <td class=\"dark bold hide-for-tablet\">2:51:01.000</td>\
    <td class=\"limiter\"></td></tr>";

fn text_cell(text: &str) -> Cell {
    Cell {
        text: text.to_string(),
        ..Default::default()
    }
}

#[test]
fn race_summary_row_decodes_every_field() {
    let html = page("table-wrap", RACE_SUMMARY_HEAD, ITALY_ROW);
    let summary = RaceSummary::parse(&html, 1950).unwrap();
    assert_eq!(summary.year, 1950);
    assert_eq!(summary.data.len(), 1);
    let row = &summary.data[0];
    assert_eq!(row.grand_prix, "Italy");
    assert_eq!(row.url, "/en/results.html/1950/races/100/italy/race-result.html");
    assert_eq!(row.date, "03 Sep 1950");
    assert_eq!(row.winner, "Nino Farina FAR");
    assert_eq!(row.car, "Alfa Romeo");
    assert_eq!(row.laps, "80");
    assert_eq!(row.time, "2:51:01.000");
}

#[test]
fn decoding_the_same_page_twice_gives_the_same_records() {
    let html = page("table-wrap", RACE_SUMMARY_HEAD, ITALY_ROW);
    let a = RaceSummary::parse(&html, 1950).unwrap();
    let b = RaceSummary::parse(&html, 1950).unwrap();
    assert_eq!(a, b);
    let table = locate(&html, "div.table-wrap>table.resultsarchive-table").unwrap();
    let layout = f1scraper::race::RaceSummaryEntry::layout();
    let first = decode_row(&table.rows[0], 6, &layout).unwrap();
    let second = decode_row(&table.rows[0], 6, &layout).unwrap();
    assert_eq!(first, second);
    assert_eq!(first.len(), layout.len());
}

#[test]
fn rows_one_cell_short_fail_the_whole_table() {
    let short_row = "<tr><td><a href=\"/en/results.html/1950/races/100/italy/race-result.html\">Italy</a></td>\
        <td>03 Sep 1950</td><td><span>Nino</span></td><td>Alfa Romeo</td><td>80</td></tr>";
    let body = format!("{short_row}{short_row}");
    let html = page("table-wrap", RACE_SUMMARY_HEAD, &body);
    assert_eq!(
        RaceSummary::parse(&html, 1950),
        Err(ParseError::Row {
            index: 0,
            error: DecodeError::InvalidColumnCount {
                expected: 6,
                actual: 5
            }
        })
    );
    let table = locate(&html, "div.table-wrap>table.resultsarchive-table").unwrap();
    let layout = f1scraper::race::RaceSummaryEntry::layout();
    for row in &table.rows {
        assert_eq!(
            decode_row(row, 6, &layout),
            Err(DecodeError::InvalidColumnCount {
                expected: 6,
                actual: 5
            })
        );
    }
}

#[test]
fn a_later_bad_row_is_reported_by_its_position() {
    let bad = "<tr><td>1</td></tr>";
    let body = format!("{ITALY_ROW}{bad}");
    let html = page("table-wrap", RACE_SUMMARY_HEAD, &body);
    assert_eq!(
        RaceSummary::parse(&html, 1950),
        Err(ParseError::Row {
            index: 1,
            error: DecodeError::InvalidColumnCount {
                expected: 6,
                actual: 1
            }
        })
    );
}

#[test]
fn a_page_without_the_table_fails() {
    let html = "<html><body><p>nothing</p></body></html>";
    assert_eq!(
        RaceSummary::parse(html, 1950),
        Err(ParseError::Extract(ExtractError::TableNotFound))
    );
    assert_eq!(locate(html, "table"), Err(ExtractError::TableNotFound));
}

#[test]
fn an_invalid_selector_is_reported() {
    let html = page("table-wrap", RACE_SUMMARY_HEAD, ITALY_ROW);
    assert_eq!(locate(&html, "div[").err(), Some(ExtractError::InvalidSelector));
}

#[test]
fn headers_and_decorative_cells_are_read() {
    let html = page("table-wrap", RACE_SUMMARY_HEAD, ITALY_ROW);
    let table = locate(&html, "div.table-wrap>table.resultsarchive-table").unwrap();
    assert_eq!(table.headers.len(), 8);
    assert!(table.headers[0].decorative);
    assert_eq!(table.headers[1].text, "Grand Prix");
    assert_eq!(table.headers[1].first_child, None);
    assert_eq!(table.rows[0][1].first_child, None);
    assert_eq!(
        table.rows[0][1].link.as_ref().map(|l| l.href.clone()),
        Some(Some(" /en/results.html/1950/races/100/italy/race-result.html ".to_string()))
    );
    assert_eq!(table.rows.len(), 1);
    assert_eq!(table.rows[0].len(), 8);
    assert!(table.rows[0][7].decorative);
    assert_eq!(table.rows[0][3].spans, vec!["Nino", "Farina", "FAR"]);
}

#[test]
fn a_missing_link_names_its_column() {
    let layout = vec![Field {
        name: "car",
        column: 0,
        how: Extract::LinkText,
    }];
    assert_eq!(
        decode_row(&vec![text_cell("Ferrari")], 1, &layout),
        Err(DecodeError::MissingExpectedCell { column: "car" })
    );
    let href = vec![Field {
        name: "url",
        column: 0,
        how: Extract::Href,
    }];
    let linked = Cell {
        link: Some(Link {
            text: "x".to_string(),
            href: None,
        }),
        ..Default::default()
    };
    assert_eq!(
        decode_row(&vec![linked], 1, &href),
        Err(DecodeError::MissingExpectedCell { column: "url" })
    );
}

#[test]
fn decorative_cells_do_not_count() {
    let layout = vec![Field {
        name: "pos",
        column: 0,
        how: Extract::Text,
    }];
    let mut limiter = text_cell("ignored");
    limiter.decorative = true;
    let row = vec![limiter.clone(), text_cell("  1 \n"), limiter];
    assert_eq!(decode_row(&row, 1, &layout), Ok(vec!["1".to_string()]));
}

#[test]
fn race_result_rows_decode() {
    let head = "<th>Pos</th><th>No</th><th>Driver</th><th>Car</th><th>Laps</th><th>Time</th><th>PTS</th>";
    let row = "<tr><td class=\"limiter\"></td><td>1</td><td>2</td>\
        <td><span>Nino</span> <span>Farina</span> <span>FAR</span></td>\
        <td>Alfa Romeo</td><td>80</td><td>2:51:01.000</td><td>9</td><td class=\"limiter\"></td></tr>\
        <tr><td>NC</td><td>40</td><td><span>Juan</span></td><td>Ferrari</td><td>0</td><td>DNF</td><td>0</td></tr>";
    let html = page("resultsarchive-col-right", head, row);
    let circuit = Circuit {
        idx: 100,
        name: "italy".to_string(),
        display_name: "Italy".to_string(),
    };
    let result = RaceResult::parse(&html, 1950, &circuit).unwrap();
    assert_eq!(result.circuit, circuit);
    assert_eq!(result.data.len(), 2);
    assert_eq!(result.data[0].pos, "1");
    assert_eq!(result.data[0].driver, "Nino Farina FAR");
    assert_eq!(result.data[0].pts, "9");
    assert_eq!(result.data[1].pos, "NC");
    assert_eq!(result.data[1].time_retired, "DNF");
}

#[test]
fn driver_pages_decode() {
    let summary_row = "<tr><td>1</td><td><a href=\"/en/results.html/1950/drivers/NINFAR01/nino-farina.html\">\
        <span>Nino</span> <span>Farina</span></a></td><td>ITA</td>\
        <td><a href=\"/x\">Alfa Romeo</a></td><td>30</td></tr>";
    let html = page("table-wrap", "", summary_row);
    let summary = DriverSummary::parse(&html, 1950).unwrap();
    assert_eq!(summary.data[0].pos, "1");
    assert_eq!(summary.data[0].url, "/en/results.html/1950/drivers/NINFAR01/nino-farina.html");
    assert_eq!(summary.data[0].driver, "Nino Farina");
    assert_eq!(summary.data[0].nationality, "ITA");
    assert_eq!(summary.data[0].car, "Alfa Romeo");
    assert_eq!(summary.data[0].pts, "30");

    let result_row = "<tr><td><a href=\"/r\">Britain</a></td><td>13 May 1950</td>\
        <td><a href=\"/c\">Alfa Romeo</a></td><td>1</td><td>9</td></tr>";
    let html = page("table-wrap", "", result_row);
    let driver = summary.data[0].driver().unwrap();
    let result = DriverResult::parse(&html, 1950, &driver).unwrap();
    assert_eq!(result.driver, driver);
    assert_eq!(result.data[0].grand_prix, "Britain");
    assert_eq!(result.data[0].car, "Alfa Romeo");
    assert_eq!(result.data[0].pos, "1");
}

#[test]
fn team_and_fastest_lap_pages_decode() {
    let summary_row = "<tr><td>1</td><td><a href=\"/en/results.html/1958/team/vanwall.html\">Vanwall</a></td><td>48</td></tr>";
    let html = page("table-wrap", "", summary_row);
    let summary = TeamSummary::parse(&html, 1958).unwrap();
    assert_eq!(summary.data[0].team, "Vanwall");
    assert_eq!(summary.data[0].url, "/en/results.html/1958/team/vanwall.html");
    let team = Team {
        name: "vanwall".to_string(),
        display_name: "Vanwall".to_string(),
    };
    let result_row = "<tr><td><a href=\"/r\">Monaco</a></td><td>18 May 1958</td><td>0</td></tr>";
    let result = TeamResult::parse(&page("table-wrap", "", result_row), 1958, &team).unwrap();
    assert_eq!(result.team, team);
    assert_eq!(result.data[0].grand_prix, "Monaco");
    assert_eq!(result.data[0].pts, "0");

    let lap_row = "<tr><td>Britain</td><td><span>Nino</span> <span>Farina</span></td><td>Alfa Romeo</td><td>1:50.600</td></tr>";
    let laps = FastestLapSummary::parse(&page("table-wrap", "", lap_row), 1950).unwrap();
    assert_eq!(laps.data[0].grand_prix, "Britain");
    assert_eq!(laps.data[0].driver, "Nino Farina");
    assert_eq!(laps.data[0].time, "1:50.600");
}

#[test]
fn detail_and_team_pages_without_their_table_fail() {
    let html = page("table-wrap", "", "<tr><td>1</td></tr>");
    let circuit = Circuit::default();
    assert_eq!(
        RaceResult::parse(&html, 1950, &circuit),
        Err(ParseError::Extract(ExtractError::TableNotFound))
    );
    assert_eq!(
        TeamSummary::parse("<html><body></body></html>", 1950),
        Err(ParseError::Extract(ExtractError::TableNotFound))
    );
}
