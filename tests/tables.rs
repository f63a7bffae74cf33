use f1scraper::decode::{DecodeError, ParseError};
use f1scraper::format::{parse_races, parse_races_summary, RaceResultData, Table};
use f1scraper::race::{Circuit, RaceSummaryEntry};
use f1scraper::resolve::ResolveError;

fn page(container: &str, head: &str, body: &str) -> String {
    format!(
        "<html><body><div class=\"resultsarchive-wrapper\"><div class=\"resultsarchive-content\">\
         <div class=\"{container}\"><table class=\"resultsarchive-table\">\
         <thead><tr>{head}</tr></thead><tbody>{body}</tbody></table></div></div></div></body></html>"
    )
}

const SUMMARY_HEAD: &str = "<th class=\"limiter\"></th><th> Grand Prix </th><th>Date</th>\
    <th>Winner</th><th>Car</th><th>Laps</th><th>Time</th>";

const ITALY_ROW: &str = "<tr><td><a href=\"/en/results.html/1950/races/100/italy/race-result.html\">Italy</a></td>\
    <td>03 Sep 1950</td><td><span>Nino</span> <span>Farina</span></td><td>Alfa Romeo</td><td>80</td><td>2:51:01.000</td></tr>";

fn italy() -> Circuit {
    Circuit {
        idx: 100,
        name: "italy".to_string(),
        display_name: "Italy".to_string(),
    }
}

#[test]
fn summary_table_keeps_its_header_labels() {
    let table = parse_races_summary(&page("table-wrap", SUMMARY_HEAD, ITALY_ROW), 1950).unwrap();
    assert_eq!(table.year, 1950);
    assert!(table.circuit.is_none());
    assert_eq!(table.headers.grand_prix, " Grand Prix ");
    assert_eq!(table.headers.time, "Time");
    assert_eq!(table.data.len(), 1);
    assert_eq!(table.data[0].winner, "Nino Farina");
    assert_eq!(table.data[0].circuit(), Ok(italy()));
}

#[test]
fn a_header_row_of_the_wrong_width_fails() {
    let head = "<th>Grand Prix</th><th>Date</th>";
    assert_eq!(
        parse_races_summary(&page("table-wrap", head, ITALY_ROW), 1950).err(),
        Some(ParseError::Headers(DecodeError::InvalidColumnCount {
            expected: 6,
            actual: 2
        }))
    );
}

#[test]
fn result_table_carries_its_circuit() {
    let head = "<th><abbr title=\"Position\">POS</abbr></th><th>No</th><th>Driver</th><th>Car</th><th>Laps</th>\
        <th>Time/Retired</th><th> PTS <b>x</b></th>";
    let row = "<tr><td>1</td><td>10</td><td><span>Nino</span> <span>Farina</span></td><td>Alfa Romeo</td>\
        <td>80</td><td>2:51:01.000</td><td>9</td></tr>";
    let table = parse_races(&page("resultsarchive-col-right", head, row), 1950, &italy()).unwrap();
    assert_eq!(table.circuit, Some(italy()));
    assert_eq!(table.headers.pos, "POS");
    assert_eq!(table.headers.no, "No");
    assert_eq!(table.headers.time_retired, "Time/Retired");
    assert_eq!(table.headers.pts, " PTS <b>x</b>");
    assert_eq!(table.data[0].driver, "Nino Farina");
    assert_eq!(table.data[0].pts, "9");
}

#[test]
fn a_summary_row_with_a_bad_index_names_no_circuit() {
    let row = RaceSummaryEntry {
        url: "/en/results.html/1950/races/x/italy/race-result.html".to_string(),
        ..Default::default()
    };
    assert_eq!(row.circuit(), Err(ResolveError::IndexParseFailure));
}

#[test]
fn table_builders_set_what_they_name() {
    let table: Table<(), RaceResultData> = Table::new(1950, (), vec![RaceResultData::default()]);
    assert_eq!(table.year, 1950);
    assert!(table.circuit.is_none());
    assert_eq!(table.data.len(), 1);
    let table = table.with_circuit(italy());
    assert_eq!(table.circuit, Some(italy()));
    assert_eq!(table.year, 1950);
}
