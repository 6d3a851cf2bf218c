use kpiexport::errors::RozkladParseError;
use kpiexport::parser::{form_data_from_html, group_schedule_from_html};
use kpiexport::schedule::{GroupScheduleEntry, GroupScheduleSource, ScheduleDay, ScheduleWeek};
use kpiexport::table::{parse_week, CellChild, TableCell, TableRow};

const FIXTURE: &str = "<html><head><title>Розклад</title></head><body><form>\
    <input type=\"hidden\" name=\"__VIEWSTATE\" id=\"__VIEWSTATE\" value=\"VS-token\" />\
    <input type=\"hidden\" name=\"__EVENTVALIDATION\" id=\"__EVENTVALIDATION\" value=\"EV-token\" />\
    <table id=\"ctl00_MainContent_FirstScheduleTable\">\n\
    <tr><td></td><td>Понеділок</td><td>Вівторок</td><td>Середа</td></tr>\n\
    <tr><td>1<br>08:30</td>\
    <td><span><a>Algorithms</a></span><br><a>Lecturer A</a><br><a>101-18 Лек</a></td>\
    <td></td>\
    <td><span><a>Math</a><a>Math (alt)</a></span><br><a>Lecturer B</a><br><a>7-201 Прак</a></td></tr>\n\
    <tr><td>2<br>10:25</td><td></td>\
    <td><span><a>Physics</a></span><br><a>Lecturer C</a><a>Lecturer D</a><br><a>1-1</a><a>1-2</a></td></tr>\n\
    </table>\
    <table id=\"ctl00_MainContent_SecondScheduleTable\">\n\
    <tr><td>1<br>08:30</td><td><span><a>Databases</a></span><br><a>Lecturer E</a></td></tr>\n\
    </table></form></body></html>";

fn key(e: &GroupScheduleEntry) -> (ScheduleWeek, ScheduleDay, u8) {
    (e.week, e.day, e.index)
}

#[test]
fn fixture_tables_give_entries_in_document_order() {
    let (schedule, tokens) = group_schedule_from_html(FIXTURE).unwrap();
    assert_eq!(schedule.source, Some(GroupScheduleSource::Parser));
    let keys: Vec<_> = schedule.entries.iter().map(key).collect();
    assert_eq!(
        keys,
        vec![
            (ScheduleWeek::First, ScheduleDay::Monday, 0),
            (ScheduleWeek::First, ScheduleDay::Wednesday, 0),
            (ScheduleWeek::First, ScheduleDay::Tuesday, 1),
            (ScheduleWeek::Second, ScheduleDay::Monday, 0),
        ]
    );
    let e = &schedule.entries;
    assert_eq!(e[0].names, vec!["Algorithms"]);
    assert_eq!(e[0].lecturers, vec!["Lecturer A"]);
    assert_eq!(e[0].locations, vec!["101-18 Лек"]);
    assert_eq!(e[1].names, vec!["Math", "Math (alt)"]);
    assert_eq!(e[1].locations, vec!["7-201 Прак"]);
    assert_eq!(e[2].lecturers, vec!["Lecturer C", "Lecturer D"]);
    assert_eq!(e[2].locations, vec!["1-1", "1-2"]);
    assert_eq!(e[3].names, vec!["Databases"]);
    assert_eq!(e[3].lecturers, vec!["Lecturer E"]);
    assert!(e[3].locations.is_empty());
    assert_eq!(tokens.viewstate, "VS-token");
    assert_eq!(tokens.eventvalidation, "EV-token");
}

#[test]
fn missing_week_table_is_an_html_error() {
    let html = "<html><body><table id=\"ctl00_MainContent_FirstScheduleTable\"><tr><td>x</td></tr></table></body></html>";
    match group_schedule_from_html(html) {
        Err(RozkladParseError::HtmlParseFailed { .. }) => {}
        other => panic!("unexpected result {:?}", other),
    }
}

#[test]
fn session_tokens_are_read_from_hidden_inputs() {
    let html = "<form><input id=\"__VIEWSTATE\" value=\"abc\"><input id=\"__EVENTVALIDATION\" value=\"def\"></form>";
    let tokens = form_data_from_html(html).unwrap();
    assert_eq!(tokens.viewstate, "abc");
    assert_eq!(tokens.eventvalidation, "def");
    let missing = "<form><input id=\"__VIEWSTATE\" value=\"abc\"></form>";
    assert!(matches!(form_data_from_html(missing), Err(RozkladParseError::HtmlParseFailed { .. })));
    let no_value = "<form><input id=\"__VIEWSTATE\"><input id=\"__EVENTVALIDATION\" value=\"def\"></form>";
    assert!(matches!(form_data_from_html(no_value), Err(RozkladParseError::HtmlParseFailed { .. })));
}

fn cell(html: &str, children: Vec<CellChild>) -> TableCell {
    TableCell { inner_html: html.to_string(), children }
}

#[test]
fn cells_before_a_marker_are_skipped_and_zero_marker_sets_no_index() {
    let rows = vec![
        TableRow {
            cells: vec![
                cell("text", vec![CellChild::Span(vec!["ignored".to_string()])]),
                cell("0<br>", vec![CellChild::Break]),
                cell("text", vec![CellChild::Span(vec!["also ignored".to_string()])]),
                cell("3<br>12:20", vec![CellChild::Break]),
                cell("", vec![]),
                cell("", vec![]),
                cell(
                    "lesson",
                    vec![
                        CellChild::Link("before any break".to_string()),
                        CellChild::Span(vec!["Name".to_string()]),
                        CellChild::Other,
                        CellChild::Break,
                        CellChild::Link("Teacher".to_string()),
                        CellChild::Break,
                        CellChild::Break,
                        CellChild::Link("Room".to_string()),
                    ],
                ),
            ],
        },
    ];
    let entries = parse_week(&rows, ScheduleWeek::Second);
    assert_eq!(entries.len(), 1);
    assert_eq!(key(&entries[0]), (ScheduleWeek::Second, ScheduleDay::Wednesday, 2));
    assert_eq!(entries[0].names, vec!["Name"]);
    assert_eq!(entries[0].lecturers, vec!["Teacher"]);
    assert_eq!(entries[0].locations, vec!["Room"]);
}

#[test]
fn empty_table_gives_no_entries() {
    assert!(parse_week(&vec![], ScheduleWeek::First).is_empty());
}
