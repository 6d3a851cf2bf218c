use kpiexport::api::{api_status, schedule_from_api, ApiDay, ApiLesson, ApiTimetable, ApiWeek};
use kpiexport::errors::RozkladParseError;
use kpiexport::schedule::{GroupScheduleSource, ScheduleDay, ScheduleWeek};

fn lesson(number: &str, name: &str, rooms: &[&str], teachers: &[&str]) -> ApiLesson {
    ApiLesson {
        lesson_number: number.to_string(),
        lesson_name: name.to_string(),
        rooms: rooms.iter().map(|s| s.to_string()).collect(),
        teachers: teachers.iter().map(|s| s.to_string()).collect(),
    }
}

fn day(key: &str, lessons: Vec<ApiLesson>) -> ApiDay {
    ApiDay { day_key: key.to_string(), lessons }
}

fn week(key: &str, days: Vec<ApiDay>) -> ApiWeek {
    ApiWeek { week_key: key.to_string(), days }
}

#[test]
fn api_timetable_maps_to_zero_based_entries() {
    let t = ApiTimetable {
        weeks: vec![
            week("1", vec![day("1", vec![lesson("1", "Algorithms", &["101-18"], &["Ivanov I."])])]),
            week(
                "2",
                vec![
                    day("3", vec![lesson("2", "Math", &[], &["A.", "B."]), lesson("5", "Physics", &["1", "2"], &[])]),
                    day("+7", vec![]),
                ],
            ),
        ],
    };
    let s = schedule_from_api(&t).unwrap();
    assert_eq!(s.source, Some(GroupScheduleSource::API));
    assert_eq!(s.entries.len(), 3);
    let e = &s.entries;
    assert_eq!((e[0].week, e[0].day, e[0].index), (ScheduleWeek::First, ScheduleDay::Monday, 0));
    assert_eq!(e[0].names, vec!["Algorithms"]);
    assert_eq!(e[0].lecturers, vec!["Ivanov I."]);
    assert_eq!(e[0].locations, vec!["101-18"]);
    assert_eq!((e[1].week, e[1].day, e[1].index), (ScheduleWeek::Second, ScheduleDay::Wednesday, 1));
    assert_eq!(e[1].lecturers, vec!["A.", "B."]);
    assert!(e[1].locations.is_empty());
    assert_eq!((e[2].week, e[2].day, e[2].index), (ScheduleWeek::Second, ScheduleDay::Wednesday, 4));
    assert_eq!(e[2].locations, vec!["1", "2"]);
}

#[test]
fn api_keys_beyond_the_range_wrap() {
    let t = ApiTimetable {
        weeks: vec![week("3", vec![day("9", vec![lesson("+3", "Late", &[], &[])])])],
    };
    let s = schedule_from_api(&t).unwrap();
    assert_eq!((s.entries[0].week, s.entries[0].day, s.entries[0].index), (ScheduleWeek::First, ScheduleDay::Tuesday, 2));
}

#[test]
fn unreadable_numbers_are_errors() {
    for (wk, dk, n) in [("x", "1", "1"), ("1", "", "1"), ("1", "1", "one"), ("1", "1", "0"), ("1", "1", "256"), ("-1", "1", "1"), ("1", "1", "+")] {
        let t = ApiTimetable { weeks: vec![week(wk, vec![day(dk, vec![lesson(n, "L", &[], &[])])])] };
        assert_eq!(schedule_from_api(&t).unwrap_err(), RozkladParseError::RozkladParseError, "{} {} {}", wk, dk, n);
    }
}

#[test]
fn empty_timetable_and_unused_keys() {
    let s = schedule_from_api(&ApiTimetable { weeks: vec![] }).unwrap();
    assert!(s.entries.is_empty());
    let t = ApiTimetable { weeks: vec![week("bad", vec![]), week("1", vec![day("bad", vec![])])] };
    assert!(schedule_from_api(&t).unwrap().entries.is_empty());
}

#[test]
fn api_status_other_than_ok_is_an_error() {
    assert_eq!(api_status(200), Ok(()));
    assert_eq!(api_status(404), Err(RozkladParseError::RozkladApiErrored));
    assert_eq!(api_status(500), Err(RozkladParseError::RozkladApiErrored));
}
