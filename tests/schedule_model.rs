use kpiexport::schedule::{
    GroupScheduleEntry, GroupScheduleSource, LectureType, ScheduleDay, ScheduleWeek, SubjectId,
};

const DAYS: [ScheduleDay; 7] = [
    ScheduleDay::Monday,
    ScheduleDay::Tuesday,
    ScheduleDay::Wednesday,
    ScheduleDay::Thursday,
    ScheduleDay::Friday,
    ScheduleDay::Saturday,
    ScheduleDay::Sunday,
];

#[test]
fn day_numbers_round_trip() {
    for n in 1u8..=7 {
        let day = ScheduleDay::from_api_index(n);
        assert_eq!(day, DAYS[(n - 1) as usize]);
        assert_eq!(day.to_index() + 1, n);
        assert_eq!(ScheduleDay::from_index(day.to_index()), day);
    }
}

#[test]
fn week_numbers_round_trip() {
    assert_eq!(ScheduleWeek::from_api_index(1), ScheduleWeek::First);
    assert_eq!(ScheduleWeek::from_api_index(2), ScheduleWeek::Second);
    for n in 1u8..=2 {
        let week = ScheduleWeek::from_api_index(n);
        assert_eq!(week.to_index() + 1, n);
        assert_eq!(ScheduleWeek::from_index(week.to_index()), week);
    }
}

#[test]
fn out_of_range_numbers_wrap() {
    assert_eq!(ScheduleDay::from_api_index(8), ScheduleDay::Monday);
    assert_eq!(ScheduleDay::from_api_index(10), ScheduleDay::Wednesday);
    assert_eq!(ScheduleDay::from_api_index(0), ScheduleDay::Sunday);
    assert_eq!(ScheduleDay::from_api_index(255), ScheduleDay::from_api_index(3));
    assert_eq!(ScheduleWeek::from_api_index(3), ScheduleWeek::First);
    assert_eq!(ScheduleWeek::from_api_index(4), ScheduleWeek::Second);
    assert_eq!(ScheduleWeek::from_api_index(0), ScheduleWeek::Second);
    assert_eq!(ScheduleDay::from_index(7), ScheduleDay::Monday);
    assert_eq!(ScheduleDay::from_index(255), ScheduleDay::from_index(3));
    assert_eq!(ScheduleWeek::from_index(2), ScheduleWeek::First);
}

#[test]
fn next_day_wraps_after_sunday() {
    assert_eq!(ScheduleDay::Monday.next(), ScheduleDay::Tuesday);
    assert_eq!(ScheduleDay::Saturday.next(), ScheduleDay::Sunday);
    assert_eq!(ScheduleDay::Sunday.next(), ScheduleDay::Monday);
}

#[test]
fn source_names() {
    assert_eq!(GroupScheduleSource::Parser.to_string(), "parser");
    assert_eq!(GroupScheduleSource::API.to_string(), "api");
    assert_eq!(GroupScheduleSource::from_string("parser"), Some(GroupScheduleSource::Parser));
    assert_eq!(GroupScheduleSource::from_string("api"), Some(GroupScheduleSource::API));
    assert_eq!(GroupScheduleSource::from_string("API"), None);
    assert_eq!(GroupScheduleSource::from_string(""), None);
}

#[test]
fn lecture_types_from_locations() {
    assert_eq!(LectureType::from_location("101-18 Лек"), Some(LectureType::Lecture));
    assert_eq!(LectureType::from_location("7-201 Прак"), Some(LectureType::Practice));
    assert_eq!(LectureType::from_location("Лаб 3"), Some(LectureType::Lab));
    assert_eq!(LectureType::from_location("Лаб Лек"), Some(LectureType::Lecture));
    assert_eq!(LectureType::from_location("room 5"), None);
    assert_eq!(LectureType::Lecture.to_human(), "Лекция");
    assert_eq!(LectureType::Practice.to_human(), "Практика");
    assert_eq!(LectureType::Lab.to_human(), "Лаба");
}

#[test]
fn entry_builders_set_fields() {
    let e = GroupScheduleEntry::new(ScheduleWeek::Second, ScheduleDay::Friday, 3)
        .with_names(vec!["Algorithms".to_string()])
        .with_lecturers(vec!["A. B.".to_string()])
        .with_locations(vec!["101-18".to_string(), "102-18".to_string()])
        .with_subject_id(SubjectId::new(42));
    assert_eq!(e.week, ScheduleWeek::Second);
    assert_eq!(e.day, ScheduleDay::Friday);
    assert_eq!(e.index, 3);
    assert_eq!(e.names(), &vec!["Algorithms".to_string()]);
    assert_eq!(e.lecturers, vec!["A. B.".to_string()]);
    assert_eq!(e.locations().len(), 2);
    assert_eq!(e.subject_id(), &Some(SubjectId::new(42)));
    let bare = GroupScheduleEntry::new(ScheduleWeek::First, ScheduleDay::Monday, 0);
    assert!(bare.names().is_empty());
    assert!(bare.locations().is_empty());
    assert_eq!(bare.subject_id(), &None);
}
