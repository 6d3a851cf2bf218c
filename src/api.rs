//! The fallback JSON API client's own logic: mapping a decoded timetable,
//! keyed by one-based week, day and lesson numbers, into schedule entries.
use vstd::prelude::*;
use crate::errors::RozkladParseError;
use crate::schedule::{
    copy_texts,
    day_at, entry_views, texts, week_at, EntryView, GroupSchedule, GroupScheduleEntry,
    GroupScheduleSource, ScheduleDay, ScheduleWeek,
};
use crate::text::{parse_u8, u8_of_text};

verus! {

/// One lesson of the API's timetable.
#[derive(Clone, Debug)]
pub struct ApiLesson {
    pub lesson_number: String,
    pub lesson_name: String,
    pub rooms: Vec<String>,
    pub teachers: Vec<String>,
}

/// The lessons of one day, under the day's key.
#[derive(Clone, Debug)]
pub struct ApiDay {
    pub day_key: String,
    pub lessons: Vec<ApiLesson>,
}

/// The days of one week, under the week's key.
#[derive(Clone, Debug)]
pub struct ApiWeek {
    pub week_key: String,
    pub days: Vec<ApiDay>,
}

/// A decoded API timetable.
#[derive(Clone, Debug)]
pub struct ApiTimetable {
    pub weeks: Vec<ApiWeek>,
}

/// The entry of one lesson: week and day keys are one-based numbers that wrap
/// around, the lesson number is one-based and becomes a zero-based index.
/// `None` where a number does not read, or the lesson number is 0.
pub open spec fn lesson_entry(week_key: Seq<char>, day_key: Seq<char>, l: ApiLesson) -> Option<EntryView> {
    let w = u8_of_text(week_key);
    let d = u8_of_text(day_key);
    let n = u8_of_text(l.lesson_number@);
    if w.is_some() && d.is_some() && n.is_some() && n.unwrap() >= 1 {
        Some(
            EntryView {
                subject_id: None,
                week: week_at(w.unwrap() as nat + 1),
                day: day_at(d.unwrap() as nat + 6),
                index: (n.unwrap() - 1) as u8,
                names: seq![l.lesson_name@],
                lecturers: texts(l.teachers@),
                locations: texts(l.rooms@),
            },
        )
    } else {
        None
    }
}

pub open spec fn lessons_entries(week_key: Seq<char>, day_key: Seq<char>, ls: Seq<ApiLesson>) -> Option<Seq<EntryView>>
    decreases ls.len(),
{
    if ls.len() == 0 {
        Some(Seq::empty())
    } else {
        let a = lessons_entries(week_key, day_key, ls.drop_last());
        let e = lesson_entry(week_key, day_key, ls.last());
        if a.is_some() && e.is_some() {
            Some(a.unwrap().push(e.unwrap()))
        } else {
            None
        }
    }
}

pub open spec fn days_entries(week_key: Seq<char>, ds: Seq<ApiDay>) -> Option<Seq<EntryView>>
    decreases ds.len(),
{
    if ds.len() == 0 {
        Some(Seq::empty())
    } else {
        let a = days_entries(week_key, ds.drop_last());
        let b = lessons_entries(week_key, ds.last().day_key@, ds.last().lessons@);
        if a.is_some() && b.is_some() {
            Some(a.unwrap() + b.unwrap())
        } else {
            None
        }
    }
}

/// The entries of a timetable, weeks, days and lessons in the given order;
/// `None` where any lesson's numbers do not read.
pub open spec fn weeks_entries(ws: Seq<ApiWeek>) -> Option<Seq<EntryView>>
    decreases ws.len(),
{
    if ws.len() == 0 {
        Some(Seq::empty())
    } else {
        let a = weeks_entries(ws.drop_last());
        let b = days_entries(ws.last().week_key@, ws.last().days@);
        if a.is_some() && b.is_some() {
            Some(a.unwrap() + b.unwrap())
        } else {
            None
        }
    }
}

fn lesson_to_entry(week_key: &String, day_key: &String, l: &ApiLesson) -> (r: Option<GroupScheduleEntry>)
    ensures
        match r {
            Some(e) => lesson_entry(week_key@, day_key@, *l) == Some(e@),
            None => lesson_entry(week_key@, day_key@, *l).is_none(),
        },
{
    let w = parse_u8(week_key.as_str());
    let d = parse_u8(day_key.as_str());
    let n = parse_u8(l.lesson_number.as_str());
    match (w, d, n) {
        (Some(w), Some(d), Some(n)) => {
            if n == 0 {
                return None;
            }
            let mut names: Vec<String> = Vec::new();
            names.push(l.lesson_name.clone());
            assert(texts(names@) =~= seq![l.lesson_name@]);
            let e = GroupScheduleEntry::new(ScheduleWeek::from_api_index(w), ScheduleDay::from_api_index(d), n - 1)
                .with_names(names)
                .with_lecturers(copy_texts(&l.teachers))
                .with_locations(copy_texts(&l.rooms));
            Some(e)
        },
        _ => None,
    }
}

fn push_lessons(
    week_key: &String,
    day_key: &String,
    lessons: &Vec<ApiLesson>,
    entries: &mut Vec<GroupScheduleEntry>,
) -> (ok: bool)
    ensures
        ok == lessons_entries(week_key@, day_key@, lessons@).is_some(),
        ok ==> entry_views(final(entries)@) == entry_views(old(entries)@) + lessons_entries(
            week_key@,
            day_key@,
            lessons@,
        ).unwrap(),
{
    let ghost start = entry_views(entries@);
    let mut i: usize = 0;
    assert(start + Seq::<EntryView>::empty() =~= start);
    while i < lessons.len()
        invariant
            i <= lessons@.len(),
            lessons_entries(week_key@, day_key@, lessons@.subrange(0, i as int)).is_some(),
            entry_views(entries@) == start + lessons_entries(week_key@, day_key@, lessons@.subrange(0, i as int)).unwrap(),
        decreases lessons@.len() - i,
    {
        let ghost pre = lessons@.subrange(0, i as int);
        let ghost cur = lessons@.subrange(0, i + 1);
        assert(cur.drop_last() =~= pre);
        assert(cur.last() == lessons@[i as int]);
        match lesson_to_entry(week_key, day_key, &lessons[i]) {
            None => {
                proof {
                    lemma_lessons_fail(week_key@, day_key@, lessons@, i as int);
                }
                return false;
            },
            Some(e) => {
                let ghost before = entries@;
                entries.push(e);
                assert(entry_views(entries@) =~= entry_views(before).push(e@));
            },
        }
        i = i + 1;
    }
    assert(lessons@.subrange(0, i as int) =~= lessons@);
    true
}

proof fn lemma_lessons_fail(week_key: Seq<char>, day_key: Seq<char>, ls: Seq<ApiLesson>, i: int)
    requires
        0 <= i < ls.len(),
        lesson_entry(week_key, day_key, ls[i]).is_none(),
    ensures
        lessons_entries(week_key, day_key, ls).is_none(),
    decreases ls.len(),
{
    if i < ls.len() - 1 {
        assert(ls.drop_last()[i] == ls[i]);
        lemma_lessons_fail(week_key, day_key, ls.drop_last(), i);
    }
}

proof fn lemma_days_fail(week_key: Seq<char>, ds: Seq<ApiDay>, i: int)
    requires
        0 <= i < ds.len(),
        lessons_entries(week_key, ds[i].day_key@, ds[i].lessons@).is_none(),
    ensures
        days_entries(week_key, ds).is_none(),
    decreases ds.len(),
{
    if i < ds.len() - 1 {
        assert(ds.drop_last()[i] == ds[i]);
        lemma_days_fail(week_key, ds.drop_last(), i);
    }
}

proof fn lemma_weeks_fail(ws: Seq<ApiWeek>, i: int)
    requires
        0 <= i < ws.len(),
        days_entries(ws[i].week_key@, ws[i].days@).is_none(),
    ensures
        weeks_entries(ws).is_none(),
    decreases ws.len(),
{
    if i < ws.len() - 1 {
        assert(ws.drop_last()[i] == ws[i]);
        lemma_weeks_fail(ws.drop_last(), i);
    }
}

fn push_days(week_key: &String, days: &Vec<ApiDay>, entries: &mut Vec<GroupScheduleEntry>) -> (ok: bool)
    ensures
        ok == days_entries(week_key@, days@).is_some(),
        ok ==> entry_views(final(entries)@) == entry_views(old(entries)@) + days_entries(week_key@, days@).unwrap(),
{
    let ghost start = entry_views(entries@);
    let mut i: usize = 0;
    assert(start + Seq::<EntryView>::empty() =~= start);
    while i < days.len()
        invariant
            i <= days@.len(),
            days_entries(week_key@, days@.subrange(0, i as int)).is_some(),
            entry_views(entries@) == start + days_entries(week_key@, days@.subrange(0, i as int)).unwrap(),
        decreases days@.len() - i,
    {
        let ghost pre = days@.subrange(0, i as int);
        let ghost cur = days@.subrange(0, i + 1);
        assert(cur.drop_last() =~= pre);
        assert(cur.last() == days@[i as int]);
        let ghost mid = entry_views(entries@);
        if !push_lessons(week_key, &days[i].day_key, &days[i].lessons, entries) {
            proof {
                lemma_days_fail(week_key@, days@, i as int);
            }
            return false;
        }
        assert(entry_views(entries@) =~= start + days_entries(week_key@, cur).unwrap());
        i = i + 1;
    }
    assert(days@.subrange(0, i as int) =~= days@);
    true
}

/// The schedule of a decoded API timetable, tagged as coming from the API; a
/// number-parse error where any lesson's week key, day key or lesson number
/// does not read as a byte, or the lesson number is 0.
pub fn schedule_from_api(timetable: &ApiTimetable) -> (r: Result<GroupSchedule, RozkladParseError>)
    ensures
        match weeks_entries(timetable.weeks@) {
            Some(es) => r matches Ok(s) && entry_views(s.entries@) == es && s.source == Some(
                GroupScheduleSource::API,
            ),
            None => r == Err::<GroupSchedule, RozkladParseError>(RozkladParseError::RozkladParseError),
        },
{
    let mut entries: Vec<GroupScheduleEntry> = Vec::new();
    let mut i: usize = 0;
    assert(entry_views(entries@) =~= Seq::<EntryView>::empty());
    while i < timetable.weeks.len()
        invariant
            i <= timetable.weeks@.len(),
            weeks_entries(timetable.weeks@.subrange(0, i as int)).is_some(),
            entry_views(entries@) == weeks_entries(timetable.weeks@.subrange(0, i as int)).unwrap(),
        decreases timetable.weeks@.len() - i,
    {
        let ghost pre = timetable.weeks@.subrange(0, i as int);
        let ghost cur = timetable.weeks@.subrange(0, i + 1);
        assert(cur.drop_last() =~= pre);
        assert(cur.last() == timetable.weeks@[i as int]);
        if !push_days(&timetable.weeks[i].week_key, &timetable.weeks[i].days, &mut entries) {
            proof {
                lemma_weeks_fail(timetable.weeks@, i as int);
            }
            return Err(RozkladParseError::RozkladParseError);
        }
        i = i + 1;
    }
    assert(timetable.weeks@.subrange(0, i as int) =~= timetable.weeks@);
    Ok(GroupSchedule { entries, source: Some(GroupScheduleSource::API) })
}

/// The outcome of the API's status code: success only on 200.
pub fn api_status(status: u16) -> (r: Result<(), RozkladParseError>)
    ensures
        status == 200 ==> r is Ok,
        status != 200 ==> r == Err::<(), RozkladParseError>(RozkladParseError::RozkladApiErrored),
{
    if status == 200 {
        Ok(())
    } else {
        Err(RozkladParseError::RozkladApiErrored)
    }
}

} // verus!
