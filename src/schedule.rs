//! The normalized shape of a timetable: weeks, days, lesson entries and where
//! a schedule came from.
use vstd::prelude::*;
use vstd::string::*;
use crate::text::{has_pattern, same_text, text_contains};

verus! {

/// A day of the week. Lessons never fall on Sunday, but it is kept so that
/// day numbers wrap around a full week.
#[derive(Clone, Copy, Debug, PartialEq, Eq, Structural)]
pub enum ScheduleDay {
    Monday,
    Tuesday,
    Wednesday,
    Thursday,
    Friday,
    Saturday,
    Sunday,
}

/// Zero-based position of a day in the week, Monday first.
pub open spec fn day_index(d: ScheduleDay) -> nat {
    match d {
        ScheduleDay::Monday => 0,
        ScheduleDay::Tuesday => 1,
        ScheduleDay::Wednesday => 2,
        ScheduleDay::Thursday => 3,
        ScheduleDay::Friday => 4,
        ScheduleDay::Saturday => 5,
        ScheduleDay::Sunday => 6,
    }
}

/// The day at a zero-based position, counted modulo the week.
pub open spec fn day_at(i: nat) -> ScheduleDay {
    let k = i % 7;
    if k == 0 {
        ScheduleDay::Monday
    } else if k == 1 {
        ScheduleDay::Tuesday
    } else if k == 2 {
        ScheduleDay::Wednesday
    } else if k == 3 {
        ScheduleDay::Thursday
    } else if k == 4 {
        ScheduleDay::Friday
    } else if k == 5 {
        ScheduleDay::Saturday
    } else {
        ScheduleDay::Sunday
    }
}

/// One of the two alternating weeks of a term.
#[derive(Clone, Copy, Debug, PartialEq, Eq, Structural)]
pub enum ScheduleWeek {
    First,
    Second,
}

pub open spec fn week_index(w: ScheduleWeek) -> nat {
    match w {
        ScheduleWeek::First => 0,
        ScheduleWeek::Second => 1,
    }
}

/// The week at a zero-based position, counted modulo two.
pub open spec fn week_at(i: nat) -> ScheduleWeek {
    if i % 2 == 0 {
        ScheduleWeek::First
    } else {
        ScheduleWeek::Second
    }
}

impl ScheduleDay {
    /// The following day; Sunday is followed by Monday.
    pub fn next(&self) -> (r: Self)
        ensures
            r == day_at(day_index(*self) + 1),
    {
        match self {
            ScheduleDay::Monday => ScheduleDay::Tuesday,
            ScheduleDay::Tuesday => ScheduleDay::Wednesday,
            ScheduleDay::Wednesday => ScheduleDay::Thursday,
            ScheduleDay::Thursday => ScheduleDay::Friday,
            ScheduleDay::Friday => ScheduleDay::Saturday,
            ScheduleDay::Saturday => ScheduleDay::Sunday,
            ScheduleDay::Sunday => ScheduleDay::Monday,
        }
    }

    /// The day of a one-based day number (1 is Monday); numbers past 7 wrap
    /// around the week, and 0 stands for Sunday.
    pub fn from_api_index(index: u8) -> (r: Self)
        ensures
            r == day_at(index as nat + 6),
    {
        ScheduleDay::from_index(((index as u16 + 6) % 7) as u8)
    }

    /// Zero-based position in the week, as stored.
    pub fn to_index(&self) -> (r: u8)
        ensures
            r as nat == day_index(*self),
    {
        match self {
            ScheduleDay::Monday => 0,
            ScheduleDay::Tuesday => 1,
            ScheduleDay::Wednesday => 2,
            ScheduleDay::Thursday => 3,
            ScheduleDay::Friday => 4,
            ScheduleDay::Saturday => 5,
            ScheduleDay::Sunday => 6,
        }
    }

    /// The day at a stored zero-based position, counted modulo the week.
    pub fn from_index(index: u8) -> (r: Self)
        ensures
            r == day_at(index as nat),
    {
        let k = index % 7;
        if k == 0 {
            ScheduleDay::Monday
        } else if k == 1 {
            ScheduleDay::Tuesday
        } else if k == 2 {
            ScheduleDay::Wednesday
        } else if k == 3 {
            ScheduleDay::Thursday
        } else if k == 4 {
            ScheduleDay::Friday
        } else if k == 5 {
            ScheduleDay::Saturday
        } else {
            ScheduleDay::Sunday
        }
    }
}

impl ScheduleWeek {
    /// The week of a one-based week number; numbers past 2 wrap around, and 0
    /// stands for the second week.
    pub fn from_api_index(index: u8) -> (r: Self)
        ensures
            r == week_at(index as nat + 1),
    {
        if index % 2 == 1 {
            ScheduleWeek::First
        } else {
            ScheduleWeek::Second
        }
    }

    /// Zero-based position, as stored.
    pub fn to_index(&self) -> (r: u8)
        ensures
            r as nat == week_index(*self),
    {
        match self {
            ScheduleWeek::First => 0,
            ScheduleWeek::Second => 1,
        }
    }

    /// The week at a stored zero-based position, counted modulo two.
    pub fn from_index(index: u8) -> (r: Self)
        ensures
            r == week_at(index as nat),
    {
        if index % 2 == 0 {
            ScheduleWeek::First
        } else {
            ScheduleWeek::Second
        }
    }
}

/// Day and week numbers survive the trip to a stored index and back: a
/// one-based day number in 1..=7 (week number in 1..=2) becomes its stored
/// index, and one more than that index is the number again. A number out of
/// that range names the same day (week) as the in-range number with the same
/// remainder, and a stored day or week read back is itself.
pub proof fn lemma_index_round_trip(n: nat, d: ScheduleDay, w: ScheduleWeek)
    ensures
        1 <= n <= 7 ==> day_index(day_at(n + 6)) + 1 == n,
        1 <= n <= 2 ==> week_index(week_at(n + 1)) + 1 == n,
        1 <= (n + 6) % 7 + 1 <= 7,
        day_at(n + 6) == day_at(((n + 6) % 7 + 1) + 6),
        1 <= (n + 1) % 2 + 1 <= 2,
        week_at(n + 1) == week_at(((n + 1) % 2 + 1) + 1),
        day_at(day_index(d)) == d,
        week_at(week_index(w)) == w,
{
    assert(((n + 6) % 7 + 1 + 6) % 7 == (n + 6) % 7) by (nonlinear_arith);
    assert(((n + 1) % 2 + 1 + 1) % 2 == (n + 1) % 2) by (nonlinear_arith);
}

/// Identifier of a subject in the subject catalog.
#[derive(Clone, Copy, Debug, PartialEq, Eq, Structural)]
pub struct SubjectId(pub i32);

impl SubjectId {
    pub fn new(id: i32) -> (r: Self)
        ensures
            r.0 == id,
    {
        SubjectId(id)
    }
}

/// The characters of each text of a list.
pub open spec fn texts(v: Seq<String>) -> Seq<Seq<char>> {
    v.map_values(|s: String| s@)
}

/// A copy of a list of texts.
pub fn copy_texts(v: &Vec<String>) -> (r: Vec<String>)
    ensures
        texts(r@) == texts(v@),
{
    let mut r: Vec<String> = Vec::new();
    let mut i: usize = 0;
    while i < v.len()
        invariant
            i <= v@.len(),
            texts(r@) == texts(v@.subrange(0, i as int)),
        decreases v@.len() - i,
    {
        let ghost before = r@;
        r.push(v[i].clone());
        assert(texts(r@) =~= texts(before).push(v@[i as int]@));
        assert(texts(v@.subrange(0, i + 1)) =~= texts(v@.subrange(0, i as int)).push(v@[i as int]@));
        i = i + 1;
    }
    assert(v@.subrange(0, i as int) =~= v@);
    r
}

/// One lesson slot: which week and day, the zero-based lesson index, and the
/// subject names, lecturers and locations listed for it, in source order.
#[derive(Clone, Debug)]
pub struct GroupScheduleEntry {
    pub subject_id: Option<SubjectId>,
    pub week: ScheduleWeek,
    pub day: ScheduleDay,
    pub index: u8,
    pub names: Vec<String>,
    pub lecturers: Vec<String>,
    pub locations: Vec<String>,
}

/// What an entry holds, with its texts as character sequences.
pub struct EntryView {
    pub subject_id: Option<SubjectId>,
    pub week: ScheduleWeek,
    pub day: ScheduleDay,
    pub index: u8,
    pub names: Seq<Seq<char>>,
    pub lecturers: Seq<Seq<char>>,
    pub locations: Seq<Seq<char>>,
}

impl View for GroupScheduleEntry {
    type V = EntryView;

    open spec fn view(&self) -> EntryView {
        EntryView {
            subject_id: self.subject_id,
            week: self.week,
            day: self.day,
            index: self.index,
            names: texts(self.names@),
            lecturers: texts(self.lecturers@),
            locations: texts(self.locations@),
        }
    }
}

/// An entry for a slot, with no subject and empty lists.
pub open spec fn empty_entry(week: ScheduleWeek, day: ScheduleDay, index: u8) -> EntryView {
    EntryView {
        subject_id: None,
        week,
        day,
        index,
        names: Seq::empty(),
        lecturers: Seq::empty(),
        locations: Seq::empty(),
    }
}

/// What a list of entries holds.
pub open spec fn entry_views(v: Seq<GroupScheduleEntry>) -> Seq<EntryView> {
    v.map_values(|e: GroupScheduleEntry| e@)
}

impl GroupScheduleEntry {
    pub fn new(week: ScheduleWeek, day: ScheduleDay, index: u8) -> (r: Self)
        ensures
            r@ == empty_entry(week, day, index),
    {
        let r = GroupScheduleEntry {
            subject_id: None,
            week,
            day,
            index,
            names: Vec::new(),
            lecturers: Vec::new(),
            locations: Vec::new(),
        };
        assert(r@.names =~= Seq::<Seq<char>>::empty());
        assert(r@.lecturers =~= Seq::<Seq<char>>::empty());
        assert(r@.locations =~= Seq::<Seq<char>>::empty());
        r
    }

    pub fn with_names(self, names: Vec<String>) -> (r: Self)
        ensures
            r@ == (EntryView { names: texts(names@), ..self@ }),
    {
        GroupScheduleEntry { names, ..self }
    }

    pub fn with_lecturers(self, lecturers: Vec<String>) -> (r: Self)
        ensures
            r@ == (EntryView { lecturers: texts(lecturers@), ..self@ }),
    {
        GroupScheduleEntry { lecturers, ..self }
    }

    pub fn with_locations(self, locations: Vec<String>) -> (r: Self)
        ensures
            r@ == (EntryView { locations: texts(locations@), ..self@ }),
    {
        GroupScheduleEntry { locations, ..self }
    }

    pub fn with_subject_id(self, subject_id: SubjectId) -> (r: Self)
        ensures
            r@ == (EntryView { subject_id: Some(subject_id), ..self@ }),
    {
        GroupScheduleEntry { subject_id: Some(subject_id), ..self }
    }

    pub fn locations(&self) -> (r: &Vec<String>)
        ensures
            r@ == self.locations@,
    {
        &self.locations
    }

    pub fn subject_id(&self) -> (r: &Option<SubjectId>)
        ensures
            *r == self.subject_id,
    {
        &self.subject_id
    }

    pub fn names(&self) -> (r: &Vec<String>)
        ensures
            r@ == self.names@,
    {
        &self.names
    }
}

/// Where a schedule snapshot was acquired: the primary site's pages or the
/// fallback JSON API.
#[derive(Clone, Copy, Debug, PartialEq, Eq, Structural)]
pub enum GroupScheduleSource {
    Parser,
    API,
}

/// The stored name of a source.
pub open spec fn source_name(s: GroupScheduleSource) -> Seq<char> {
    match s {
        GroupScheduleSource::Parser => "parser"@,
        GroupScheduleSource::API => "api"@,
    }
}

/// The source that a stored name stands for.
pub open spec fn source_of_name(name: Seq<char>) -> Option<GroupScheduleSource> {
    if name == "parser"@ {
        Some(GroupScheduleSource::Parser)
    } else if name == "api"@ {
        Some(GroupScheduleSource::API)
    } else {
        None
    }
}

impl GroupScheduleSource {
    pub fn to_string(&self) -> (r: String)
        ensures
            r@ == source_name(*self),
    {
        match self {
            GroupScheduleSource::Parser => String::from_str("parser"),
            GroupScheduleSource::API => String::from_str("api"),
        }
    }

    pub fn from_string(name: &str) -> (r: Option<Self>)
        ensures
            r == source_of_name(name@),
    {
        if same_text(name, "parser") {
            Some(GroupScheduleSource::Parser)
        } else if same_text(name, "api") {
            Some(GroupScheduleSource::API)
        } else {
            None
        }
    }
}

/// A group's timetable: its entries in order and, once known, where they came
/// from.
#[derive(Clone, Debug)]
pub struct GroupSchedule {
    pub entries: Vec<GroupScheduleEntry>,
    pub source: Option<GroupScheduleSource>,
}

/// The kind of a class, as marked in its location text.
#[derive(Clone, Copy, Debug, PartialEq, Eq, Structural)]
pub enum LectureType {
    Lecture,
    Practice,
    Lab,
}

/// The kind that a location text marks: a lecture mark wins over a practice
/// mark, which wins over a lab mark.
pub open spec fn lecture_type_of(location: Seq<char>) -> Option<LectureType> {
    if has_pattern(location, "Лек"@) {
        Some(LectureType::Lecture)
    } else if has_pattern(location, "Прак"@) {
        Some(LectureType::Practice)
    } else if has_pattern(location, "Лаб"@) {
        Some(LectureType::Lab)
    } else {
        None
    }
}

pub open spec fn lecture_type_label(t: LectureType) -> Seq<char> {
    match t {
        LectureType::Lecture => "Лекция"@,
        LectureType::Lab => "Лаба"@,
        LectureType::Practice => "Практика"@,
    }
}

impl LectureType {
    pub fn from_location(location: &str) -> (r: Option<Self>)
        ensures
            r == lecture_type_of(location@),
    {
        if text_contains(location, "Лек") {
            Some(LectureType::Lecture)
        } else if text_contains(location, "Прак") {
            Some(LectureType::Practice)
        } else if text_contains(location, "Лаб") {
            Some(LectureType::Lab)
        } else {
            None
        }
    }

    /// A label for people to read.
    pub fn to_human(&self) -> (r: String)
        ensures
            r@ == lecture_type_label(*self),
    {
        match self {
            LectureType::Lecture => String::from_str("Лекция"),
            LectureType::Lab => String::from_str("Лаба"),
            LectureType::Practice => String::from_str("Практика"),
        }
    }
}

} // verus!
