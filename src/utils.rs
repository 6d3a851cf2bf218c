//! Small helpers of the primary scraper and of the refresh policy.
use vstd::prelude::*;
use vstd::string::*;
use chrono::{Datelike, Utc};
use crate::acquire::Term;
use crate::errors::RozkladParseError;
use crate::text::{chars_of, find_pattern, first_occurrence, has_pattern, occurs_at};

verus! {

/// What precedes a group's internal identifier in the schedule page's URL.
pub open spec fn group_id_marker() -> Seq<char> {
    "ViewSchedule.aspx?g="@
}

/// The internal group identifier embedded in a schedule page URL: all that
/// follows the first occurrence of the marker; an error where the marker is
/// absent.
pub fn group_id_from_url(url: &str) -> (r: Result<String, RozkladParseError>)
    ensures
        r.is_ok() <==> has_pattern(url@, group_id_marker()),
        match r {
            Ok(id) => exists|i: int|
                first_occurrence(url@, group_id_marker(), i) && id@ == url@.subrange(
                    i + group_id_marker().len(),
                    url@.len() as int,
                ),
            Err(e) => e == RozkladParseError::FailedToParseGroupId,
        },
{
    let marker = "ViewSchedule.aspx?g=";
    let uc = chars_of(url);
    let mc = chars_of(marker);
    match find_pattern(&uc, &mc) {
        None => Err(RozkladParseError::FailedToParseGroupId),
        Some(i) => {
            assert(occurs_at(uc@, mc@, i as int));
            assert(uc@.len() == uc.len());
            let id = url.substring_char(i + mc.len(), uc.len());
            assert(mc@ == group_id_marker());
            assert(first_occurrence(url@, group_id_marker(), i as int));
            Ok(String::from_str(id))
        },
    }
}

/// Months (counted from 0 for January) next to a term boundary, when
/// timetables change often: January, February, August and September.
pub open spec fn hot_month0(month0: u32) -> bool {
    month0 <= 1 || month0 == 7 || month0 == 8
}

/// Whether a month, counted from 0 for January, is a hot month.
pub fn is_hot_month0(month0: u32) -> (r: bool)
    ensures
        r == hot_month0(month0),
{
    month0 <= 1 || month0 == 7 || month0 == 8
}

/// Relies on chrono's Utc::now and Datelike::month0: the current month in UTC,
/// counted from 0, which chrono documents to lie in 0..=11.
#[verifier::external_body]
fn current_month0() -> (r: u32)
    ensures
        r < 12,
{
    Utc::now().month0()
}

/// Whether the current month (in UTC) is a hot month; which month it is
/// depends on the clock, so the result is that of `is_hot_month0` on it.
pub fn is_hot_month() -> (r: bool) {
    let m = current_month0();
    is_hot_month0(m)
}

/// The term under way now (in UTC), by `Term::for_month0` on the current
/// month.
pub fn current_term() -> (r: Term) {
    Term::for_month0(current_month0())
}

} // verus!
