//! The acquisition orchestrator: the decisions between the primary scraper and
//! the fallback API, as a step function from what just happened to what to do
//! next. The caller performs each action and reports its outcome.
use vstd::prelude::*;
use crate::errors::RozkladParseError;
use crate::schedule::{GroupSchedule, GroupScheduleSource};

verus! {

/// An academic half-year.
#[derive(Clone, Copy, Debug, PartialEq, Eq, Structural)]
pub enum Term {
    First,
    Second,
}

impl Term {
    /// The term under way in a month counted from 0 for January: the second
    /// term runs from February to July.
    pub fn for_month0(month0: u32) -> (r: Term)
        ensures
            r == (if 1 <= month0 <= 6 { Term::Second } else { Term::First }),
    {
        if 1 <= month0 && month0 <= 6 {
            Term::Second
        } else {
            Term::First
        }
    }
}

/// What happened last in an acquisition.
#[derive(Debug)]
pub enum AcquireEvent {
    /// The acquisition begins.
    Started,
    /// The primary scraper resolved (or failed to resolve) the group's id.
    IdResolved(Result<String, RozkladParseError>),
    /// The primary scraper fetched (or failed to fetch) the term's schedule.
    TermFetched(Result<GroupSchedule, RozkladParseError>),
    /// The fallback API answered (or failed).
    FallbackFetched(Result<GroupSchedule, RozkladParseError>),
}

/// What to do next.
#[derive(Debug)]
pub enum AcquireAction {
    /// Resolve the group's internal id through the primary site.
    ResolveId,
    /// Fetch the term's schedule from the primary site for this id.
    FetchTerm(String),
    /// Ask the fallback API for the group's schedule.
    FetchFallback,
    /// The acquisition is over with this result.
    Finish(Result<GroupSchedule, RozkladParseError>),
}

/// Any failure of the primary path leads to the fallback; a primary result is
/// tagged as scraped, a fallback result as coming from the API, and a fallback
/// failure is final.
pub open spec fn next_action(event: AcquireEvent) -> AcquireAction {
    match event {
        AcquireEvent::Started => AcquireAction::ResolveId,
        AcquireEvent::IdResolved(Ok(id)) => AcquireAction::FetchTerm(id),
        AcquireEvent::IdResolved(Err(_)) => AcquireAction::FetchFallback,
        AcquireEvent::TermFetched(Ok(s)) => AcquireAction::Finish(
            Ok(GroupSchedule { entries: s.entries, source: Some(GroupScheduleSource::Parser) }),
        ),
        AcquireEvent::TermFetched(Err(_)) => AcquireAction::FetchFallback,
        AcquireEvent::FallbackFetched(Ok(s)) => AcquireAction::Finish(
            Ok(GroupSchedule { entries: s.entries, source: Some(GroupScheduleSource::API) }),
        ),
        AcquireEvent::FallbackFetched(Err(e)) => AcquireAction::Finish(Err(e)),
    }
}

/// The next action of an acquisition after `event`.
pub fn acquire_step(event: AcquireEvent) -> (r: AcquireAction)
    ensures
        r == next_action(event),
{
    match event {
        AcquireEvent::Started => AcquireAction::ResolveId,
        AcquireEvent::IdResolved(Ok(id)) => AcquireAction::FetchTerm(id),
        AcquireEvent::IdResolved(Err(_)) => AcquireAction::FetchFallback,
        AcquireEvent::TermFetched(Ok(s)) => AcquireAction::Finish(
            Ok(GroupSchedule { entries: s.entries, source: Some(GroupScheduleSource::Parser) }),
        ),
        AcquireEvent::TermFetched(Err(_)) => AcquireAction::FetchFallback,
        AcquireEvent::FallbackFetched(Ok(s)) => AcquireAction::Finish(
            Ok(GroupSchedule { entries: s.entries, source: Some(GroupScheduleSource::API) }),
        ),
        AcquireEvent::FallbackFetched(Err(e)) => AcquireAction::Finish(Err(e)),
    }
}

/// Where a run of the step function ends, within `fuel` steps, when each action
/// is answered with the given outcome of id resolution, term fetch and
/// fallback.
pub open spec fn run_from(
    action: AcquireAction,
    id: Result<String, RozkladParseError>,
    term: Result<GroupSchedule, RozkladParseError>,
    fallback: Result<GroupSchedule, RozkladParseError>,
    fuel: nat,
) -> Option<Result<GroupSchedule, RozkladParseError>>
    decreases fuel,
{
    match action {
        AcquireAction::Finish(r) => Some(r),
        AcquireAction::ResolveId => if fuel == 0 {
            None
        } else {
            run_from(next_action(AcquireEvent::IdResolved(id)), id, term, fallback, (fuel - 1) as nat)
        },
        AcquireAction::FetchTerm(_) => if fuel == 0 {
            None
        } else {
            run_from(next_action(AcquireEvent::TermFetched(term)), id, term, fallback, (fuel - 1) as nat)
        },
        AcquireAction::FetchFallback => if fuel == 0 {
            None
        } else {
            run_from(next_action(AcquireEvent::FallbackFetched(fallback)), id, term, fallback, (fuel - 1) as nat)
        },
    }
}

/// The result of a whole acquisition, started afresh.
pub open spec fn acquisition_outcome(
    id: Result<String, RozkladParseError>,
    term: Result<GroupSchedule, RozkladParseError>,
    fallback: Result<GroupSchedule, RozkladParseError>,
) -> Option<Result<GroupSchedule, RozkladParseError>> {
    run_from(next_action(AcquireEvent::Started), id, term, fallback, 3)
}

/// When the primary path fails at any stage (id resolution or term fetch),
/// the acquisition ends with the fallback's entries tagged as coming from the
/// API, or with the fallback's own error.
pub proof fn lemma_primary_failure_falls_back(
    id: Result<String, RozkladParseError>,
    term: Result<GroupSchedule, RozkladParseError>,
    fallback: Result<GroupSchedule, RozkladParseError>,
)
    requires
        id is Err || term is Err,
    ensures
        acquisition_outcome(id, term, fallback) == Some(
            match fallback {
                Ok(s) => Ok(GroupSchedule { entries: s.entries, source: Some(GroupScheduleSource::API) }),
                Err(e) => Err(e),
            },
        ),
{
    reveal_with_fuel(run_from, 4);
}

/// When the primary path succeeds, the acquisition ends with its entries, in
/// their order, tagged as scraped, whatever the fallback would have answered.
pub proof fn lemma_primary_success_kept(
    id: String,
    term: GroupSchedule,
    fallback: Result<GroupSchedule, RozkladParseError>,
)
    ensures
        acquisition_outcome(Ok(id), Ok(term), fallback) == Some(
            Ok::<GroupSchedule, RozkladParseError>(
                GroupSchedule { entries: term.entries, source: Some(GroupScheduleSource::Parser) },
            ),
        ),
{
    reveal_with_fuel(run_from, 4);
}

} // verus!
