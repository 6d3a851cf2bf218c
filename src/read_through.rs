//! The on-demand read of a group's schedule: serve fresh cached rows, else
//! acquire the schedule, store it as a whole snapshot and serve it. The caller
//! performs each action and reports its outcome.
use vstd::prelude::*;
use crate::cache::{
    cached_schedule, insert_ops, op_views, readable_entries, readable_source, replace_group_snapshot,
    snapshot_rows_of, OpView, StoreOp, StoredRow,
};
use crate::errors::{DatabaseError, RozkladParseError};
use crate::schedule::{entry_views, GroupSchedule};

verus! {

/// What happened last in a read.
#[derive(Debug)]
pub enum ReadEvent {
    /// The read begins.
    Started,
    /// The group's stored rows were fetched, or the query failed.
    CacheRead(Result<Vec<StoredRow>, DatabaseError>),
    /// The acquisition ended.
    Acquired(Result<GroupSchedule, RozkladParseError>),
    /// The snapshot write was attempted (its failure is only logged); the
    /// schedule to serve is handed back.
    Stored(GroupSchedule),
}

/// What to do next.
#[derive(Debug)]
pub enum ReadAction {
    /// Fetch the group's stored rows.
    ReadCache,
    /// Acquire the group's schedule afresh.
    Acquire,
    /// Run these writes as one transaction, then report `Stored` with the
    /// schedule.
    Store(Vec<StoreOp>, GroupSchedule),
    /// Answer with this result.
    Respond(Result<GroupSchedule, RozkladParseError>),
}

/// The next action of a read of `group_name` at time `now` after `event`: a
/// failed cache query counts as a miss, a failed acquisition is the answer, and
/// a schedule that cannot be stored is served all the same.
pub fn read_step(group_name: &str, now: i64, event: ReadEvent) -> (r: ReadAction)
    ensures
        match event {
            ReadEvent::Started => r is ReadCache,
            ReadEvent::CacheRead(Err(_)) => r is Acquire,
            ReadEvent::CacheRead(Ok(rows)) => match readable_source(rows@, now as int) {
                None => r is Acquire,
                Some(src) => r matches ReadAction::Respond(Ok(s)) && s.source == Some(src) && entry_views(
                    s.entries@,
                ) == readable_entries(rows@, now as int),
            },
            ReadEvent::Acquired(Err(e)) => r == ReadAction::Respond(Err(e)),
            ReadEvent::Acquired(Ok(s)) => match s.source {
                None => r == ReadAction::Respond(Ok(s)),
                Some(src) => r matches ReadAction::Store(ops, t) && t == s && op_views(ops@) == seq![
                    OpView::DeleteGroup(group_name@),
                ] + insert_ops(snapshot_rows_of(group_name@, src, entry_views(s.entries@))),
            },
            ReadEvent::Stored(s) => r == ReadAction::Respond(Ok(s)),
        },
{
    match event {
        ReadEvent::Started => ReadAction::ReadCache,
        ReadEvent::CacheRead(Err(_)) => ReadAction::Acquire,
        ReadEvent::CacheRead(Ok(rows)) => match cached_schedule(&rows, now) {
            None => ReadAction::Acquire,
            Some(s) => ReadAction::Respond(Ok(s)),
        },
        ReadEvent::Acquired(Err(e)) => ReadAction::Respond(Err(e)),
        ReadEvent::Acquired(Ok(s)) => match replace_group_snapshot(group_name, &s) {
            Ok(ops) => ReadAction::Store(ops, s),
            Err(_) => ReadAction::Respond(Ok(s)),
        },
        ReadEvent::Stored(s) => ReadAction::Respond(Ok(s)),
    }
}

} // verus!
