//! The staleness cache's policy: when cached rows may be read, which groups a
//! refresh batch takes, the rows a schedule is stored as, the operations that
//! replace one group's snapshot as a whole, and the group catalog's rules.
use vstd::prelude::*;
use crate::errors::PersistenceError;
use crate::schedule::{
    copy_texts,
    day_at, day_index, entry_views, source_name, source_of_name, texts, week_at, week_index,
    EntryView, GroupSchedule, GroupScheduleEntry, GroupScheduleSource, ScheduleDay, ScheduleWeek,
};

verus! {

/// Seconds in an hour and in a day.
pub const HOUR_SECONDS: i64 = 3600;

pub const DAY_SECONDS: i64 = 86400;

/// How long cached rows stay readable, in days.
pub const CACHE_FRESH_DAYS: i64 = 14;

/// How many groups one refresh batch takes at most.
pub const REFRESH_BATCH: usize = 10;

/// Cached rows updated at `updated_at` are readable at `now` (both in seconds)
/// while they are less than the freshness window old.
pub open spec fn cache_usable(updated_at: int, now: int) -> bool {
    updated_at > now - CACHE_FRESH_DAYS * DAY_SECONDS
}

pub fn is_cache_usable(updated_at: i64, now: i64) -> (r: bool)
    ensures
        r == cache_usable(updated_at as int, now as int),
{
    let window: i128 = 14 * 86400;
    assert(window == CACHE_FRESH_DAYS * DAY_SECONDS);
    (updated_at as i128) > (now as i128) - window
}

/// The age in hours past which a group's schedule is refreshed: short in hot
/// months, long otherwise.
pub open spec fn refresh_hours(hot: bool) -> int {
    if hot { 6 } else { 500 }
}

pub fn schedule_refresh_hours(hot: bool) -> (r: i64)
    ensures
        r == refresh_hours(hot),
{
    if hot { 6 } else { 500 }
}

/// The age in days past which the group catalog is refreshed.
pub open spec fn catalog_days(hot: bool) -> int {
    if hot { 2 } else { 20 }
}

pub fn catalog_refresh_days(hot: bool) -> (r: i64)
    ensures
        r == catalog_days(hot),
{
    if hot { 2 } else { 20 }
}

/// One cached group: its name, the source of its rows and when they were
/// written (seconds).
#[derive(Clone, Debug)]
pub struct CachedGroup {
    pub group_name: String,
    pub source: GroupScheduleSource,
    pub updated_at: i64,
}

/// The group's rows are at least `hours` old at `now`.
pub open spec fn is_stale(g: CachedGroup, now: int, hours: int) -> bool {
    g.updated_at <= now - hours * HOUR_SECONDS
}

/// The names of the groups whose rows came from the API, in order.
pub open spec fn api_group_names(gs: Seq<CachedGroup>) -> Seq<Seq<char>>
    decreases gs.len(),
{
    if gs.len() == 0 {
        Seq::empty()
    } else if gs.last().source == GroupScheduleSource::API {
        api_group_names(gs.drop_last()).push(gs.last().group_name@)
    } else {
        api_group_names(gs.drop_last())
    }
}

/// The names of the groups whose rows are at least `hours` old, in order.
pub open spec fn stale_group_names(gs: Seq<CachedGroup>, now: int, hours: int) -> Seq<Seq<char>>
    decreases gs.len(),
{
    if gs.len() == 0 {
        Seq::empty()
    } else if is_stale(gs.last(), now, hours) {
        stale_group_names(gs.drop_last(), now, hours).push(gs.last().group_name@)
    } else {
        stale_group_names(gs.drop_last(), now, hours)
    }
}

/// At most one batch from the front of a list.
pub open spec fn first_batch(s: Seq<Seq<char>>) -> Seq<Seq<char>> {
    if s.len() <= REFRESH_BATCH { s } else { s.subrange(0, REFRESH_BATCH as int) }
}

/// The groups a refresh takes: those with API rows first of all, so that the
/// primary site is tried again for them; only where there are none, those
/// whose rows are older than the season's threshold.
pub open spec fn refresh_selection(gs: Seq<CachedGroup>, now: int, hot: bool) -> Seq<Seq<char>> {
    if api_group_names(gs).len() > 0 {
        first_batch(api_group_names(gs))
    } else {
        first_batch(stale_group_names(gs, now, refresh_hours(hot)))
    }
}

fn stale(g: &CachedGroup, now: i64, hours: i64) -> (r: bool)
    requires
        0 <= hours <= 1000,
    ensures
        r == is_stale(*g, now as int, hours as int),
{
    let span: i128 = (hours as i128) * 3600;
    assert(span == hours * HOUR_SECONDS);
    (g.updated_at as i128) <= (now as i128) - span
}

fn api_groups(gs: &Vec<CachedGroup>) -> (r: Vec<String>)
    ensures
        texts(r@) == api_group_names(gs@),
{
    let mut r: Vec<String> = Vec::new();
    let mut i: usize = 0;
    assert(texts(r@) =~= api_group_names(gs@.subrange(0, 0)));
    while i < gs.len()
        invariant
            i <= gs@.len(),
            texts(r@) == api_group_names(gs@.subrange(0, i as int)),
        decreases gs@.len() - i,
    {
        let ghost cur = gs@.subrange(0, i + 1);
        assert(cur.drop_last() =~= gs@.subrange(0, i as int));
        assert(cur.last() == gs@[i as int]);
        if gs[i].source == GroupScheduleSource::API {
            let ghost before = r@;
            r.push(gs[i].group_name.clone());
            assert(texts(r@) =~= texts(before).push(gs@[i as int].group_name@));
        }
        i = i + 1;
    }
    assert(gs@.subrange(0, i as int) =~= gs@);
    r
}

fn stale_groups(gs: &Vec<CachedGroup>, now: i64, hours: i64) -> (r: Vec<String>)
    requires
        0 <= hours <= 1000,
    ensures
        texts(r@) == stale_group_names(gs@, now as int, hours as int),
{
    let mut r: Vec<String> = Vec::new();
    let mut i: usize = 0;
    assert(texts(r@) =~= stale_group_names(gs@.subrange(0, 0), now as int, hours as int));
    while i < gs.len()
        invariant
            0 <= hours <= 1000,
            i <= gs@.len(),
            texts(r@) == stale_group_names(gs@.subrange(0, i as int), now as int, hours as int),
        decreases gs@.len() - i,
    {
        let ghost cur = gs@.subrange(0, i + 1);
        assert(cur.drop_last() =~= gs@.subrange(0, i as int));
        assert(cur.last() == gs@[i as int]);
        if stale(&gs[i], now, hours) {
            let ghost before = r@;
            r.push(gs[i].group_name.clone());
            assert(texts(r@) =~= texts(before).push(gs@[i as int].group_name@));
        }
        i = i + 1;
    }
    assert(gs@.subrange(0, i as int) =~= gs@);
    r
}

fn take_batch(v: Vec<String>) -> (r: Vec<String>)
    ensures
        texts(r@) == first_batch(texts(v@)),
{
    if v.len() <= REFRESH_BATCH {
        return v;
    }
    let mut r: Vec<String> = Vec::new();
    let mut i: usize = 0;
    while i < REFRESH_BATCH
        invariant
            i <= REFRESH_BATCH < v@.len(),
            texts(r@) == texts(v@).subrange(0, i as int),
        decreases REFRESH_BATCH - i,
    {
        let ghost before = r@;
        r.push(v[i].clone());
        assert(texts(r@) =~= texts(before).push(v@[i as int]@));
        assert(texts(v@).subrange(0, i + 1) =~= texts(v@).subrange(0, i as int).push(v@[i as int]@));
        i = i + 1;
    }
    r
}

/// No two groups of the list share a name.
pub open spec fn one_line_per_group(gs: Seq<CachedGroup>) -> bool {
    forall|i: int, j: int| 0 <= i < j < gs.len() ==> gs[i].group_name@ != gs[j].group_name@
}

/// No name is listed twice.
pub open spec fn no_repeats(s: Seq<Seq<char>>) -> bool {
    forall|i: int, j: int| 0 <= i < j < s.len() ==> s[i] != s[j]
}

proof fn lemma_api_names_distinct(gs: Seq<CachedGroup>)
    requires
        one_line_per_group(gs),
    ensures
        no_repeats(api_group_names(gs)),
        forall|k: int| 0 <= k < api_group_names(gs).len() ==> exists|m: int| 0 <= m < gs.len()
            && #[trigger] api_group_names(gs)[k] == gs[m].group_name@,
    decreases gs.len(),
{
    if gs.len() > 0 {
        let d = gs.drop_last();
        assert(one_line_per_group(d));
        lemma_api_names_distinct(d);
        let a = api_group_names(d);
        assert forall|k: int| 0 <= k < a.len() implies a[k] != gs.last().group_name@ by {
            let m = choose|m: int| 0 <= m < d.len() && a[k] == d[m].group_name@;
            assert(gs[m] == d[m]);
        }
        if gs.last().source == GroupScheduleSource::API {
            let r = a.push(gs.last().group_name@);
            assert forall|k: int| 0 <= k < r.len() implies exists|m: int| 0 <= m < gs.len()
                && #[trigger] r[k] == gs[m].group_name@ by {
                if k < a.len() {
                    let m = choose|m: int| 0 <= m < d.len() && a[k] == d[m].group_name@;
                    assert(gs[m] == d[m]);
                } else {
                    assert(r[k] == gs[gs.len() - 1].group_name@);
                }
            }
        } else {
            assert forall|k: int| 0 <= k < a.len() implies exists|m: int| 0 <= m < gs.len()
                && #[trigger] a[k] == gs[m].group_name@ by {
                let m = choose|m: int| 0 <= m < d.len() && a[k] == d[m].group_name@;
                assert(gs[m] == d[m]);
            }
        }
    }
}

proof fn lemma_stale_names_distinct(gs: Seq<CachedGroup>, now: int, hours: int)
    requires
        one_line_per_group(gs),
    ensures
        no_repeats(stale_group_names(gs, now, hours)),
        forall|k: int| 0 <= k < stale_group_names(gs, now, hours).len() ==> exists|m: int| 0 <= m < gs.len()
            && #[trigger] stale_group_names(gs, now, hours)[k] == gs[m].group_name@,
    decreases gs.len(),
{
    if gs.len() > 0 {
        let d = gs.drop_last();
        assert(one_line_per_group(d));
        lemma_stale_names_distinct(d, now, hours);
        let a = stale_group_names(d, now, hours);
        assert forall|k: int| 0 <= k < a.len() implies a[k] != gs.last().group_name@ by {
            let m = choose|m: int| 0 <= m < d.len() && a[k] == d[m].group_name@;
            assert(gs[m] == d[m]);
        }
        if is_stale(gs.last(), now, hours) {
            let r = a.push(gs.last().group_name@);
            assert forall|k: int| 0 <= k < r.len() implies exists|m: int| 0 <= m < gs.len()
                && #[trigger] r[k] == gs[m].group_name@ by {
                if k < a.len() {
                    let m = choose|m: int| 0 <= m < d.len() && a[k] == d[m].group_name@;
                    assert(gs[m] == d[m]);
                } else {
                    assert(r[k] == gs[gs.len() - 1].group_name@);
                }
            }
        } else {
            assert forall|k: int| 0 <= k < a.len() implies exists|m: int| 0 <= m < gs.len()
                && #[trigger] a[k] == gs[m].group_name@ by {
                let m = choose|m: int| 0 <= m < d.len() && a[k] == d[m].group_name@;
                assert(gs[m] == d[m]);
            }
        }
    }
}

/// The groups one refresh batch takes, by the rule of `refresh_selection`;
/// where the input has one line per group, no group is taken twice.
pub fn groups_to_refresh(groups: &Vec<CachedGroup>, now: i64, hot: bool) -> (r: Vec<String>)
    ensures
        texts(r@) == refresh_selection(groups@, now as int, hot),
        one_line_per_group(groups@) ==> no_repeats(texts(r@)),
{
    proof {
        if one_line_per_group(groups@) {
            lemma_api_names_distinct(groups@);
            lemma_stale_names_distinct(groups@, now as int, refresh_hours(hot));
        }
    }
    let api = api_groups(groups);
    if api.len() > 0 {
        take_batch(api)
    } else {
        take_batch(stale_groups(groups, now, schedule_refresh_hours(hot)))
    }
}

/// A group whose scraped rows are at least the hot-month threshold old but
/// younger than the other months' threshold (ten hours old, say) is refreshed
/// in a hot month and left alone otherwise.
pub proof fn lemma_refresh_follows_season(g: CachedGroup, now: int)
    requires
        g.source == GroupScheduleSource::Parser,
        refresh_hours(true) * HOUR_SECONDS <= now - g.updated_at < refresh_hours(false) * HOUR_SECONDS,
    ensures
        refresh_selection(seq![g], now, true) == seq![g.group_name@],
        refresh_selection(seq![g], now, false) == Seq::<Seq<char>>::empty(),
{
    let s = seq![g];
    assert(s.drop_last() =~= Seq::<CachedGroup>::empty());
    assert(s.last() == g);
    reveal_with_fuel(api_group_names, 2);
    reveal_with_fuel(stale_group_names, 2);
    assert(api_group_names(s) =~= Seq::<Seq<char>>::empty());
    assert(stale_group_names(s, now, 6) =~= seq![g.group_name@]);
    assert(stale_group_names(s, now, 500) =~= Seq::<Seq<char>>::empty());
}

/// One stored schedule row, as written: the group, the source's stored name,
/// the zero-based week, day and lesson index, and the entry's lists.
#[derive(Clone, Debug)]
pub struct ScheduleRow {
    pub group_name: String,
    pub source: String,
    pub week: u8,
    pub day: u8,
    pub index: u8,
    pub names: Vec<String>,
    pub lecturers: Vec<String>,
    pub locations: Vec<String>,
}

/// What a row holds, with its texts as character sequences.
pub struct RowView {
    pub group_name: Seq<char>,
    pub source: Seq<char>,
    pub week: u8,
    pub day: u8,
    pub index: u8,
    pub names: Seq<Seq<char>>,
    pub lecturers: Seq<Seq<char>>,
    pub locations: Seq<Seq<char>>,
}

impl View for ScheduleRow {
    type V = RowView;

    open spec fn view(&self) -> RowView {
        RowView {
            group_name: self.group_name@,
            source: self.source@,
            week: self.week,
            day: self.day,
            index: self.index,
            names: texts(self.names@),
            lecturers: texts(self.lecturers@),
            locations: texts(self.locations@),
        }
    }
}

pub open spec fn row_views(v: Seq<ScheduleRow>) -> Seq<RowView> {
    v.map_values(|r: ScheduleRow| r@)
}

/// The row that stores an entry of a group's snapshot.
pub open spec fn entry_row(group: Seq<char>, source: GroupScheduleSource, e: EntryView) -> RowView {
    RowView {
        group_name: group,
        source: source_name(source),
        week: week_index(e.week) as u8,
        day: day_index(e.day) as u8,
        index: e.index,
        names: e.names,
        lecturers: e.lecturers,
        locations: e.locations,
    }
}

/// The rows that store a group's snapshot, one per entry, in entry order.
pub open spec fn snapshot_rows_of(group: Seq<char>, source: GroupScheduleSource, es: Seq<EntryView>) -> Seq<RowView> {
    es.map_values(|e: EntryView| entry_row(group, source, e))
}

fn row_of_entry(group_name: &str, source: GroupScheduleSource, e: &GroupScheduleEntry) -> (r: ScheduleRow)
    ensures
        r@ == entry_row(group_name@, source, e@),
{
    ScheduleRow {
        group_name: String::from_str(group_name),
        source: source.to_string(),
        week: e.week.to_index(),
        day: e.day.to_index(),
        index: e.index,
        names: copy_texts(&e.names),
        lecturers: copy_texts(&e.lecturers),
        locations: copy_texts(&e.locations),
    }
}

/// The rows that store a group's schedule; an error where the schedule's
/// source is not known.
pub fn snapshot_rows(group_name: &str, schedule: &GroupSchedule) -> (r: Result<Vec<ScheduleRow>, PersistenceError>)
    ensures
        match schedule.source {
            None => r == Err::<Vec<ScheduleRow>, PersistenceError>(PersistenceError::FailedToSave),
            Some(src) => r matches Ok(rows) && row_views(rows@) == snapshot_rows_of(
                group_name@,
                src,
                entry_views(schedule.entries@),
            ),
        },
{
    let source = match schedule.source {
        None => return Err(PersistenceError::FailedToSave),
        Some(s) => s,
    };
    let mut rows: Vec<ScheduleRow> = Vec::new();
    let mut i: usize = 0;
    let ghost es = entry_views(schedule.entries@);
    while i < schedule.entries.len()
        invariant
            i <= schedule.entries@.len(),
            es == entry_views(schedule.entries@),
            row_views(rows@) == snapshot_rows_of(group_name@, source, es.subrange(0, i as int)),
        decreases schedule.entries@.len() - i,
    {
        let ghost before = rows@;
        rows.push(row_of_entry(group_name, source, &schedule.entries[i]));
        assert(row_views(rows@) =~= row_views(before).push(entry_row(group_name@, source, es[i as int])));
        assert(snapshot_rows_of(group_name@, source, es.subrange(0, i + 1)) =~= snapshot_rows_of(
            group_name@,
            source,
            es.subrange(0, i as int),
        ).push(entry_row(group_name@, source, es[i as int])));
        i = i + 1;
    }
    assert(es.subrange(0, i as int) =~= es);
    Ok(rows)
}

/// A stored row with the time (seconds) it was written.
#[derive(Clone, Debug)]
pub struct StoredRow {
    pub row: ScheduleRow,
    pub updated_at: i64,
}

/// The entry a stored row reads back as.
pub open spec fn row_entry(r: RowView) -> EntryView {
    EntryView {
        subject_id: None,
        week: week_at(r.week as nat),
        day: day_at(r.day as nat),
        index: r.index,
        names: r.names,
        lecturers: r.lecturers,
        locations: r.locations,
    }
}

/// The entries of the readable rows, in row order.
pub open spec fn readable_entries(rows: Seq<StoredRow>, now: int) -> Seq<EntryView>
    decreases rows.len(),
{
    if rows.len() == 0 {
        Seq::empty()
    } else if cache_usable(rows.last().updated_at as int, now) {
        readable_entries(rows.drop_last(), now).push(row_entry(rows.last().row@))
    } else {
        readable_entries(rows.drop_last(), now)
    }
}

/// The source named by the first readable row whose source name is known.
pub open spec fn readable_source(rows: Seq<StoredRow>, now: int) -> Option<GroupScheduleSource>
    decreases rows.len(),
{
    if rows.len() == 0 {
        None
    } else {
        let s = readable_source(rows.drop_last(), now);
        if s.is_some() {
            s
        } else if cache_usable(rows.last().updated_at as int, now) {
            source_of_name(rows.last().row.source@)
        } else {
            None
        }
    }
}

fn row_to_entry(r: &ScheduleRow) -> (e: GroupScheduleEntry)
    ensures
        e@ == row_entry(r@),
{
    GroupScheduleEntry::new(ScheduleWeek::from_index(r.week), ScheduleDay::from_index(r.day), r.index)
        .with_names(copy_texts(&r.names))
        .with_lecturers(copy_texts(&r.lecturers))
        .with_locations(copy_texts(&r.locations))
}

/// A group's cached schedule from its stored rows, reading only rows within
/// the freshness window; `None` where no readable row names a known source.
pub fn cached_schedule(rows: &Vec<StoredRow>, now: i64) -> (r: Option<GroupSchedule>)
    ensures
        match readable_source(rows@, now as int) {
            None => r is None,
            Some(src) => r matches Some(s) && s.source == Some(src) && entry_views(s.entries@)
                == readable_entries(rows@, now as int),
        },
{
    let mut source: Option<GroupScheduleSource> = None;
    let mut entries: Vec<GroupScheduleEntry> = Vec::new();
    let mut i: usize = 0;
    assert(entry_views(entries@) =~= Seq::<EntryView>::empty());
    while i < rows.len()
        invariant
            i <= rows@.len(),
            source == readable_source(rows@.subrange(0, i as int), now as int),
            entry_views(entries@) == readable_entries(rows@.subrange(0, i as int), now as int),
        decreases rows@.len() - i,
    {
        let ghost cur = rows@.subrange(0, i + 1);
        assert(cur.drop_last() =~= rows@.subrange(0, i as int));
        assert(cur.last() == rows@[i as int]);
        let row = &rows[i];
        if is_cache_usable(row.updated_at, now) {
            let ghost before = entries@;
            let e = row_to_entry(&row.row);
            entries.push(e);
            assert(entry_views(entries@) =~= entry_views(before).push(e@));
            if source.is_none() {
                source = GroupScheduleSource::from_string(row.row.source.as_str());
            }
        }
        i = i + 1;
    }
    assert(rows@.subrange(0, i as int) =~= rows@);
    match source {
        None => None,
        Some(src) => Some(GroupSchedule { entries, source: Some(src) }),
    }
}

/// An entry stored for a group and read back is the same entry (entries of a
/// snapshot carry no subject).
pub proof fn lemma_stored_entry_round_trip(group: Seq<char>, source: GroupScheduleSource, e: EntryView)
    requires
        e.subject_id is None,
    ensures
        row_entry(entry_row(group, source, e)) == e,
        source_of_name(entry_row(group, source, e).source) == Some(source),
{
    crate::schedule::lemma_index_round_trip(0, e.day, e.week);
    reveal_strlit("parser");
    reveal_strlit("api");
    assert("api"@.len() == 3);
    assert("parser"@.len() == 6);
}

/// One write against the schedule table.
#[derive(Clone, Debug)]
pub enum StoreOp {
    /// Delete every row of the group.
    DeleteGroup(String),
    /// Insert one row.
    Insert(ScheduleRow),
}

pub enum OpView {
    DeleteGroup(Seq<char>),
    Insert(RowView),
}

pub open spec fn op_view(op: StoreOp) -> OpView {
    match op {
        StoreOp::DeleteGroup(g) => OpView::DeleteGroup(g@),
        StoreOp::Insert(r) => OpView::Insert(r@),
    }
}

pub open spec fn op_views(ops: Seq<StoreOp>) -> Seq<OpView> {
    ops.map_values(|op: StoreOp| op_view(op))
}

pub open spec fn insert_ops(rows: Seq<RowView>) -> Seq<OpView> {
    rows.map_values(|r: RowView| OpView::Insert(r))
}

pub open spec fn in_group(g: Seq<char>) -> spec_fn(RowView) -> bool {
    |r: RowView| r.group_name == g
}

pub open spec fn not_in_group(g: Seq<char>) -> spec_fn(RowView) -> bool {
    |r: RowView| r.group_name != g
}

/// The rows of a group in a table.
pub open spec fn group_rows(table: Seq<RowView>, g: Seq<char>) -> Seq<RowView> {
    table.filter(in_group(g))
}

/// A table after one write.
pub open spec fn apply_op(table: Seq<RowView>, op: OpView) -> Seq<RowView> {
    match op {
        OpView::DeleteGroup(g) => table.filter(not_in_group(g)),
        OpView::Insert(r) => table.push(r),
    }
}

/// A table after a list of writes, in order.
pub open spec fn apply_ops(table: Seq<RowView>, ops: Seq<OpView>) -> Seq<RowView>
    decreases ops.len(),
{
    if ops.len() == 0 {
        table
    } else {
        apply_op(apply_ops(table, ops.drop_last()), ops.last())
    }
}

/// The writes that replace a group's snapshot by its new schedule, to be run
/// as one transaction: delete all of the group's rows, then insert the new
/// rows. An error where the schedule's source is not known.
pub fn replace_group_snapshot(group_name: &str, schedule: &GroupSchedule) -> (r: Result<Vec<StoreOp>, PersistenceError>)
    ensures
        match schedule.source {
            None => r == Err::<Vec<StoreOp>, PersistenceError>(PersistenceError::FailedToSave),
            Some(src) => r matches Ok(ops) && op_views(ops@) == seq![OpView::DeleteGroup(group_name@)]
                + insert_ops(snapshot_rows_of(group_name@, src, entry_views(schedule.entries@))),
        },
{
    let rows = snapshot_rows(group_name, schedule)?;
    let ghost rv = row_views(rows@);
    let mut ops: Vec<StoreOp> = Vec::new();
    ops.push(StoreOp::DeleteGroup(String::from_str(group_name)));
    let mut i: usize = 0;
    assert(op_views(ops@) =~= seq![OpView::DeleteGroup(group_name@)] + insert_ops(rv.subrange(0, 0)));
    while i < rows.len()
        invariant
            i <= rows@.len(),
            rv == row_views(rows@),
            op_views(ops@) == seq![OpView::DeleteGroup(group_name@)] + insert_ops(rv.subrange(0, i as int)),
        decreases rows@.len() - i,
    {
        let ghost before = ops@;
        ops.push(StoreOp::Insert(rows[i].clone_row()));
        assert(op_views(ops@) =~= op_views(before).push(OpView::Insert(rv[i as int])));
        assert(insert_ops(rv.subrange(0, i + 1)) =~= insert_ops(rv.subrange(0, i as int)).push(OpView::Insert(rv[i as int])));
        i = i + 1;
    }
    assert(rv.subrange(0, i as int) =~= rv);
    Ok(ops)
}

impl ScheduleRow {
    /// A copy of the row.
    pub fn clone_row(&self) -> (r: ScheduleRow)
        ensures
            r@ == self@,
    {
        ScheduleRow {
            group_name: self.group_name.clone(),
            source: self.source.clone(),
            week: self.week,
            day: self.day,
            index: self.index,
            names: copy_texts(&self.names),
            lecturers: copy_texts(&self.lecturers),
            locations: copy_texts(&self.locations),
        }
    }
}

proof fn lemma_apply_replace(table: Seq<RowView>, g: Seq<char>, rows: Seq<RowView>)
    ensures
        apply_ops(table, seq![OpView::DeleteGroup(g)] + insert_ops(rows)) == table.filter(not_in_group(g)) + rows,
    decreases rows.len(),
{
    let ops = seq![OpView::DeleteGroup(g)] + insert_ops(rows);
    reveal_with_fuel(apply_ops, 2);
    if rows.len() == 0 {
        assert(ops =~= seq![OpView::DeleteGroup(g)]);
        assert(ops.drop_last() =~= Seq::<OpView>::empty());
        assert(table.filter(not_in_group(g)) + rows =~= table.filter(not_in_group(g)));
    } else {
        assert(ops.drop_last() =~= seq![OpView::DeleteGroup(g)] + insert_ops(rows.drop_last()));
        lemma_apply_replace(table, g, rows.drop_last());
        assert(ops.last() == OpView::Insert(rows.last()));
        assert(table.filter(not_in_group(g)) + rows =~= (table.filter(not_in_group(g)) + rows.drop_last()).push(rows.last()));
    }
}

proof fn lemma_filter_keeps_all(s: Seq<RowView>, p: spec_fn(RowView) -> bool)
    requires
        forall|i: int| 0 <= i < s.len() ==> p(s[i]),
    ensures
        s.filter(p) == s,
    decreases s.len(),
{
    reveal_with_fuel(Seq::filter, 1);
    if s.len() > 0 {
        lemma_filter_keeps_all(s.drop_last(), p);
        assert(s.drop_last().push(s.last()) =~= s);
    } else {
        assert(s.filter(p) =~= s);
    }
}

proof fn lemma_filter_drops_all(s: Seq<RowView>, p: spec_fn(RowView) -> bool)
    requires
        forall|i: int| 0 <= i < s.len() ==> !p(s[i]),
    ensures
        s.filter(p) == Seq::<RowView>::empty(),
    decreases s.len(),
{
    reveal_with_fuel(Seq::filter, 1);
    if s.len() > 0 {
        lemma_filter_drops_all(s.drop_last(), p);
    } else {
        assert(s.filter(p) =~= Seq::<RowView>::empty());
    }
}

proof fn lemma_filter_other_group(s: Seq<RowView>, g: Seq<char>, h: Seq<char>)
    requires
        g != h,
    ensures
        s.filter(not_in_group(g)).filter(in_group(h)) == s.filter(in_group(h)),
    decreases s.len(),
{
    reveal_with_fuel(Seq::filter, 1);
    if s.len() > 0 {
        lemma_filter_other_group(s.drop_last(), g, h);
        let sub = s.drop_last().filter(not_in_group(g));
        assert(sub.push(s.last()).drop_last() =~= sub);
        assert(sub.push(s.last()).last() == s.last());
    }
}

/// Replacing a group's snapshot with rows of that group leaves exactly those
/// rows, in order, as the group's rows, and every other group's rows as they
/// were: no reader of the committed table sees old and new rows of the group
/// together. (That a transaction that fails part-way leaves the table as it
/// was is the store's own guarantee.)
pub proof fn lemma_replace_is_whole(table: Seq<RowView>, g: Seq<char>, rows: Seq<RowView>, h: Seq<char>)
    requires
        forall|i: int| 0 <= i < rows.len() ==> (#[trigger] rows[i]).group_name == g,
    ensures
        group_rows(apply_ops(table, seq![OpView::DeleteGroup(g)] + insert_ops(rows)), g) == rows,
        h != g ==> group_rows(apply_ops(table, seq![OpView::DeleteGroup(g)] + insert_ops(rows)), h)
            == group_rows(table, h),
{
    broadcast use Seq::filter_distributes_over_add;
    lemma_apply_replace(table, g, rows);
    let kept = table.filter(not_in_group(g));
    assert forall|i: int| 0 <= i < kept.len() implies !in_group(g)(kept[i]) by {
        table.lemma_filter_pred(not_in_group(g), i);
    }
    lemma_filter_drops_all(kept, in_group(g));
    lemma_filter_keeps_all(rows, in_group(g));
    assert((kept + rows).filter(in_group(g)) == kept.filter(in_group(g)) + rows.filter(in_group(g)));
    assert(Seq::<RowView>::empty() + rows =~= rows);
    if h != g {
        lemma_filter_other_group(table, g, h);
        lemma_filter_drops_all(rows, in_group(h));
        assert((kept + rows).filter(in_group(h)) == kept.filter(in_group(h)) + rows.filter(in_group(h)));
        assert(table.filter(in_group(h)) + Seq::<RowView>::empty() =~= table.filter(in_group(h)));
    }
}

/// Every row of a snapshot belongs to the snapshot's group and names one
/// source.
pub proof fn lemma_snapshot_rows_homogeneous(g: Seq<char>, source: GroupScheduleSource, es: Seq<EntryView>)
    ensures
        forall|i: int| 0 <= i < es.len() ==> (#[trigger] snapshot_rows_of(g, source, es)[i]).group_name == g
            && snapshot_rows_of(g, source, es)[i].source == source_name(source),
{
}

/// What serving the group list does, by the catalog's size.
#[derive(Clone, Copy, Debug, PartialEq, Eq, Structural)]
pub enum CatalogRead {
    /// The catalog is empty: fetch the list from the primary site and store it.
    FetchAndStore,
    /// Read the catalog table; no request is made.
    ReadTable,
}

/// An empty catalog forces a fetch and replace; any other reads the table.
pub fn catalog_read_action(group_count: i64) -> (r: CatalogRead)
    ensures
        group_count == 0 ==> r == CatalogRead::FetchAndStore,
        group_count != 0 ==> r == CatalogRead::ReadTable,
{
    if group_count == 0 {
        CatalogRead::FetchAndStore
    } else {
        CatalogRead::ReadTable
    }
}

/// The catalog job refreshes when the catalog is empty or holds entries older
/// than the season's threshold.
pub fn catalog_refresh_due(group_count: i64, old_group_count: i64) -> (r: bool)
    ensures
        r == (group_count == 0 || old_group_count != 0),
{
    group_count == 0 || old_group_count != 0
}

/// The list that replaces the catalog: the fetched list, unless it is empty,
/// in which case the catalog is kept.
pub fn catalog_replacement(fetched: Vec<String>) -> (r: Option<Vec<String>>)
    ensures
        fetched@.len() == 0 ==> r is None,
        fetched@.len() > 0 ==> r == Some(fetched),
{
    if fetched.len() == 0 {
        None
    } else {
        Some(fetched)
    }
}

} // verus!
