use kpiexport::cache::{
    cached_schedule, catalog_read_action, catalog_refresh_days, catalog_refresh_due, catalog_replacement,
    groups_to_refresh, is_cache_usable, replace_group_snapshot, schedule_refresh_hours, snapshot_rows,
    CachedGroup, CatalogRead, ScheduleRow, StoreOp, StoredRow,
};
use kpiexport::errors::{DatabaseError, PersistenceError, RozkladParseError};
use kpiexport::read_through::{read_step, ReadAction, ReadEvent};
use kpiexport::schedule::{GroupSchedule, GroupScheduleEntry, GroupScheduleSource, ScheduleDay, ScheduleWeek};
use kpiexport::utils::is_hot_month0;

const NOW: i64 = 1_700_000_000;
const HOUR: i64 = 3600;

fn cached(name: &str, source: GroupScheduleSource, age_hours: i64) -> CachedGroup {
    CachedGroup { group_name: name.to_string(), source, updated_at: NOW - age_hours * HOUR }
}

#[test]
fn ten_hour_old_group_is_refreshed_only_in_hot_months() {
    let groups = vec![cached("ІП-82", GroupScheduleSource::Parser, 10)];
    assert!(is_hot_month0(0));
    assert!(!is_hot_month0(4));
    assert_eq!(schedule_refresh_hours(is_hot_month0(0)), 6);
    assert_eq!(schedule_refresh_hours(is_hot_month0(4)), 500);
    assert_eq!(groups_to_refresh(&groups, NOW, is_hot_month0(0)), vec!["ІП-82"]);
    assert!(groups_to_refresh(&groups, NOW, is_hot_month0(4)).is_empty());
}

#[test]
fn hot_months_are_january_february_august_september() {
    let hot: Vec<u32> = (0..12).filter(|m| is_hot_month0(*m)).collect();
    assert_eq!(hot, vec![0, 1, 7, 8]);
    assert_eq!(catalog_refresh_days(true), 2);
    assert_eq!(catalog_refresh_days(false), 20);
}

#[test]
fn api_groups_come_first_and_batches_are_capped() {
    let mut groups = vec![cached("old", GroupScheduleSource::Parser, 1000)];
    for i in 0..12 {
        groups.push(cached(&format!("api-{}", i), GroupScheduleSource::API, 0));
    }
    let picked = groups_to_refresh(&groups, NOW, false);
    assert_eq!(picked.len(), 10);
    assert_eq!(picked[0], "api-0");
    assert_eq!(picked[9], "api-9");

    let mut stale: Vec<CachedGroup> = (0..15).map(|i| cached(&format!("g{}", i), GroupScheduleSource::Parser, 600)).collect();
    stale.insert(0, cached("fresh", GroupScheduleSource::Parser, 1));
    let picked = groups_to_refresh(&stale, NOW, false);
    assert_eq!(picked.len(), 10);
    assert_eq!(picked[0], "g0");
    assert!(groups_to_refresh(&vec![], NOW, true).is_empty());
}

#[test]
fn exactly_threshold_old_rows_are_stale() {
    let groups = vec![cached("edge", GroupScheduleSource::Parser, 6)];
    assert_eq!(groups_to_refresh(&groups, NOW, true), vec!["edge"]);
    let younger = vec![CachedGroup { group_name: "young".to_string(), source: GroupScheduleSource::Parser, updated_at: NOW - 6 * HOUR + 1 }];
    assert!(groups_to_refresh(&younger, NOW, true).is_empty());
}

#[test]
fn cache_window_is_fourteen_days() {
    let day = 86400;
    assert!(is_cache_usable(NOW, NOW));
    assert!(is_cache_usable(NOW - 14 * day + 1, NOW));
    assert!(!is_cache_usable(NOW - 14 * day, NOW));
    assert!(is_cache_usable(i64::MIN, i64::MIN));
    assert!(!is_cache_usable(i64::MIN, i64::MAX));
}

fn schedule(source: Option<GroupScheduleSource>) -> GroupSchedule {
    GroupSchedule {
        entries: vec![
            GroupScheduleEntry::new(ScheduleWeek::Second, ScheduleDay::Saturday, 4)
                .with_names(vec!["Algorithms".to_string()])
                .with_lecturers(vec!["A".to_string()])
                .with_locations(vec!["101".to_string()]),
            GroupScheduleEntry::new(ScheduleWeek::First, ScheduleDay::Monday, 0),
        ],
        source,
    }
}

#[test]
fn snapshot_rows_store_indices_and_source() {
    let rows = snapshot_rows("ІП-82", &schedule(Some(GroupScheduleSource::API))).unwrap();
    assert_eq!(rows.len(), 2);
    assert_eq!(rows[0].group_name, "ІП-82");
    assert_eq!(rows[0].source, "api");
    assert_eq!((rows[0].week, rows[0].day, rows[0].index), (1, 5, 4));
    assert_eq!(rows[0].names, vec!["Algorithms"]);
    assert_eq!((rows[1].week, rows[1].day, rows[1].index), (0, 0, 0));
    assert_eq!(snapshot_rows("x", &schedule(None)).unwrap_err(), PersistenceError::FailedToSave);
}

/// Applies writes to an in-memory table, as one transaction would.
fn apply(table: &mut Vec<ScheduleRow>, ops: &[StoreOp]) {
    for op in ops {
        match op {
            StoreOp::DeleteGroup(g) => table.retain(|r| &r.group_name != g),
            StoreOp::Insert(r) => table.push(r.clone()),
        }
    }
}

#[test]
fn replace_deletes_then_inserts_the_whole_snapshot() {
    let ops = replace_group_snapshot("ІП-82", &schedule(Some(GroupScheduleSource::Parser))).unwrap();
    assert_eq!(ops.len(), 3);
    assert!(matches!(&ops[0], StoreOp::DeleteGroup(g) if g == "ІП-82"));
    let mut table = snapshot_rows("ІП-82", &schedule(Some(GroupScheduleSource::API))).unwrap();
    table.extend(snapshot_rows("ІП-81", &schedule(Some(GroupScheduleSource::API))).unwrap());
    table.push(table[0].clone());
    apply(&mut table, &ops);
    let mine: Vec<&ScheduleRow> = table.iter().filter(|r| r.group_name == "ІП-82").collect();
    assert_eq!(mine.len(), 2);
    assert!(mine.iter().all(|r| r.source == "parser"));
    assert_eq!(table.iter().filter(|r| r.group_name == "ІП-81").count(), 2);
    assert!(replace_group_snapshot("x", &schedule(None)).is_err());
}

fn stored(row: ScheduleRow, updated_at: i64) -> StoredRow {
    StoredRow { row, updated_at }
}

#[test]
fn cached_schedule_reads_fresh_rows_back() {
    let rows = snapshot_rows("ІП-82", &schedule(Some(GroupScheduleSource::API))).unwrap();
    let stored_rows: Vec<StoredRow> = rows.iter().cloned().map(|r| stored(r, NOW - HOUR)).collect();
    let back = cached_schedule(&stored_rows, NOW).unwrap();
    assert_eq!(back.source, Some(GroupScheduleSource::API));
    assert_eq!(back.entries.len(), 2);
    assert_eq!(back.entries[0].week, ScheduleWeek::Second);
    assert_eq!(back.entries[0].day, ScheduleDay::Saturday);
    assert_eq!(back.entries[0].index, 4);
    assert_eq!(back.entries[0].locations, vec!["101"]);

    let old: Vec<StoredRow> = rows.iter().cloned().map(|r| stored(r, NOW - 15 * 86400)).collect();
    assert!(cached_schedule(&old, NOW).is_none());
    assert!(cached_schedule(&vec![], NOW).is_none());

    let mut unknown = rows[0].clone();
    unknown.source = "somewhere".to_string();
    assert!(cached_schedule(&vec![stored(unknown, NOW)], NOW).is_none());
}

#[test]
fn empty_catalog_is_fetched_and_full_catalog_is_read() {
    assert_eq!(catalog_read_action(0), CatalogRead::FetchAndStore);
    assert_eq!(catalog_read_action(1), CatalogRead::ReadTable);
    assert_eq!(catalog_read_action(523), CatalogRead::ReadTable);
    assert!(catalog_refresh_due(0, 0));
    assert!(catalog_refresh_due(10, 3));
    assert!(!catalog_refresh_due(10, 0));
    assert_eq!(catalog_replacement(vec![]), None);
    assert_eq!(catalog_replacement(vec!["ІП-82".to_string()]), Some(vec!["ІП-82".to_string()]));
}

#[test]
fn read_through_serves_fresh_cache_without_acquiring() {
    assert!(matches!(read_step("ІП-82", NOW, ReadEvent::Started), ReadAction::ReadCache));
    let rows = snapshot_rows("ІП-82", &schedule(Some(GroupScheduleSource::Parser))).unwrap();
    let fresh: Vec<StoredRow> = rows.iter().cloned().map(|r| stored(r, NOW)).collect();
    match read_step("ІП-82", NOW, ReadEvent::CacheRead(Ok(fresh))) {
        ReadAction::Respond(Ok(s)) => {
            assert_eq!(s.source, Some(GroupScheduleSource::Parser));
            assert_eq!(s.entries.len(), 2);
        }
        other => panic!("unexpected action {:?}", other),
    }
    let stale: Vec<StoredRow> = rows.iter().cloned().map(|r| stored(r, NOW - 20 * 86400)).collect();
    assert!(matches!(read_step("ІП-82", NOW, ReadEvent::CacheRead(Ok(stale))), ReadAction::Acquire));
    let failed = Err(DatabaseError::QueryFailed("down".to_string()));
    assert!(matches!(read_step("ІП-82", NOW, ReadEvent::CacheRead(failed)), ReadAction::Acquire));
}

#[test]
fn read_through_stores_then_serves_acquired_schedule() {
    match read_step("ІП-82", NOW, ReadEvent::Acquired(Ok(schedule(Some(GroupScheduleSource::API))))) {
        ReadAction::Store(ops, s) => {
            assert_eq!(ops.len(), 3);
            assert!(matches!(&ops[0], StoreOp::DeleteGroup(g) if g == "ІП-82"));
            assert_eq!(s.source, Some(GroupScheduleSource::API));
            match read_step("ІП-82", NOW, ReadEvent::Stored(s)) {
                ReadAction::Respond(Ok(served)) => assert_eq!(served.entries.len(), 2),
                other => panic!("unexpected action {:?}", other),
            }
        }
        other => panic!("unexpected action {:?}", other),
    }
    assert!(matches!(
        read_step("ІП-82", NOW, ReadEvent::Acquired(Ok(schedule(None)))),
        ReadAction::Respond(Ok(_))
    ));
    assert!(matches!(
        read_step("ІП-82", NOW, ReadEvent::Acquired(Err(RozkladParseError::RozkladApiErrored))),
        ReadAction::Respond(Err(RozkladParseError::RozkladApiErrored))
    ));
}

#[test]
fn refresh_batch_repeats_no_group() {
    let groups: Vec<CachedGroup> = (0..30)
        .map(|i| cached(&format!("g{}", i), if i % 3 == 0 { GroupScheduleSource::API } else { GroupScheduleSource::Parser }, 900))
        .collect();
    let picked = groups_to_refresh(&groups, NOW, true);
    assert_eq!(picked.len(), 10);
    let mut sorted = picked.clone();
    sorted.sort();
    sorted.dedup();
    assert_eq!(sorted.len(), picked.len());
    assert!(picked.iter().all(|g| g.trim_start_matches('g').parse::<u32>().unwrap() % 3 == 0));
}
