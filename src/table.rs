//! The table extractor: turns the rows of one week table into lesson entries
//! by the position and tag of each cell's parts.
use vstd::prelude::*;
use crate::schedule::{day_at, day_index, entry_views, texts, EntryView, GroupScheduleEntry, ScheduleDay, ScheduleWeek};
use crate::text::{chars_of, digit_value, is_digit};

verus! {

/// One child element of a table cell.
#[derive(Clone, Debug)]
pub enum CellChild {
    /// A `span`, with the inner HTML of each of its child elements.
    Span(Vec<String>),
    /// A line break, which separates the parts of a cell.
    Break,
    /// A link, with its inner HTML.
    Link(String),
    /// Any other element.
    Other,
}

/// A table cell: its inner HTML and its child elements in document order.
#[derive(Clone, Debug)]
pub struct TableCell {
    pub inner_html: String,
    pub children: Vec<CellChild>,
}

/// A table row: its cells in document order.
#[derive(Clone, Debug)]
pub struct TableRow {
    pub cells: Vec<TableCell>,
}

/// What a cell child holds, with its texts as character sequences.
pub enum ChildView {
    Span(Seq<Seq<char>>),
    Break,
    Link(Seq<char>),
    Other,
}

impl View for CellChild {
    type V = ChildView;

    open spec fn view(&self) -> ChildView {
        match self {
            CellChild::Span(ns) => ChildView::Span(texts(ns@)),
            CellChild::Break => ChildView::Break,
            CellChild::Link(t) => ChildView::Link(t@),
            CellChild::Other => ChildView::Other,
        }
    }
}

/// What a cell holds: its inner HTML and the views of its children.
pub struct CellView {
    pub inner_html: Seq<char>,
    pub children: Seq<ChildView>,
}

pub open spec fn child_views(v: Seq<CellChild>) -> Seq<ChildView> {
    v.map_values(|c: CellChild| c@)
}

impl View for TableCell {
    type V = CellView;

    open spec fn view(&self) -> CellView {
        CellView { inner_html: self.inner_html@, children: child_views(self.children@) }
    }
}

/// The cells of a row.
pub open spec fn row_view(r: TableRow) -> Seq<CellView> {
    r.cells@.map_values(|c: TableCell| c@)
}

/// The rows of a table, each as its cells.
pub open spec fn rows_view(rows: Seq<TableRow>) -> Seq<Seq<CellView>> {
    rows.map_values(|r: TableRow| row_view(r))
}

/// The names, lecturers and locations collected from a cell's children, and
/// how many separators (at most two counted) were passed.
pub struct CellParts {
    pub names: Seq<Seq<char>>,
    pub lecturers: Seq<Seq<char>>,
    pub locations: Seq<Seq<char>>,
    pub breaks: nat,
}

/// Span children give names wherever they stand; links between the first and
/// second separator give lecturers, links after the second give locations.
pub open spec fn cell_parts(children: Seq<ChildView>) -> CellParts
    decreases children.len(),
{
    if children.len() == 0 {
        CellParts { names: Seq::empty(), lecturers: Seq::empty(), locations: Seq::empty(), breaks: 0 }
    } else {
        let p = cell_parts(children.drop_last());
        match children.last() {
            ChildView::Span(ns) => CellParts { names: p.names + ns, ..p },
            ChildView::Break => CellParts { breaks: if p.breaks < 2 { p.breaks + 1 } else { 2 }, ..p },
            ChildView::Link(t) => if p.breaks == 1 {
                CellParts { lecturers: p.lecturers.push(t), ..p }
            } else if p.breaks == 2 {
                CellParts { locations: p.locations.push(t), ..p }
            } else {
                p
            },
            ChildView::Other => p,
        }
    }
}

/// A cell whose content is a digit immediately followed by a line break marks
/// the lesson index of the cells after it.
pub open spec fn is_index_marker(s: Seq<char>) -> bool {
    s.len() >= 5 && is_digit(s[0]) && s.subrange(1, 5) == seq!['<', 'b', 'r', '>']
}

/// The zero-based index a marker sets: its digit minus one; a 0 digit sets none.
pub open spec fn marker_index(s: Seq<char>) -> Option<u8> {
    if digit_value(s[0]) >= 1 {
        Some((digit_value(s[0]) - 1) as u8)
    } else {
        None
    }
}

/// The state of a walk along one row.
pub struct RowScan {
    pub index: Option<u8>,
    pub day: ScheduleDay,
    pub entries: Seq<EntryView>,
}

/// The walk along a row's cells. Markers set the index; cells before any
/// index are skipped; an empty cell moves to the next day; any other cell
/// yields an entry for the current day and moves to the next day.
pub open spec fn row_scan(cells: Seq<CellView>, week: ScheduleWeek) -> RowScan
    decreases cells.len(),
{
    if cells.len() == 0 {
        RowScan { index: None, day: ScheduleDay::Monday, entries: Seq::empty() }
    } else {
        let st = row_scan(cells.drop_last(), week);
        let c = cells.last();
        let html = c.inner_html;
        if is_index_marker(html) {
            RowScan { index: marker_index(html), ..st }
        } else if st.index.is_none() {
            st
        } else if html.len() == 0 {
            RowScan { day: day_at(day_index(st.day) + 1), ..st }
        } else {
            let p = cell_parts(c.children);
            RowScan {
                index: st.index,
                day: day_at(day_index(st.day) + 1),
                entries: st.entries.push(
                    EntryView {
                        subject_id: None,
                        week,
                        day: st.day,
                        index: st.index.unwrap(),
                        names: p.names,
                        lecturers: p.lecturers,
                        locations: p.locations,
                    },
                ),
            }
        }
    }
}

/// The entries of a week table: those of each row, rows in document order.
pub open spec fn table_entries(rows: Seq<Seq<CellView>>, week: ScheduleWeek) -> Seq<EntryView>
    decreases rows.len(),
{
    if rows.len() == 0 {
        Seq::empty()
    } else {
        table_entries(rows.drop_last(), week) + row_scan(rows.last(), week).entries
    }
}

/// Some cell of the row is an index marker.
pub open spec fn marker_seen(cells: Seq<CellView>) -> bool
    decreases cells.len(),
{
    cells.len() > 0 && (is_index_marker(cells.last().inner_html) || marker_seen(cells.drop_last()))
}

/// The index set by the last marker of the row, if any.
pub open spec fn current_index(cells: Seq<CellView>) -> Option<u8>
    decreases cells.len(),
{
    if cells.len() == 0 {
        None
    } else if is_index_marker(cells.last().inner_html) {
        marker_index(cells.last().inner_html)
    } else {
        current_index(cells.drop_last())
    }
}

/// How many cells that are not markers follow the row's first marker.
pub open spec fn data_cells_after_marker(cells: Seq<CellView>) -> nat
    decreases cells.len(),
{
    if cells.len() == 0 {
        0
    } else if is_index_marker(cells.last().inner_html) {
        data_cells_after_marker(cells.drop_last())
    } else if marker_seen(cells.drop_last()) {
        data_cells_after_marker(cells.drop_last()) + 1
    } else {
        0
    }
}

/// The last cell of a row prefix yields an entry: it is not a marker, it is
/// not empty, and a marker precedes it.
pub open spec fn last_yields(cells: Seq<CellView>) -> bool {
    cells.len() > 0 && !is_index_marker(cells.last().inner_html) && cells.last().inner_html.len() > 0
        && marker_seen(cells.drop_last())
}

/// How many cells of the row yield an entry.
pub open spec fn yield_count(cells: Seq<CellView>) -> nat
    decreases cells.len(),
{
    if cells.len() == 0 {
        0
    } else {
        yield_count(cells.drop_last()) + if last_yields(cells) { 1nat } else { 0nat }
    }
}

/// Every marker of the row carries a digit from 1 to 9.
pub open spec fn markers_numbered(cells: Seq<CellView>) -> bool {
    forall|i: int| 0 <= i < cells.len() && is_index_marker(#[trigger] cells[i].inner_html) ==> digit_value(
        cells[i].inner_html[0],
    ) >= 1
}

proof fn lemma_row_state(cells: Seq<CellView>, week: ScheduleWeek)
    requires
        markers_numbered(cells),
    ensures
        row_scan(cells, week).index == current_index(cells),
        row_scan(cells, week).index is Some <==> marker_seen(cells),
        row_scan(cells, week).day == day_at(data_cells_after_marker(cells)),
        row_scan(cells, week).entries.len() == yield_count(cells),
    decreases cells.len(),
{
    if cells.len() > 0 {
        let d = cells.drop_last();
        assert forall|i: int| 0 <= i < d.len() && is_index_marker(#[trigger] d[i].inner_html) implies digit_value(
            d[i].inner_html[0],
        ) >= 1 by {
            assert(d[i] == cells[i]);
        }
        lemma_row_state(d, week);
        assert(cells[cells.len() - 1] == cells.last());
        let n = data_cells_after_marker(d);
        assert((n % 7 + 1) % 7 == (n + 1) % 7) by (nonlinear_arith);
    }
}

proof fn lemma_row_prefix(cells: Seq<CellView>, week: ScheduleWeek, k: int)
    requires
        0 <= k <= cells.len(),
    ensures
        row_scan(cells.subrange(0, k), week).entries.len() <= row_scan(cells, week).entries.len(),
        forall|i: int| 0 <= i < row_scan(cells.subrange(0, k), week).entries.len() ==> (#[trigger] row_scan(
            cells.subrange(0, k),
            week,
        ).entries[i]) == row_scan(cells, week).entries[i],
    decreases cells.len() - k,
{
    if k < cells.len() {
        lemma_row_prefix(cells, week, k + 1);
        assert(cells.subrange(0, k + 1).drop_last() =~= cells.subrange(0, k));
        let a = row_scan(cells.subrange(0, k), week).entries;
        let b = row_scan(cells.subrange(0, k + 1), week).entries;
        assert(b.len() >= a.len());
        assert forall|i: int| 0 <= i < a.len() implies b[i] == a[i] by {}
    } else {
        assert(cells.subrange(0, k) =~= cells);
    }
}

/// The table extractor, row by row, in rows whose markers carry a digit from 1
/// to 9: a row gives one entry for each cell that is not a marker, not empty
/// and preceded by a marker, and no others, in the order of those cells. The
/// entry of such a cell has the index of the last marker before it (its digit
/// minus one), the day reached by counting from Monday one step for each cell
/// that is not a marker after the row's first marker and before it, and the
/// cell's names, lecturers and locations. A table gives its rows' entries one
/// row after another.
pub proof fn lemma_row_entries(cells: Seq<CellView>, week: ScheduleWeek, j: int)
    requires
        markers_numbered(cells),
    ensures
        row_scan(cells, week).entries.len() == yield_count(cells),
        0 <= j < cells.len() && last_yields(cells.subrange(0, j + 1)) ==> ({
            let before = cells.subrange(0, j);
            let parts = cell_parts(cells[j].children);
            &&& yield_count(before) < yield_count(cells)
            &&& row_scan(cells, week).entries[yield_count(before) as int] == EntryView {
                subject_id: None,
                week,
                day: day_at(data_cells_after_marker(before)),
                index: (digit_value(cells[current_marker(before)].inner_html[0]) - 1) as u8,
                names: parts.names,
                lecturers: parts.lecturers,
                locations: parts.locations,
            }
        }),
        forall|rows: Seq<Seq<CellView>>| #![trigger table_entries(rows.push(cells), week)]
            table_entries(rows.push(cells), week) == table_entries(rows, week) + row_scan(cells, week).entries,
{
    lemma_row_state(cells, week);
    if 0 <= j < cells.len() && last_yields(cells.subrange(0, j + 1)) {
        let before = cells.subrange(0, j);
        let upto = cells.subrange(0, j + 1);
        assert(upto.drop_last() =~= before);
        assert(upto.last() == cells[j]);
        assert forall|i: int| 0 <= i < upto.len() && is_index_marker(#[trigger] upto[i].inner_html) implies digit_value(
            upto[i].inner_html[0],
        ) >= 1 by {
            assert(upto[i] == cells[i]);
        }
        assert forall|i: int| 0 <= i < before.len() && is_index_marker(#[trigger] before[i].inner_html) implies digit_value(
            before[i].inner_html[0],
        ) >= 1 by {
            assert(before[i] == cells[i]);
        }
        lemma_row_state(upto, week);
        lemma_row_state(before, week);
        lemma_current_marker(before);
        lemma_row_prefix(cells, week, j + 1);
        lemma_yield_count_prefix(cells, j + 1);
        let st = row_scan(before, week);
        let parts = cell_parts(cells[j].children);
        let e = EntryView {
            subject_id: None,
            week,
            day: st.day,
            index: st.index.unwrap(),
            names: parts.names,
            lecturers: parts.lecturers,
            locations: parts.locations,
        };
        assert(row_scan(upto, week).entries == st.entries.push(e));
        assert(yield_count(upto) == yield_count(before) + 1);
        assert(row_scan(upto, week).entries[yield_count(before) as int] == e);
    }
    assert forall|rows: Seq<Seq<CellView>>| #![trigger table_entries(rows.push(cells), week)]
        table_entries(rows.push(cells), week) == table_entries(rows, week) + row_scan(cells, week).entries by {
        assert(rows.push(cells).drop_last() =~= rows);
    }
}

/// The position of the last marker of a row prefix that has one.
pub open spec fn current_marker(cells: Seq<CellView>) -> int
    decreases cells.len(),
{
    if cells.len() == 0 {
        0
    } else if is_index_marker(cells.last().inner_html) {
        cells.len() - 1
    } else {
        current_marker(cells.drop_last())
    }
}

proof fn lemma_current_marker(cells: Seq<CellView>)
    requires
        markers_numbered(cells),
    ensures
        marker_seen(cells) ==> 0 <= current_marker(cells) < cells.len() && is_index_marker(
            cells[current_marker(cells)].inner_html,
        ) && current_index(cells) == Some(
            (digit_value(cells[current_marker(cells)].inner_html[0]) - 1) as u8,
        ),
    decreases cells.len(),
{
    if cells.len() > 0 {
        let d = cells.drop_last();
        assert forall|i: int| 0 <= i < d.len() && is_index_marker(#[trigger] d[i].inner_html) implies digit_value(
            d[i].inner_html[0],
        ) >= 1 by {
            assert(d[i] == cells[i]);
        }
        lemma_current_marker(d);
        assert(cells[cells.len() - 1] == cells.last());
        if !is_index_marker(cells.last().inner_html) && marker_seen(d) {
            assert(cells[current_marker(d)] == d[current_marker(d)]);
        }
    }
}

proof fn lemma_yield_count_prefix(cells: Seq<CellView>, k: int)
    requires
        0 <= k <= cells.len(),
    ensures
        yield_count(cells.subrange(0, k)) <= yield_count(cells),
    decreases cells.len() - k,
{
    if k < cells.len() {
        lemma_yield_count_prefix(cells, k + 1);
        assert(cells.subrange(0, k + 1).drop_last() =~= cells.subrange(0, k));
    } else {
        assert(cells.subrange(0, k) =~= cells);
    }
}

/// Whether a cell's content is an index marker, and the index it sets.
fn read_marker(html: &String) -> (r: (bool, Option<u8>))
    ensures
        r.0 == is_index_marker(html@),
        r.0 ==> r.1 == marker_index(html@),
{
    let c = chars_of(html.as_str());
    if c.len() < 5 {
        return (false, None);
    }
    let first = c[0];
    if !(first >= '0' && first <= '9') || c[1] != '<' || c[2] != 'b' || c[3] != 'r' || c[4] != '>' {
        proof {
            if is_index_marker(html@) {
                let t = html@.subrange(1, 5);
                assert(t[0] == html@[1] && t[1] == html@[2] && t[2] == html@[3] && t[3] == html@[4]);
            }
        }
        return (false, None);
    }
    assert(html@.subrange(1, 5) =~= seq!['<', 'b', 'r', '>']);
    let d: u32 = (first as u32) - ('0' as u32);
    if d >= 1 {
        (true, Some((d - 1) as u8))
    } else {
        (true, None)
    }
}

/// The names, lecturers and locations of a cell, by the rule of `cell_parts`.
fn read_parts(children: &Vec<CellChild>) -> (r: (Vec<String>, Vec<String>, Vec<String>))
    ensures
        texts(r.0@) == cell_parts(child_views(children@)).names,
        texts(r.1@) == cell_parts(child_views(children@)).lecturers,
        texts(r.2@) == cell_parts(child_views(children@)).locations,
{
    let ghost cv = child_views(children@);
    let mut names: Vec<String> = Vec::new();
    let mut lecturers: Vec<String> = Vec::new();
    let mut locations: Vec<String> = Vec::new();
    let mut breaks: u8 = 0;
    let mut i: usize = 0;
    assert(texts(names@) =~= Seq::<Seq<char>>::empty());
    assert(texts(lecturers@) =~= Seq::<Seq<char>>::empty());
    assert(texts(locations@) =~= Seq::<Seq<char>>::empty());
    while i < children.len()
        invariant
            i <= children@.len(),
            cv == child_views(children@),
            texts(names@) == cell_parts(cv.subrange(0, i as int)).names,
            texts(lecturers@) == cell_parts(cv.subrange(0, i as int)).lecturers,
            texts(locations@) == cell_parts(cv.subrange(0, i as int)).locations,
            breaks as nat == cell_parts(cv.subrange(0, i as int)).breaks,
            breaks <= 2,
        decreases children@.len() - i,
    {
        let ghost pre = cv.subrange(0, i as int);
        let ghost cur = cv.subrange(0, i + 1);
        assert(cur.drop_last() =~= pre);
        assert(cur.last() == children@[i as int]@);
        match &children[i] {
            CellChild::Span(ns) => {
                let mut k: usize = 0;
                let ghost base = texts(names@);
                while k < ns.len()
                    invariant
                        k <= ns@.len(),
                        texts(names@) == base + texts(ns@.subrange(0, k as int)),
                    decreases ns@.len() - k,
                {
                    let ghost before = names@;
                    names.push(ns[k].clone());
                    assert(texts(names@) =~= texts(before).push(ns@[k as int]@));
                    assert(texts(ns@.subrange(0, k + 1)) =~= texts(ns@.subrange(0, k as int)).push(ns@[k as int]@));
                    k = k + 1;
                }
                assert(ns@.subrange(0, k as int) =~= ns@);
            },
            CellChild::Break => {
                if breaks < 2 {
                    breaks = breaks + 1;
                }
            },
            CellChild::Link(t) => {
                if breaks == 1 {
                    let ghost before = lecturers@;
                    lecturers.push(t.clone());
                    assert(texts(lecturers@) =~= texts(before).push(t@));
                } else if breaks == 2 {
                    let ghost before = locations@;
                    locations.push(t.clone());
                    assert(texts(locations@) =~= texts(before).push(t@));
                }
            },
            CellChild::Other => {},
        }
        i = i + 1;
    }
    assert(cv.subrange(0, i as int) =~= cv);
    (names, lecturers, locations)
}

/// Walks one row, by the rule of `row_scan`, adding its entries to `entries`.
fn scan_row(cells: &Vec<TableCell>, week: ScheduleWeek, entries: &mut Vec<GroupScheduleEntry>)
    ensures
        entry_views(final(entries)@) == entry_views(old(entries)@) + row_scan(
            cells@.map_values(|c: TableCell| c@),
            week,
        ).entries,
{
    let ghost cv = cells@.map_values(|c: TableCell| c@);
    let ghost start = entry_views(entries@);
    let mut index: Option<u8> = None;
    let mut day = ScheduleDay::Monday;
    let mut i: usize = 0;
    assert(start + row_scan(cv.subrange(0, 0), week).entries =~= start);
    while i < cells.len()
        invariant
            i <= cells@.len(),
            cv == cells@.map_values(|c: TableCell| c@),
            index == row_scan(cv.subrange(0, i as int), week).index,
            day == row_scan(cv.subrange(0, i as int), week).day,
            entry_views(entries@) == start + row_scan(cv.subrange(0, i as int), week).entries,
        decreases cells@.len() - i,
    {
        let ghost pre = cv.subrange(0, i as int);
        let ghost cur = cv.subrange(0, i + 1);
        assert(cur.drop_last() =~= pre);
        assert(cur.last() == cells@[i as int]@);
        let cell = &cells[i];
        let (marker, marked) = read_marker(&cell.inner_html);
        if marker {
            index = marked;
        } else {
            match index {
                None => {},
                Some(ix) => {
                    if cell.inner_html.as_str().unicode_len() == 0 {
                        day = day.next();
                    } else {
                        let (names, lecturers, locations) = read_parts(&cell.children);
                        let e = GroupScheduleEntry {
                            subject_id: None,
                            week,
                            day,
                            index: ix,
                            names,
                            lecturers,
                            locations,
                        };
                        let ghost before = entries@;
                        entries.push(e);
                        assert(entry_views(entries@) =~= entry_views(before).push(e@));
                        day = day.next();
                    }
                },
            }
        }
        i = i + 1;
    }
    assert(cv.subrange(0, i as int) =~= cv);
}

/// The lesson entries of one week table, stamped with `week`, in document
/// order.
pub fn parse_week(rows: &Vec<TableRow>, week: ScheduleWeek) -> (r: Vec<GroupScheduleEntry>)
    ensures
        entry_views(r@) == table_entries(rows_view(rows@), week),
{
    let ghost rv = rows_view(rows@);
    let mut entries: Vec<GroupScheduleEntry> = Vec::new();
    let mut i: usize = 0;
    assert(entry_views(entries@) =~= table_entries(rv.subrange(0, 0), week));
    while i < rows.len()
        invariant
            i <= rows@.len(),
            rv == rows_view(rows@),
            entry_views(entries@) == table_entries(rv.subrange(0, i as int), week),
        decreases rows@.len() - i,
    {
        let ghost pre = rv.subrange(0, i as int);
        let ghost cur = rv.subrange(0, i + 1);
        assert(cur.drop_last() =~= pre);
        assert(cur.last() == row_view(rows@[i as int]));
        scan_row(&rows[i].cells, week, &mut entries);
        i = i + 1;
    }
    assert(rv.subrange(0, i as int) =~= rv);
    entries
}

} // verus!
