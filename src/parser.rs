//! The primary scraper's own logic: session form tokens, the form fields of
//! each submission, a schedule page's two week tables, and the group list.
use vstd::prelude::*;
use vstd::string::*;
use crate::errors::RozkladParseError;
use crate::html::{input_value, input_value_at, page_selects, parse_page, table_at, table_rows, Page};
use crate::schedule::{entry_views, texts, GroupSchedule, GroupScheduleEntry, GroupScheduleSource, ScheduleWeek};
use crate::table::{parse_week, rows_view, table_entries, TableRow};

verus! {

/// The anti-tamper tokens of one fetched form page, to be echoed by the next
/// submission and then dropped.
#[derive(Clone, Debug)]
pub struct GroupSchedulePageFormData {
    pub viewstate: String,
    pub eventvalidation: String,
}

/// A form's fields as pairs of character sequences.
pub open spec fn field_texts(fields: Seq<(String, String)>) -> Seq<(Seq<char>, Seq<char>)> {
    fields.map_values(|f: (String, String)| (f.0@, f.1@))
}

fn html_error(description: &str) -> (r: RozkladParseError)
    ensures
        r is HtmlParseFailed,
{
    RozkladParseError::HtmlParseFailed { description: String::from_str(description) }
}

pub open spec fn viewstate_selector() -> Seq<char> {
    "#__VIEWSTATE"@
}

pub open spec fn eventvalidation_selector() -> Seq<char> {
    "#__EVENTVALIDATION"@
}

pub open spec fn first_table_selector() -> Seq<char> {
    "#ctl00_MainContent_FirstScheduleTable>tbody"@
}

pub open spec fn second_table_selector() -> Seq<char> {
    "#ctl00_MainContent_SecondScheduleTable>tbody"@
}

/// Both session tokens are on the page.
pub open spec fn page_has_tokens(html: Seq<char>) -> bool {
    input_value_at(html, viewstate_selector()) is Some && input_value_at(html, eventvalidation_selector()) is Some
}

/// The tokens are the `value` attributes of the page's two hidden inputs.
pub open spec fn tokens_of_page(html: Seq<char>, fd: GroupSchedulePageFormData) -> bool {
    input_value_at(html, viewstate_selector()) == Some(fd.viewstate@) && input_value_at(
        html,
        eventvalidation_selector(),
    ) == Some(fd.eventvalidation@)
}

fn form_data_of(page: &Page) -> (r: Result<GroupSchedulePageFormData, RozkladParseError>)
    ensures
        r is Ok <==> page_has_tokens(page.text()),
        match r {
            Ok(fd) => tokens_of_page(page.text(), fd),
            Err(e) => e is HtmlParseFailed,
        },
{
    let viewstate = match input_value(page, "#__VIEWSTATE") {
        None => return Err(html_error("failed to find the view state")),
        Some(v) => v,
    };
    let eventvalidation = match input_value(page, "#__EVENTVALIDATION") {
        None => return Err(html_error("failed to find the event validation")),
        Some(v) => v,
    };
    Ok(GroupSchedulePageFormData { viewstate, eventvalidation })
}

/// The session tokens of a form page: the `value` attributes of the hidden
/// inputs `__VIEWSTATE` and `__EVENTVALIDATION`; an error where either input
/// or its value is missing.
pub fn form_data_from_html(html: &str) -> (r: Result<GroupSchedulePageFormData, RozkladParseError>)
    ensures
        r is Ok <==> page_has_tokens(html@),
        match r {
            Ok(fd) => tokens_of_page(html@, fd),
            Err(e) => e is HtmlParseFailed,
        },
{
    let page = parse_page(html);
    form_data_of(&page)
}

/// A schedule assembled from the rows of the first-week and second-week
/// tables of a page, tagged as scraped.
pub fn schedule_from_tables(first: &Vec<TableRow>, second: &Vec<TableRow>) -> (r: GroupSchedule)
    ensures
        entry_views(r.entries@) == table_entries(rows_view(first@), ScheduleWeek::First) + table_entries(
            rows_view(second@),
            ScheduleWeek::Second,
        ),
        r.source == Some(GroupScheduleSource::Parser),
{
    let mut entries = parse_week(first, ScheduleWeek::First);
    let mut more = parse_week(second, ScheduleWeek::Second);
    let ghost a = entries@;
    let ghost b = more@;
    entries.append(&mut more);
    assert(entry_views(entries@) =~= entry_views(a) + entry_views(b));
    GroupSchedule { entries, source: Some(GroupScheduleSource::Parser) }
}

/// The schedule on a schedule page, from its two fixed week tables, and the
/// page's fresh session tokens; an error where either table body, either
/// hidden input or its value is missing.
pub fn group_schedule_from_html(html: &str) -> (r: Result<(GroupSchedule, GroupSchedulePageFormData), RozkladParseError>)
    ensures
        r is Ok <==> page_selects(html@, first_table_selector()) && page_selects(html@, second_table_selector())
            && page_has_tokens(html@),
        match r {
            Ok(v) => v.0.source == Some(GroupScheduleSource::Parser) && entry_views(v.0.entries@) == table_entries(
                table_at(html@, first_table_selector()),
                ScheduleWeek::First,
            ) + table_entries(table_at(html@, second_table_selector()), ScheduleWeek::Second) && tokens_of_page(
                html@,
                v.1,
            ),
            Err(e) => e is HtmlParseFailed,
        },
{
    let page = parse_page(html);
    let first = match table_rows(&page, "#ctl00_MainContent_FirstScheduleTable>tbody") {
        None => return Err(html_error("failed to find the first week table")),
        Some(rows) => rows,
    };
    let second = match table_rows(&page, "#ctl00_MainContent_SecondScheduleTable>tbody") {
        None => return Err(html_error("failed to find the second week table")),
        Some(rows) => rows,
    };
    let schedule = schedule_from_tables(&first, &second);
    let form_data = form_data_of(&page)?;
    Ok((schedule, form_data))
}

fn field(name: &str, value: &str) -> (r: (String, String))
    ensures
        r.0@ == name@,
        r.1@ == value@,
{
    (String::from_str(name), String::from_str(value))
}

/// The fields of the group-selection form submission: the page's tokens, the
/// group name and the show-schedule button.
pub fn make_params(form_data: &GroupSchedulePageFormData, group_name: &str) -> (r: Vec<(String, String)>)
    ensures
        field_texts(r@) == seq![
            ("__VIEWSTATE"@, form_data.viewstate@),
            ("__EVENTTARGET"@, ""@),
            ("__EVENTARGUMENT"@, ""@),
            ("ctl00$MainContent$ctl00$txtboxGroup"@, group_name@),
            ("ctl00$MainContent$ctl00$btnShowSchedule"@, "Розклад занять"@),
            ("__EVENTVALIDATION"@, form_data.eventvalidation@),
        ],
{
    let mut r: Vec<(String, String)> = Vec::new();
    r.push(field("__VIEWSTATE", form_data.viewstate.as_str()));
    r.push(field("__EVENTTARGET", ""));
    r.push(field("__EVENTARGUMENT", ""));
    r.push(field("ctl00$MainContent$ctl00$txtboxGroup", group_name));
    r.push(field("ctl00$MainContent$ctl00$btnShowSchedule", "Розклад занять"));
    r.push(field("__EVENTVALIDATION", form_data.eventvalidation.as_str()));
    assert(field_texts(r@) =~= seq![
        ("__VIEWSTATE"@, form_data.viewstate@),
        ("__EVENTTARGET"@, ""@),
        ("__EVENTARGUMENT"@, ""@),
        ("ctl00$MainContent$ctl00$txtboxGroup"@, group_name@),
        ("ctl00$MainContent$ctl00$btnShowSchedule"@, "Розклад занять"@),
        ("__EVENTVALIDATION"@, form_data.eventvalidation@),
    ]);
    r
}

/// The fields of the postback that switches a schedule page to the second
/// term: the page's tokens, and the semester selector set to "2" as the event
/// target.
pub fn make_params_for_second_term_fetch(form_data: &GroupSchedulePageFormData) -> (r: Vec<(String, String)>)
    ensures
        field_texts(r@) == seq![
            ("ctl00_ToolkitScriptManager_HiddenField"@, ""@),
            ("__VIEWSTATE"@, form_data.viewstate@),
            ("__EVENTTARGET"@, "ctl00$MainContent$ddlSemesterType"@),
            ("ctl00$MainContent$ddlSemesterType"@, "2"@),
            ("__EVENTARGUMENT"@, ""@),
            ("__EVENTVALIDATION"@, form_data.eventvalidation@),
        ],
{
    let mut r: Vec<(String, String)> = Vec::new();
    r.push(field("ctl00_ToolkitScriptManager_HiddenField", ""));
    r.push(field("__VIEWSTATE", form_data.viewstate.as_str()));
    r.push(field("__EVENTTARGET", "ctl00$MainContent$ddlSemesterType"));
    r.push(field("ctl00$MainContent$ddlSemesterType", "2"));
    r.push(field("__EVENTARGUMENT", ""));
    r.push(field("__EVENTVALIDATION", form_data.eventvalidation.as_str()));
    assert(field_texts(r@) =~= seq![
        ("ctl00_ToolkitScriptManager_HiddenField"@, ""@),
        ("__VIEWSTATE"@, form_data.viewstate@),
        ("__EVENTTARGET"@, "ctl00$MainContent$ddlSemesterType"@),
        ("ctl00$MainContent$ddlSemesterType"@, "2"@),
        ("__EVENTARGUMENT"@, ""@),
        ("__EVENTVALIDATION"@, form_data.eventvalidation@),
    ]);
    r
}

/// The first letters of group names; the lists of groups starting with each
/// of them together make up all groups.
pub open spec fn group_prefix_texts() -> Seq<Seq<char>> {
    seq![
        "А"@, "Б"@, "В"@, "Г"@, "Ґ"@, "Д"@, "Е"@, "Є"@,
        "Ж"@, "З"@, "И"@, "І"@, "Ї"@, "Й"@, "К"@, "Л"@,
        "М"@, "Н"@, "О"@, "П"@, "Р"@, "С"@, "Т"@, "У"@,
        "Ф"@, "Х"@, "Ц"@, "Ч"@, "Ш"@, "Щ"@, "Ю"@, "Я"@,
    ]
}

/// The group-name prefixes to look up, in order.
pub fn group_prefixes() -> (r: Vec<&'static str>)
    ensures
        r@.map_values(|p: &str| p@) == group_prefix_texts(),
{
    let r: Vec<&'static str> = vec![
        "А", "Б", "В", "Г", "Ґ", "Д", "Е", "Є",
        "Ж", "З", "И", "І", "Ї", "Й", "К", "Л",
        "М", "Н", "О", "П", "Р", "С", "Т", "У",
        "Ф", "Х", "Ц", "Ч", "Ш", "Щ", "Ю", "Я",
    ];
    assert(r@.map_values(|p: &str| p@) =~= group_prefix_texts());
    r
}

/// The body of a group-name lookup: a JSON object with the prefix and a
/// count of 1000.
pub fn groups_request_body(prefix: &str) -> (r: String)
    ensures
        r@ == "{\"prefixText\":\""@ + prefix@ + "\",\"count\":1000}"@,
{
    let mut r = String::from_str("{\"prefixText\":\"");
    r.append(prefix);
    r.append("\",\"count\":1000}");
    r
}

/// The group names of the lookups that succeeded, in lookup order; failed
/// lookups add nothing.
pub open spec fn found_groups(results: Seq<Result<Vec<String>, RozkladParseError>>) -> Seq<Seq<char>>
    decreases results.len(),
{
    if results.len() == 0 {
        Seq::empty()
    } else {
        found_groups(results.drop_last()) + match results.last() {
            Ok(v) => texts(v@),
            Err(_) => Seq::empty(),
        }
    }
}

/// Joins the outcomes of the per-prefix lookups into one list, skipping
/// those that failed.
pub fn merge_group_lists(results: &Vec<Result<Vec<String>, RozkladParseError>>) -> (r: Vec<String>)
    ensures
        texts(r@) == found_groups(results@),
{
    let mut r: Vec<String> = Vec::new();
    let mut i: usize = 0;
    assert(texts(r@) =~= found_groups(results@.subrange(0, 0)));
    while i < results.len()
        invariant
            i <= results@.len(),
            texts(r@) == found_groups(results@.subrange(0, i as int)),
        decreases results@.len() - i,
    {
        let ghost pre = results@.subrange(0, i as int);
        let ghost cur = results@.subrange(0, i + 1);
        assert(cur.drop_last() =~= pre);
        assert(cur.last() == results@[i as int]);
        match &results[i] {
            Ok(v) => {
                let ghost base = texts(r@);
                let mut k: usize = 0;
                while k < v.len()
                    invariant
                        k <= v@.len(),
                        texts(r@) == base + texts(v@.subrange(0, k as int)),
                    decreases v@.len() - k,
                {
                    let ghost before = r@;
                    r.push(v[k].clone());
                    assert(texts(r@) =~= texts(before).push(v@[k as int]@));
                    assert(texts(v@.subrange(0, k + 1)) =~= texts(v@.subrange(0, k as int)).push(v@[k as int]@));
                    k = k + 1;
                }
                assert(v@.subrange(0, k as int) =~= v@);
            },
            Err(_) => {
                assert(texts(r@) =~= found_groups(pre) + Seq::<Seq<char>>::empty());
            },
        }
        i = i + 1;
    }
    assert(results@.subrange(0, i as int) =~= results@);
    r
}

} // verus!
