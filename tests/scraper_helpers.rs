use kpiexport::config::config_str;
use kpiexport::errors::RozkladParseError;
use kpiexport::parser::{
    group_prefixes, groups_request_body, make_params, make_params_for_second_term_fetch, merge_group_lists,
    GroupSchedulePageFormData,
};
use kpiexport::text::{decimal_string, parse_u8, same_text, text_contains};
use kpiexport::utils::group_id_from_url;

#[test]
fn group_id_follows_the_marker() {
    assert_eq!(
        group_id_from_url("http://rozklad.kpi.ua/Schedules/ViewSchedule.aspx?g=494e5743-35fb-4a3f-b868-44662e6cd66e").unwrap(),
        "494e5743-35fb-4a3f-b868-44662e6cd66e"
    );
    assert_eq!(group_id_from_url("ViewSchedule.aspx?g=").unwrap(), "");
    assert_eq!(group_id_from_url("x/ViewSchedule.aspx?g=a/ViewSchedule.aspx?g=b").unwrap(), "a/ViewSchedule.aspx?g=b");
    assert_eq!(
        group_id_from_url("http://rozklad.kpi.ua/Schedules/ScheduleGroupSelection.aspx").unwrap_err(),
        RozkladParseError::FailedToParseGroupId
    );
    assert!(group_id_from_url("").is_err());
}

fn tokens() -> GroupSchedulePageFormData {
    GroupSchedulePageFormData { viewstate: "VS".to_string(), eventvalidation: "EV".to_string() }
}

fn pairs(v: &[(String, String)]) -> Vec<(&str, &str)> {
    v.iter().map(|(a, b)| (a.as_str(), b.as_str())).collect()
}

#[test]
fn group_form_fields() {
    assert_eq!(
        pairs(&make_params(&tokens(), "ІП-82")),
        vec![
            ("__VIEWSTATE", "VS"),
            ("__EVENTTARGET", ""),
            ("__EVENTARGUMENT", ""),
            ("ctl00$MainContent$ctl00$txtboxGroup", "ІП-82"),
            ("ctl00$MainContent$ctl00$btnShowSchedule", "Розклад занять"),
            ("__EVENTVALIDATION", "EV"),
        ]
    );
}

#[test]
fn second_term_postback_fields() {
    assert_eq!(
        pairs(&make_params_for_second_term_fetch(&tokens())),
        vec![
            ("ctl00_ToolkitScriptManager_HiddenField", ""),
            ("__VIEWSTATE", "VS"),
            ("__EVENTTARGET", "ctl00$MainContent$ddlSemesterType"),
            ("ctl00$MainContent$ddlSemesterType", "2"),
            ("__EVENTARGUMENT", ""),
            ("__EVENTVALIDATION", "EV"),
        ]
    );
}

#[test]
fn group_lookup_body_and_prefixes() {
    assert_eq!(groups_request_body("І"), "{\"prefixText\":\"І\",\"count\":1000}");
    let prefixes = group_prefixes();
    assert_eq!(prefixes.len(), 32);
    assert_eq!(prefixes[0], "А");
    assert_eq!(prefixes[4], "Ґ");
    assert_eq!(prefixes[31], "Я");
}

#[test]
fn failed_prefix_lookups_are_skipped() {
    let results = vec![
        Ok(vec!["АА-01".to_string(), "АБ-02".to_string()]),
        Err(RozkladParseError::RozkladErrored),
        Ok(vec![]),
        Ok(vec!["ІП-82".to_string()]),
    ];
    assert_eq!(merge_group_lists(&results), vec!["АА-01", "АБ-02", "ІП-82"]);
    assert!(merge_group_lists(&vec![Err(RozkladParseError::RozkladErrored)]).is_empty());
}

#[test]
fn connection_string() {
    assert_eq!(
        config_str("postgres", 5432, "api", "dev", "api"),
        "host=postgres port=5432 user=api password=dev dbname=api"
    );
    assert_eq!(config_str("h", 0, "", "", "d"), "host=h port=0 user= password= dbname=d");
}

#[test]
fn text_helpers() {
    assert_eq!(parse_u8("0"), Some(0));
    assert_eq!(parse_u8("255"), Some(255));
    assert_eq!(parse_u8("+12"), Some(12));
    assert_eq!(parse_u8("007"), Some(7));
    assert_eq!(parse_u8("256"), None);
    assert_eq!(parse_u8("99999999999999999999"), None);
    assert_eq!(parse_u8(""), None);
    assert_eq!(parse_u8("+"), None);
    assert_eq!(parse_u8("1a"), None);
    assert_eq!(parse_u8(" 1"), None);
    assert_eq!(decimal_string(0), "0");
    assert_eq!(decimal_string(65535), "65535");
    assert!(text_contains("абв", "б"));
    assert!(text_contains("abc", ""));
    assert!(!text_contains("ab", "abc"));
    assert!(same_text("ІП", "ІП"));
    assert!(!same_text("ІП", "ІПП"));
}
