use plnk::search::{match_by_name, Named};

fn items(names: &[&str]) -> Vec<String> {
    names.iter().map(|n| n.to_string()).collect()
}

#[test]
fn tier1_exact_match() {
    let data = items(&["Sprint", "sprint", "My Sprint Board"]);
    let result = match_by_name(&data, "Sprint");
    assert_eq!(result.len(), 1);
    assert_eq!(result[0].name(), "Sprint");
}

#[test]
fn tier2_case_insensitive() {
    let data = items(&["sprint", "My Sprint Board"]);
    let result = match_by_name(&data, "Sprint");
    assert_eq!(result.len(), 1);
    assert_eq!(result[0].name(), "sprint");
}

#[test]
fn tier3_substring() {
    let data = items(&["My Sprint Board", "Another Board"]);
    let result = match_by_name(&data, "Sprint");
    assert_eq!(result.len(), 1);
    assert_eq!(result[0].name(), "My Sprint Board");
}

#[test]
fn no_match() {
    let data = items(&["Alpha", "Beta"]);
    let result = match_by_name(&data, "Gamma");
    assert!(result.is_empty());
}

#[test]
fn tier1_stops_early() {
    let data = items(&["Sprint", "sprint", "Sprint Planning"]);
    let result = match_by_name(&data, "Sprint");
    assert_eq!(result.len(), 1);
    assert_eq!(result[0].name(), "Sprint");
}

#[test]
fn tier2_stops_early() {
    let data = items(&["sprint", "SPRINT", "Sprint Planning"]);
    let result = match_by_name(&data, "Sprint");
    assert_eq!(result.len(), 2);
}

#[test]
fn multiple_substring_matches() {
    let data = items(&["Fix auth bug", "Fix auth race", "Other"]);
    let result = match_by_name(&data, "auth");
    assert_eq!(result.len(), 2);
}

#[test]
fn empty_query() {
    let data = items(&["Alpha", "Beta"]);
    let result = match_by_name(&data, "");
    assert_eq!(result.len(), 2);
}

#[test]
fn empty_collection() {
    let data: Vec<String> = vec![];
    let result = match_by_name(&data, "Sprint");
    assert!(result.is_empty());
}

#[test]
fn unicode_names_match_case_insensitively() {
    let data = items(&["ÄRGER", "other"]);
    let result = match_by_name(&data, "ärger");
    assert_eq!(result.len(), 1);
    assert_eq!(result[0].name(), "ÄRGER");
}

#[test]
fn projects_match_by_their_name() {
    let project = |id: &str, name: &str| plnk::models::Project {
        id: id.to_string(),
        name: name.to_string(),
        description: None,
        created_at: "2026-04-14T12:00:00Z".to_string(),
        updated_at: None,
    };
    let projects = vec![project("1", "Platform"), project("2", "platform tools"), project("3", "Web")];
    let result = match_by_name(&projects, "PLATFORM");
    assert_eq!(result.len(), 1);
    assert_eq!(result[0].id, "1");
}
