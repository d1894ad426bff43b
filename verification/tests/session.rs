use plnk::drafts::DraftFieldUpdate;
use plnk::session::{card_patch_body, card_path, login_reply, needs_terms, project_tree_from, LoginReply};

fn serde_body(name: Option<&str>, description: Option<Option<&str>>) -> String {
    let mut body = serde_json::Map::new();
    if let Some(n) = name {
        body.insert("name".into(), serde_json::Value::String(n.into()));
    }
    match description {
        Some(Some(d)) => {
            body.insert("description".into(), serde_json::Value::String(d.into()));
        },
        Some(None) => {
            body.insert("description".into(), serde_json::Value::Null);
        },
        None => {},
    }
    serde_json::to_string(&body).unwrap()
}

#[test]
fn card_patch_body_matches_serde_json() {
    let t = DraftFieldUpdate::Assign("New \"title\"".to_string());
    let d = DraftFieldUpdate::Assign("line\nbreak".to_string());
    assert_eq!(card_patch_body(&t, &d), serde_body(Some("New \"title\""), Some(Some("line\nbreak"))));
    assert_eq!(
        card_patch_body(&DraftFieldUpdate::Unchanged, &DraftFieldUpdate::Clear),
        serde_body(None, Some(None))
    );
    assert_eq!(card_patch_body(&t, &DraftFieldUpdate::Unchanged), serde_body(Some("New \"title\""), None));
    assert_eq!(card_patch_body(&DraftFieldUpdate::Unchanged, &DraftFieldUpdate::Unchanged), "{}");
    assert_eq!(card_path("c1"), "api/cards/c1");
}

#[test]
fn project_boards_are_stubs_in_position_order() {
    let p = project_tree_from(
        "p1".into(),
        "Planning".into(),
        None,
        vec![("b2".into(), "Second".into(), 20), ("b1".into(), "First".into(), 10), ("b3".into(), "Tie".into(), 20)],
    );
    let ids: Vec<&str> = p.boards.iter().map(|b| b.id.as_str()).collect();
    assert_eq!(ids, vec!["b1", "b2", "b3"]);
    assert!(p.boards.iter().all(|b| b.project_id == "p1" && !b.is_loaded()));
}

#[test]
fn login_answers() {
    assert_eq!(login_reply(200), LoginReply::Token);
    assert_eq!(login_reply(403), LoginReply::TermsOrRefusal);
    assert_eq!(login_reply(401), LoginReply::Refused);
    assert!(needs_terms("accept-terms"));
    assert!(!needs_terms("other"));
}
