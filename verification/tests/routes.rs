use plnk::error::PlankaError;
use plnk::models::{Attachment, AttachmentData};
use plnk::routes::{direct_attachment_error, find_attachment, Route};

fn attachment(id: &str, name: &str) -> Attachment {
    Attachment {
        id: id.to_string(),
        card_id: "card-1".to_string(),
        name: name.to_string(),
        data: Some(AttachmentData { url: None, size: Some(3), mime_type: None }),
        creator_user_id: None,
        created_at: "2026-01-01T00:00:00Z".to_string(),
        updated_at: None,
    }
}

#[test]
fn resource_paths() {
    assert_eq!(Route::Users.path(), "/api/users");
    assert_eq!(Route::User("u1".into()).path(), "/api/users/u1");
    assert_eq!(Route::Projects.path(), "/api/projects");
    assert_eq!(Route::Project("p1".into()).path(), "/api/projects/p1");
    assert_eq!(Route::ProjectBoards("p1".into()).path(), "/api/projects/p1/boards");
    assert_eq!(Route::ProjectManagers("p1".into()).path(), "/api/projects/p1/project-managers");
    assert_eq!(Route::ProjectManager("m1".into()).path(), "/api/project-managers/m1");
    assert_eq!(Route::Board("b1".into()).path(), "/api/boards/b1");
    assert_eq!(Route::BoardLists("b1".into()).path(), "/api/boards/b1/lists");
    assert_eq!(Route::BoardLabels("b1".into()).path(), "/api/boards/b1/labels");
    assert_eq!(Route::BoardMemberships("b1".into()).path(), "/api/boards/b1/board-memberships");
    assert_eq!(Route::BoardMembership("bm1".into()).path(), "/api/board-memberships/bm1");
    assert_eq!(Route::List("l1".into()).path(), "/api/lists/l1");
    assert_eq!(Route::ListCards("l1".into()).path(), "/api/lists/l1/cards");
    assert_eq!(Route::Card("c1".into()).path(), "/api/cards/c1");
    assert_eq!(Route::CardTaskLists("c1".into()).path(), "/api/cards/c1/task-lists");
    assert_eq!(Route::CardComments("c1".into()).path(), "/api/cards/c1/comments");
    assert_eq!(Route::CardLabels("c1".into()).path(), "/api/cards/c1/card-labels");
    assert_eq!(Route::CardMemberships("c1".into()).path(), "/api/cards/c1/card-memberships");
    assert_eq!(Route::CardAttachments("c1".into()).path(), "/api/cards/c1/attachments");
    assert_eq!(Route::TaskListTasks("t1".into()).path(), "/api/task-lists/t1/tasks");
    assert_eq!(Route::Task("t1".into()).path(), "/api/tasks/t1");
    assert_eq!(Route::Comment("k1".into()).path(), "/api/comments/k1");
    assert_eq!(Route::Label("x1".into()).path(), "/api/labels/x1");
    assert_eq!(Route::Attachment("a1".into()).path(), "/api/attachments/a1");
}

#[test]
fn association_paths_name_the_key() {
    let label = Route::CardLabel { card_id: "c1".into(), label_id: "l9".into() };
    assert_eq!(label.path(), "/api/cards/c1/card-labels/labelId:l9");
    let member = Route::CardMembership { card_id: "c1".into(), user_id: "u7".into() };
    assert_eq!(member.path(), "/api/cards/c1/card-memberships/userId:u7");
}

#[test]
fn direct_attachment_lookup_is_refused_with_501() {
    match direct_attachment_error("att-9") {
        PlankaError::ApiError { status, message } => {
            assert_eq!(status, 501);
            assert_eq!(
                message,
                "Direct attachment GET not supported by Planka API. Use 'attachment list --card <cardId>' to find attachment att-9."
            );
        },
        other => panic!("unexpected error: {other:?}"),
    }
}

#[test]
fn attachment_lookup_takes_first_match() {
    let items = vec![attachment("a1", "one.txt"), attachment("a2", "two.txt"), attachment("a2", "dup.txt")];
    let found = find_attachment(&items, "a2").expect("present");
    assert_eq!(found.name, "two.txt");
}

#[test]
fn attachment_lookup_reports_missing_attachment() {
    let items = vec![attachment("a1", "one.txt")];
    match find_attachment(&items, "zzz") {
        Err(PlankaError::NotFound { resource_type, id }) => {
            assert_eq!(resource_type, "attachment");
            assert_eq!(id, "zzz");
        },
        other => panic!("unexpected result: {other:?}"),
    }
}
