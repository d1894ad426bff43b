//! The REST routes of the Planka API and the few answers the client gives
//! without asking the server.

use vstd::prelude::*;

use crate::detail::{cat, cat3};
use crate::error::PlankaError;
use crate::models::Attachment;

verus! {

/// An endpoint of the Planka API, with the ids that its path carries.
pub enum Route {
    Users,
    User(String),
    Projects,
    Project(String),
    ProjectBoards(String),
    ProjectManagers(String),
    ProjectManager(String),
    Board(String),
    BoardLists(String),
    BoardLabels(String),
    BoardMemberships(String),
    BoardMembership(String),
    List(String),
    ListCards(String),
    Card(String),
    CardTaskLists(String),
    CardComments(String),
    CardLabels(String),
    CardLabel { card_id: String, label_id: String },
    CardMemberships(String),
    CardMembership { card_id: String, user_id: String },
    CardAttachments(String),
    TaskListTasks(String),
    Task(String),
    Comment(String),
    Label(String),
    Attachment(String),
}

/// The path of a route.
pub open spec fn spec_route_path(route: Route) -> Seq<char> {
    match route {
        Route::Users => "/api/users"@,
        Route::User(id) => "/api/users/"@ + id@,
        Route::Projects => "/api/projects"@,
        Route::Project(id) => "/api/projects/"@ + id@,
        Route::ProjectBoards(id) => "/api/projects/"@ + id@ + "/boards"@,
        Route::ProjectManagers(id) => "/api/projects/"@ + id@ + "/project-managers"@,
        Route::ProjectManager(id) => "/api/project-managers/"@ + id@,
        Route::Board(id) => "/api/boards/"@ + id@,
        Route::BoardLists(id) => "/api/boards/"@ + id@ + "/lists"@,
        Route::BoardLabels(id) => "/api/boards/"@ + id@ + "/labels"@,
        Route::BoardMemberships(id) => "/api/boards/"@ + id@ + "/board-memberships"@,
        Route::BoardMembership(id) => "/api/board-memberships/"@ + id@,
        Route::List(id) => "/api/lists/"@ + id@,
        Route::ListCards(id) => "/api/lists/"@ + id@ + "/cards"@,
        Route::Card(id) => "/api/cards/"@ + id@,
        Route::CardTaskLists(id) => "/api/cards/"@ + id@ + "/task-lists"@,
        Route::CardComments(id) => "/api/cards/"@ + id@ + "/comments"@,
        Route::CardLabels(id) => "/api/cards/"@ + id@ + "/card-labels"@,
        Route::CardLabel { card_id, label_id } => "/api/cards/"@ + card_id@ + "/card-labels/labelId:"@ + label_id@,
        Route::CardMemberships(id) => "/api/cards/"@ + id@ + "/card-memberships"@,
        Route::CardMembership { card_id, user_id } => "/api/cards/"@ + card_id@ + "/card-memberships/userId:"@
            + user_id@,
        Route::CardAttachments(id) => "/api/cards/"@ + id@ + "/attachments"@,
        Route::TaskListTasks(id) => "/api/task-lists/"@ + id@ + "/tasks"@,
        Route::Task(id) => "/api/tasks/"@ + id@,
        Route::Comment(id) => "/api/comments/"@ + id@,
        Route::Label(id) => "/api/labels/"@ + id@,
        Route::Attachment(id) => "/api/attachments/"@ + id@,
    }
}

impl Route {
    /// The path that requests to this route go to.
    pub fn path(&self) -> (r: String)
        ensures
            r@ == spec_route_path(*self),
    {
        match self {
            Route::Users => "/api/users".to_owned(),
            Route::User(id) => cat("/api/users/", id.as_str()),
            Route::Projects => "/api/projects".to_owned(),
            Route::Project(id) => cat("/api/projects/", id.as_str()),
            Route::ProjectBoards(id) => cat3("/api/projects/", id.as_str(), "/boards"),
            Route::ProjectManagers(id) => cat3("/api/projects/", id.as_str(), "/project-managers"),
            Route::ProjectManager(id) => cat("/api/project-managers/", id.as_str()),
            Route::Board(id) => cat("/api/boards/", id.as_str()),
            Route::BoardLists(id) => cat3("/api/boards/", id.as_str(), "/lists"),
            Route::BoardLabels(id) => cat3("/api/boards/", id.as_str(), "/labels"),
            Route::BoardMemberships(id) => cat3("/api/boards/", id.as_str(), "/board-memberships"),
            Route::BoardMembership(id) => cat("/api/board-memberships/", id.as_str()),
            Route::List(id) => cat("/api/lists/", id.as_str()),
            Route::ListCards(id) => cat3("/api/lists/", id.as_str(), "/cards"),
            Route::Card(id) => cat("/api/cards/", id.as_str()),
            Route::CardTaskLists(id) => cat3("/api/cards/", id.as_str(), "/task-lists"),
            Route::CardComments(id) => cat3("/api/cards/", id.as_str(), "/comments"),
            Route::CardLabels(id) => cat3("/api/cards/", id.as_str(), "/card-labels"),
            Route::CardLabel { card_id, label_id } => {
                let head = cat3("/api/cards/", card_id.as_str(), "/card-labels/labelId:");
                cat(head.as_str(), label_id.as_str())
            },
            Route::CardMemberships(id) => cat3("/api/cards/", id.as_str(), "/card-memberships"),
            Route::CardMembership { card_id, user_id } => {
                let head = cat3("/api/cards/", card_id.as_str(), "/card-memberships/userId:");
                cat(head.as_str(), user_id.as_str())
            },
            Route::CardAttachments(id) => cat3("/api/cards/", id.as_str(), "/attachments"),
            Route::TaskListTasks(id) => cat3("/api/task-lists/", id.as_str(), "/tasks"),
            Route::Task(id) => cat("/api/tasks/", id.as_str()),
            Route::Comment(id) => cat("/api/comments/", id.as_str()),
            Route::Label(id) => cat("/api/labels/", id.as_str()),
            Route::Attachment(id) => cat("/api/attachments/", id.as_str()),
        }
    }
}

/// The answer to a direct attachment lookup, which the Planka API does not
/// offer: an API error with status 501 naming the attachment.
pub fn direct_attachment_error(id: &str) -> (r: PlankaError)
    ensures
        r matches PlankaError::ApiError { status, message } && status == 501 && message@
            == "Direct attachment GET not supported by Planka API. Use 'attachment list --card <cardId>' to find attachment "@
            + id@ + "."@,
{
    let message = cat3(
        "Direct attachment GET not supported by Planka API. Use 'attachment list --card <cardId>' to find attachment ",
        id,
        ".",
    );
    PlankaError::ApiError { status: 501, message }
}

/// No attachment before position `n` has the id.
pub open spec fn id_absent_before(attachments: Seq<Attachment>, id: Seq<char>, n: int) -> bool {
    forall|j: int| 0 <= j < n ==> (#[trigger] attachments[j]).id@ != id
}

/// The attachment of a card with the given id: the first one that has it,
/// or a not-found error for the resource type "attachment".
pub fn find_attachment<'a>(attachments: &'a Vec<Attachment>, id: &str) -> (r: Result<&'a Attachment, PlankaError>)
    ensures
        r is Ok <==> exists|i: int| 0 <= i < attachments@.len() && (#[trigger] attachments@[i]).id@ == id@,
        r matches Ok(a) ==> exists|i: int|
            0 <= i < attachments@.len() && a == attachments@[i] && (#[trigger] attachments@[i]).id@ == id@
                && id_absent_before(attachments@, id@, i),
        r matches Err(e) ==> (e matches PlankaError::NotFound { resource_type, id: missing } && resource_type@
            == "attachment"@ && missing@ == id@),
{
    let mut i: usize = 0;
    while i < attachments.len()
        invariant
            i <= attachments@.len(),
            id_absent_before(attachments@, id@, i as int),
        decreases attachments@.len() - i,
    {
        if crate::text::str_eq(attachments[i].id.as_str(), id) {
            return Ok(&attachments[i]);
        }
        i += 1;
    }
    Err(PlankaError::NotFound { resource_type: "attachment".to_owned(), id: id.to_owned() })
}

} // verus!
