//! Domain records of the Planka API that carry no floating-point fields,
//! together with the output envelopes and the trimmed-column tables.
//!
//! Records whose wire form holds a float position (boards, lists, cards,
//! labels, tasks) are kept by the application layer; the library reads
//! the parts of them its logic needs through the plain records of
//! `crate::cards` and `crate::explorer`.

use vstd::prelude::*;

verus! {

/// Opaque string identifier used by the Planka API.
pub type ResourceId = String;

/// A Planka project.
#[derive(Debug, Clone, PartialEq, Eq)]
pub struct Project {
    pub id: ResourceId,
    pub name: String,
    pub description: Option<String>,
    pub created_at: String,
    pub updated_at: Option<String>,
}

/// Parameters for creating a project.
#[derive(Debug, Clone, PartialEq, Eq)]
pub struct CreateProject {
    pub name: String,
    pub description: Option<String>,
}

/// Parameters for updating a project.
#[derive(Debug, Clone, PartialEq, Eq)]
pub struct UpdateProject {
    pub name: Option<String>,
    pub description: Option<String>,
}

/// Attachment metadata for a file uploaded to a card.
#[derive(Debug, Clone, PartialEq, Eq)]
pub struct Attachment {
    pub id: ResourceId,
    pub card_id: ResourceId,
    pub name: String,
    pub data: Option<AttachmentData>,
    pub creator_user_id: Option<ResourceId>,
    pub created_at: String,
    pub updated_at: Option<String>,
}

/// Nested data object inside an attachment.
#[derive(Debug, Clone, PartialEq, Eq)]
pub struct AttachmentData {
    pub url: Option<String>,
    pub size: Option<u64>,
    pub mime_type: Option<String>,
}

/// Parameters for updating a board.
#[derive(Debug, Clone, PartialEq, Eq)]
pub struct UpdateBoard {
    pub name: Option<String>,
}

/// Parameters for updating a card.
#[derive(Debug, Clone, PartialEq, Eq)]
pub struct UpdateCard {
    pub name: Option<String>,
    pub description: Option<String>,
    pub due_date: Option<String>,
    pub is_closed: Option<bool>,
}

/// A comment on a card.
#[derive(Debug, Clone, PartialEq, Eq)]
pub struct Comment {
    pub id: ResourceId,
    pub card_id: ResourceId,
    pub user_id: ResourceId,
    pub text: String,
    pub created_at: String,
    pub updated_at: Option<String>,
}

/// Parameters for creating a comment.
#[derive(Debug, Clone, PartialEq, Eq)]
pub struct CreateComment {
    pub text: String,
}

/// Parameters for updating a comment.
#[derive(Debug, Clone, PartialEq, Eq)]
pub struct UpdateComment {
    pub text: String,
}

/// Scope of a `find` operation: searches are always bounded.
#[derive(Debug, Clone, PartialEq, Eq)]
pub enum FindScope {
    List(ResourceId),
    Board(ResourceId),
    Project(ResourceId),
}

/// Output envelope for successful responses.
#[derive(Debug, Clone, PartialEq, Eq)]
pub struct Envelope<T> {
    pub success: bool,
    pub data: T,
    pub meta: Option<Meta>,
}

/// Metadata for collection responses.
#[derive(Debug, Clone, PartialEq, Eq)]
pub struct Meta {
    pub count: usize,
}

/// Output envelope for error responses.
#[derive(Debug, Clone, PartialEq, Eq)]
pub struct ErrorEnvelope {
    pub success: bool,
    pub error: ErrorDetail,
}

/// Per-item failure inside a batch error envelope.
#[derive(Debug, Clone, PartialEq, Eq)]
pub struct ErrorFailure {
    pub id: ResourceId,
    pub error_type: String,
    pub message: String,
}

/// Structured error detail inside the error envelope.
#[derive(Debug, Clone, PartialEq, Eq)]
pub struct ErrorDetail {
    pub error_type: String,
    pub message: String,
    pub field: Option<String>,
    pub resource: Option<String>,
    pub missing_ids: Option<Vec<ResourceId>>,
    pub requested_count: Option<usize>,
    pub found_count: Option<usize>,
    pub failures: Option<Vec<ErrorFailure>>,
}

/// A reusable custom field group template attached to a project.
#[derive(Debug, Clone, PartialEq, Eq)]
pub struct BaseCustomFieldGroup {
    pub id: ResourceId,
    pub project_id: ResourceId,
    pub name: String,
    pub created_at: String,
    pub updated_at: Option<String>,
}

/// A value stored against a card for one (group, field) pair.
#[derive(Debug, Clone, PartialEq, Eq)]
pub struct CustomFieldValue {
    pub id: ResourceId,
    pub card_id: ResourceId,
    pub custom_field_group_id: ResourceId,
    pub custom_field_id: ResourceId,
    pub content: String,
    pub created_at: String,
    pub updated_at: Option<String>,
}

/// Maximum length of a custom field value, enforced by the server.
pub const CUSTOM_FIELD_VALUE_MAX_LEN: usize = 512;

/// Parameters for updating a custom field group.
#[derive(Debug, Clone, PartialEq, Eq)]
pub struct UpdateCustomFieldGroup {
    pub name: Option<String>,
}

/// Parameters for updating a custom field; `None` leaves a field unchanged.
#[derive(Debug, Clone, PartialEq, Eq)]
pub struct UpdateCustomField {
    pub name: Option<String>,
    pub show_on_front_of_card: Option<bool>,
}

/// A card-label association.
#[derive(Debug, Clone, PartialEq, Eq)]
pub struct CardLabel {
    pub id: ResourceId,
    pub card_id: ResourceId,
    pub label_id: ResourceId,
    pub created_at: String,
}

/// Parameters for updating a label.
#[derive(Debug, Clone, PartialEq, Eq)]
pub struct UpdateLabel {
    pub name: Option<String>,
    pub color: Option<String>,
}

/// Board membership: a user on a board with a role.
#[derive(Debug, Clone, PartialEq, Eq)]
pub struct BoardMembership {
    pub id: ResourceId,
    pub board_id: ResourceId,
    pub user_id: ResourceId,
    pub role: Option<String>,
    pub can_comment: Option<bool>,
    pub project_id: Option<ResourceId>,
    pub created_at: String,
    pub updated_at: Option<String>,
}

/// Card membership: a user assigned to a card.
#[derive(Debug, Clone, PartialEq, Eq)]
pub struct CardMembership {
    pub id: ResourceId,
    pub card_id: ResourceId,
    pub user_id: ResourceId,
    pub created_at: String,
    pub updated_at: Option<String>,
}

/// Project manager: a user managing a project.
#[derive(Debug, Clone, PartialEq, Eq)]
pub struct ProjectManager {
    pub id: ResourceId,
    pub project_id: ResourceId,
    pub user_id: ResourceId,
    pub created_at: String,
    pub updated_at: Option<String>,
}

/// Parameters for adding a board membership.
#[derive(Debug, Clone, PartialEq, Eq)]
pub struct CreateBoardMembership {
    pub user_id: ResourceId,
    pub role: Option<String>,
}

/// Parameters for adding a card membership (assignee).
#[derive(Debug, Clone, PartialEq, Eq)]
pub struct CreateCardMembership {
    pub user_id: ResourceId,
}

/// Parameters for adding a project manager.
#[derive(Debug, Clone, PartialEq, Eq)]
pub struct CreateProjectManager {
    pub user_id: ResourceId,
}

/// Parameters for updating a task.
#[derive(Debug, Clone, PartialEq, Eq)]
pub struct UpdateTask {
    pub name: Option<String>,
    pub is_completed: Option<bool>,
}

/// A Planka user.
#[derive(Debug, Clone, PartialEq, Eq)]
pub struct User {
    pub id: ResourceId,
    pub name: String,
    pub username: Option<String>,
    pub email: Option<String>,
    pub role: String,
    pub is_deactivated: bool,
    pub organization: Option<String>,
    pub phone: Option<String>,
    pub created_at: String,
    pub updated_at: Option<String>,
}

/// Types that declare a curated subset of fields for trimmed output:
/// `(wire_field_name, display_label)` pairs, wire names in camelCase.
pub trait Tabular {
    fn trimmed_columns() -> Vec<(&'static str, &'static str)>;
}

impl Tabular for Project {
    fn trimmed_columns() -> (r: Vec<(&'static str, &'static str)>)
        ensures
            r@ == seq![("id", "ID"), ("name", "Name")],
    {
        vec![("id", "ID"), ("name", "Name")]
    }
}

impl Tabular for Comment {
    fn trimmed_columns() -> (r: Vec<(&'static str, &'static str)>)
        ensures
            r@ == seq![("id", "ID"), ("userId", "User"), ("text", "Text"), ("createdAt", "Created")],
    {
        vec![("id", "ID"), ("userId", "User"), ("text", "Text"), ("createdAt", "Created")]
    }
}

impl Tabular for User {
    fn trimmed_columns() -> (r: Vec<(&'static str, &'static str)>)
        ensures
            r@ == seq![("id", "ID"), ("name", "Name"), ("username", "Username"), ("role", "Role")],
    {
        vec![("id", "ID"), ("name", "Name"), ("username", "Username"), ("role", "Role")]
    }
}

impl Tabular for Attachment {
    fn trimmed_columns() -> (r: Vec<(&'static str, &'static str)>)
        ensures
            r@ == seq![("id", "ID"), ("name", "Name"), ("cardId", "Card"), ("createdAt", "Created")],
    {
        vec![("id", "ID"), ("name", "Name"), ("cardId", "Card"), ("createdAt", "Created")]
    }
}

impl Tabular for BoardMembership {
    fn trimmed_columns() -> (r: Vec<(&'static str, &'static str)>)
        ensures
            r@ == seq![("id", "ID"), ("userId", "User"), ("boardId", "Board"), ("role", "Role")],
    {
        vec![("id", "ID"), ("userId", "User"), ("boardId", "Board"), ("role", "Role")]
    }
}

impl Tabular for ProjectManager {
    fn trimmed_columns() -> (r: Vec<(&'static str, &'static str)>)
        ensures
            r@ == seq![("id", "ID"), ("userId", "User"), ("projectId", "Project")],
    {
        vec![("id", "ID"), ("userId", "User"), ("projectId", "Project")]
    }
}

impl Tabular for CardMembership {
    fn trimmed_columns() -> (r: Vec<(&'static str, &'static str)>)
        ensures
            r@ == seq![("id", "ID"), ("userId", "User"), ("cardId", "Card")],
    {
        vec![("id", "ID"), ("userId", "User"), ("cardId", "Card")]
    }
}

impl Tabular for CardLabel {
    fn trimmed_columns() -> (r: Vec<(&'static str, &'static str)>)
        ensures
            r@ == seq![("id", "ID"), ("cardId", "Card"), ("labelId", "Label")],
    {
        vec![("id", "ID"), ("cardId", "Card"), ("labelId", "Label")]
    }
}

impl Tabular for BaseCustomFieldGroup {
    fn trimmed_columns() -> (r: Vec<(&'static str, &'static str)>)
        ensures
            r@ == seq![("id", "ID"), ("name", "Name"), ("projectId", "Project")],
    {
        vec![("id", "ID"), ("name", "Name"), ("projectId", "Project")]
    }
}

impl Tabular for CustomFieldValue {
    fn trimmed_columns() -> (r: Vec<(&'static str, &'static str)>)
        ensures
            r@ == seq![("id", "ID"), ("customFieldId", "Field"), ("content", "Content")],
    {
        vec![("id", "ID"), ("customFieldId", "Field"), ("content", "Content")]
    }
}

/// The trimmed-output columns of a board, whose record the application
/// layer keeps (it carries a float position).
pub fn board_trimmed_columns() -> (r: Vec<(&'static str, &'static str)>)
    ensures
        r@ == seq![("id", "ID"), ("name", "Name"), ("projectId", "Project"), ("position", "Position")],
{
    vec![("id", "ID"), ("name", "Name"), ("projectId", "Project"), ("position", "Position")]
}

/// The trimmed-output columns of a list.
pub fn list_trimmed_columns() -> (r: Vec<(&'static str, &'static str)>)
    ensures
        r@ == seq![("id", "ID"), ("name", "Name"), ("boardId", "Board"), ("position", "Position")],
{
    vec![("id", "ID"), ("name", "Name"), ("boardId", "Board"), ("position", "Position")]
}

/// The trimmed-output columns of a card.
pub fn card_trimmed_columns() -> (r: Vec<(&'static str, &'static str)>)
    ensures
        r@ == seq![("id", "ID"), ("name", "Name"), ("listId", "List"), ("position", "Position"), ("isClosed", "Closed")],
{
    vec![("id", "ID"), ("name", "Name"), ("listId", "List"), ("position", "Position"), ("isClosed", "Closed")]
}

/// The trimmed-output columns of a task.
pub fn task_trimmed_columns() -> (r: Vec<(&'static str, &'static str)>)
    ensures
        r@ == seq![("id", "ID"), ("name", "Name"), ("isCompleted", "Completed")],
{
    vec![("id", "ID"), ("name", "Name"), ("isCompleted", "Completed")]
}

/// The trimmed-output columns of a label.
pub fn label_trimmed_columns() -> (r: Vec<(&'static str, &'static str)>)
    ensures
        r@ == seq![("id", "ID"), ("name", "Name"), ("color", "Color"), ("boardId", "Board")],
{
    vec![("id", "ID"), ("name", "Name"), ("color", "Color"), ("boardId", "Board")]
}

} // verus!
