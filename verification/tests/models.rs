use plnk::models::{
    Attachment, BaseCustomFieldGroup, BoardMembership, CardLabel, CardMembership, Comment, CustomFieldValue,
    Project, ProjectManager, Tabular, User,
};

#[test]
fn comment_trimmed_columns_use_wire_field_names() {
    let fields: Vec<&str> = Comment::trimmed_columns().iter().map(|(f, _)| *f).collect();
    assert_eq!(fields, vec!["id", "userId", "text", "createdAt"]);
}

#[test]
fn project_trimmed_columns_match_wire_format() {
    let fields: Vec<&str> = Project::trimmed_columns().iter().map(|(f, _)| *f).collect();
    assert_eq!(fields, vec!["id", "name"]);
}

#[test]
fn custom_field_trimmed_columns_match_wire_format() {
    let value_fields: Vec<&str> = CustomFieldValue::trimmed_columns().iter().map(|(f, _)| *f).collect();
    assert_eq!(value_fields, vec!["id", "customFieldId", "content"]);
    let base_fields: Vec<&str> = BaseCustomFieldGroup::trimmed_columns().iter().map(|(f, _)| *f).collect();
    assert_eq!(base_fields, vec!["id", "name", "projectId"]);
}

#[test]
fn other_trimmed_columns_use_wire_names_and_labels() {
    assert_eq!(User::trimmed_columns(), vec![("id", "ID"), ("name", "Name"), ("username", "Username"), ("role", "Role")]);
    assert_eq!(Attachment::trimmed_columns(), vec![("id", "ID"), ("name", "Name"), ("cardId", "Card"), ("createdAt", "Created")]);
    assert_eq!(BoardMembership::trimmed_columns(), vec![("id", "ID"), ("userId", "User"), ("boardId", "Board"), ("role", "Role")]);
    assert_eq!(ProjectManager::trimmed_columns(), vec![("id", "ID"), ("userId", "User"), ("projectId", "Project")]);
    assert_eq!(CardMembership::trimmed_columns(), vec![("id", "ID"), ("userId", "User"), ("cardId", "Card")]);
    assert_eq!(CardLabel::trimmed_columns(), vec![("id", "ID"), ("cardId", "Card"), ("labelId", "Label")]);
}

#[test]
fn card_trimmed_columns_match_wire_format() {
    let columns = plnk::models::card_trimmed_columns();
    let fields: Vec<&str> = columns.iter().map(|(f, _)| *f).collect();
    assert_eq!(fields, vec!["id", "name", "listId", "position", "isClosed"]);
    let labels: Vec<&str> = columns.iter().map(|(_, l)| *l).collect();
    assert_eq!(labels, vec!["ID", "Name", "List", "Position", "Closed"]);
}

#[test]
fn float_record_trimmed_columns() {
    assert_eq!(
        plnk::models::board_trimmed_columns(),
        vec![("id", "ID"), ("name", "Name"), ("projectId", "Project"), ("position", "Position")]
    );
    assert_eq!(
        plnk::models::list_trimmed_columns(),
        vec![("id", "ID"), ("name", "Name"), ("boardId", "Board"), ("position", "Position")]
    );
    assert_eq!(plnk::models::task_trimmed_columns(), vec![("id", "ID"), ("name", "Name"), ("isCompleted", "Completed")]);
    assert_eq!(
        plnk::models::label_trimmed_columns(),
        vec![("id", "ID"), ("name", "Name"), ("color", "Color"), ("boardId", "Board")]
    );
}
