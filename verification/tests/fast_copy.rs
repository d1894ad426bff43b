use plnk::explorer::{build_payload, fast_copy_for, BoardSummary, CardSummary, ListSummary, ProjectTree, TreeKey};

fn fixture_card() -> CardSummary {
    CardSummary {
        id: "card-1".into(),
        name: "Fast COPY".into(),
        description: None,
        position: 0,
        is_closed: false,
        comments_total: 0,
        due_date: None,
        creator: None,
        labels: vec![],
        assignees: vec![],
        attachments: vec![],
        task_lists: vec![],
        is_subscribed: false,
    }
}

fn fixture_list(cards: Vec<CardSummary>) -> ListSummary {
    ListSummary {
        id: "list-1".into(),
        name: "Backlog".into(),
        position: 0,
        card_count: cards.len(),
        active_card_count: cards.len(),
        closed_card_count: 0,
        cards,
    }
}

fn fixture_board(lists: Vec<ListSummary>) -> BoardSummary {
    BoardSummary {
        id: "board-1".into(),
        name: "Work".into(),
        project_id: "proj-1".into(),
        position: 0,
        total_cards: 0,
        active_card_count: 0,
        closed_card_count: 0,
        active_lists: lists,
        labels: vec![],
        members: vec![],
    }
}

fn fixture_project(boards: Vec<BoardSummary>) -> ProjectTree {
    ProjectTree { id: "proj-1".into(), name: "planka-cli".into(), description: None, boards }
}

fn fixture_tree() -> Vec<ProjectTree> {
    vec![fixture_project(vec![fixture_board(vec![fixture_list(vec![fixture_card()])])])]
}

#[test]
fn fast_copy_card() {
    let projects = fixture_tree();
    let payload = fast_copy_for(&projects, &TreeKey::Card("card-1".into())).unwrap();
    assert_eq!(payload.breadcrumb, "planka-cli > Work > Backlog > Fast COPY");
    assert_eq!(
        payload.json,
        r#"{"project":{"id":"proj-1","name":"planka-cli"},"board":{"id":"board-1","name":"Work"},"list":{"id":"list-1","name":"Backlog"},"card":{"id":"card-1","name":"Fast COPY"}}"#
    );
    assert_eq!(
        payload.command,
        "# planka-cli > Work > Backlog > Fast COPY\nplnk card snapshot card-1 --output json\n"
    );
}

#[test]
fn fast_copy_list() {
    let projects = fixture_tree();
    let payload = fast_copy_for(&projects, &TreeKey::List("list-1".into())).unwrap();
    assert_eq!(payload.breadcrumb, "planka-cli > Work > Backlog");
    assert_eq!(
        payload.json,
        r#"{"project":{"id":"proj-1","name":"planka-cli"},"board":{"id":"board-1","name":"Work"},"list":{"id":"list-1","name":"Backlog"}}"#
    );
    assert_eq!(payload.command, "# planka-cli > Work > Backlog\nplnk list get list-1 --output json\n");
}

#[test]
fn fast_copy_board() {
    let projects = fixture_tree();
    let payload = fast_copy_for(&projects, &TreeKey::Board("board-1".into())).unwrap();
    assert_eq!(payload.breadcrumb, "planka-cli > Work");
    assert_eq!(payload.command, "# planka-cli > Work\nplnk board snapshot board-1 --output json\n");
}

#[test]
fn fast_copy_project() {
    let projects = fixture_tree();
    let payload = fast_copy_for(&projects, &TreeKey::Project("proj-1".into())).unwrap();
    assert_eq!(payload.breadcrumb, "planka-cli");
    assert_eq!(payload.command, "# planka-cli\nplnk project snapshot proj-1 --output json\n");
}

#[test]
fn fast_copy_grouped_card_resolves() {
    let projects = fixture_tree();
    let payload = fast_copy_for(
        &projects,
        &TreeKey::GroupedCard { group_key: "any".into(), card_id: "card-1".into() },
    )
    .unwrap();
    assert_eq!(payload.breadcrumb, "planka-cli > Work > Backlog > Fast COPY");
}

#[test]
fn fast_copy_label_group_resolves_to_list() {
    let projects = fixture_tree();
    let payload = fast_copy_for(
        &projects,
        &TreeKey::LabelGroup { board_id: "board-1".into(), list_id: "list-1".into(), label_id: None },
    )
    .unwrap();
    assert_eq!(payload.breadcrumb, "planka-cli > Work > Backlog");
}

#[test]
fn fast_copy_unknown_returns_none() {
    let projects = fixture_tree();
    assert!(fast_copy_for(&projects, &TreeKey::Card("missing".into())).is_none());
}

#[test]
fn fast_copy_escapes_special_chars_in_json() {
    let mut projects = fixture_tree();
    projects[0].boards[0].active_lists[0].cards[0].name = "weird \"name\" \\ \n".into();
    let payload = fast_copy_for(&projects, &TreeKey::Card("card-1".into())).unwrap();
    assert!(payload.json.contains(r#""name":"weird \"name\" \\ \n""#));
}

#[test]
fn fast_copy_command_blocks_newline_breakout_in_name() {
    let mut projects = fixture_tree();
    projects[0].boards[0].active_lists[0].cards[0].name = "evil\nrm -rf ~".into();
    let payload = fast_copy_for(&projects, &TreeKey::Card("card-1".into())).unwrap();
    let lines: Vec<&str> = payload.command.lines().collect();
    assert_eq!(lines.len(), 2, "attacker name produced extra line: {:?}", payload.command);
    assert!(lines[0].starts_with("# "));
    assert!(lines[0].contains("evil rm -rf ~"));
    assert!(lines[1].starts_with("plnk card snapshot"));
}

#[test]
fn fast_copy_command_strips_cr_and_escape_sequences() {
    let mut projects = fixture_tree();
    projects[0].boards[0].active_lists[0].cards[0].name = "a\rb\x1b[2Jc".into();
    let payload = fast_copy_for(&projects, &TreeKey::Card("card-1".into())).unwrap();
    let comment_line = payload.command.lines().next().unwrap();
    assert!(!comment_line.contains('\r'));
    assert!(!comment_line.contains('\x1b'));
    assert!(!comment_line.contains('\x00'));
}

#[test]
fn fast_copy_command_replaces_controls_with_space() {
    let mut projects = fixture_tree();
    projects[0].boards[0].active_lists[0].cards[0].name = "a\nb".into();
    let payload = fast_copy_for(&projects, &TreeKey::Card("card-1".into())).unwrap();
    assert!(payload.command.contains("> a b\n"), "got: {:?}", payload.command);
}

#[test]
fn fast_copy_takes_the_first_card_in_tree_order() {
    let mut first = fixture_card();
    first.name = "First".into();
    let mut second = fixture_card();
    second.name = "Second".into();
    let mut other_list = fixture_list(vec![second]);
    other_list.id = "list-2".into();
    other_list.name = "Done".into();
    let projects =
        vec![fixture_project(vec![fixture_board(vec![fixture_list(vec![first]), other_list])])];
    let payload = fast_copy_for(&projects, &TreeKey::Card("card-1".into())).unwrap();
    assert_eq!(payload.breadcrumb, "planka-cli > Work > Backlog > First");
}

#[test]
fn payload_of_a_list_without_its_board_fetches_the_list() {
    let project = fixture_project(vec![]);
    let list = fixture_list(vec![]);
    let payload = build_payload(&project, None, Some(&list), None);
    assert_eq!(payload.breadcrumb, "planka-cli > Backlog");
    assert_eq!(
        payload.json,
        r#"{"project":{"id":"proj-1","name":"planka-cli"},"list":{"id":"list-1","name":"Backlog"}}"#
    );
    assert_eq!(payload.command, "# planka-cli > Backlog\nplnk list get list-1 --output json\n");
}
