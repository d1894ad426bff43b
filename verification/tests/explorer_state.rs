use plnk::board::{EventItem, JsonField};
use plnk::drafts::{DraftFieldUpdate, EditOp};
use plnk::events::{ExplorerEvent, SaveCompletion};
use plnk::explorer::{
    BoardSummary, CardSummary, ConnectionState, ExplorerView, LabelSummary, ListSummary, ProjectTree, TreeKey,
};
use plnk::state::ExplorerState;
use plnk::tree::TreeKind;

fn card(id: &str, name: &str, position: u64, closed: bool) -> CardSummary {
    CardSummary {
        id: id.into(),
        name: name.into(),
        description: None,
        position,
        is_closed: closed,
        comments_total: 0,
        due_date: None,
        creator: None,
        labels: vec![],
        assignees: vec![],
        attachments: vec![],
        task_lists: vec![],
        is_subscribed: false,
    }
}

fn list(id: &str, name: &str, position: u64, cards: Vec<CardSummary>) -> ListSummary {
    let active = cards.iter().filter(|c| !c.is_closed).count();
    ListSummary {
        id: id.into(),
        name: name.into(),
        position,
        card_count: cards.len(),
        active_card_count: active,
        closed_card_count: cards.len() - active,
        cards,
    }
}

fn board(id: &str, name: &str, lists: Vec<ListSummary>) -> BoardSummary {
    let total: usize = lists.iter().map(|l| l.cards.len()).sum();
    let active: usize = lists.iter().map(|l| l.active_card_count).sum();
    BoardSummary {
        id: id.into(),
        name: name.into(),
        project_id: "proj-1".into(),
        position: 1,
        total_cards: total,
        active_card_count: active,
        closed_card_count: total - active,
        active_lists: lists,
        labels: vec![],
        members: vec![],
    }
}

fn fixture() -> Vec<ProjectTree> {
    let b = board(
        "board-1",
        "Work",
        vec![list(
            "list-1",
            "Backlog",
            10,
            vec![card("card-1", "Write docs", 1, false), card("card-2", "Old task", 2, true)],
        )],
    );
    vec![ProjectTree { id: "proj-1".into(), name: "Planning".into(), description: None, boards: vec![b] }]
}

fn item_with_id(id: &str) -> EventItem {
    EventItem {
        id: Some(id.into()),
        name: None,
        list_id: None,
        card_id: None,
        label_id: None,
        user_id: None,
        creator_user_id: JsonField::Missing,
        description: JsonField::Missing,
        due_date: JsonField::Missing,
        color: JsonField::Missing,
        position: JsonField::Missing,
        comments_total: None,
        is_subscribed: None,
        is_closed: None,
    }
}

fn keys(state: &ExplorerState) -> Vec<TreeKey> {
    state.visible_rows().into_iter().map(|r| r.key).collect()
}

#[test]
fn new_state_selects_and_expands_the_live_board() {
    let state = ExplorerState::new(fixture(), Some("board-1".into()), 7);
    assert_eq!(state.selected, Some(TreeKey::Board("board-1".into())));
    assert!(state.expanded_projects.contains("proj-1"));
    assert!(state.expanded_boards.contains("board-1"));
    assert_eq!(state.status, ConnectionState::Loading);

    let idle = ExplorerState::new(fixture(), None, 0);
    assert_eq!(idle.selected, Some(TreeKey::Project("proj-1".into())));
    assert_eq!(idle.status, ConnectionState::Idle);
    assert!(!idle.expanded_projects.contains("proj-1"));
}

#[test]
fn visible_rows_follow_expansion() {
    let state = ExplorerState::new(fixture(), Some("board-1".into()), 7);
    let rows = state.visible_rows();
    assert_eq!(
        rows.iter().map(|r| r.key.clone()).collect::<Vec<_>>(),
        vec![TreeKey::Project("proj-1".into()), TreeKey::Board("board-1".into()), TreeKey::List("list-1".into())]
    );
    assert_eq!(rows[0].kind, TreeKind::Project);
    assert_eq!(rows[0].meta.as_deref(), Some("1 boards"));
    assert_eq!(rows[1].meta.as_deref(), Some("switching live target • waiting websocket snapshot"));
    assert_eq!(rows[2].meta.as_deref(), Some("1 active • 1 closed"));
    assert_eq!(rows[2].depth, 2);
}

#[test]
fn expanding_a_list_shows_its_cards_and_navigation_moves_within_rows() {
    let mut state = ExplorerState::new(fixture(), Some("board-1".into()), 7);
    state.select_relative(1);
    assert_eq!(state.selected, Some(TreeKey::List("list-1".into())));
    assert_eq!(state.expand_or_descend(), None);
    assert!(state.expanded_lists.contains("list-1"));
    assert_eq!(keys(&state).len(), 5);
    state.select_relative(100);
    assert_eq!(state.selected, Some(TreeKey::Card("card-2".into())));
    state.select_relative(-100);
    assert_eq!(state.selected, Some(TreeKey::Project("proj-1".into())));
    state.select_relative(3);
    state.collapse_or_ascend();
    assert_eq!(state.selected, Some(TreeKey::List("list-1".into())));
}

#[test]
fn socket_events_of_other_sessions_are_ignored() {
    let mut state = ExplorerState::new(fixture(), Some("board-1".into()), 7);
    let fresh = board("board-1", "Work", vec![]);
    state.apply(ExplorerEvent::SocketLive { session_id: 3, board: fresh });
    assert_eq!(state.status, ConnectionState::Loading);
    state.apply(ExplorerEvent::SocketError { session_id: 7, message: "boom".into() });
    assert_eq!(state.status, ConnectionState::Error("boom".into()));
}

#[test]
fn live_card_update_renames_the_card() {
    let mut state = ExplorerState::new(fixture(), Some("board-1".into()), 7);
    let snapshot = fixture()[0].boards[0].clone();
    state.apply(ExplorerEvent::SocketLive { session_id: 7, board: snapshot });
    assert_eq!(state.status, ConnectionState::Live);
    assert!(state.live_event_fits());

    let mut item = item_with_id("card-1");
    item.name = Some("Write better docs".into());
    item.list_id = Some("list-1".into());
    state.apply(ExplorerEvent::LiveEvent { session_id: 7, name: "cardUpdate".into(), item: Some(item) });
    assert_eq!(state.card_summary("card-1").map(|c| c.name.clone()), Some("Write better docs".to_string()));
    assert_eq!(state.card_list_id("card-1"), Some("list-1"));

    state.apply(ExplorerEvent::LiveEvent {
        session_id: 7,
        name: "cardDelete".into(),
        item: Some(item_with_id("card-2")),
    });
    assert!(state.card_summary("card-2").is_none());
    let b = state.board_summary("board-1").unwrap();
    assert_eq!(b.total_cards, 1);
    assert_eq!(b.closed_card_count, 0);
}

#[test]
fn live_card_create_inserts_by_position() {
    let mut state = ExplorerState::new(fixture(), Some("board-1".into()), 7);
    state.apply(ExplorerEvent::SocketLive { session_id: 7, board: fixture()[0].boards[0].clone() });
    let mut item = item_with_id("card-0");
    item.name = Some("First".into());
    item.list_id = Some("list-1".into());
    item.position = JsonField::Value(0);
    state.apply(ExplorerEvent::LiveEvent { session_id: 7, name: "cardCreate".into(), item: Some(item) });
    let b = state.board_summary("board-1").unwrap();
    let ids: Vec<&str> = b.active_lists[0].cards.iter().map(|c| c.id.as_str()).collect();
    assert_eq!(ids, vec!["card-0", "card-1", "card-2"]);
    assert_eq!(b.total_cards, 3);
    assert_eq!(b.active_card_count, 2);
}

#[test]
fn filter_keeps_matches_and_their_ancestors() {
    let mut state = ExplorerState::new(fixture(), Some("board-1".into()), 7);
    state.start_filter_editor();
    for c in "docs".chars() {
        state.edit_filter(EditOp::Insert(c));
    }
    assert!(state.has_active_filter());
    assert_eq!(state.active_filter_query(), "docs");
    assert_eq!(
        keys(&state),
        vec![
            TreeKey::Project("proj-1".into()),
            TreeKey::Board("board-1".into()),
            TreeKey::List("list-1".into()),
            TreeKey::Card("card-1".into()),
        ]
    );
    state.finish_filter_editor();
    assert_eq!(state.filter_query, "docs");
    state.start_filter_editor();
    state.clear_or_close_filter_editor();
    assert!(!state.has_active_filter());
}

#[test]
fn labels_view_groups_cards_by_label() {
    let mut projects = fixture();
    let urgent = LabelSummary { id: "lab-1".into(), name: "Urgent".into(), color: None };
    projects[0].boards[0].labels = vec![urgent.clone()];
    projects[0].boards[0].active_lists[0].cards[0].labels = vec![urgent];
    let mut state = ExplorerState::new(projects, Some("board-1".into()), 7);
    state.toggle_explorer_view();
    assert_eq!(state.explorer_view, ExplorerView::Labels);
    state.expanded_lists.insert("list-1");
    let rows = state.visible_rows();
    let groups: Vec<&str> =
        rows.iter().filter(|r| r.kind == TreeKind::LabelGroup).map(|r| r.label.as_str()).collect();
    assert_eq!(groups, vec!["Unlabeled", "Urgent"]);
}

#[test]
fn title_draft_becomes_a_save_request() {
    let mut state = ExplorerState::new(fixture(), Some("board-1".into()), 7);
    state.set_selected(TreeKey::Card("card-1".into()));
    state.start_title_editor();
    assert!(state.title_editor.is_some());
    state.edit_title(EditOp::End);
    state.edit_title(EditOp::Insert('!'));
    state.apply_title_editor();
    assert!(state.has_dirty_card_draft());
    let request = state.save_request().unwrap();
    assert_eq!(request.card_id, "card-1");
    assert!(matches!(request.title, DraftFieldUpdate::Assign(ref t) if t == "Write docs!"));
    assert!(matches!(request.description, DraftFieldUpdate::Unchanged));
    assert_eq!(state.saving_card_label(), Some("Write docs!"));

    let mut item = item_with_id("card-1");
    item.name = Some("Write docs!".into());
    item.list_id = Some("list-1".into());
    state.finish_save(SaveCompletion::Succeeded { card_id: "card-1".into(), item });
    assert!(state.saving_card.is_none());
    assert!(!state.has_dirty_card_draft());
    assert_eq!(state.card_summary("card-1").map(|c| c.name.clone()), Some("Write docs!".to_string()));
}

#[test]
fn board_load_failure_is_shown_on_the_board_row() {
    let mut projects = fixture();
    projects[0].boards[0] = BoardSummary::stub("proj-1".into(), "board-1".into(), "Work".into(), 1);
    let mut state = ExplorerState::new(projects, None, 0);
    state.expanded_projects.insert("proj-1");
    state.apply(ExplorerEvent::BoardLoadFailed { board_id: "board-1".into(), message: "timeout".into() });
    let rows = state.visible_rows();
    assert_eq!(rows[1].meta.as_deref(), Some("load failed • timeout"));
    assert!(rows[1].has_children);
}

#[test]
fn refresh_of_a_project_lists_its_loaded_boards() {
    let mut state = ExplorerState::new(fixture(), None, 0);
    assert_eq!(state.loaded_board_ids_for_project("proj-1"), vec!["board-1".to_string()]);
    let target = state.queue_hierarchy_refresh();
    assert!(target.is_some());
    assert!(state.loading_projects.contains("proj-1"));
}

#[test]
fn live_card_update_without_list_drops_the_card() {
    let mut state = ExplorerState::new(fixture(), Some("board-1".into()), 7);
    state.apply(ExplorerEvent::SocketLive { session_id: 7, board: fixture()[0].boards[0].clone() });
    let mut item = item_with_id("card-1");
    item.name = Some("Renamed".into());
    state.apply(ExplorerEvent::LiveEvent { session_id: 7, name: "cardUpdate".into(), item: Some(item) });
    assert!(state.card_summary("card-1").is_none());
}

#[test]
fn socket_reports_for_another_board_are_ignored() {
    let mut state = ExplorerState::new(fixture(), Some("board-1".into()), 7);
    state.apply(ExplorerEvent::SocketConnecting { session_id: 7, board_id: "board-9".into() });
    assert_eq!(state.status, ConnectionState::Loading);
    let other = board("board-9", "Elsewhere", vec![]);
    state.apply(ExplorerEvent::SocketLive { session_id: 7, board: other });
    assert_eq!(state.status, ConnectionState::Loading);
    state.apply(ExplorerEvent::SocketConnecting { session_id: 7, board_id: "board-1".into() });
    assert_eq!(state.status, ConnectionState::Connecting);
}

#[test]
fn every_row_follows_its_parent_one_level_deeper() {
    let state = ExplorerState::new(fixture(), Some("board-1".into()), 1);
    let rows = state.all_rows();
    assert!(!rows.is_empty());
    for (i, row) in rows.iter().enumerate() {
        assert_eq!(row.parent.is_none(), row.depth == 0);
        if let Some(parent) = &row.parent {
            assert!(rows[..i].iter().any(|r| &r.key == parent && r.depth + 1 == row.depth));
        }
    }
    let top: Vec<TreeKey> = rows.iter().filter(|r| r.depth == 0).map(|r| r.key.clone()).collect();
    let projects: Vec<TreeKey> = fixture().iter().map(|p| TreeKey::Project(p.id.clone())).collect();
    assert_eq!(top, projects);
}
