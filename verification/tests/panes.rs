use plnk::detail::{DetailLine, Hue, Tone};
use plnk::explorer::{
    AttachmentSummary, BoardSummary, CardSummary, CommentSummary, ListSummary, ProjectTree, TaskListSummary,
    TaskSummary, TreeKey, UserSummary,
};
use plnk::state::ExplorerState;

fn user(id: &str, name: &str, username: &str) -> UserSummary {
    UserSummary { id: id.into(), name: name.into(), username: username.into() }
}

fn card(id: &str, name: &str, closed: bool) -> CardSummary {
    CardSummary {
        id: id.into(),
        name: name.into(),
        description: None,
        position: 1,
        is_closed: closed,
        comments_total: 0,
        due_date: None,
        creator: None,
        labels: vec![],
        assignees: vec![],
        attachments: vec![],
        task_lists: vec![],
        is_subscribed: false,
    }
}

fn fixture() -> Vec<ProjectTree> {
    let mut c = card("card-1", "Write docs", false);
    c.description = Some("  First line\r\nSecond line\n".into());
    c.creator = Some(user("u1", "Ada", "ada"));
    c.attachments = vec![AttachmentSummary { id: "a1".into(), name: "spec.pdf".into(), url: Some("https://x/y".into()) }];
    c.task_lists = vec![TaskListSummary {
        id: "tl1".into(),
        name: "Steps".into(),
        tasks: vec![
            TaskSummary { id: "t1".into(), name: "Draft".into(), is_completed: true, assignee: Some(user("u1", "Ada", "ada")) },
            TaskSummary { id: "t2".into(), name: "Review".into(), is_completed: false, assignee: None },
        ],
    }];
    let l = ListSummary {
        id: "list-1".into(),
        name: "Backlog".into(),
        position: 1,
        card_count: 2,
        active_card_count: 1,
        closed_card_count: 1,
        cards: vec![c, card("card-2", "Old", true)],
    };
    let b = BoardSummary {
        id: "board-1".into(),
        name: "Work".into(),
        project_id: "proj-1".into(),
        position: 1,
        total_cards: 2,
        active_card_count: 1,
        closed_card_count: 1,
        active_lists: vec![l],
        labels: vec![],
        members: vec![user("u1", "Ada", "ada")],
    };
    vec![ProjectTree { id: "proj-1".into(), name: "Planning".into(), description: None, boards: vec![b] }]
}

fn texts(line: &DetailLine) -> String {
    line.segments.iter().map(|s| s.text.clone()).collect::<Vec<_>>().join("")
}

fn all_texts(lines: &[DetailLine]) -> Vec<String> {
    lines.iter().map(texts).collect()
}

#[test]
fn card_pane_shows_head_sections_and_tasks() {
    let mut st = ExplorerState::new(fixture(), None, 0);
    st.selected = Some(TreeKey::Card("card-1".into()));
    let lines = st.detail_lines();
    let t = all_texts(&lines);
    assert_eq!(t[0], "selected card");
    assert_eq!(lines[0].segments[0].tone, Tone::Kind);
    assert_eq!(t[1], "Write docs");
    assert_eq!(lines[2].segments[0].text, " ACTIVE ");
    assert_eq!(lines[2].segments[0].tone, Tone::Chip(Hue::LightGreen));
    assert_eq!(t[2], " ACTIVE    no due date    not subscribed ");
    assert_eq!(t[3], "card id: card-1");
    assert_eq!(t[4], "");
    assert_eq!(t[5], "─ Context ─");
    assert_eq!(t[6], "list: Backlog  [list-1]");
    assert_eq!(t[11], "creator: Ada (@ada)");
    assert_eq!(t[12], "labels: none");
    assert_eq!(t[14], "comments: 0");
    assert_eq!(t[16], "─ Description ─");
    assert_eq!(t[17], "First line");
    assert_eq!(t[18], "Second line");
    assert!(t.contains(&"• spec.pdf  a1".to_string()));
    assert!(t.contains(&"    ↳ https://x/y".to_string()));
    assert!(t.contains(&"• Steps  1/2 • tl1".to_string()));
    assert!(t.contains(&"    [x] Draft • @ada • t1".to_string()));
    assert!(t.contains(&"    [ ] Review • t2".to_string()));
    assert!(t.contains(&"Comments will load when card is selected.".to_string()));
    assert_eq!(st.detail_line_count(), lines.len());
}

#[test]
fn card_pane_lists_loaded_comments() {
    let mut st = ExplorerState::new(fixture(), None, 0);
    st.selected = Some(TreeKey::Card("card-1".into()));
    st.card_comments.insert(
        "card-1".into(),
        vec![CommentSummary {
            id: "c1".into(),
            text: "Looks good\nship it".into(),
            created_at: "2026-01-01T00:00:00Z".into(),
            updated_at: None,
            author: Some(user("u1", "Ada", "ada")),
        }],
    );
    let t = all_texts(&st.detail_lines());
    let at = t.iter().position(|l| l == "─ Comments ─").unwrap();
    assert_eq!(t[at + 1], "Ada (@ada)  2026-01-01T00:00:00Z");
    assert_eq!(t[at + 2], "    id: c1");
    assert_eq!(t[at + 3], "    Looks good");
    assert_eq!(t[at + 4], "    ship it");
    assert_eq!(t[at + 5], "");
    assert_eq!(t[at + 6], "─ Editing ─");
}

#[test]
fn board_list_and_project_panes() {
    let mut st = ExplorerState::new(fixture(), None, 0);
    st.selected = Some(TreeKey::Board("board-1".into()));
    let t = all_texts(&st.detail_lines());
    assert_eq!(t[0], "selected board");
    assert_eq!(t[6], "status: loaded by snapshot");
    assert_eq!(t[7], "cards: 1 active • 1 closed");
    assert!(t.contains(&"• Backlog  1 active • 1 closed • list-1".to_string()));
    assert!(t.contains(&"No labels.".to_string()));
    assert!(t.contains(&"• Ada  @ada • u1".to_string()));

    st.selected = Some(TreeKey::List("list-1".into()));
    let t = all_texts(&st.detail_lines());
    assert_eq!(t[7], "cards: 2 total • 1 active • 1 closed");
    assert_eq!(t[10], "• Write docs  card-1");
    assert_eq!(t[11], "• Old  closed • card-2");

    st.selected = Some(TreeKey::Project("proj-1".into()));
    let t = all_texts(&st.detail_lines());
    assert_eq!(t[5], "boards: 1 total • 1 loaded");
    assert_eq!(t[8], "No project description.");
    assert_eq!(t[11], "• Work  loaded • board-1");
}

#[test]
fn label_group_pane_and_missing_entities() {
    let mut st = ExplorerState::new(fixture(), None, 0);
    st.selected = Some(TreeKey::LabelGroup { board_id: "board-1".into(), list_id: "list-1".into(), label_id: None });
    let t = all_texts(&st.detail_lines());
    assert_eq!(t[0], "selected label group");
    assert_eq!(t[1], "Unlabeled");
    assert_eq!(t[7], "cards: 1 active • 1 closed • 2 total");
    assert_eq!(t[8], "bucket: cards without labels");
    assert!(t.contains(&"• Old  Backlog • closed • card-2".to_string()));

    st.selected = Some(TreeKey::Card("gone".into()));
    assert_eq!(all_texts(&st.detail_lines()), vec!["Selected card is no longer available."]);
    st.selected = None;
    assert_eq!(all_texts(&st.detail_lines()), vec!["No selection."]);
}

#[test]
fn scrolling_the_details_stops_at_the_last_line() {
    let mut st = ExplorerState::new(fixture(), None, 0);
    st.selected = Some(TreeKey::Board("board-1".into()));
    let n = st.detail_line_count();
    st.scroll_details_by(1000);
    assert_eq!(st.detail_scroll, n - 1);
    st.scroll_details_by(-3);
    assert_eq!(st.detail_scroll, n - 4);
    st.scroll_details_to_top();
    assert_eq!(st.detail_scroll, 0);
    st.scroll_details_to_bottom();
    assert_eq!(st.detail_scroll, n - 1);
}
