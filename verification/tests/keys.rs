use plnk::drafts::DraftFieldUpdate;
use plnk::explorer::{BoardSummary, CardSummary, ListSummary, ProjectTree, TreeKey};
use plnk::keys::{edited_description, Key, KeyCommand, KeyEffect, KeyPress, Warning};
use plnk::state::{ExplorerState, PaneFocus};

fn press(key: Key) -> KeyPress {
    KeyPress { key, ctrl: false }
}

fn ctrl(c: char) -> KeyPress {
    KeyPress { key: Key::Char(c), ctrl: true }
}

fn card(id: &str, name: &str) -> CardSummary {
    CardSummary {
        id: id.into(),
        name: name.into(),
        description: None,
        position: 1,
        is_closed: false,
        comments_total: 0,
        due_date: None,
        creator: None,
        labels: vec![],
        assignees: vec![],
        attachments: vec![],
        task_lists: vec![],
        is_subscribed: false,
    }
}

fn state() -> ExplorerState {
    let l = ListSummary {
        id: "list-1".into(),
        name: "Backlog".into(),
        position: 1,
        card_count: 1,
        active_card_count: 1,
        closed_card_count: 0,
        cards: vec![card("card-1", "Write docs")],
    };
    let b = BoardSummary {
        id: "board-1".into(),
        name: "Work".into(),
        project_id: "proj-1".into(),
        position: 1,
        total_cards: 1,
        active_card_count: 1,
        closed_card_count: 0,
        active_lists: vec![l],
        labels: vec![],
        members: vec![],
    };
    ExplorerState::new(
        vec![ProjectTree { id: "proj-1".into(), name: "Planning".into(), description: None, boards: vec![b] }],
        None,
        0,
    )
}

#[test]
fn q_quits_and_arrows_move_the_selection() {
    let mut st = state();
    assert!(matches!(st.handle_key(press(Key::Char('q'))), KeyEffect::Quit));
    assert!(matches!(st.handle_key(press(Key::Right)), KeyEffect::Nothing));
    assert!(st.expanded_projects.contains("proj-1"));
    st.handle_key(press(Key::Down));
    assert_eq!(st.selected, Some(TreeKey::Board("board-1".into())));
    st.handle_key(press(Key::Char('k')));
    assert_eq!(st.selected, Some(TreeKey::Project("proj-1".into())));
}

#[test]
fn tab_moves_focus_and_details_keys_scroll() {
    let mut st = state();
    st.handle_key(press(Key::Tab));
    assert_eq!(st.focus, PaneFocus::Details);
    st.handle_key(press(Key::Down));
    assert_eq!(st.detail_scroll, 1);
    st.handle_key(press(Key::Char('g')));
    assert_eq!(st.detail_scroll, 0);
    st.handle_key(press(Key::Left));
    assert_eq!(st.focus, PaneFocus::Explorer);
    st.handle_key(press(Key::Char('d')));
    assert!(st.show_debug_log);
}

#[test]
fn ctrl_c_quits_even_while_saving() {
    let mut st = state();
    st.saving_card = Some("card-1".into());
    assert_eq!(st.command_for_key(press(Key::Char('q'))), KeyCommand::SaveBusy);
    st.handle_key(press(Key::Down));
    assert_eq!(st.notice.as_deref(), Some("Save in progress… please wait."));
    assert!(matches!(st.handle_key(ctrl('c')), KeyEffect::Quit));
}

#[test]
fn editing_a_title_and_saving_it() {
    let mut st = state();
    st.set_selected(TreeKey::Card("card-1".into()));
    st.handle_key(press(Key::Char('e')));
    assert!(st.title_editor.is_some());
    st.handle_key(press(Key::Char('!')));
    match st.handle_key(press(Key::Enter)) {
        KeyEffect::Save(req) => {
            assert_eq!(req.card_id, "card-1");
            assert!(matches!(req.title, DraftFieldUpdate::Assign(ref t) if t == "Write docs!"));
        },
        other => panic!("expected a save, got {other:?}"),
    }
    assert_eq!(st.saving_card.as_deref(), Some("card-1"));
}

#[test]
fn a_dirty_draft_blocks_quitting_and_moving() {
    let mut st = state();
    st.set_selected(TreeKey::Card("card-1".into()));
    st.handle_key(press(Key::Char('e')));
    st.handle_key(press(Key::Char('?')));
    st.handle_key(press(Key::Esc));
    assert!(st.title_editor.is_none());
    st.ensure_card_draft();
    if let Some(d) = st.card_draft.as_mut() {
        d.draft_title = "Changed".into();
    }
    assert_eq!(st.command_for_key(press(Key::Char('q'))), KeyCommand::Warn(Warning::Quit));
    assert_eq!(st.command_for_key(press(Key::Down)), KeyCommand::Warn(Warning::Selection));
    st.handle_key(press(Key::Esc));
    assert_eq!(st.notice.as_deref(), Some("Unsaved card changes. Ctrl-s save • Ctrl-x discard."));
    st.handle_key(ctrl('x'));
    assert!(st.card_draft.is_none());
    assert_eq!(st.notice.as_deref(), Some("Discarded local card edits."));
}

#[test]
fn description_editing_round_trip() {
    let mut st = state();
    st.set_selected(TreeKey::Card("card-1".into()));
    let current = match st.handle_key(press(Key::Char('E'))) {
        KeyEffect::EditDescription { card_id, current } => {
            assert_eq!(card_id, "card-1");
            current
        },
        other => panic!("expected the editor, got {other:?}"),
    };
    assert_eq!(current, None);
    let edited = edited_description(current.as_deref(), "New text\n");
    assert_eq!(edited.as_deref(), Some("New text\n"));
    let req = st.finish_description_edit(current, Ok(edited)).unwrap();
    assert!(matches!(req.description, DraftFieldUpdate::Assign(ref t) if t == "New text\n"));
}

#[test]
fn description_editor_results() {
    assert_eq!(edited_description(Some("abc"), "abc\n").as_deref(), Some("abc"));
    assert_eq!(edited_description(Some("abc"), "abc"), Some("abc".to_string()));
    assert_eq!(edited_description(Some("abc"), "  \n"), None);
    assert_eq!(edited_description(None, "x"), Some("x".to_string()));
}

#[test]
fn live_toggle_on_a_board() {
    let mut st = state();
    st.set_selected(TreeKey::Board("board-1".into()));
    match st.handle_key(press(Key::Char('L'))) {
        KeyEffect::StartLive { board_id, session_id } => {
            assert_eq!(board_id, "board-1");
            assert_eq!(session_id, 1);
        },
        other => panic!("expected live start, got {other:?}"),
    }
    assert!(matches!(st.handle_key(press(Key::Char('L'))), KeyEffect::StopLive));
    assert_eq!(st.subscribed_board_id, None);
    st.set_selected(TreeKey::Project("proj-1".into()));
    st.handle_key(press(Key::Char('L')));
    assert_eq!(st.notice.as_deref(), Some("Select a board to make it live."));
}

#[test]
fn copy_keys_hand_out_the_payload() {
    let mut st = state();
    st.set_selected(TreeKey::Card("card-1".into()));
    match st.handle_key(press(Key::Char('Y'))) {
        KeyEffect::Copy { payload, command } => {
            assert!(command);
            assert_eq!(payload.breadcrumb, "Planning > Work > Backlog > Write docs");
            st.finish_copy(command, &payload.breadcrumb, Ok(()));
        },
        other => panic!("expected a copy, got {other:?}"),
    }
    assert_eq!(
        st.notice.as_deref(),
        Some("Copied snapshot command → clipboard: Planning > Work > Backlog > Write docs")
    );
    st.finish_copy(false, "x", Err("no tty".into()));
    assert_eq!(st.notice.as_deref(), Some("Copy failed: no tty"));
}
