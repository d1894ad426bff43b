use plnk::explorer::{ProjectTree, TreeKey};
use plnk::screen::{render_tree_row, RowTone};
use plnk::state::ExplorerState;
use plnk::tree::{TreeKind, TreeRow};

#[test]
fn a_tree_row_as_pieces() {
    let row = TreeRow {
        key: TreeKey::Board("b1".into()),
        parent: Some(TreeKey::Project("p1".into())),
        depth: 1,
        kind: TreeKind::Board,
        label: "Work".into(),
        meta: Some("2 lists • 3 active • 0 closed".into()),
        has_children: true,
        expanded: false,
        live: true,
    };
    let pieces = render_tree_row(&row);
    let text: String = pieces.iter().map(|p| p.text.clone()).collect();
    assert_eq!(text, "  ▸ ▣ Work LIVE  2 lists • 3 active • 0 closed");
    assert_eq!(pieces[2].tone, RowTone::Icon(TreeKind::Board));
    assert_eq!(pieces[5].tone, RowTone::Live);
}

#[test]
fn header_and_help_follow_the_mode() {
    let mut st = ExplorerState::new(
        vec![ProjectTree { id: "p1".into(), name: "P".into(), description: None, boards: vec![] }],
        None,
        0,
    );
    assert!(st.header_chip_segments().is_empty());
    assert!(st.key_help().starts_with("↑/↓ nav"));
    assert_eq!(st.explorer_title(), "explorer • hierarchy");
    assert_eq!(st.filter_summary(), "none");
    st.start_filter_editor();
    for c in "zz".chars() {
        st.edit_filter(plnk::drafts::EditOp::Insert(c));
    }
    let chips: Vec<String> = st.header_chip_segments().into_iter().map(|s| s.text).collect();
    assert_eq!(chips, vec!["  •  ".to_string(), " FILTER MODE ".to_string()]);
    assert!(st.key_help().starts_with("FILTER MODE"));
    assert_eq!(st.explorer_title(), "explorer • hierarchy • filter: zz");
    assert_eq!(st.empty_tree_message(), "No nodes match filter 'zz'");
    assert!(st.visible_rows().is_empty());
}
