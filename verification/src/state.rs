//! The state of the terminal explorer: the project tree, what is expanded,
//! loading or failed, the selection, the filter, the live target, loaded
//! comments, and the card being edited.

use vstd::prelude::*;

use crate::editor::{FilterEditorState, InlineEditorState};
use crate::explorer::{CardDraft, CommentSummary, ConnectionState, ExplorerView, ProjectTree, TreeKey};
use crate::ids::{IdMap, IdSet};

verus! {

/// Everything the explorer knows and shows, apart from the terminal.
#[derive(Debug)]
pub struct ExplorerState {
    pub projects: Vec<ProjectTree>,
    /// The board the websocket is subscribed to, once one was made the
    /// live target.
    pub subscribed_board_id: Option<String>,
    pub active_socket_session_id: u64,
    pub status: ConnectionState,
    pub expanded_projects: IdSet,
    pub expanded_boards: IdSet,
    pub expanded_lists: IdSet,
    pub expanded_label_groups: IdSet,
    pub loading_boards: IdSet,
    pub loading_projects: IdSet,
    pub board_errors: IdMap<String>,
    pub selected: Option<TreeKey>,
    pub explorer_view: ExplorerView,
    pub filter_query: String,
    pub filter_editor: Option<FilterEditorState>,
    pub detail_scroll: usize,
    pub card_comments: IdMap<Vec<CommentSummary>>,
    pub loading_card_comments: IdSet,
    pub card_comment_errors: IdMap<String>,
    pub card_draft: Option<CardDraft>,
    pub title_editor: Option<InlineEditorState>,
    pub saving_card: Option<String>,
    pub notice: Option<String>,
    /// Which pane takes the arrow keys.
    pub focus: PaneFocus,
    /// Whether the log of recent live events is shown.
    pub show_debug_log: bool,
}

/// The pane that takes the arrow keys.
#[derive(Debug, Clone, Copy, PartialEq, Eq, Structural)]
pub enum PaneFocus {
    Explorer,
    Details,
}


/// Which parts of the state an operation may change.
pub struct Changes {
    pub projects: bool,
    pub live: bool,
    pub expanded_projects: bool,
    pub expanded_boards: bool,
    pub expanded_lists: bool,
    pub expanded_label_groups: bool,
    pub loading_boards: bool,
    pub loading_projects: bool,
    pub board_errors: bool,
    pub selection: bool,
    pub view: bool,
    pub filter: bool,
    pub card_comments: bool,
    pub loading_card_comments: bool,
    pub card_comment_errors: bool,
    pub draft: bool,
    pub title_editor: bool,
    pub saving_card: bool,
    pub notice: bool,
    pub ui: bool,
}

/// No part may change.
pub open spec fn no_changes() -> Changes {
    Changes {
        projects: false,
        live: false,
        expanded_projects: false,
        expanded_boards: false,
        expanded_lists: false,
        expanded_label_groups: false,
        loading_boards: false,
        loading_projects: false,
        board_errors: false,
        selection: false,
        view: false,
        filter: false,
        card_comments: false,
        loading_card_comments: false,
        card_comment_errors: false,
        draft: false,
        title_editor: false,
        saving_card: false,
        notice: false,
        ui: false,
    }
}

/// `b` is `a` except in the parts that `c` lets change.
pub open spec fn frame(a: &ExplorerState, b: &ExplorerState, c: Changes) -> bool {
    &&& !c.projects ==> a.projects == b.projects
    &&& !c.live ==> (a.subscribed_board_id == b.subscribed_board_id && a.active_socket_session_id
        == b.active_socket_session_id && a.status == b.status)
    &&& !c.expanded_projects ==> a.expanded_projects == b.expanded_projects
    &&& !c.expanded_boards ==> a.expanded_boards == b.expanded_boards
    &&& !c.expanded_lists ==> a.expanded_lists == b.expanded_lists
    &&& !c.expanded_label_groups ==> a.expanded_label_groups == b.expanded_label_groups
    &&& !c.loading_boards ==> a.loading_boards == b.loading_boards
    &&& !c.loading_projects ==> a.loading_projects == b.loading_projects
    &&& !c.board_errors ==> a.board_errors == b.board_errors
    &&& !c.selection ==> (a.selected == b.selected && a.detail_scroll == b.detail_scroll)
    &&& !c.view ==> a.explorer_view == b.explorer_view
    &&& !c.filter ==> (a.filter_query == b.filter_query && a.filter_editor == b.filter_editor)
    &&& !c.card_comments ==> a.card_comments == b.card_comments
    &&& !c.loading_card_comments ==> a.loading_card_comments == b.loading_card_comments
    &&& !c.card_comment_errors ==> a.card_comment_errors == b.card_comment_errors
    &&& !c.draft ==> a.card_draft == b.card_draft
    &&& !c.title_editor ==> a.title_editor == b.title_editor
    &&& !c.saving_card ==> a.saving_card == b.saving_card
    &&& !c.notice ==> a.notice == b.notice
    &&& !c.ui ==> (a.focus == b.focus && a.show_debug_log == b.show_debug_log)
}


/// What the tree's rows depend on: the projects, the live target, what is
/// expanded, loading or failed, the view and the filter query.
pub struct TreeView {
    pub projects: Seq<crate::board::ProjectView>,
    pub subscribed: Option<Seq<char>>,
    pub live: bool,
    pub expanded_projects: Set<Seq<char>>,
    pub expanded_boards: Set<Seq<char>>,
    pub expanded_lists: Set<Seq<char>>,
    pub expanded_label_groups: Set<Seq<char>>,
    pub loading_boards: Set<Seq<char>>,
    pub loading_projects: Set<Seq<char>>,
    pub board_errors: Map<Seq<char>, String>,
    pub view: ExplorerView,
    /// The filter query being typed, or else the applied one.
    pub query: Seq<char>,
}

/// The part of the state that the tree's rows depend on.
pub open spec fn tree_view(st: &ExplorerState) -> TreeView {
    TreeView {
        projects: crate::order::views(st.projects@),
        subscribed: crate::board::opt_text(st.subscribed_board_id),
        live: st.status is Live,
        expanded_projects: st.expanded_projects@,
        expanded_boards: st.expanded_boards@,
        expanded_lists: st.expanded_lists@,
        expanded_label_groups: st.expanded_label_groups@,
        loading_boards: st.loading_boards@,
        loading_projects: st.loading_projects@,
        board_errors: st.board_errors@,
        view: st.explorer_view,
        query: match st.filter_editor {
            Some(e) => e.buffer@,
            None => st.filter_query@,
        },
    }
}

} // verus!
