//! What the explorer's keys do to its state: expanding and collapsing
//! rows, switching the view, and asking for a refresh of the selection.

use vstd::prelude::*;

use crate::board::BoardView;
use crate::explorer::{
    spec_label_group_key, spec_toggle, label_group_key, ConnectionState, ExplorerView, ProjectTree, TreeKey,
};
use crate::lookup::{board_id_where, board_of, card_list_of, project_of_board, BoardQuery};
use crate::nav::{index_of_key, same_but_selection, selected_as, selected_index, visible_rows};
use crate::order::views;
use crate::state::{frame, no_changes, tree_view, Changes, ExplorerState, TreeView};
use crate::text::str_eq;
use crate::tree::{board_loaded, copy_key, is_live_target, KeyView, RowView, TreeRow};

verus! {

/// Whether the first board with the id has been loaded.
pub open spec fn board_is_loaded(st: &ExplorerState, board_id: Seq<char>) -> bool {
    match board_of(st, board_id) {
        Some(b) => board_loaded(b),
        None => false,
    }
}

/// The row after the selected one gets selected, if there is one.
pub open spec fn selects_next(a: &ExplorerState, b: &ExplorerState, rows: Seq<RowView>, i: int) -> bool {
    if i + 1 < rows.len() {
        selected_as(a, b, rows[i + 1].key)
    } else {
        *b == *a
    }
}

/// The selected row's parent gets selected, if it has one.
pub open spec fn selects_parent(a: &ExplorerState, b: &ExplorerState, row: RowView) -> bool {
    match row.parent {
        Some(p) => selected_as(a, b, p),
        None => *b == *a,
    }
}

/// What expanding the selected row does: a collapsed row with children
/// opens; an unloaded board that is not the live target opens and starts
/// loading (and the board to load is returned when it was not loading
/// already); otherwise the selection moves to the next row. Cards do
/// nothing.
pub open spec fn expand_result(a: &ExplorerState, b: &ExplorerState, r: Option<Seq<char>>) -> bool {
    let rows = visible_rows(a);
    if rows.len() == 0 {
        *b == *a && r is None
    } else {
        let i = selected_index(a, rows);
        let row = rows[i];
        let opens = row.has_children && !row.expanded;
        match row.key {
            KeyView::Project(pid) => r is None && if opens {
                frame(a, b, Changes { expanded_projects: true, ..no_changes() })
                    && b.expanded_projects@ == a.expanded_projects@.insert(pid)
            } else {
                selects_next(a, b, rows, i)
            },
            KeyView::Board(bid) => if !board_is_loaded(a, bid) && !is_live_target(tree_view(a), bid) {
                let newly = !a.loading_boards@.contains(bid);
                &&& frame(
                    a,
                    b,
                    Changes { expanded_boards: true, loading_boards: true, board_errors: true, ..no_changes() },
                )
                &&& b.expanded_boards@ == a.expanded_boards@.insert(bid)
                &&& b.loading_boards@ == a.loading_boards@.insert(bid)
                &&& b.board_errors@ == if newly {
                    a.board_errors@.remove(bid)
                } else {
                    a.board_errors@
                }
                &&& r == if newly {
                    Some(bid)
                } else {
                    None
                }
            } else {
                r is None && if opens {
                    frame(a, b, Changes { expanded_boards: true, ..no_changes() })
                        && b.expanded_boards@ == a.expanded_boards@.insert(bid)
                } else {
                    selects_next(a, b, rows, i)
                }
            },
            KeyView::List(lid) => r is None && if opens {
                frame(a, b, Changes { expanded_lists: true, ..no_changes() })
                    && b.expanded_lists@ == a.expanded_lists@.insert(lid)
            } else {
                selects_next(a, b, rows, i)
            },
            KeyView::LabelGroup(bid, lid, label) => r is None && if opens {
                frame(a, b, Changes { expanded_label_groups: true, ..no_changes() })
                    && b.expanded_label_groups@ == a.expanded_label_groups@.insert(
                    spec_label_group_key(bid, lid, label),
                )
            } else {
                selects_next(a, b, rows, i)
            },
            _ => *b == *a && r is None,
        }
    }
}

/// What collapsing the selected row does: with a filter, the parent gets
/// selected; a project closes; an expanded board, list or group closes,
/// a collapsed one (and a card) hands the selection to its parent.
pub open spec fn collapse_result(a: &ExplorerState, b: &ExplorerState, filtering: bool) -> bool {
    let rows = visible_rows(a);
    if rows.len() == 0 {
        *b == *a
    } else {
        let row = rows[selected_index(a, rows)];
        if filtering {
            selects_parent(a, b, row)
        } else {
            match row.key {
                KeyView::Project(pid) => frame(a, b, Changes { expanded_projects: true, ..no_changes() })
                    && b.expanded_projects@ == a.expanded_projects@.remove(pid),
                KeyView::Board(bid) => if row.expanded {
                    frame(a, b, Changes { expanded_boards: true, ..no_changes() })
                        && b.expanded_boards@ == a.expanded_boards@.remove(bid)
                } else {
                    selects_parent(a, b, row)
                },
                KeyView::List(lid) => if row.expanded {
                    frame(a, b, Changes { expanded_lists: true, ..no_changes() })
                        && b.expanded_lists@ == a.expanded_lists@.remove(lid)
                } else {
                    selects_parent(a, b, row)
                },
                KeyView::LabelGroup(bid, lid, label) => if row.expanded {
                    frame(a, b, Changes { expanded_label_groups: true, ..no_changes() })
                        && b.expanded_label_groups@ == a.expanded_label_groups@.remove(
                        spec_label_group_key(bid, lid, label),
                    )
                } else {
                    selects_parent(a, b, row)
                },
                _ => selects_parent(a, b, row),
            }
        }
    }
}

fn opt_ref(o: &Option<String>) -> (r: Option<&str>)
    ensures
        crate::config::opt_view(r) == crate::board::opt_text(*o),
{
    match o {
        Some(s) => Some(s.as_str()),
        None => None,
    }
}

impl ExplorerState {
    /// Whether `board_id` is the live target.
    pub fn is_live_target(&self, board_id: &str) -> (r: bool)
        ensures
            r == is_live_target(tree_view(self), board_id@),
    {
        match &self.subscribed_board_id {
            Some(id) => str_eq(id.as_str(), board_id),
            None => false,
        }
    }

    /// Whether `board_id` is the live target and the websocket is live.
    pub fn is_live_connected(&self, board_id: &str) -> (r: bool)
        ensures
            r == (is_live_target(tree_view(self), board_id@) && self.status is Live),
    {
        self.is_live_target(board_id) && match self.status {
            ConnectionState::Live => true,
            _ => false,
        }
    }

    fn board_is_loaded_exec(&self, board_id: &str) -> (r: bool)
        ensures
            r == board_is_loaded(self, board_id@),
    {
        match self.board_summary(board_id) {
            Some(b) => {
                assert(views(b.active_lists@).len() == b.active_lists@.len());
                b.active_lists.len() > 0 || b.total_cards > 0
            },
            None => false,
        }
    }

    fn select_next_row(&mut self, rows: &Vec<TreeRow>, index: usize)
        requires
            index < rows.len(),
        ensures
            selects_next(old(self), final(self), views(rows@), index as int),
    {
        if index + 1 < rows.len() {
            assert(views(rows@)[index + 1] == rows@[index + 1]@);
            let key = copy_key(&rows[index + 1].key);
            self.set_selected(key);
        }
    }

    fn select_parent_of(&mut self, row: &TreeRow)
        ensures
            selects_parent(old(self), final(self), row@),
    {
        match &row.parent {
            Some(p) => {
                let key = copy_key(p);
                self.set_selected(key);
            },
            None => {},
        }
    }

    /// Expands the selected row, or moves down when it is open; returns the
    /// board whose snapshot should now be loaded.
    pub fn expand_or_descend(&mut self) -> (r: Option<String>)
        ensures
            expand_result(old(self), final(self), crate::board::opt_text(r)),
    {
        let rows = self.visible_rows();
        if rows.len() == 0 {
            return None;
        }
        let index = self.selected_index(&rows);
        proof {
            if self.selected is Some {
                crate::nav::lemma_index_of_key_range_pub(views(rows@), self.selected->0@);
            }
        }
        assert(views(rows@)[index as int] == rows@[index as int]@);
        let row = &rows[index];
        let opens = row.has_children && !row.expanded;
        match &row.key {
            TreeKey::Project(project_id) => {
                if opens {
                    self.expanded_projects.insert(project_id.as_str());
                } else {
                    self.select_next_row(&rows, index);
                }
                None
            },
            TreeKey::Board(board_id) => {
                let loaded = self.board_is_loaded_exec(board_id.as_str());
                if !loaded && !self.is_live_target(board_id.as_str()) {
                    self.expanded_boards.insert(board_id.as_str());
                    if self.loading_boards.insert(board_id.as_str()) {
                        self.board_errors.remove(board_id.as_str());
                        return Some(board_id.clone());
                    }
                } else if opens {
                    self.expanded_boards.insert(board_id.as_str());
                } else {
                    self.select_next_row(&rows, index);
                }
                None
            },
            TreeKey::List(list_id) => {
                if opens {
                    self.expanded_lists.insert(list_id.as_str());
                } else {
                    self.select_next_row(&rows, index);
                }
                None
            },
            TreeKey::LabelGroup { board_id, list_id, label_id } => {
                if opens {
                    let key = label_group_key(board_id.as_str(), list_id.as_str(), opt_ref(label_id));
                    self.expanded_label_groups.insert(key.as_str());
                } else {
                    self.select_next_row(&rows, index);
                }
                None
            },
            _ => None,
        }
    }

    /// Collapses the selected row, or moves up to its parent.
    pub fn collapse_or_ascend(&mut self)
        ensures
            collapse_result(old(self), final(self), crate::text::spec_trim(crate::nav::active_query(old(self))).len() > 0),
    {
        let rows = self.visible_rows();
        if rows.len() == 0 {
            return;
        }
        let index = self.selected_index(&rows);
        proof {
            if self.selected is Some {
                crate::nav::lemma_index_of_key_range_pub(views(rows@), self.selected->0@);
            }
        }
        assert(views(rows@)[index as int] == rows@[index as int]@);
        let row = &rows[index];
        if self.has_active_filter() {
            self.select_parent_of(row);
            return;
        }
        match &row.key {
            TreeKey::Project(project_id) => {
                self.expanded_projects.remove(project_id.as_str());
            },
            TreeKey::Board(board_id) => {
                if row.expanded {
                    self.expanded_boards.remove(board_id.as_str());
                } else {
                    self.select_parent_of(row);
                }
            },
            TreeKey::List(list_id) => {
                if row.expanded {
                    self.expanded_lists.remove(list_id.as_str());
                } else {
                    self.select_parent_of(row);
                }
            },
            TreeKey::LabelGroup { board_id, list_id, label_id } => {
                if row.expanded {
                    let key = label_group_key(board_id.as_str(), list_id.as_str(), opt_ref(label_id));
                    self.expanded_label_groups.remove(key.as_str());
                } else {
                    self.select_parent_of(row);
                }
            },
            _ => {
                self.select_parent_of(row);
            },
        }
    }
}


/// The selected card's id, for a card or a grouped card row.
pub open spec fn selected_card(st: &ExplorerState) -> Option<Seq<char>> {
    match st.selected {
        Some(k) => match k@ {
            KeyView::Card(id) => Some(id),
            KeyView::GroupedCard(_, id) => Some(id),
            _ => None,
        },
        None => None,
    }
}

/// The view's name.
pub open spec fn view_label(v: ExplorerView) -> Seq<char> {
    match v {
        ExplorerView::Hierarchy => "hierarchy"@,
        ExplorerView::Labels => "labels"@,
    }
}

/// What switching the view does: a selected card hands the selection to
/// its list, a selected label group to its list; the view flips; the
/// selection is kept on a shown row; the new view is announced.
pub open spec fn toggle_result(a: &ExplorerState, b: &ExplorerState) -> bool {
    let rep: Option<KeyView> = match a.selected {
        Some(k) => match k@ {
            KeyView::Card(id) => match card_list_of(a, id) {
                Some(l) => Some(KeyView::List(l)),
                None => None,
            },
            KeyView::GroupedCard(_, id) => match card_list_of(a, id) {
                Some(l) => Some(KeyView::List(l)),
                None => None,
            },
            KeyView::List(l) => Some(KeyView::List(l)),
            KeyView::LabelGroup(_, l, _) => Some(KeyView::List(l)),
            _ => None,
        },
        None => None,
    };
    let mid_sel = if rep is Some {
        rep
    } else {
        crate::tree::opt_key(a.selected)
    };
    let mid_scroll = if rep is Some && crate::tree::opt_key(a.selected) != rep {
        0
    } else {
        a.detail_scroll
    };
    let v = spec_toggle(a.explorer_view);
    let rows = crate::nav::shown_rows(TreeView { view: v, ..tree_view(a) });
    &&& frame(a, b, Changes { selection: true, view: true, notice: true, ..no_changes() })
    &&& b.explorer_view == v
    &&& crate::board::opt_text(b.notice) == Some("Explorer view: "@ + view_label(v) + "."@)
    &&& if rows.len() == 0 {
        b.selected is None && b.detail_scroll == mid_scroll
    } else if mid_sel is Some && index_of_key(rows, mid_sel->0) >= 0 {
        crate::tree::opt_key(b.selected) == mid_sel && b.detail_scroll == mid_scroll
    } else {
        crate::tree::opt_key(b.selected) == Some(rows[0].key) && b.detail_scroll == 0
    }
}

impl ExplorerState {
    /// The selected card's id.
    pub fn selected_card_id(&self) -> (r: Option<&str>)
        ensures
            crate::config::opt_view(r) == selected_card(self),
    {
        match &self.selected {
            Some(TreeKey::Card(id)) => Some(id.as_str()),
            Some(TreeKey::GroupedCard { card_id, .. }) => Some(card_id.as_str()),
            _ => None,
        }
    }

    /// The selected board's id.
    pub fn selected_board_id(&self) -> (r: Option<&str>)
        ensures
            crate::config::opt_view(r) == match self.selected {
                Some(k) => match k@ {
                    KeyView::Board(id) => Some(id),
                    _ => None,
                },
                None => None,
            },
    {
        match &self.selected {
            Some(TreeKey::Board(id)) => Some(id.as_str()),
            _ => None,
        }
    }

    /// Shows a message in the status line.
    pub fn set_notice(&mut self, message: String)
        ensures
            noticed(old(self), final(self), message@),
    {
        self.notice = Some(message);
    }

    /// Switches between the hierarchy and the label view.
    pub fn toggle_explorer_view(&mut self)
        ensures
            toggle_result(old(self), final(self)),
    {
        let ghost a = *self;
        let replacement: Option<TreeKey> = match &self.selected {
            Some(TreeKey::Card(card_id)) => match self.card_list_id(card_id.as_str()) {
                Some(list_id) => Some(TreeKey::List(list_id.to_string())),
                None => None,
            },
            Some(TreeKey::GroupedCard { card_id, .. }) => match self.card_list_id(card_id.as_str()) {
                Some(list_id) => Some(TreeKey::List(list_id.to_string())),
                None => None,
            },
            Some(TreeKey::List(list_id)) => Some(TreeKey::List(list_id.clone())),
            Some(TreeKey::LabelGroup { list_id, .. }) => Some(TreeKey::List(list_id.clone())),
            _ => None,
        };
        match replacement {
            Some(key) => {
                self.set_selected(key);
            },
            None => {},
        }
        self.explorer_view = self.explorer_view.toggle();
        let ghost m = *self;
        assert(tree_view(&m) == (TreeView { view: spec_toggle(a.explorer_view), ..tree_view(&a) }));
        self.ensure_selected_visible();
        let mut notice = String::new();
        crate::text::push_str(&mut notice, "Explorer view: ");
        crate::text::push_str(&mut notice, self.explorer_view.label());
        crate::text::push_str(&mut notice, ".");
        self.set_notice(notice);
    }
}

/// What a hierarchy refresh reloads.
#[derive(Debug)]
pub enum RefreshTarget {
    /// A project, with the boards of it that are loaded or live, which
    /// are loaded again too.
    Project { project_id: String, loaded_board_ids: Vec<String> },
    /// A board, and the card whose comments are reloaded with it.
    Board { board_id: String, comment_card_id: Option<String> },
}

/// A refresh target as text.
pub enum TargetView {
    Project(Seq<char>, Seq<Seq<char>>),
    Board(Seq<char>, Option<Seq<char>>),
}

/// The texts of `s`.
pub open spec fn texts(s: Seq<String>) -> Seq<Seq<char>> {
    s.map_values(|x: String| x@)
}

/// An optional refresh target as text.
pub open spec fn target_view(t: Option<RefreshTarget>) -> Option<TargetView> {
    match t {
        Some(RefreshTarget::Project { project_id, loaded_board_ids }) => Some(
            TargetView::Project(project_id@, texts(loaded_board_ids@)),
        ),
        Some(RefreshTarget::Board { board_id, comment_card_id }) => Some(
            TargetView::Board(board_id@, crate::board::opt_text(comment_card_id)),
        ),
        None => None,
    }
}

/// The index of the first project with the id, or -1.
pub open spec fn project_index(projects: Seq<ProjectTree>, id: Seq<char>) -> int
    decreases projects.len(),
{
    if projects.len() == 0 {
        -1
    } else {
        let i = project_index(projects.drop_last(), id);
        if i >= 0 {
            i
        } else if projects.last().id@ == id {
            projects.len() - 1
        } else {
            -1
        }
    }
}

/// Whether a board is loaded or the live target.
pub open spec fn board_kept(st: &ExplorerState, b: BoardView) -> bool {
    board_loaded(b) || is_live_target(tree_view(st), b.id)
}

/// The ids of the boards of the first project with the id that are loaded
/// or live, in order.
pub open spec fn loaded_board_ids(st: &ExplorerState, project_id: Seq<char>) -> Seq<Seq<char>> {
    let i = project_index(st.projects@, project_id);
    if i >= 0 {
        views(st.projects@[i].boards@).filter(|b: BoardView| board_kept(st, b)).map_values(|b: BoardView| b.id)
    } else {
        seq![]
    }
}

/// What forcing a reload of a card's comments does to the comment state:
/// cached comments and errors are dropped; the card starts loading unless it
/// already was, and is then returned.
pub open spec fn reload_comments(a: &ExplorerState, b: &ExplorerState, card_id: Seq<char>, r: Option<Seq<char>>) -> bool {
    &&& b.card_comments@ == a.card_comments@.remove(card_id)
    &&& b.card_comment_errors@ == a.card_comment_errors@.remove(card_id)
    &&& b.loading_card_comments@ == a.loading_card_comments@.insert(card_id)
    &&& r == if a.loading_card_comments@.contains(card_id) {
        None
    } else {
        Some(card_id)
    }
}

/// A board refresh: refused when the board is loading already; otherwise
/// the board starts loading, its error is cleared, the card's comments are
/// reloaded along with it.
pub open spec fn board_refresh(
    a: &ExplorerState,
    b: &ExplorerState,
    r: Option<TargetView>,
    board_id: Seq<char>,
    card: Option<Seq<char>>,
) -> bool {
    if a.loading_boards@.contains(board_id) {
        &&& frame(a, b, Changes { notice: true, ..no_changes() })
        &&& crate::board::opt_text(b.notice) == Some("Board hierarchy refresh already in progress."@)
        &&& r is None
    } else {
        &&& frame(
            a,
            b,
            Changes {
                loading_boards: true,
                board_errors: true,
                card_comments: true,
                card_comment_errors: true,
                loading_card_comments: true,
                notice: true,
                ..no_changes()
            },
        )
        &&& b.loading_boards@ == a.loading_boards@.insert(board_id)
        &&& b.board_errors@ == a.board_errors@.remove(board_id)
        &&& crate::board::opt_text(b.notice) == Some("Refreshing board hierarchy…"@)
        &&& match card {
            Some(c) => reload_comments(a, b, c, if a.loading_card_comments@.contains(c) { None } else { Some(c) })
                && r == Some(
                TargetView::Board(
                    board_id,
                    if a.loading_card_comments@.contains(c) {
                        None
                    } else {
                        Some(c)
                    },
                ),
            ),
            None => b.card_comments == a.card_comments && b.card_comment_errors == a.card_comment_errors
                && b.loading_card_comments == a.loading_card_comments && r == Some(
                TargetView::Board(board_id, None),
            ),
        }
    }
}

/// What asking for a refresh of the selection does.
pub open spec fn refresh_result(a: &ExplorerState, b: &ExplorerState, r: Option<TargetView>) -> bool {
    match a.selected {
        None => frame(a, b, Changes { notice: true, ..no_changes() }) && crate::board::opt_text(b.notice) == Some(
            "Select a node to refresh its hierarchy."@,
        ) && r is None,
        Some(k) => match k@ {
            KeyView::Project(pid) => if a.loading_projects@.contains(pid) {
                frame(a, b, Changes { notice: true, ..no_changes() }) && crate::board::opt_text(b.notice) == Some(
                    "Project hierarchy refresh already in progress."@,
                ) && r is None
            } else {
                &&& frame(a, b, Changes { loading_projects: true, notice: true, ..no_changes() })
                &&& b.loading_projects@ == a.loading_projects@.insert(pid)
                &&& crate::board::opt_text(b.notice) == Some("Refreshing project hierarchy…"@)
                &&& r == Some(TargetView::Project(pid, loaded_board_ids(a, pid)))
            },
            KeyView::Board(bid) => board_refresh(a, b, r, bid, None),
            KeyView::List(lid) => match board_id_where(a, BoardQuery::WithList, lid) {
                Some(bid) => board_refresh(a, b, r, bid, None),
                None => *b == *a && r is None,
            },
            KeyView::LabelGroup(_, lid, _) => match board_id_where(a, BoardQuery::WithList, lid) {
                Some(bid) => board_refresh(a, b, r, bid, None),
                None => *b == *a && r is None,
            },
            KeyView::Card(cid) => match board_id_where(a, BoardQuery::WithCard, cid) {
                Some(bid) => board_refresh(a, b, r, bid, Some(cid)),
                None => *b == *a && r is None,
            },
            KeyView::GroupedCard(_, cid) => match board_id_where(a, BoardQuery::WithCard, cid) {
                Some(bid) => board_refresh(a, b, r, bid, Some(cid)),
                None => *b == *a && r is None,
            },
        },
    }
}

impl ExplorerState {
    /// Drops a card's loaded comments and errors and starts loading them
    /// again, unless they are loading already; returns the card to load.
    pub fn force_card_comments_reload(&mut self, card_id: &str) -> (r: Option<String>)
        ensures
            frame(
                old(self),
                final(self),
                Changes { card_comments: true, card_comment_errors: true, loading_card_comments: true, ..no_changes() },
            ),
            reload_comments(old(self), final(self), card_id@, crate::board::opt_text(r)),
    {
        self.card_comments.remove(card_id);
        self.card_comment_errors.remove(card_id);
        if self.loading_card_comments.contains(card_id) {
            assert(self.loading_card_comments@ =~= self.loading_card_comments@.insert(card_id@));
            return None;
        }
        self.loading_card_comments.insert(card_id);
        Some(card_id.to_string())
    }

    /// The ids of the boards of a project that are loaded or live.
    pub fn loaded_board_ids_for_project(&self, project_id: &str) -> (r: Vec<String>)
        ensures
            texts(r@) == loaded_board_ids(self, project_id@),
    {
        let ghost ps = self.projects@;
        let mut i: usize = 0;
        assert(ps.take(0) =~= Seq::<ProjectTree>::empty());
        while i < self.projects.len()
            invariant
                i <= self.projects.len(),
                ps == self.projects@,
                project_index(ps.take(i as int), project_id@) == -1,
            decreases self.projects.len() - i,
        {
            assert(ps.take(i + 1).drop_last() =~= ps.take(i as int));
            if str_eq(self.projects[i].id.as_str(), project_id) {
                assert(project_index(ps.take(i + 1), project_id@) == i as int);
                proof {
                    lemma_project_index_extends(ps, project_id@, i + 1);
                }
                let p = &self.projects[i];
                let ghost bs = views(p.boards@);
                let mut out: Vec<String> = Vec::new();
                let mut j: usize = 0;
                proof {
                    reveal(Seq::filter);
                }
                assert(texts(out@) =~= bs.take(0).filter(|b: BoardView| board_kept(self, b)).map_values(
                    |b: BoardView| b.id,
                ));
                while j < p.boards.len()
                    invariant
                        j <= p.boards.len(),
                        bs == views(p.boards@),
                        bs.len() == p.boards.len(),
                        texts(out@) == bs.take(j as int).filter(|b: BoardView| board_kept(self, b)).map_values(
                            |b: BoardView| b.id,
                        ),
                    decreases p.boards.len() - j,
                {
                    let b = &p.boards[j];
                    assert(bs[j as int] == b@);
                    assert(views(b.active_lists@).len() == b.active_lists@.len());
                    proof {
                        reveal(Seq::filter);
                        assert(bs.take(j + 1).drop_last() =~= bs.take(j as int));
                    }
                    let ghost before = texts(out@);
                    if b.active_lists.len() > 0 || b.total_cards > 0 || self.is_live_target(b.id.as_str()) {
                        out.push(b.id.clone());
                        assert(texts(out@) =~= before.push(b.id@));
                    }
                    assert(texts(out@) =~= bs.take(j + 1).filter(|b: BoardView| board_kept(self, b)).map_values(
                        |b: BoardView| b.id,
                    ));
                    j = j + 1;
                }
                assert(bs.take(j as int) =~= bs);
                return out;
            }
            i = i + 1;
        }
        assert(ps.take(i as int) =~= ps);
        let out: Vec<String> = Vec::new();
        assert(texts(out@) =~= Seq::<Seq<char>>::empty());
        out
    }

    fn refresh_board(&mut self, board_id: String, card_id: Option<&str>) -> (r: Option<RefreshTarget>)
        ensures
            board_refresh(old(self), final(self), target_view(r), board_id@, crate::config::opt_view(card_id)),
    {
        if !self.loading_boards.insert(board_id.as_str()) {
            assert(self.loading_boards@ =~= old(self).loading_boards@);
            self.set_notice("Board hierarchy refresh already in progress.".to_owned());
            return None;
        }
        self.board_errors.remove(board_id.as_str());
        let comment_card_id = match card_id {
            Some(c) => self.force_card_comments_reload(c),
            None => None,
        };
        self.set_notice("Refreshing board hierarchy…".to_owned());
        Some(RefreshTarget::Board { board_id, comment_card_id })
    }

    /// Asks for a reload of the selected node's hierarchy; returns what to
    /// load.
    pub fn queue_hierarchy_refresh(&mut self) -> (r: Option<RefreshTarget>)
        ensures
            refresh_result(old(self), final(self), target_view(r)),
    {
        let selected = match &self.selected {
            Some(k) => copy_key(k),
            None => {
                self.set_notice("Select a node to refresh its hierarchy.".to_owned());
                return None;
            },
        };
        match selected {
            TreeKey::Project(project_id) => {
                let loaded_board_ids = self.loaded_board_ids_for_project(project_id.as_str());
                if !self.loading_projects.insert(project_id.as_str()) {
                    assert(self.loading_projects@ =~= old(self).loading_projects@);
                    self.set_notice("Project hierarchy refresh already in progress.".to_owned());
                    return None;
                }
                self.set_notice("Refreshing project hierarchy…".to_owned());
                Some(RefreshTarget::Project { project_id, loaded_board_ids })
            },
            TreeKey::Board(board_id) => self.refresh_board(board_id, None),
            TreeKey::List(list_id) => {
                let board_id = match self.board_id_for_list(list_id.as_str()) {
                    Some(b) => b.to_string(),
                    None => {
                        return None;
                    },
                };
                self.refresh_board(board_id, None)
            },
            TreeKey::LabelGroup { list_id, .. } => {
                let board_id = match self.board_id_for_list(list_id.as_str()) {
                    Some(b) => b.to_string(),
                    None => {
                        return None;
                    },
                };
                self.refresh_board(board_id, None)
            },
            TreeKey::Card(card_id) => {
                let board_id = match self.board_id_for_card(card_id.as_str()) {
                    Some(b) => b.to_string(),
                    None => {
                        return None;
                    },
                };
                self.refresh_board(board_id, Some(card_id.as_str()))
            },
            TreeKey::GroupedCard { card_id, .. } => {
                let board_id = match self.board_id_for_card(card_id.as_str()) {
                    Some(b) => b.to_string(),
                    None => {
                        return None;
                    },
                };
                self.refresh_board(board_id, Some(card_id.as_str()))
            },
        }
    }

    /// Starts loading the selected card's comments unless they are loaded,
    /// loading or failed; returns the card to load.
    pub fn mark_selected_card_comments_loading(&mut self) -> (r: Option<String>)
        ensures
            match selected_card(old(self)) {
                Some(c) => if old(self).card_comments@.contains_key(c) || old(self).loading_card_comments@.contains(c)
                    || old(self).card_comment_errors@.contains_key(c) {
                    *final(self) == *old(self) && r is None
                } else {
                    frame(old(self), final(self), Changes { loading_card_comments: true, ..no_changes() })
                        && final(self).loading_card_comments@ == old(self).loading_card_comments@.insert(c)
                        && crate::board::opt_text(r) == Some(c)
                },
                None => *final(self) == *old(self) && r is None,
            },
    {
        let card_id = match self.selected_card_id() {
            Some(c) => c.to_string(),
            None => {
                return None;
            },
        };
        if self.card_comments.contains_key(card_id.as_str()) || self.loading_card_comments.contains(card_id.as_str())
            || self.card_comment_errors.contains_key(card_id.as_str()) {
            return None;
        }
        self.loading_card_comments.insert(card_id.as_str());
        Some(card_id)
    }
}

pub(crate) proof fn lemma_project_index_extends(projects: Seq<ProjectTree>, id: Seq<char>, k: int)
    requires
        0 <= k <= projects.len(),
        project_index(projects.take(k), id) >= 0,
    ensures
        project_index(projects, id) == project_index(projects.take(k), id),
    decreases projects.len() - k,
{
    if k < projects.len() {
        assert(projects.take(k + 1).drop_last() =~= projects.take(k));
        lemma_project_index_extends(projects, id, k + 1);
    } else {
        assert(projects.take(k) =~= projects);
    }
}


/// The details scroll position after scrolling by `delta` lines, with
/// `line_count` lines shown: up to the first line, down to the last.
pub open spec fn scrolled(scroll: usize, delta: i32, line_count: usize) -> usize {
    let max = if line_count == 0 { 0 } else { (line_count - 1) as usize };
    if delta < 0 {
        if scroll + delta < 0 {
            0
        } else {
            (scroll + delta) as usize
        }
    } else if scroll + delta > max {
        max
    } else {
        (scroll + delta) as usize
    }
}

impl ExplorerState {
    /// Scrolls the details by `delta` lines, `line_count` lines being shown.
    pub fn scroll_details_within(&mut self, delta: i32, line_count: usize)
        ensures
            frame(old(self), final(self), Changes { selection: true, ..no_changes() }),
            final(self).selected == old(self).selected,
            final(self).detail_scroll == scrolled(old(self).detail_scroll, delta, line_count),
    {
        let max_scroll: usize = if line_count == 0 { 0 } else { line_count - 1 };
        if delta < 0 {
            let step: u64 = if delta == i32::MIN { 2147483648u64 } else { (-delta) as u64 };
            if (self.detail_scroll as u64) < step {
                self.detail_scroll = 0;
            } else {
                self.detail_scroll = self.detail_scroll - (step as usize);
            }
        } else {
            let step = delta as usize;
            if self.detail_scroll >= max_scroll || step > max_scroll - self.detail_scroll {
                self.detail_scroll = max_scroll;
            } else {
                self.detail_scroll = self.detail_scroll + step;
            }
        }
    }

    /// Scrolls the details back to the first line.
    pub fn scroll_details_to_top(&mut self)
        ensures
            frame(old(self), final(self), Changes { selection: true, ..no_changes() }),
            final(self).selected == old(self).selected,
            final(self).detail_scroll == 0,
    {
        self.detail_scroll = 0;
    }

    /// Scrolls the details by `delta` lines, up to the first line and down
    /// to the last line of the detail pane.
    pub fn scroll_details_by(&mut self, delta: i32)
        ensures
            frame(old(self), final(self), Changes { selection: true, ..no_changes() }),
            final(self).selected == old(self).selected,
            final(self).detail_scroll == scrolled(
                old(self).detail_scroll,
                delta,
                crate::panes::detail_pane(old(self)).len() as usize,
            ),
    {
        let n = self.detail_line_count();
        self.scroll_details_within(delta, n);
    }

    /// Scrolls the details to the last line of the detail pane.
    pub fn scroll_details_to_bottom(&mut self)
        ensures
            frame(old(self), final(self), Changes { selection: true, ..no_changes() }),
            final(self).selected == old(self).selected,
            final(self).detail_scroll == if crate::panes::detail_pane(old(self)).len() == 0 {
                0
            } else {
                (crate::panes::detail_pane(old(self)).len() - 1) as usize
            },
    {
        let n = self.detail_line_count();
        self.scroll_details_to_line(n);
    }

    /// Scrolls the details to the last of `line_count` lines.
    pub fn scroll_details_to_line(&mut self, line_count: usize)
        ensures
            frame(old(self), final(self), Changes { selection: true, ..no_changes() }),
            final(self).selected == old(self).selected,
            final(self).detail_scroll == if line_count == 0 { 0 } else { (line_count - 1) as usize },
    {
        self.detail_scroll = if line_count == 0 { 0 } else { line_count - 1 };
    }
}

/// How long a finished save waits before it is shown, so that the saving
/// notice stays up at least `min_nanos`: nothing once that time is over.
pub open spec fn save_feedback_wait(elapsed_nanos: u128, min_nanos: u128) -> Option<u128> {
    if elapsed_nanos >= min_nanos {
        None
    } else {
        Some((min_nanos - elapsed_nanos) as u128)
    }
}

/// How long to hold back a finished save: the rest of `min_nanos` since
/// the save started, or nothing once it has passed.
pub fn save_feedback_delay(elapsed_nanos: u128, min_nanos: u128) -> (r: Option<u128>)
    ensures
        r == save_feedback_wait(elapsed_nanos, min_nanos),
{
    if elapsed_nanos >= min_nanos {
        None
    } else {
        Some(min_nanos - elapsed_nanos)
    }
}

/// The shortest time a save's notice stays up: 900 ms.
pub const MIN_SAVE_FEEDBACK_NANOS: u128 = 900_000_000u128;

/// The state with only the notice changed, to `message`.
pub open spec fn noticed(a: &ExplorerState, b: &ExplorerState, message: Seq<char>) -> bool {
    &&& (frame(a, b, Changes { notice: true, ..no_changes() }))
    &&& (crate::board::opt_text(b.notice) == Some(message))
}

} // verus!
