//! Moving through the explorer tree: the rows shown, the selected row,
//! moving the selection, and keeping it on a shown row.

use vstd::prelude::*;

use crate::board::{BoardView, CardView, ListView};
use crate::explorer::{ExplorerView, ProjectTree, TreeKey};
use crate::groups::{GroupCardView, LabelGroupView};
use crate::order::views;
use crate::state::{tree_view, ExplorerState, TreeView};
use crate::text::{spec_trim, trim};
use crate::tree::{
    all_rows, board_row, board_rows, card_row, concat, copy_key, group_rows, grouped_card_row, hierarchy_list_rows,
    key_eq, label_list_rows, opt_key, project_row, project_rows, KeyView, RowView, TreeRow,
};
use crate::visible::{
    apply_expansion_visibility, expansion_visible, filter_rows, filtered_rows, row_ranked, well_ranked,
};

verus! {

proof fn lemma_wr_append(a: Seq<RowView>, b: Seq<RowView>)
    requires
        well_ranked(a),
        well_ranked(b),
    ensures
        well_ranked(a + b),
{
    assert forall|i: int| 0 <= i < (a + b).len() implies #[trigger] row_ranked((a + b)[i]) by {
        if i < a.len() {
            assert((a + b)[i] == a[i]);
            assert(row_ranked(a[i]));
        } else {
            assert((a + b)[i] == b[i - a.len()]);
            assert(row_ranked(b[i - a.len()]));
        }
    }
}

proof fn lemma_wr_concat(s: Seq<Seq<RowView>>)
    requires
        forall|i: int| 0 <= i < s.len() ==> well_ranked(#[trigger] s[i]),
    ensures
        well_ranked(concat(s)),
    decreases s.len(),
{
    if s.len() > 0 {
        assert forall|i: int| 0 <= i < s.drop_last().len() implies well_ranked(#[trigger] s.drop_last()[i]) by {
            assert(s.drop_last()[i] == s[i]);
        }
        lemma_wr_concat(s.drop_last());
        assert(well_ranked(s[s.len() - 1]));
        lemma_wr_append(concat(s.drop_last()), s.last());
    }
}

proof fn lemma_wr_hierarchy_list(st: TreeView, b: BoardView, l: ListView)
    ensures
        well_ranked(hierarchy_list_rows(st, b, l)),
{
    let rows = hierarchy_list_rows(st, b, l);
    assert forall|i: int| 0 <= i < rows.len() implies #[trigger] row_ranked(rows[i]) by {
        if i > 0 {
            assert(rows[i] == card_row(l.cards[i - 1], l.id));
        }
    }
}

proof fn lemma_wr_group(st: TreeView, list_id: Seq<char>, g: LabelGroupView)
    ensures
        well_ranked(group_rows(st, list_id, g)),
{
    let rows = group_rows(st, list_id, g);
    assert forall|i: int| 0 <= i < rows.len() implies #[trigger] row_ranked(rows[i]) by {
        if i > 0 {
            assert(rows[i] == grouped_card_row(g, g.cards[i - 1]));
        }
    }
}

proof fn lemma_wr_label_list(st: TreeView, b: BoardView, l: ListView)
    ensures
        well_ranked(label_list_rows(st, b, l)),
{
    let groups = crate::groups::label_groups(b, l);
    let s = groups.map_values(|g: LabelGroupView| group_rows(st, l.id, g));
    assert forall|i: int| 0 <= i < s.len() implies well_ranked(#[trigger] s[i]) by {
        lemma_wr_group(st, l.id, groups[i]);
    }
    lemma_wr_concat(s);
    let head = label_list_rows(st, b, l).take(1);
    assert(well_ranked(head)) by {
        assert forall|i: int| 0 <= i < head.len() implies #[trigger] row_ranked(head[i]) by {}
    }
    lemma_wr_append(head, concat(s));
    assert(label_list_rows(st, b, l) =~= head + concat(s));
}

proof fn lemma_wr_board(st: TreeView, project_id: Seq<char>, b: BoardView)
    ensures
        well_ranked(board_rows(st, project_id, b)),
{
    let head = seq![board_row(st, project_id, b)];
    assert(well_ranked(head)) by {
        assert forall|i: int| 0 <= i < head.len() implies #[trigger] row_ranked(head[i]) by {}
    }
    if crate::tree::board_loaded(b) {
        match st.view {
            ExplorerView::Hierarchy => {
                let s = b.lists.map_values(|l: ListView| hierarchy_list_rows(st, b, l));
                assert forall|i: int| 0 <= i < s.len() implies well_ranked(#[trigger] s[i]) by {
                    lemma_wr_hierarchy_list(st, b, b.lists[i]);
                }
                lemma_wr_concat(s);
                lemma_wr_append(head, concat(s));
            },
            ExplorerView::Labels => {
                let s = b.lists.map_values(|l: ListView| label_list_rows(st, b, l));
                assert forall|i: int| 0 <= i < s.len() implies well_ranked(#[trigger] s[i]) by {
                    lemma_wr_label_list(st, b, b.lists[i]);
                }
                lemma_wr_concat(s);
                lemma_wr_append(head, concat(s));
            },
        }
    } else {
        assert(board_rows(st, project_id, b) =~= head);
    }
}

/// Every row of the tree sits below its parent.
pub proof fn lemma_all_rows_well_ranked(st: TreeView)
    ensures
        well_ranked(all_rows(st)),
{
    let ps = st.projects;
    let s = ps.map_values(|p: crate::board::ProjectView| project_rows(st, p));
    assert forall|i: int| 0 <= i < s.len() implies well_ranked(#[trigger] s[i]) by {
        let p = ps[i];
        let bs = p.boards.map_values(|b: BoardView| board_rows(st, p.id, b));
        assert forall|j: int| 0 <= j < bs.len() implies well_ranked(#[trigger] bs[j]) by {
            lemma_wr_board(st, p.id, p.boards[j]);
        }
        lemma_wr_concat(bs);
        let head = seq![project_row(st, p)];
        assert(well_ranked(head)) by {
            assert forall|k: int| 0 <= k < head.len() implies #[trigger] row_ranked(head[k]) by {}
        }
        lemma_wr_append(head, concat(bs));
    }
    lemma_wr_concat(s);
}

/// The filter query being typed, or else the applied one.
pub open spec fn active_query(st: &ExplorerState) -> Seq<char> {
    tree_view(st).query
}

/// The rows shown: with an empty (or blank) query the expanded part of
/// the tree, else the matching rows and their ancestors.
pub open spec fn shown_rows(tv: TreeView) -> Seq<RowView> {
    let q = spec_trim(tv.query);
    if q.len() == 0 {
        expansion_visible(all_rows(tv))
    } else {
        filtered_rows(all_rows(tv), q)
    }
}

/// The rows shown in state `st`.
pub open spec fn visible_rows(st: &ExplorerState) -> Seq<RowView> {
    shown_rows(tree_view(st))
}

/// The index of the first row with key `k`, or -1.
pub open spec fn index_of_key(rows: Seq<RowView>, k: KeyView) -> int
    decreases rows.len(),
{
    if rows.len() == 0 {
        -1
    } else {
        let i = index_of_key(rows.drop_last(), k);
        if i >= 0 {
            i
        } else if rows.last().key == k {
            rows.len() - 1
        } else {
            -1
        }
    }
}

/// The index of the selected row among `rows`: the first row with the
/// selected key, else the first row.
pub open spec fn selected_index(st: &ExplorerState, rows: Seq<RowView>) -> int {
    match st.selected {
        Some(s) => if index_of_key(rows, s@) >= 0 {
            index_of_key(rows, s@)
        } else {
            0
        },
        None => 0,
    }
}

proof fn lemma_index_of_key_range(rows: Seq<RowView>, k: KeyView)
    ensures
        -1 <= index_of_key(rows, k) < rows.len(),
        index_of_key(rows, k) >= 0 ==> rows[index_of_key(rows, k)].key == k,
        index_of_key(rows, k) == -1 ==> forall|j: int| 0 <= j < rows.len() ==> (#[trigger] rows[j]).key != k,
    decreases rows.len(),
{
    if rows.len() > 0 {
        lemma_index_of_key_range(rows.drop_last(), k);
        if index_of_key(rows, k) == -1 {
            assert forall|j: int| 0 <= j < rows.len() implies (#[trigger] rows[j]).key != k by {
                if j < rows.len() - 1 {
                    assert(rows.drop_last()[j] == rows[j]);
                }
            }
        }
    }
}

/// The index of a key is -1 or that of a row with the key.
pub proof fn lemma_index_of_key_range_pub(rows: Seq<RowView>, k: KeyView)
    ensures
        -1 <= index_of_key(rows, k) < rows.len(),
        index_of_key(rows, k) >= 0 ==> rows[index_of_key(rows, k)].key == k,
{
    lemma_index_of_key_range(rows, k);
}

/// The first row's key is found at the start.
pub proof fn lemma_index_of_first_key(rows: Seq<RowView>)
    requires
        rows.len() > 0,
    ensures
        index_of_key(rows, rows[0].key) == 0,
    decreases rows.len(),
{
    if rows.len() > 1 {
        assert(rows.drop_last()[0] == rows[0]);
        lemma_index_of_first_key(rows.drop_last());
    } else {
        assert(index_of_key(rows.drop_last(), rows[0].key) == -1);
    }
}

proof fn lemma_index_of_key_extends(rows: Seq<RowView>, k: KeyView, n: int)
    requires
        0 <= n <= rows.len(),
        index_of_key(rows.take(n), k) >= 0,
    ensures
        index_of_key(rows, k) == index_of_key(rows.take(n), k),
    decreases rows.len() - n,
{
    if n < rows.len() {
        assert(rows.take(n + 1).drop_last() =~= rows.take(n));
        lemma_index_of_key_extends(rows, k, n + 1);
    } else {
        assert(rows.take(n) =~= rows);
    }
}

/// The state is as it was, apart from the selection and the details
/// scroll position.
pub open spec fn same_but_selection(a: &ExplorerState, b: &ExplorerState) -> bool {
    &&& a.projects == b.projects
    &&& a.subscribed_board_id == b.subscribed_board_id
    &&& a.active_socket_session_id == b.active_socket_session_id
    &&& a.status == b.status
    &&& a.expanded_projects == b.expanded_projects
    &&& a.expanded_boards == b.expanded_boards
    &&& a.expanded_lists == b.expanded_lists
    &&& a.expanded_label_groups == b.expanded_label_groups
    &&& a.loading_boards == b.loading_boards
    &&& a.loading_projects == b.loading_projects
    &&& a.board_errors == b.board_errors
    &&& a.explorer_view == b.explorer_view
    &&& a.filter_query == b.filter_query
    &&& a.filter_editor == b.filter_editor
    &&& a.card_comments == b.card_comments
    &&& a.loading_card_comments == b.loading_card_comments
    &&& a.card_comment_errors == b.card_comment_errors
    &&& a.card_draft == b.card_draft
    &&& a.title_editor == b.title_editor
    &&& a.saving_card == b.saving_card
    &&& a.notice == b.notice
    &&& a.focus == b.focus
    &&& a.show_debug_log == b.show_debug_log
}

/// The selection after selecting `key`: the details scroll back to the top
/// when the selection changes.
pub open spec fn selected_as(a: &ExplorerState, b: &ExplorerState, key: KeyView) -> bool {
    &&& same_but_selection(a, b)
    &&& b.selected is Some && b.selected->0@ == key
    &&& b.detail_scroll == if a.selected is Some && a.selected->0@ == key {
        a.detail_scroll
    } else {
        0
    }
}

/// The selection kept on a shown row: none when no row is shown, the
/// selected row when it is shown, else the first row (and the details
/// scroll back to the top).
pub open spec fn selection_kept(sel: Option<TreeKey>, scroll: usize, rows: Seq<RowView>, b: &ExplorerState) -> bool {
    if rows.len() == 0 {
        b.selected is None && b.detail_scroll == scroll
    } else if sel is Some && index_of_key(rows, sel->0@) >= 0 {
        b.selected == sel && b.detail_scroll == scroll
    } else {
        opt_key(b.selected) == Some(rows[0].key) && b.detail_scroll == 0
    }
}

impl ExplorerState {
    /// The filter query being typed, or else the applied one.
    pub fn active_filter_query(&self) -> (r: &str)
        ensures
            r@ == active_query(self),
    {
        match &self.filter_editor {
            Some(e) => e.buffer.as_str(),
            None => self.filter_query.as_str(),
        }
    }

    /// Whether a filter is in force: the query is not blank.
    pub fn has_active_filter(&self) -> (r: bool)
        ensures
            r == (spec_trim(active_query(self)).len() > 0),
    {
        let q = trim(self.active_filter_query());
        !q.as_str().is_empty()
    }

    /// The rows shown, in display order.
    pub fn visible_rows(&self) -> (r: Vec<TreeRow>)
        ensures
            views(r@) == visible_rows(self),
    {
        let q = trim(self.active_filter_query());
        let rows = self.all_rows();
        if q.as_str().is_empty() {
            apply_expansion_visibility(rows)
        } else {
            proof {
                lemma_all_rows_well_ranked(tree_view(self));
            }
            filter_rows(rows, q.as_str())
        }
    }

    /// The index of the selected row among `rows`, or 0.
    pub fn selected_index(&self, rows: &Vec<TreeRow>) -> (r: usize)
        ensures
            r as int == selected_index(self, views(rows@)),
    {
        let sel = match &self.selected {
            Some(s) => s,
            None => {
                return 0;
            },
        };
        assert(self.selected == Some(*sel));
        let ghost rv = views(rows@);
        let mut i: usize = 0;
        assert(rv.take(0) =~= Seq::<RowView>::empty());
        while i < rows.len()
            invariant
                i <= rows.len(),
                rv == views(rows@),
                rv.len() == rows.len(),
                index_of_key(rv.take(i as int), sel@) == -1,
                self.selected == Some(*sel),
            decreases rows.len() - i,
        {
            assert(rv.take(i + 1).drop_last() =~= rv.take(i as int));
            assert(rv[i as int] == rows@[i as int]@);
            if key_eq(&rows[i].key, sel) {
                assert(index_of_key(rv.take(i + 1), sel@) == i as int);
                proof {
                    lemma_index_of_key_extends(rv, sel@, i + 1);
                }
                return i;
            }
            i = i + 1;
        }
        assert(rv.take(i as int) =~= rv);
        0
    }

    /// Selects the row with key `key`.
    pub fn set_selected(&mut self, key: TreeKey)
        ensures
            selected_as(old(self), final(self), key@),
    {
        let changed = match &self.selected {
            Some(s) => !key_eq(s, &key),
            None => true,
        };
        self.selected = Some(key);
        if changed {
            self.detail_scroll = 0;
        }
    }

    /// Moves the selection `delta` rows down (up when negative), stopping at
    /// the first and last shown rows; nothing when no row is shown.
    pub fn select_relative(&mut self, delta: isize)
        ensures
            moved_by(old(self), final(self), delta),
    {
        let rows = self.visible_rows();
        if rows.len() == 0 {
            return;
        }
        let current = self.selected_index(&rows);
        proof {
            if self.selected is Some {
                lemma_index_of_key_range(views(rows@), self.selected->0@);
            }
        }
        let last = rows.len() - 1;
        let next: usize = if delta < 0 {
            let step: usize = if delta == isize::MIN {
                (isize::MAX as usize) + 1
            } else {
                (-delta) as usize
            };
            if current < step {
                0
            } else {
                current - step
            }
        } else {
            let step = delta as usize;
            if current > last || step > last - current {
                last
            } else {
                current + step
            }
        };
        assert(views(rows@)[next as int] == rows@[next as int]@);
        let key = copy_key(&rows[next].key);
        self.set_selected(key);
    }

    /// Keeps the selection on a shown row: none when no row is shown, the
    /// first row when the selected one is not shown.
    pub fn ensure_selected_visible(&mut self)
        ensures
            same_but_selection(old(self), final(self)),
            selection_kept(old(self).selected, old(self).detail_scroll, visible_rows(old(self)), final(self)),
    {
        let rows = self.visible_rows();
        if rows.len() == 0 {
            self.selected = None;
            return;
        }
        let visible = match &self.selected {
            Some(s) => {
                let i = self.selected_index(&rows);
                proof {
                    lemma_index_of_key_range(views(rows@), s@);
                }
                assert(views(rows@)[i as int] == rows@[i as int]@);
                key_eq(&rows[i].key, s)
            },
            None => false,
        };
        if !visible {
            assert(views(rows@)[0] == rows@[0]@);
            proof {
                lemma_index_of_first_key(views(rows@));
            }
            let key = copy_key(&rows[0].key);
            self.set_selected(key);
        }
    }
}

/// What moving the selection does: it goes `delta` rows down (up when negative) among the shown rows, stopping at the first and last.
pub open spec fn moved_by(a: &ExplorerState, b: &ExplorerState, delta: isize) -> bool {
    &&& (({
        let rows = visible_rows(a);
        if rows.len() == 0 {
            *b == *a
        } else {
            let cur = selected_index(a, rows);
            let next = if delta < 0 {
                if cur + delta < 0 {
                    0
                } else {
                    cur + delta
                }
            } else if cur + delta > rows.len() - 1 {
                rows.len() - 1
            } else {
                cur + delta
            };
            selected_as(a, b, rows[next].key)
        }
    }))
}

} // verus!
