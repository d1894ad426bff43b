//! The rows of the explorer tree: projects, boards, lists and cards, or in
//! the label view lists, label groups and grouped cards; with the metadata
//! each row shows and whether it is expanded.

use vstd::prelude::*;

use crate::board::{BoardView, CardView, ListView, ProjectView};
use crate::explorer::{
    spec_label_group_key, spec_truncate, label_group_key, truncate, BoardSummary, CardSummary, ConnectionState,
    ExplorerView, ListSummary, ProjectTree, TreeKey,
};
use crate::groups::{label_groups, label_groups_for_list, GroupCardView, LabelGroupCard, LabelGroupSummary, LabelGroupView};
use crate::order::views;
use crate::state::{tree_view, ExplorerState, TreeView};
use crate::text::{decimal, push_decimal, push_str, str_eq};

verus! {

/// What a row stands for.
#[derive(Debug, Clone, Copy, PartialEq, Eq)]
pub enum TreeKind {
    Project,
    Board,
    List,
    LabelGroup,
    Card,
}

/// One row of the explorer tree.
#[derive(Debug, Clone)]
pub struct TreeRow {
    pub key: TreeKey,
    pub parent: Option<TreeKey>,
    pub depth: usize,
    pub kind: TreeKind,
    pub label: String,
    pub meta: Option<String>,
    pub has_children: bool,
    pub expanded: bool,
    pub live: bool,
}

/// A row key as text.
pub enum KeyView {
    Project(Seq<char>),
    Board(Seq<char>),
    List(Seq<char>),
    LabelGroup(Seq<char>, Seq<char>, Option<Seq<char>>),
    Card(Seq<char>),
    GroupedCard(Seq<char>, Seq<char>),
}

/// A row as text.
pub struct RowView {
    pub key: KeyView,
    pub parent: Option<KeyView>,
    pub depth: usize,
    pub kind: TreeKind,
    pub label: Seq<char>,
    pub meta: Option<Seq<char>>,
    pub has_children: bool,
    pub expanded: bool,
    pub live: bool,
}

impl View for TreeKey {
    type V = KeyView;

    open spec fn view(&self) -> KeyView {
        match self {
            TreeKey::Project(id) => KeyView::Project(id@),
            TreeKey::Board(id) => KeyView::Board(id@),
            TreeKey::List(id) => KeyView::List(id@),
            TreeKey::LabelGroup { board_id, list_id, label_id } => KeyView::LabelGroup(
                board_id@,
                list_id@,
                crate::board::opt_text(*label_id),
            ),
            TreeKey::Card(id) => KeyView::Card(id@),
            TreeKey::GroupedCard { group_key, card_id } => KeyView::GroupedCard(group_key@, card_id@),
        }
    }
}

/// An optional key, as text.
pub open spec fn opt_key(k: Option<TreeKey>) -> Option<KeyView> {
    match k {
        Some(k) => Some(k@),
        None => None,
    }
}

impl View for TreeRow {
    type V = RowView;

    open spec fn view(&self) -> RowView {
        RowView {
            key: self.key@,
            parent: opt_key(self.parent),
            depth: self.depth,
            kind: self.kind,
            label: self.label@,
            meta: crate::board::opt_text(self.meta),
            has_children: self.has_children,
            expanded: self.expanded,
            live: self.live,
        }
    }
}

/// A copy of an optional text.
fn copy_opt(o: &Option<String>) -> (r: Option<String>)
    ensures
        crate::board::opt_text(r) == crate::board::opt_text(*o),
{
    crate::board::copy_opt_text(o)
}

/// A copy of a key.
pub fn copy_key(k: &TreeKey) -> (r: TreeKey)
    ensures
        r@ == k@,
{
    match k {
        TreeKey::Project(id) => TreeKey::Project(id.clone()),
        TreeKey::Board(id) => TreeKey::Board(id.clone()),
        TreeKey::List(id) => TreeKey::List(id.clone()),
        TreeKey::LabelGroup { board_id, list_id, label_id } => TreeKey::LabelGroup {
            board_id: board_id.clone(),
            list_id: list_id.clone(),
            label_id: copy_opt(label_id),
        },
        TreeKey::Card(id) => TreeKey::Card(id.clone()),
        TreeKey::GroupedCard { group_key, card_id } => TreeKey::GroupedCard {
            group_key: group_key.clone(),
            card_id: card_id.clone(),
        },
    }
}

fn opt_str_eq(a: &Option<String>, b: &Option<String>) -> (r: bool)
    ensures
        r == (crate::board::opt_text(*a) == crate::board::opt_text(*b)),
{
    match (a, b) {
        (Some(x), Some(y)) => str_eq(x.as_str(), y.as_str()),
        (None, None) => true,
        _ => false,
    }
}

/// Whether two keys are the same.
pub fn key_eq(a: &TreeKey, b: &TreeKey) -> (r: bool)
    ensures
        r == (a@ == b@),
{
    match (a, b) {
        (TreeKey::Project(x), TreeKey::Project(y)) => str_eq(x.as_str(), y.as_str()),
        (TreeKey::Board(x), TreeKey::Board(y)) => str_eq(x.as_str(), y.as_str()),
        (TreeKey::List(x), TreeKey::List(y)) => str_eq(x.as_str(), y.as_str()),
        (
            TreeKey::LabelGroup { board_id: b1, list_id: l1, label_id: i1 },
            TreeKey::LabelGroup { board_id: b2, list_id: l2, label_id: i2 },
        ) => str_eq(b1.as_str(), b2.as_str()) && str_eq(l1.as_str(), l2.as_str()) && opt_str_eq(i1, i2),
        (TreeKey::Card(x), TreeKey::Card(y)) => str_eq(x.as_str(), y.as_str()),
        (
            TreeKey::GroupedCard { group_key: g1, card_id: c1 },
            TreeKey::GroupedCard { group_key: g2, card_id: c2 },
        ) => str_eq(g1.as_str(), g2.as_str()) && str_eq(c1.as_str(), c2.as_str()),
        _ => false,
    }
}

/// The texts of `s` joined end to end.
pub open spec fn concat<A>(s: Seq<Seq<A>>) -> Seq<A>
    decreases s.len(),
{
    if s.len() == 0 {
        seq![]
    } else {
        concat(s.drop_last()) + s.last()
    }
}

/// `"<active> active • <closed> closed"`.
pub open spec fn counts_meta(active: usize, closed: usize) -> Seq<char> {
    decimal(active as nat) + " active • "@ + decimal(closed as nat) + " closed"@
}

/// Whether `board_id` is the live target.
pub open spec fn is_live_target(st: TreeView, board_id: Seq<char>) -> bool {
    st.subscribed == Some(board_id)
}

/// Whether a board's snapshot has been loaded.
pub open spec fn board_loaded(b: BoardView) -> bool {
    b.lists.len() > 0 || b.total_cards > 0
}

/// The row of a project.
pub open spec fn project_row(st: TreeView, p: ProjectView) -> RowView {
    RowView {
        key: KeyView::Project(p.id),
        parent: None,
        depth: 0,
        kind: TreeKind::Project,
        label: p.name,
        meta: Some(
            if st.loading_projects.contains(p.id) {
                "refreshing hierarchy…"@
            } else {
                decimal(p.boards.len()) + " boards"@
            },
        ),
        has_children: p.boards.len() > 0,
        expanded: st.expanded_projects.contains(p.id),
        live: false,
    }
}

/// What a board row says of the board's state.
pub open spec fn board_meta(st: TreeView, b: BoardView) -> Seq<char> {
    if is_live_target(st, b.id) && !(st.live) {
        "switching live target • waiting websocket snapshot"@
    } else if st.loading_boards.contains(b.id) {
        "loading board snapshot…"@
    } else if st.board_errors.contains_key(b.id) {
        "load failed • "@ + spec_truncate(st.board_errors[b.id]@, 40)
    } else if board_loaded(b) {
        decimal(b.lists.len()) + " lists • "@ + counts_meta(b.active_card_count, b.closed_card_count)
    } else {
        "unloaded • press → to hydrate"@
    }
}

/// The row of a board of project `project_id`.
pub open spec fn board_row(st: TreeView, project_id: Seq<char>, b: BoardView) -> RowView {
    RowView {
        key: KeyView::Board(b.id),
        parent: Some(KeyView::Project(project_id)),
        depth: 1,
        kind: TreeKind::Board,
        label: b.name,
        meta: Some(board_meta(st, b)),
        has_children: !board_loaded(b) || b.lists.len() > 0,
        expanded: st.expanded_boards.contains(b.id),
        live: is_live_target(st, b.id) && st.live,
    }
}

/// The row of a card of list `list_id`.
pub open spec fn card_row(c: CardView, list_id: Seq<char>) -> RowView {
    RowView {
        key: KeyView::Card(c.id),
        parent: Some(KeyView::List(list_id)),
        depth: 3,
        kind: TreeKind::Card,
        label: c.name,
        meta: if c.is_closed {
            Some("closed"@)
        } else {
            None
        },
        has_children: false,
        expanded: false,
        live: false,
    }
}

/// The rows of a list in the hierarchy view: the list, then its cards.
pub open spec fn hierarchy_list_rows(st: TreeView, b: BoardView, l: ListView) -> Seq<RowView> {
    seq![
        RowView {
            key: KeyView::List(l.id),
            parent: Some(KeyView::Board(b.id)),
            depth: 2,
            kind: TreeKind::List,
            label: l.name,
            meta: Some(counts_meta(l.active_card_count, l.closed_card_count)),
            has_children: l.cards.len() > 0,
            expanded: st.expanded_lists.contains(l.id),
            live: false,
        },
    ] + l.cards.map_values(|c: CardView| card_row(c, l.id))
}

/// The key of a label group's row.
pub open spec fn group_key_view(g: LabelGroupView) -> KeyView {
    KeyView::LabelGroup(g.board_id, g.list_id, g.label_id)
}

/// The row of a card in a label group.
pub open spec fn grouped_card_row(g: LabelGroupView, gc: GroupCardView) -> RowView {
    RowView {
        key: KeyView::GroupedCard(spec_label_group_key(g.board_id, g.list_id, g.label_id), gc.card_id),
        parent: Some(group_key_view(g)),
        depth: 4,
        kind: TreeKind::Card,
        label: gc.card_name,
        meta: Some(
            if gc.is_closed {
                "closed"@
            } else {
                "active"@
            },
        ),
        has_children: false,
        expanded: false,
        live: false,
    }
}

/// The rows of a label group of list `list_id`: the group, then its cards.
pub open spec fn group_rows(st: TreeView, list_id: Seq<char>, g: LabelGroupView) -> Seq<RowView> {
    seq![
        RowView {
            key: group_key_view(g),
            parent: Some(KeyView::List(list_id)),
            depth: 3,
            kind: TreeKind::LabelGroup,
            label: g.label_name,
            meta: Some(counts_meta(g.active_card_count, g.closed_card_count)),
            has_children: g.cards.len() > 0,
            expanded: st.expanded_label_groups.contains(spec_label_group_key(g.board_id, g.list_id, g.label_id)),
            live: false,
        },
    ] + g.cards.map_values(|gc: GroupCardView| grouped_card_row(g, gc))
}

/// The rows of a list in the label view: the list, then its label groups.
pub open spec fn label_list_rows(st: TreeView, b: BoardView, l: ListView) -> Seq<RowView> {
    let groups = label_groups(b, l);
    seq![
        RowView {
            key: KeyView::List(l.id),
            parent: Some(KeyView::Board(b.id)),
            depth: 2,
            kind: TreeKind::List,
            label: l.name,
            meta: Some(
                decimal(groups.len()) + " groups • "@ + counts_meta(l.active_card_count, l.closed_card_count),
            ),
            has_children: groups.len() > 0,
            expanded: st.expanded_lists.contains(l.id),
            live: false,
        },
    ] + concat(groups.map_values(|g: LabelGroupView| group_rows(st, l.id, g)))
}

/// The rows of a board: the board, then, once it is loaded, its lists in
/// the current view.
pub open spec fn board_rows(st: TreeView, project_id: Seq<char>, b: BoardView) -> Seq<RowView> {
    seq![board_row(st, project_id, b)] + if !board_loaded(b) {
        seq![]
    } else {
        match st.view {
            ExplorerView::Hierarchy => concat(b.lists.map_values(|l: ListView| hierarchy_list_rows(st, b, l))),
            ExplorerView::Labels => concat(b.lists.map_values(|l: ListView| label_list_rows(st, b, l))),
        }
    }
}

/// The rows of a project: the project, then its boards.
pub open spec fn project_rows(st: TreeView, p: ProjectView) -> Seq<RowView> {
    seq![project_row(st, p)] + concat(p.boards.map_values(|b: BoardView| board_rows(st, p.id, b)))
}

/// Every row of the tree, expanded or not.
pub open spec fn all_rows(st: TreeView) -> Seq<RowView> {
    concat(st.projects.map_values(|p: ProjectView| project_rows(st, p)))
}

/// Appending rows appends their views.
proof fn lemma_views_append(a: Seq<TreeRow>, b: Seq<TreeRow>)
    ensures
        views(a + b) == views(a) + views(b),
{
    assert(views(a + b) =~= views(a) + views(b));
}

/// One more item of a mapped prefix adds its image to the concatenation.
proof fn lemma_concat_step<A, B>(s: Seq<A>, k: int, f: spec_fn(A) -> Seq<B>)
    requires
        0 <= k < s.len(),
    ensures
        concat(s.take(k + 1).map_values(f)) == concat(s.take(k).map_values(f)) + f(s[k]),
{
    assert(s.take(k + 1).map_values(f).drop_last() =~= s.take(k).map_values(f));
}

proof fn lemma_concat_all<A, B>(s: Seq<A>, f: spec_fn(A) -> Seq<B>)
    ensures
        concat(s.take(s.len() as int).map_values(f)) == concat(s.map_values(f)),
{
    assert(s.take(s.len() as int) =~= s);
}

fn counts_meta_exec(active: usize, closed: usize) -> (r: String)
    ensures
        r@ == counts_meta(active, closed),
{
    let mut s = String::new();
    push_decimal(&mut s, active as u64);
    push_str(&mut s, " active • ");
    push_decimal(&mut s, closed as u64);
    push_str(&mut s, " closed");
    s
}

fn push_row(rows: &mut Vec<TreeRow>, row: TreeRow)
    ensures
        views(final(rows)@) == views(old(rows)@).push(row@),
{
    rows.push(row);
    assert(views(rows@) =~= views(old(rows)@).push(row@));
}

fn append_rows(rows: &mut Vec<TreeRow>, more: Vec<TreeRow>)
    ensures
        views(final(rows)@) == views(old(rows)@) + views(more@),
{
    let ghost more_v = more@;
    let mut more = more;
    rows.append(&mut more);
    proof {
        lemma_views_append(old(rows)@, more_v);
    }
}

impl ExplorerState {
    fn card_row_exec(c: &CardSummary, list_id: &String) -> (r: TreeRow)
        ensures
            r@ == card_row(c@, list_id@),
    {
        TreeRow {
            key: TreeKey::Card(c.id.clone()),
            parent: Some(TreeKey::List(list_id.clone())),
            depth: 3,
            kind: TreeKind::Card,
            label: c.name.clone(),
            meta: if c.is_closed {
                Some("closed".to_owned())
            } else {
                None
            },
            has_children: false,
            expanded: false,
            live: false,
        }
    }

    fn hierarchy_list_rows_exec(&self, b: &BoardSummary, l: &ListSummary) -> (r: Vec<TreeRow>)
        ensures
            views(r@) == hierarchy_list_rows(tree_view(self), b@, l@),
    {
        let mut rows: Vec<TreeRow> = Vec::new();
        push_row(
            &mut rows,
            TreeRow {
                key: TreeKey::List(l.id.clone()),
                parent: Some(TreeKey::Board(b.id.clone())),
                depth: 2,
                kind: TreeKind::List,
                label: l.name.clone(),
                meta: Some(counts_meta_exec(l.active_card_count, l.closed_card_count)),
                has_children: l.cards.len() > 0,
                expanded: self.expanded_lists.contains(l.id.as_str()),
                live: false,
            },
        );
        let ghost head = views(rows@);
        let mut i: usize = 0;
        while i < l.cards.len()
            invariant
                i <= l.cards.len(),
                views(rows@) == head + l@.cards.take(i as int).map_values(|c: CardView| card_row(c, l@.id)),
            decreases l.cards.len() - i,
        {
            let row = Self::card_row_exec(&l.cards[i], &l.id);
            push_row(&mut rows, row);
            assert(l@.cards[i as int] == l.cards@[i as int]@);
            assert(l@.cards.take(i + 1).map_values(|c: CardView| card_row(c, l@.id)) =~= l@.cards.take(
                i as int,
            ).map_values(|c: CardView| card_row(c, l@.id)).push(card_row(l@.cards[i as int], l@.id)));
            i = i + 1;
        }
        assert(l@.cards.take(i as int) =~= l@.cards);
        rows
    }

    fn group_rows_exec(&self, list_id: &String, g: &LabelGroupSummary) -> (r: Vec<TreeRow>)
        ensures
            views(r@) == group_rows(tree_view(self), list_id@, g@),
    {
        let label_id_ref: Option<&str> = match &g.label_id {
            Some(s) => Some(s.as_str()),
            None => None,
        };
        let gk = label_group_key(g.board_id.as_str(), g.list_id.as_str(), label_id_ref);
        assert(crate::config::opt_view(label_id_ref) == crate::board::opt_text(g.label_id));
        let mut rows: Vec<TreeRow> = Vec::new();
        push_row(
            &mut rows,
            TreeRow {
                key: TreeKey::LabelGroup {
                    board_id: g.board_id.clone(),
                    list_id: g.list_id.clone(),
                    label_id: copy_opt(&g.label_id),
                },
                parent: Some(TreeKey::List(list_id.clone())),
                depth: 3,
                kind: TreeKind::LabelGroup,
                label: g.label_name.clone(),
                meta: Some(counts_meta_exec(g.active_card_count, g.closed_card_count)),
                has_children: g.cards.len() > 0,
                expanded: self.expanded_label_groups.contains(gk.as_str()),
                live: false,
            },
        );
        let ghost head = views(rows@);
        let mut i: usize = 0;
        while i < g.cards.len()
            invariant
                i <= g.cards.len(),
                gk@ == spec_label_group_key(g@.board_id, g@.list_id, g@.label_id),
                views(rows@) == head + g@.cards.take(i as int).map_values(|gc: GroupCardView| grouped_card_row(g@, gc)),
            decreases g.cards.len() - i,
        {
            let gc = &g.cards[i];
            let row = TreeRow {
                key: TreeKey::GroupedCard { group_key: gk.clone(), card_id: gc.card_id.clone() },
                parent: Some(
                    TreeKey::LabelGroup {
                        board_id: g.board_id.clone(),
                        list_id: g.list_id.clone(),
                        label_id: copy_opt(&g.label_id),
                    },
                ),
                depth: 4,
                kind: TreeKind::Card,
                label: gc.card_name.clone(),
                meta: Some(
                    if gc.is_closed {
                        "closed".to_owned()
                    } else {
                        "active".to_owned()
                    },
                ),
                has_children: false,
                expanded: false,
                live: false,
            };
            assert(g@.cards[i as int] == gc@);
            assert(row@ == grouped_card_row(g@, gc@));
            push_row(&mut rows, row);
            assert(g@.cards.take(i + 1).map_values(|gc: GroupCardView| grouped_card_row(g@, gc)) =~= g@.cards.take(
                i as int,
            ).map_values(|gc: GroupCardView| grouped_card_row(g@, gc)).push(grouped_card_row(g@, g@.cards[i as int])));
            i = i + 1;
        }
        assert(g@.cards.take(i as int) =~= g@.cards);
        rows
    }

    fn label_list_rows_exec(&self, b: &BoardSummary, l: &ListSummary) -> (r: Vec<TreeRow>)
        ensures
            views(r@) == label_list_rows(tree_view(self), b@, l@),
    {
        let groups = label_groups_for_list(b, l);
        let mut meta = String::new();
        push_decimal(&mut meta, groups.len() as u64);
        push_str(&mut meta, " groups • ");
        let counts = counts_meta_exec(l.active_card_count, l.closed_card_count);
        push_str(&mut meta, counts.as_str());
        assert(views(groups@).len() == groups@.len());
        let mut rows: Vec<TreeRow> = Vec::new();
        push_row(
            &mut rows,
            TreeRow {
                key: TreeKey::List(l.id.clone()),
                parent: Some(TreeKey::Board(b.id.clone())),
                depth: 2,
                kind: TreeKind::List,
                label: l.name.clone(),
                meta: Some(meta),
                has_children: groups.len() > 0,
                expanded: self.expanded_lists.contains(l.id.as_str()),
                live: false,
            },
        );
        let ghost head = views(rows@);
        let ghost gs = views(groups@);
        let mut i: usize = 0;
        while i < groups.len()
            invariant
                i <= groups.len(),
                gs == views(groups@),
                views(rows@) == head + concat(gs.take(i as int).map_values(|g: LabelGroupView| group_rows(tree_view(self), l@.id, g))),
            decreases groups.len() - i,
        {
            let more = self.group_rows_exec(&l.id, &groups[i]);
            append_rows(&mut rows, more);
            proof {
                lemma_concat_step(gs, i as int, |g: LabelGroupView| group_rows(tree_view(self), l@.id, g));
            }
            i = i + 1;
        }
        proof {
            lemma_concat_all(gs, |g: LabelGroupView| group_rows(tree_view(self), l@.id, g));
        }
        rows
    }

    fn board_row_exec(&self, project_id: &String, b: &BoardSummary) -> (r: TreeRow)
        ensures
            r@ == board_row(tree_view(self), project_id@, b@),
    {
        let loaded = b.active_lists.len() > 0 || b.total_cards > 0;
        assert(views(b.active_lists@).len() == b.active_lists@.len());
        let live_target = match &self.subscribed_board_id {
            Some(id) => str_eq(id.as_str(), b.id.as_str()),
            None => false,
        };
        let is_live = match self.status {
            ConnectionState::Live => true,
            _ => false,
        };
        let meta: String = if live_target && !is_live {
            "switching live target • waiting websocket snapshot".to_owned()
        } else if self.loading_boards.contains(b.id.as_str()) {
            "loading board snapshot…".to_owned()
        } else {
            match self.board_errors.get(b.id.as_str()) {
                Some(message) => {
                    let mut s = String::new();
                    push_str(&mut s, "load failed • ");
                    let t = truncate(message.as_str(), 40);
                    push_str(&mut s, t.as_str());
                    s
                },
                None => if loaded {
                    let mut s = String::new();
                    push_decimal(&mut s, b.active_lists.len() as u64);
                    push_str(&mut s, " lists • ");
                    let c = counts_meta_exec(b.active_card_count, b.closed_card_count);
                    push_str(&mut s, c.as_str());
                    s
                } else {
                    "unloaded • press → to hydrate".to_owned()
                },
            }
        };
        TreeRow {
            key: TreeKey::Board(b.id.clone()),
            parent: Some(TreeKey::Project(project_id.clone())),
            depth: 1,
            kind: TreeKind::Board,
            label: b.name.clone(),
            meta: Some(meta),
            has_children: !loaded || b.active_lists.len() > 0,
            expanded: self.expanded_boards.contains(b.id.as_str()),
            live: live_target && is_live,
        }
    }

    fn board_rows_exec(&self, project_id: &String, b: &BoardSummary) -> (r: Vec<TreeRow>)
        ensures
            views(r@) == board_rows(tree_view(self), project_id@, b@),
    {
        let mut rows: Vec<TreeRow> = Vec::new();
        let row = self.board_row_exec(project_id, b);
        push_row(&mut rows, row);
        let loaded = b.active_lists.len() > 0 || b.total_cards > 0;
        assert(views(b.active_lists@).len() == b.active_lists@.len());
        if !loaded {
            assert(views(rows@) =~= board_rows(tree_view(self), project_id@, b@));
            return rows;
        }
        let ghost head = views(rows@);
        let ghost ls = b@.lists;
        let hierarchy = match self.explorer_view {
            ExplorerView::Hierarchy => true,
            ExplorerView::Labels => false,
        };
        let mut i: usize = 0;
        if hierarchy {
            while i < b.active_lists.len()
                invariant
                    i <= b.active_lists.len(),
                    ls == b@.lists,
                    ls.len() == b.active_lists.len(),
                    views(rows@) == head + concat(ls.take(i as int).map_values(|l: ListView| hierarchy_list_rows(tree_view(self), b@, l))),
                decreases b.active_lists.len() - i,
            {
                let more = self.hierarchy_list_rows_exec(b, &b.active_lists[i]);
                assert(ls[i as int] == b.active_lists@[i as int]@);
                append_rows(&mut rows, more);
                proof {
                    lemma_concat_step(ls, i as int, |l: ListView| hierarchy_list_rows(tree_view(self), b@, l));
                }
                i = i + 1;
            }
            proof {
                lemma_concat_all(ls, |l: ListView| hierarchy_list_rows(tree_view(self), b@, l));
            }
        } else {
            while i < b.active_lists.len()
                invariant
                    i <= b.active_lists.len(),
                    ls == b@.lists,
                    ls.len() == b.active_lists.len(),
                    views(rows@) == head + concat(ls.take(i as int).map_values(|l: ListView| label_list_rows(tree_view(self), b@, l))),
                decreases b.active_lists.len() - i,
            {
                let more = self.label_list_rows_exec(b, &b.active_lists[i]);
                assert(ls[i as int] == b.active_lists@[i as int]@);
                append_rows(&mut rows, more);
                proof {
                    lemma_concat_step(ls, i as int, |l: ListView| label_list_rows(tree_view(self), b@, l));
                }
                i = i + 1;
            }
            proof {
                lemma_concat_all(ls, |l: ListView| label_list_rows(tree_view(self), b@, l));
            }
        }
        rows
    }

    fn project_rows_exec(&self, p: &ProjectTree) -> (r: Vec<TreeRow>)
        ensures
            views(r@) == project_rows(tree_view(self), p@),
    {
        let mut rows: Vec<TreeRow> = Vec::new();
        let meta: String = if self.loading_projects.contains(p.id.as_str()) {
            "refreshing hierarchy…".to_owned()
        } else {
            let mut s = String::new();
            push_decimal(&mut s, p.boards.len() as u64);
            push_str(&mut s, " boards");
            s
        };
        push_row(
            &mut rows,
            TreeRow {
                key: TreeKey::Project(p.id.clone()),
                parent: None,
                depth: 0,
                kind: TreeKind::Project,
                label: p.name.clone(),
                meta: Some(meta),
                has_children: p.boards.len() > 0,
                expanded: self.expanded_projects.contains(p.id.as_str()),
                live: false,
            },
        );
        let ghost head = views(rows@);
        let ghost bs = views(p.boards@);
        let mut i: usize = 0;
        while i < p.boards.len()
            invariant
                i <= p.boards.len(),
                bs == views(p.boards@),
                bs.len() == p.boards.len(),
                views(rows@) == head + concat(bs.take(i as int).map_values(|b: BoardView| board_rows(tree_view(self), p.id@, b))),
            decreases p.boards.len() - i,
        {
            let more = self.board_rows_exec(&p.id, &p.boards[i]);
            append_rows(&mut rows, more);
            proof {
                lemma_concat_step(bs, i as int, |b: BoardView| board_rows(tree_view(self), p.id@, b));
            }
            i = i + 1;
        }
        proof {
            lemma_concat_all(bs, |b: BoardView| board_rows(tree_view(self), p.id@, b));
        }
        rows
    }

    /// Every row of the explorer tree, expanded or not, in display order.
    pub fn all_rows(&self) -> (r: Vec<TreeRow>)
        ensures
            views(r@) == all_rows(tree_view(self)),
    {
        let mut rows: Vec<TreeRow> = Vec::new();
        let ghost ps = views(self.projects@);
        let mut i: usize = 0;
        assert(views(rows@) =~= concat(ps.take(0).map_values(|p: ProjectView| project_rows(tree_view(self), p))));
        while i < self.projects.len()
            invariant
                i <= self.projects.len(),
                ps == views(self.projects@),
                ps.len() == self.projects.len(),
                views(rows@) == concat(ps.take(i as int).map_values(|p: ProjectView| project_rows(tree_view(self), p))),
            decreases self.projects.len() - i,
        {
            assert(ps[i as int] == self.projects@[i as int]@);
            let more = self.project_rows_exec(&self.projects[i]);
            append_rows(&mut rows, more);
            proof {
                lemma_concat_step(ps, i as int, |p: ProjectView| project_rows(tree_view(self), p));
            }
            i = i + 1;
        }
        proof {
            lemma_concat_all(ps, |p: ProjectView| project_rows(tree_view(self), p));
        }
        rows
    }
}

} // verus!
