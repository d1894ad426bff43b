//! How live websocket events change the explorer: the board that the
//! websocket follows takes the event, stale comments are dropped, a draft
//! of a card changed elsewhere is flagged, and the selection stays on a
//! shown row.

use vstd::prelude::*;

use crate::board::{
    board_update, board_without_card, card_label_create, card_label_delete, card_membership_create,
    card_membership_delete, card_upsert, label_delete, label_upsert, list_upsert, lists_without, recount_board,
    sum_cards, BoardView, EventItem, ProjectView,
};
use crate::explorer::{BoardSummary, CardDraft, ProjectTree};
use crate::lookup::{locate_board, BoardQuery};
use crate::nav::{selection_kept, shown_rows, visible_rows};
use crate::order::views;
use crate::state::{frame, no_changes, tree_view, Changes, ExplorerState, TreeView};
use crate::text::str_eq;

verus! {

/// What a live event does to the followed board.
#[derive(Debug, Clone, Copy, PartialEq, Eq)]
pub enum EventKind {
    BoardUpdate,
    CardUpsert,
    CardDelete,
    ListUpsert,
    ListDelete,
    LabelUpsert,
    LabelDelete,
    CardLabelCreate,
    CardLabelDelete,
    CardMembershipCreate,
    CardMembershipDelete,
    /// An event the explorer does not follow.
    Other,
}

/// The kind of a live event, by its name.
pub open spec fn event_kind(name: Seq<char>) -> EventKind {
    if name == "boardUpdate"@ {
        EventKind::BoardUpdate
    } else if name == "cardUpdate"@ || name == "cardCreate"@ {
        EventKind::CardUpsert
    } else if name == "cardDelete"@ {
        EventKind::CardDelete
    } else if name == "listUpdate"@ || name == "listCreate"@ {
        EventKind::ListUpsert
    } else if name == "listDelete"@ {
        EventKind::ListDelete
    } else if name == "labelCreate"@ || name == "labelUpdate"@ {
        EventKind::LabelUpsert
    } else if name == "labelDelete"@ {
        EventKind::LabelDelete
    } else if name == "cardLabelCreate"@ {
        EventKind::CardLabelCreate
    } else if name == "cardLabelDelete"@ {
        EventKind::CardLabelDelete
    } else if name == "cardMembershipCreate"@ {
        EventKind::CardMembershipCreate
    } else if name == "cardMembershipDelete"@ {
        EventKind::CardMembershipDelete
    } else {
        EventKind::Other
    }
}

/// Classifies a live event by its name.
pub fn classify_event(name: &str) -> (r: EventKind)
    ensures
        r == event_kind(name@),
{
    if str_eq(name, "boardUpdate") {
        EventKind::BoardUpdate
    } else if str_eq(name, "cardUpdate") || str_eq(name, "cardCreate") {
        EventKind::CardUpsert
    } else if str_eq(name, "cardDelete") {
        EventKind::CardDelete
    } else if str_eq(name, "listUpdate") || str_eq(name, "listCreate") {
        EventKind::ListUpsert
    } else if str_eq(name, "listDelete") {
        EventKind::ListDelete
    } else if str_eq(name, "labelCreate") || str_eq(name, "labelUpdate") {
        EventKind::LabelUpsert
    } else if str_eq(name, "labelDelete") {
        EventKind::LabelDelete
    } else if str_eq(name, "cardLabelCreate") {
        EventKind::CardLabelCreate
    } else if str_eq(name, "cardLabelDelete") {
        EventKind::CardLabelDelete
    } else if str_eq(name, "cardMembershipCreate") {
        EventKind::CardMembershipCreate
    } else if str_eq(name, "cardMembershipDelete") {
        EventKind::CardMembershipDelete
    } else {
        EventKind::Other
    }
}

/// The followed board after an event of kind `k`, and whether the event
/// made the comments of its card stale.
pub open spec fn board_after_event(b: BoardView, k: EventKind, item: EventItem) -> (BoardView, bool) {
    match k {
        EventKind::BoardUpdate => (board_update(b, item), false),
        EventKind::CardUpsert => card_upsert(b, item),
        EventKind::CardDelete => match item.id {
            Some(id) => (recount_board(board_without_card(b, id@).0), false),
            None => (b, false),
        },
        EventKind::ListUpsert => (list_upsert(b, item), false),
        EventKind::ListDelete => match item.id {
            Some(id) => (recount_board(BoardView { lists: lists_without(b.lists, id@), ..b }), false),
            None => (b, false),
        },
        EventKind::LabelUpsert => (label_upsert(b, item), false),
        EventKind::LabelDelete => match item.id {
            Some(id) => (label_delete(b, id@), false),
            None => (b, false),
        },
        EventKind::CardLabelCreate => (card_label_create(b, item), false),
        EventKind::CardLabelDelete => (card_label_delete(b, item), false),
        EventKind::CardMembershipCreate => (card_membership_create(b, item), false),
        EventKind::CardMembershipDelete => (card_membership_delete(b, item), false),
        EventKind::Other => (b, false),
    }
}

/// Where the followed board lies in the tree.
pub open spec fn followed_at(st: &ExplorerState) -> Option<(int, int)> {
    match st.subscribed_board_id {
        Some(id) => locate_board(st.projects@, BoardQuery::WithId, id@),
        None => None,
    }
}

/// The followed board's cards can be counted, one more included.
pub open spec fn live_cards_fit(st: &ExplorerState) -> bool {
    match followed_at(st) {
        Some((pi, bi)) => sum_cards(st.projects@[pi].boards@[bi]@.lists) < usize::MAX,
        None => true,
    }
}

/// The card an event is about: its `cardId`, else its `id`.
pub open spec fn touched_card(item: EventItem) -> Option<Seq<char>> {
    match item.card_id {
        Some(c) => Some(c@),
        None => match item.id {
            Some(i) => Some(i@),
            None => None,
        },
    }
}

/// Whether the event flags the card draft as changed elsewhere: the draft
/// has unsaved changes, the event is about its card, and that card is not
/// the one being saved.
pub open spec fn flags_draft(st: &ExplorerState, item: EventItem) -> bool {
    &&& st.card_draft is Some
    &&& st.card_draft->0.spec_is_dirty()
    &&& touched_card(item) == Some(st.card_draft->0.card_id@)
    &&& crate::board::opt_text(st.saving_card) != touched_card(item)
}

/// The projects with the board at `(pi, bi)` replaced by `b`.
pub open spec fn with_board(ps: Seq<ProjectView>, pi: int, bi: int, b: BoardView) -> Seq<ProjectView> {
    ps.update(pi, ProjectView { boards: ps[pi].boards.update(bi, b), ..ps[pi] })
}

/// What a live event does to the state, the selection aside: the draft
/// flag; and for an event the explorer follows, when the followed board is
/// in the tree, the board's change, the comments it made stale, and the
/// list it removed from the expanded ones.
pub open spec fn live_event_effect(a: &ExplorerState, b: &ExplorerState, name: Seq<char>, item: EventItem) -> bool {
    let k = event_kind(name);
    &&& b.card_draft == if flags_draft(a, item) {
        Some(CardDraft { remote_changed: true, ..a.card_draft->0 })
    } else {
        a.card_draft
    }
    &&& frame(
        a,
        b,
        Changes {
            projects: true,
            draft: true,
            card_comments: true,
            card_comment_errors: true,
            expanded_lists: true,
            selection: true,
            ..no_changes()
        },
    )
    &&& match (k, followed_at(a)) {
        (EventKind::Other, _) => b.projects == a.projects && b.card_comments == a.card_comments
            && b.card_comment_errors == a.card_comment_errors && b.expanded_lists == a.expanded_lists
            && b.selected == a.selected && b.detail_scroll == a.detail_scroll,
        (_, None) => b.projects == a.projects && b.card_comments == a.card_comments && b.card_comment_errors
            == a.card_comment_errors && b.expanded_lists == a.expanded_lists && selection_kept(
            a.selected,
            a.detail_scroll,
            shown_rows(tree_view(b)),
            b,
        ),
        (_, Some((pi, bi))) => {
            let old_board = a.projects@[pi].boards@[bi]@;
            let after = board_after_event(old_board, k, item);
            let stale = (k == EventKind::CardUpsert && after.1) || (k == EventKind::CardDelete && item.id is Some);
            &&& views(b.projects@) == with_board(views(a.projects@), pi, bi, after.0)
            &&& b.card_comments@ == if stale {
                a.card_comments@.remove(item.id->0@)
            } else {
                a.card_comments@
            }
            &&& b.card_comment_errors@ == if stale {
                a.card_comment_errors@.remove(item.id->0@)
            } else {
                a.card_comment_errors@
            }
            &&& b.expanded_lists@ == if k == EventKind::ListDelete && item.id is Some {
                a.expanded_lists@.remove(item.id->0@)
            } else {
                a.expanded_lists@
            }
            &&& selection_kept(a.selected, a.detail_scroll, shown_rows(tree_view(b)), b)
        },
    }
}

/// Whether the board's cards, one more included, can be counted.
fn cards_fit(b: &BoardSummary) -> (r: bool)
    ensures
        r == (sum_cards(b@.lists) < usize::MAX),
{
    let ghost ls = b@.lists;
    let mut total: usize = 0;
    let mut i: usize = 0;
    assert(ls.take(0) =~= Seq::<crate::board::ListView>::empty());
    while i < b.active_lists.len()
        invariant
            i <= b.active_lists.len(),
            ls == b@.lists,
            ls.len() == b.active_lists.len(),
            total == sum_cards(ls.take(i as int)),
            total < usize::MAX,
        decreases b.active_lists.len() - i,
    {
        assert(ls.take(i + 1).drop_last() =~= ls.take(i as int));
        assert(ls[i as int] == b.active_lists@[i as int]@);
        assert(views(b.active_lists@[i as int].cards@).len() == b.active_lists@[i as int].cards@.len());
        let n = b.active_lists[i].cards.len();
        if n >= usize::MAX - total {
            proof {
                crate::board::lemma_sum_cards_prefix_pub(ls, i + 1);
            }
            return false;
        }
        total = total + n;
        i = i + 1;
    }
    assert(ls.take(i as int) =~= ls);
    true
}

impl ExplorerState {
    /// Where the followed board lies in the tree.
    pub fn followed_board_at(&self) -> (r: Option<(usize, usize)>)
        ensures
            match r {
                Some((pi, bi)) => followed_at(self) == Some((pi as int, bi as int)),
                None => followed_at(self) is None,
            },
    {
        match &self.subscribed_board_id {
            Some(id) => self.locate_board(BoardQuery::WithId, id.as_str()),
            None => None,
        }
    }

    /// Whether a live event can be applied without its card counts
    /// overflowing.
    pub fn live_event_fits(&self) -> (r: bool)
        ensures
            r == live_cards_fit(self),
    {
        match self.followed_board_at() {
            Some((pi, bi)) => {
                proof {
                    crate::lookup::lemma_locate_board_range(
                        self.projects@,
                        BoardQuery::WithId,
                        self.subscribed_board_id->0@,
                    );
                }
                cards_fit(&self.projects[pi].boards[bi])
            },
            None => true,
        }
    }

    /// The board the websocket follows.
    pub fn subscribed_board(&self) -> (r: Option<&BoardSummary>)
        ensures
            match r {
                Some(b) => followed_at(self) matches Some((pi, bi)) && b@ == self.projects@[pi].boards@[bi]@,
                None => followed_at(self) is None,
            },
    {
        match self.followed_board_at() {
            Some((pi, bi)) => {
                proof {
                    crate::lookup::lemma_locate_board_range(
                        self.projects@,
                        BoardQuery::WithId,
                        self.subscribed_board_id->0@,
                    );
                }
                Some(&self.projects[pi].boards[bi])
            },
            None => None,
        }
    }

    fn flag_remote_change(&mut self, item: &EventItem)
        ensures
            frame(old(self), final(self), Changes { draft: true, ..no_changes() }),
            final(self).card_draft == if flags_draft(old(self), *item) {
                Some(CardDraft { remote_changed: true, ..old(self).card_draft->0 })
            } else {
                old(self).card_draft
            },
    {
        let touched: Option<&String> = match &item.card_id {
            Some(c) => Some(c),
            None => match &item.id {
                Some(i) => Some(i),
                None => None,
            },
        };
        let flag = match (&self.card_draft, touched) {
            (Some(draft), Some(t)) => {
                let saving_is_touched = match &self.saving_card {
                    Some(s) => str_eq(s.as_str(), t.as_str()),
                    None => false,
                };
                draft.is_dirty() && str_eq(draft.card_id.as_str(), t.as_str()) && !saving_is_touched
            },
            _ => false,
        };
        if flag {
            match &mut self.card_draft {
                Some(draft) => {
                    draft.remote_changed = true;
                },
                None => {},
            }
        }
    }

    fn apply_to_board(board: &mut BoardSummary, k: EventKind, item: &EventItem) -> (r: bool)
        requires
            sum_cards(old(board)@.lists) < usize::MAX,
        ensures
            (final(board)@, r) == board_after_event(old(board)@, k, *item),
    {
        match k {
            EventKind::BoardUpdate => {
                board.apply_board_update(item);
                false
            },
            EventKind::CardUpsert => board.apply_card_upsert(item),
            EventKind::CardDelete => {
                match &item.id {
                    Some(id) => board.apply_card_delete(id.as_str()),
                    None => {},
                }
                false
            },
            EventKind::ListUpsert => {
                board.apply_list_upsert(item);
                false
            },
            EventKind::ListDelete => {
                match &item.id {
                    Some(id) => board.apply_list_delete(id.as_str()),
                    None => {},
                }
                false
            },
            EventKind::LabelUpsert => {
                board.apply_label_upsert(item);
                false
            },
            EventKind::LabelDelete => {
                match &item.id {
                    Some(id) => board.apply_label_delete(id.as_str()),
                    None => {},
                }
                false
            },
            EventKind::CardLabelCreate => {
                board.apply_card_label_create(item);
                false
            },
            EventKind::CardLabelDelete => {
                board.apply_card_label_delete(item);
                false
            },
            EventKind::CardMembershipCreate => {
                board.apply_card_membership_create(item);
                false
            },
            EventKind::CardMembershipDelete => {
                board.apply_card_membership_delete(item);
                false
            },
            EventKind::Other => false,
        }
    }

    /// Applies a live event named `name` with item `item`.
    pub fn apply_live_event(&mut self, name: &str, item: &EventItem)
        requires
            live_cards_fit(old(self)),
        ensures
            live_event_effect(old(self), final(self), name@, *item),
    {
        self.flag_remote_change(item);
        let k = classify_event(name);
        match k {
            EventKind::Other => {
                return;
            },
            _ => {},
        }
        match self.followed_board_at() {
            Some((pi, bi)) => {
                proof {
                    crate::lookup::lemma_locate_board_range(
                        self.projects@,
                        BoardQuery::WithId,
                        self.subscribed_board_id->0@,
                    );
                }
                let ghost ps0 = views(self.projects@);
                let mut project = self.projects.remove(pi);
                assert(project@ == ps0[pi as int]);
                let mut board = project.boards.remove(bi);
                assert(board@ == ps0[pi as int].boards[bi as int]);
                let stale = Self::apply_to_board(&mut board, k, item);
                let ghost new_board = board@;
                let ghost boards0 = project.boards@;
                project.boards.insert(bi, board);
                assert(views(project.boards@) =~= ps0[pi as int].boards.update(bi as int, new_board)) by {
                    assert(project.boards@ == boards0.insert(bi as int, board));
                }
                let ghost p_view = project@;
                let ghost projects0 = self.projects@;
                self.projects.insert(pi, project);
                assert(views(self.projects@) =~= with_board(ps0, pi as int, bi as int, new_board)) by {
                    assert(self.projects@ == projects0.insert(pi as int, project));
                }
                let drop_comments = match k {
                    EventKind::CardUpsert => stale,
                    EventKind::CardDelete => item.id.is_some(),
                    _ => false,
                };
                if drop_comments {
                    match &item.id {
                        Some(id) => {
                            self.card_comments.remove(id.as_str());
                            self.card_comment_errors.remove(id.as_str());
                        },
                        None => {},
                    }
                }
                match k {
                    EventKind::ListDelete => match &item.id {
                        Some(id) => self.expanded_lists.remove(id.as_str()),
                        None => {},
                    },
                    _ => {},
                }
            },
            None => {},
        }
        self.ensure_selected_visible();
    }
}

} // verus!
