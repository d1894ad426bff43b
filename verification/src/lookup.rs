//! Finding boards, lists and cards in the explorer's project tree, always
//! the first match going through projects, boards, lists and cards in
//! order.

use vstd::prelude::*;

use crate::board::{card_index_in, list_index_in, locate_card, BoardView, CardView, ListView};
use crate::explorer::{BoardSummary, CardSummary, ProjectTree};
use crate::order::views;
use crate::state::ExplorerState;
use crate::text::str_eq;

verus! {

/// What a board is looked up by.
#[derive(Debug, Clone, Copy, PartialEq, Eq)]
pub enum BoardQuery {
    /// The board has a list with the id.
    WithList,
    /// The board has a card with the id.
    WithCard,
    /// The board has the id.
    WithId,
}

/// Whether board `b` answers the query for `id`.
pub open spec fn board_matches(q: BoardQuery, id: Seq<char>, b: BoardView) -> bool {
    match q {
        BoardQuery::WithList => list_index_in(b.lists, id) >= 0,
        BoardQuery::WithCard => locate_card(b.lists, id) is Some,
        BoardQuery::WithId => b.id == id,
    }
}

/// The index of the first board of `boards` that answers the query, or -1.
pub open spec fn board_index_where(boards: Seq<BoardView>, q: BoardQuery, id: Seq<char>) -> int
    decreases boards.len(),
{
    if boards.len() == 0 {
        -1
    } else {
        let i = board_index_where(boards.drop_last(), q, id);
        if i >= 0 {
            i
        } else if board_matches(q, id, boards.last()) {
            boards.len() - 1
        } else {
            -1
        }
    }
}

/// The project and board index of the first board answering the query,
/// going through the projects in order.
pub open spec fn locate_board(projects: Seq<ProjectTree>, q: BoardQuery, id: Seq<char>) -> Option<(int, int)>
    decreases projects.len(),
{
    if projects.len() == 0 {
        None
    } else {
        match locate_board(projects.drop_last(), q, id) {
            Some(p) => Some(p),
            None => {
                let j = board_index_where(views(projects.last().boards@), q, id);
                if j >= 0 {
                    Some((projects.len() - 1, j))
                } else {
                    None
                }
            },
        }
    }
}

pub(crate) proof fn lemma_board_index_range(boards: Seq<BoardView>, q: BoardQuery, id: Seq<char>)
    ensures
        -1 <= board_index_where(boards, q, id) < boards.len(),
        board_index_where(boards, q, id) >= 0 ==> board_matches(q, id, boards[board_index_where(boards, q, id)]),
    decreases boards.len(),
{
    if boards.len() > 0 {
        lemma_board_index_range(boards.drop_last(), q, id);
    }
}

/// The located board lies in the tree and answers the query.
pub proof fn lemma_locate_board_range(projects: Seq<ProjectTree>, q: BoardQuery, id: Seq<char>)
    ensures
        locate_board(projects, q, id) matches Some((pi, bi)) ==> 0 <= pi < projects.len() && 0 <= bi
            < projects[pi].boards@.len() && board_matches(q, id, projects[pi].boards@[bi]@),
    decreases projects.len(),
{
    if projects.len() > 0 {
        lemma_locate_board_range(projects.drop_last(), q, id);
        lemma_board_index_range(views(projects.last().boards@), q, id);
        match locate_board(projects, q, id) {
            Some((pi, bi)) => {
                if pi < projects.len() - 1 {
                    assert(projects.drop_last()[pi] == projects[pi]);
                } else {
                    assert(views(projects.last().boards@)[bi] == projects[pi].boards@[bi]@);
                }
            },
            None => {},
        }
    }
}

pub(crate) proof fn lemma_board_index_extends(boards: Seq<BoardView>, q: BoardQuery, id: Seq<char>, k: int)
    requires
        0 <= k <= boards.len(),
        board_index_where(boards.take(k), q, id) >= 0,
    ensures
        board_index_where(boards, q, id) == board_index_where(boards.take(k), q, id),
    decreases boards.len() - k,
{
    if k < boards.len() {
        assert(boards.take(k + 1).drop_last() =~= boards.take(k));
        lemma_board_index_extends(boards, q, id, k + 1);
    } else {
        assert(boards.take(k) =~= boards);
    }
}

proof fn lemma_locate_board_extends(projects: Seq<ProjectTree>, q: BoardQuery, id: Seq<char>, k: int)
    requires
        0 <= k <= projects.len(),
        locate_board(projects.take(k), q, id) is Some,
    ensures
        locate_board(projects, q, id) == locate_board(projects.take(k), q, id),
    decreases projects.len() - k,
{
    if k < projects.len() {
        assert(projects.take(k + 1).drop_last() =~= projects.take(k));
        lemma_locate_board_extends(projects, q, id, k + 1);
    } else {
        assert(projects.take(k) =~= projects);
    }
}

/// Whether the board answers the query.
fn board_matches_exec(q: BoardQuery, id: &str, b: &BoardSummary) -> (r: bool)
    ensures
        r == board_matches(q, id@, b@),
{
    match q {
        BoardQuery::WithList => {
            let mut i: usize = 0;
            assert(b@.lists.take(0) =~= Seq::<ListView>::empty());
            while i < b.active_lists.len()
                invariant
                    i <= b.active_lists.len(),
                    b@.lists.len() == b.active_lists.len(),
                    list_index_in(b@.lists.take(i as int), id@) == -1,
                    q == BoardQuery::WithList,
                decreases b.active_lists.len() - i,
            {
                assert(b@.lists.take(i + 1).drop_last() =~= b@.lists.take(i as int));
                assert(b@.lists[i as int] == b.active_lists@[i as int]@);
                if str_eq(b.active_lists[i].id.as_str(), id) {
                    assert(list_index_in(b@.lists.take(i + 1), id@) == i as int);
                    proof {
                        lemma_list_index_extends_pub(b@.lists, id@, i + 1);
                    }
                    return true;
                }
                i = i + 1;
            }
            assert(b@.lists.take(i as int) =~= b@.lists);
            false
        },
        BoardQuery::WithCard => b.locate_card(id).is_some(),
        BoardQuery::WithId => str_eq(b.id.as_str(), id),
    }
}

proof fn lemma_list_index_extends_pub(lists: Seq<ListView>, id: Seq<char>, k: int)
    requires
        0 <= k <= lists.len(),
        list_index_in(lists.take(k), id) >= 0,
    ensures
        list_index_in(lists, id) == list_index_in(lists.take(k), id),
    decreases lists.len() - k,
{
    if k < lists.len() {
        assert(lists.take(k + 1).drop_last() =~= lists.take(k));
        lemma_list_index_extends_pub(lists, id, k + 1);
    } else {
        assert(lists.take(k) =~= lists);
    }
}

/// The list of the first card with the id, in the board where that card is
/// first found.
pub open spec fn card_list_of(st: &ExplorerState, card_id: Seq<char>) -> Option<Seq<char>> {
    match locate_board(st.projects@, BoardQuery::WithCard, card_id) {
        Some((pi, bi)) => {
            let b = st.projects@[pi].boards@[bi]@;
            match locate_card(b.lists, card_id) {
                Some((li, ci)) => Some(b.lists[li].id),
                None => None,
            }
        },
        None => None,
    }
}

/// The first card with the id.
pub open spec fn card_of(st: &ExplorerState, card_id: Seq<char>) -> Option<CardView> {
    match locate_board(st.projects@, BoardQuery::WithCard, card_id) {
        Some((pi, bi)) => {
            let b = st.projects@[pi].boards@[bi]@;
            match locate_card(b.lists, card_id) {
                Some((li, ci)) => Some(b.lists[li].cards[ci]),
                None => None,
            }
        },
        None => None,
    }
}

/// The id of the first board answering the query.
pub open spec fn board_id_where(st: &ExplorerState, q: BoardQuery, id: Seq<char>) -> Option<Seq<char>> {
    match locate_board(st.projects@, q, id) {
        Some((pi, bi)) => Some(st.projects@[pi].boards@[bi].id@),
        None => None,
    }
}

/// The project of the first board with the id.
pub open spec fn project_of_board(st: &ExplorerState, board_id: Seq<char>) -> Option<Seq<char>> {
    match locate_board(st.projects@, BoardQuery::WithId, board_id) {
        Some((pi, bi)) => Some(st.projects@[pi].id@),
        None => None,
    }
}

/// The first board with the id.
pub open spec fn board_of(st: &ExplorerState, board_id: Seq<char>) -> Option<BoardView> {
    match locate_board(st.projects@, BoardQuery::WithId, board_id) {
        Some((pi, bi)) => Some(st.projects@[pi].boards@[bi]@),
        None => None,
    }
}

impl ExplorerState {
    /// Where the first board answering the query lies: its project and its
    /// index in that project.
    pub fn locate_board(&self, q: BoardQuery, id: &str) -> (r: Option<(usize, usize)>)
        ensures
            match r {
                Some((pi, bi)) => locate_board(self.projects@, q, id@) == Some((pi as int, bi as int)),
                None => locate_board(self.projects@, q, id@) is None,
            },
    {
        let ghost ps = self.projects@;
        let mut i: usize = 0;
        assert(ps.take(0) =~= Seq::<ProjectTree>::empty());
        while i < self.projects.len()
            invariant
                i <= self.projects.len(),
                ps == self.projects@,
                locate_board(ps.take(i as int), q, id@) is None,
            decreases self.projects.len() - i,
        {
            assert(ps.take(i + 1).drop_last() =~= ps.take(i as int));
            let p = &self.projects[i];
            let ghost bs = views(p.boards@);
            let mut j: usize = 0;
            assert(bs.take(0) =~= Seq::<BoardView>::empty());
            while j < p.boards.len()
                invariant
                    j <= p.boards.len(),
                    bs == views(p.boards@),
                    bs.len() == p.boards.len(),
                    board_index_where(bs.take(j as int), q, id@) == -1,
                    i < ps.len(),
                    ps == self.projects@,
                    *p == ps[i as int],
                    locate_board(ps.take(i as int), q, id@) is None,
                    ps.take(i + 1).drop_last() == ps.take(i as int),
                decreases p.boards.len() - j,
            {
                assert(bs.take(j + 1).drop_last() =~= bs.take(j as int));
                assert(bs[j as int] == p.boards@[j as int]@);
                if board_matches_exec(q, id, &p.boards[j]) {
                    assert(board_index_where(bs.take(j + 1), q, id@) == j as int);
                    proof {
                        lemma_board_index_extends(bs, q, id@, j + 1);
                        assert(ps.take(i + 1).last() == *p);
                        lemma_locate_board_extends(ps, q, id@, i + 1);
                    }
                    return Some((i, j));
                }
                j = j + 1;
            }
            assert(bs.take(j as int) =~= bs);
            i = i + 1;
        }
        assert(ps.take(i as int) =~= ps);
        None
    }

    /// The board that has a list with id `list_id`.
    pub fn board_id_for_list(&self, list_id: &str) -> (r: Option<&str>)
        ensures
            crate::config::opt_view(r) == board_id_where(self, BoardQuery::WithList, list_id@),
    {
        match self.locate_board(BoardQuery::WithList, list_id) {
            Some((pi, bi)) => {
                proof {
                    lemma_locate_board_range(self.projects@, BoardQuery::WithList, list_id@);
                }
                Some(self.projects[pi].boards[bi].id.as_str())
            },
            None => None,
        }
    }

    /// The board that has a card with id `card_id`.
    pub fn board_id_for_card(&self, card_id: &str) -> (r: Option<&str>)
        ensures
            crate::config::opt_view(r) == board_id_where(self, BoardQuery::WithCard, card_id@),
    {
        match self.locate_board(BoardQuery::WithCard, card_id) {
            Some((pi, bi)) => {
                proof {
                    lemma_locate_board_range(self.projects@, BoardQuery::WithCard, card_id@);
                }
                Some(self.projects[pi].boards[bi].id.as_str())
            },
            None => None,
        }
    }

    /// The project that has a board with id `board_id`.
    pub fn board_project_id(&self, board_id: &str) -> (r: Option<&str>)
        ensures
            crate::config::opt_view(r) == project_of_board(self, board_id@),
    {
        match self.locate_board(BoardQuery::WithId, board_id) {
            Some((pi, bi)) => {
                proof {
                    lemma_locate_board_range(self.projects@, BoardQuery::WithId, board_id@);
                }
                Some(self.projects[pi].id.as_str())
            },
            None => None,
        }
    }

    /// The board with id `board_id`.
    pub fn board_summary(&self, board_id: &str) -> (r: Option<&BoardSummary>)
        ensures
            match r {
                Some(b) => board_of(self, board_id@) == Some(b@),
                None => board_of(self, board_id@) is None,
            },
    {
        match self.locate_board(BoardQuery::WithId, board_id) {
            Some((pi, bi)) => {
                proof {
                    lemma_locate_board_range(self.projects@, BoardQuery::WithId, board_id@);
                }
                Some(&self.projects[pi].boards[bi])
            },
            None => None,
        }
    }

    /// The list that holds the card with id `card_id`.
    pub fn card_list_id(&self, card_id: &str) -> (r: Option<&str>)
        ensures
            crate::config::opt_view(r) == card_list_of(self, card_id@),
    {
        match self.locate_board(BoardQuery::WithCard, card_id) {
            Some((pi, bi)) => {
                proof {
                    lemma_locate_board_range(self.projects@, BoardQuery::WithCard, card_id@);
                }
                let b = &self.projects[pi].boards[bi];
                match b.locate_card(card_id) {
                    Some((li, ci)) => {
                        proof {
                            crate::board::lemma_locate_card_range_pub(b@.lists, card_id@);
                        }
                        assert(b@.lists[li as int] == b.active_lists@[li as int]@);
                        Some(b.active_lists[li].id.as_str())
                    },
                    None => None,
                }
            },
            None => None,
        }
    }

    /// The card with id `card_id`.
    pub fn card_summary(&self, card_id: &str) -> (r: Option<&CardSummary>)
        ensures
            match r {
                Some(c) => card_of(self, card_id@) == Some(c@),
                None => card_of(self, card_id@) is None,
            },
    {
        match self.locate_board(BoardQuery::WithCard, card_id) {
            Some((pi, bi)) => {
                proof {
                    lemma_locate_board_range(self.projects@, BoardQuery::WithCard, card_id@);
                }
                let b = &self.projects[pi].boards[bi];
                match b.locate_card(card_id) {
                    Some((li, ci)) => {
                        proof {
                            crate::board::lemma_locate_card_range_pub(b@.lists, card_id@);
                        }
                        assert(b@.lists[li as int] == b.active_lists@[li as int]@);
                        assert(b@.lists[li as int].cards[ci as int] == b.active_lists@[li as int].cards@[ci as int]@);
                        Some(&b.active_lists[li].cards[ci])
                    },
                    None => None,
                }
            },
            None => None,
        }
    }
}

} // verus!
