//! How the explorer takes the results of background work: loaded and
//! failed projects, boards and comments, the websocket's progress, live
//! events, and the end of a card save; and how it starts.

use vstd::prelude::*;

use crate::actions::project_index;
use crate::board::{
    card_upsert, copy_opt_text, opt_text, sum_cards, BoardView, DeepCopy, EventItem, ProjectView,
};
use crate::explorer::{
    spec_truncate, truncate, BoardSummary, CommentSummary, ConnectionState, ExplorerView, ProjectTree, TreeKey,
};
use crate::ids::{IdMap, IdSet};
use crate::live::{followed_at, live_cards_fit, live_event_effect, with_board};
use crate::lookup::{board_index_where, locate_board, BoardQuery};
use crate::order::{sort_stable, sorted_stable, views, SortOrder};
use crate::state::{frame, no_changes, tree_view, Changes, ExplorerState, PaneFocus};
use crate::text::{push_str, str_eq};
use crate::tree::{is_live_target, KeyView};

verus! {

impl SortOrder for BoardSummary {
    /// Boards are listed by position.
    open spec fn spec_before(a: BoardView, b: BoardView) -> bool {
        a.position < b.position
    }

    fn before(&self, other: &Self) -> (r: bool) {
        self.position < other.position
    }
}

/// The result of background work, handed to the explorer.
#[derive(Debug)]
pub enum ExplorerEvent {
    /// The websocket of session `session_id` is connecting for a board.
    SocketConnecting { session_id: u64, board_id: String },
    /// The websocket of session `session_id` is live, with the board's
    /// snapshot.
    SocketLive { session_id: u64, board: BoardSummary },
    /// A project was loaded again; `board_errors` holds the boards that
    /// failed to load, with their messages.
    ProjectRefreshed { project: ProjectTree, board_errors: Vec<(String, String)> },
    ProjectRefreshFailed { project_id: String, message: String },
    BoardHydrated(BoardSummary),
    BoardLoadFailed { board_id: String, message: String },
    CardCommentsLoaded { card_id: String, comments: Vec<CommentSummary> },
    CardCommentsLoadFailed { card_id: String, message: String },
    SocketError { session_id: u64, message: String },
    /// A live event of session `session_id`, with its item when it had one.
    LiveEvent { session_id: u64, name: String, item: Option<EventItem> },
}

/// How a card save ended.
#[derive(Debug)]
pub enum SaveCompletion {
    Succeeded { card_id: String, item: EventItem },
    Failed { card_id: String, message: String },
}

/// A project after a board's snapshot arrives: the board replaces the
/// first board with its id, or joins the boards, which are put in order.
pub open spec fn merged_project(p: ProjectView, b: BoardView) -> ProjectView {
    if p.id == b.project_id {
        let j = board_index_where(p.boards, BoardQuery::WithId, b.id);
        ProjectView {
            boards: if j >= 0 {
                p.boards.update(j, b)
            } else {
                sorted_stable::<BoardSummary>(p.boards.push(b))
            },
            ..p
        }
    } else {
        p
    }
}

/// What merging a board's snapshot does: every project of the board takes
/// it; the live target's project and board open.
pub open spec fn merge_board_result(a: &ExplorerState, s: &ExplorerState, b: BoardView) -> bool {
    let opens = is_live_target(tree_view(a), b.id) && project_index(a.projects@, b.project_id) >= 0;
    &&& frame(a, s, Changes { projects: true, expanded_projects: true, expanded_boards: true, ..no_changes() })
    &&& views(s.projects@) == views(a.projects@).map_values(|p: ProjectView| merged_project(p, b))
    &&& s.expanded_projects@ == if opens {
        a.expanded_projects@.insert(b.project_id)
    } else {
        a.expanded_projects@
    }
    &&& s.expanded_boards@ == if opens {
        a.expanded_boards@.insert(b.id)
    } else {
        a.expanded_boards@
    }
}

/// What merging a project does: it replaces the first project with its id,
/// or joins the projects.
pub open spec fn merge_project_result(a: &ExplorerState, s: &ExplorerState, p: ProjectView) -> bool {
    let i = project_index(a.projects@, p.id);
    &&& frame(a, s, Changes { projects: true, ..no_changes() })
    &&& views(s.projects@) == if i >= 0 {
        views(a.projects@).update(i, p)
    } else {
        views(a.projects@).push(p)
    }
}

proof fn lemma_project_index_prefix(projects: Seq<ProjectTree>, id: Seq<char>, k: int)
    requires
        0 <= k <= projects.len(),
        project_index(projects.take(k), id) >= 0,
    ensures
        project_index(projects, id) == project_index(projects.take(k), id),
    decreases projects.len() - k,
{
    if k < projects.len() {
        assert(projects.take(k + 1).drop_last() =~= projects.take(k));
        lemma_project_index_prefix(projects, id, k + 1);
    } else {
        assert(projects.take(k) =~= projects);
    }
}

proof fn lemma_project_index_range(projects: Seq<ProjectTree>, id: Seq<char>)
    ensures
        -1 <= project_index(projects, id) < projects.len(),
        project_index(projects, id) >= 0 ==> projects[project_index(projects, id)].id@ == id,
        project_index(projects, id) == -1 ==> forall|j: int| 0 <= j < projects.len() ==> (#[trigger] projects[j]).id@
            != id,
    decreases projects.len(),
{
    if projects.len() > 0 {
        lemma_project_index_range(projects.drop_last(), id);
        if project_index(projects, id) == -1 {
            assert forall|j: int| 0 <= j < projects.len() implies (#[trigger] projects[j]).id@ != id by {
                if j < projects.len() - 1 {
                    assert(projects.drop_last()[j] == projects[j]);
                }
            }
        }
    }
}

/// The first index of a board with the id among `boards`.
fn board_index_exec(boards: &Vec<BoardSummary>, id: &str) -> (r: Option<usize>)
    ensures
        match r {
            Some(j) => j as int == board_index_where(views(boards@), BoardQuery::WithId, id@) && j < boards.len(),
            None => board_index_where(views(boards@), BoardQuery::WithId, id@) == -1,
        },
{
    let ghost bs = views(boards@);
    let mut j: usize = 0;
    assert(bs.take(0) =~= Seq::<BoardView>::empty());
    while j < boards.len()
        invariant
            j <= boards.len(),
            bs == views(boards@),
            bs.len() == boards.len(),
            board_index_where(bs.take(j as int), BoardQuery::WithId, id@) == -1,
        decreases boards.len() - j,
    {
        assert(bs.take(j + 1).drop_last() =~= bs.take(j as int));
        assert(bs[j as int] == boards@[j as int]@);
        if str_eq(boards[j].id.as_str(), id) {
            assert(board_index_where(bs.take(j + 1), BoardQuery::WithId, id@) == j as int);
            proof {
                lemma_board_index_prefix(bs, id@, j + 1);
            }
            return Some(j);
        }
        j = j + 1;
    }
    assert(bs.take(j as int) =~= bs);
    None
}

proof fn lemma_board_index_prefix(boards: Seq<BoardView>, id: Seq<char>, k: int)
    requires
        0 <= k <= boards.len(),
        board_index_where(boards.take(k), BoardQuery::WithId, id) >= 0,
    ensures
        board_index_where(boards, BoardQuery::WithId, id) == board_index_where(boards.take(k), BoardQuery::WithId, id),
    decreases boards.len() - k,
{
    if k < boards.len() {
        assert(boards.take(k + 1).drop_last() =~= boards.take(k));
        lemma_board_index_prefix(boards, id, k + 1);
    } else {
        assert(boards.take(k) =~= boards);
    }
}

proof fn lemma_board_index_range_id(boards: Seq<BoardView>, id: Seq<char>)
    ensures
        -1 <= board_index_where(boards, BoardQuery::WithId, id) < boards.len(),
    decreases boards.len(),
{
    if boards.len() > 0 {
        lemma_board_index_range_id(boards.drop_last(), id);
    }
}

/// A project with a board's snapshot merged in.
fn merge_into_project(p: ProjectTree, board: &BoardSummary) -> (r: ProjectTree)
    ensures
        r@ == merged_project(p@, board@),
{
    if !str_eq(p.id.as_str(), board.project_id.as_str()) {
        return p;
    }
    let mut p = p;
    let mut boards: Vec<BoardSummary> = Vec::new();
    std::mem::swap(&mut boards, &mut p.boards);
    let ghost before = boards@;
    match board_index_exec(&boards, board.id.as_str()) {
        Some(j) => {
            let _ = boards.remove(j);
            boards.insert(j, board.deep_copy());
            assert(views(boards@) =~= views(before).update(j as int, board@));
            p.boards = boards;
        },
        None => {
            let copy = board.deep_copy();
            boards.push(copy);
            assert(views(boards@) =~= views(before).push(board@));
            p.boards = sort_stable(boards);
        },
    }
    p
}

impl ExplorerState {
    /// Merges a board's snapshot into every project of the board; opens
    /// the live target.
    pub fn merge_board(&mut self, board: &BoardSummary)
        ensures
            merge_board_result(old(self), final(self), board@),
    {
        let ghost a = *self;
        let mut projects: Vec<ProjectTree> = Vec::new();
        std::mem::swap(&mut projects, &mut self.projects);
        let ghost orig = projects@;
        let n = projects.len();
        let mut out: Vec<ProjectTree> = Vec::new();
        let mut found = false;
        let mut i: usize = 0;
        assert(views(out@) =~= views(orig).take(0).map_values(|p: ProjectView| merged_project(p, board@)));
        assert(orig.take(0) =~= Seq::<ProjectTree>::empty());
        while projects.len() > 0
            invariant
                0 <= i <= orig.len(),
                orig.len() == n,
                projects@ == orig.skip(i as int),
                views(out@) == views(orig).take(i as int).map_values(|p: ProjectView| merged_project(p, board@)),
                found == (project_index(orig.take(i as int), board@.project_id) >= 0),
            decreases projects.len(),
        {
            let p = projects.remove(0);
            assert(orig.skip(i as int)[0] == p);
            assert(projects@ =~= orig.skip(i + 1));
            assert(orig.take(i + 1).drop_last() =~= orig.take(i as int));
            assert(orig.take(i + 1).last() == p);
            if str_eq(p.id.as_str(), board.project_id.as_str()) {
                found = true;
            }
            let p2 = merge_into_project(p, board);
            let ghost old_out = views(out@);
            out.push(p2);
            assert(views(out@) =~= views(orig).take(i + 1).map_values(|p: ProjectView| merged_project(p, board@)))
                by {
                assert(views(out@) =~= old_out.push(p2@));
                assert(views(orig)[i as int] == orig[i as int]@);
            }
            i = i + 1;
        }
        assert(views(orig).take(i as int) =~= views(orig));
        assert(orig.take(i as int) =~= orig);
        self.projects = out;
        if found && self.is_live_target(board.id.as_str()) {
            self.expanded_projects.insert(board.project_id.as_str());
            self.expanded_boards.insert(board.id.as_str());
        }
    }

    /// Merges a project: it replaces the first project with its id, or
    /// joins the projects.
    pub fn merge_project(&mut self, project: ProjectTree)
        ensures
            merge_project_result(old(self), final(self), project@),
    {
        let ghost ps = self.projects@;
        let mut i: usize = 0;
        assert(ps.take(0) =~= Seq::<ProjectTree>::empty());
        while i < self.projects.len()
            invariant
                i <= self.projects.len(),
                ps == self.projects@,
                ps == old(self).projects@,
                *self == *old(self),
                project_index(ps.take(i as int), project@.id) == -1,
            decreases self.projects.len() - i,
        {
            assert(ps.take(i + 1).drop_last() =~= ps.take(i as int));
            if str_eq(self.projects[i].id.as_str(), project.id.as_str()) {
                assert(project_index(ps.take(i + 1), project@.id) == i as int);
                proof {
                    lemma_project_index_prefix(ps, project@.id, i + 1);
                }
                let _ = self.projects.remove(i);
                self.projects.insert(i, project);
                assert(views(self.projects@) =~= views(ps).update(i as int, project@));
                return;
            }
            i = i + 1;
        }
        assert(ps.take(i as int) =~= ps);
        self.projects.push(project);
        assert(views(self.projects@) =~= views(ps).push(project@));
    }
}


/// `s` without each of `ids`.
pub open spec fn remove_ids(s: Set<Seq<char>>, ids: Seq<Seq<char>>) -> Set<Seq<char>>
    decreases ids.len(),
{
    if ids.len() == 0 {
        s
    } else {
        remove_ids(s, ids.drop_last()).remove(ids.last())
    }
}

/// `m` without the entries of each of `ids`.
pub open spec fn remove_keys_of<V>(m: Map<Seq<char>, V>, ids: Seq<Seq<char>>) -> Map<Seq<char>, V>
    decreases ids.len(),
{
    if ids.len() == 0 {
        m
    } else {
        remove_keys_of(m, ids.drop_last()).remove(ids.last())
    }
}

/// `m` with the entries of `es` set in order.
pub open spec fn insert_entries(m: Map<Seq<char>, String>, es: Seq<(String, String)>) -> Map<Seq<char>, String>
    decreases es.len(),
{
    if es.len() == 0 {
        m
    } else {
        insert_entries(m, es.drop_last()).insert(es.last().0@, es.last().1)
    }
}

/// The ids of a project's boards.
pub open spec fn board_ids(p: ProjectView) -> Seq<Seq<char>> {
    p.boards.map_values(|b: BoardView| b.id)
}

/// `"<prefix><message cut to 80 characters>"`.
pub open spec fn failure_notice(prefix: Seq<char>, message: Seq<char>) -> Seq<char> {
    prefix + spec_truncate(message, 80)
}

/// The state of a websocket session still current: the session is the
/// active one.
pub open spec fn current_session(a: &ExplorerState, session_id: u64) -> bool {
    session_id == a.active_socket_session_id
}

/// What taking a background result does.
pub open spec fn event_result(a: &ExplorerState, s: &ExplorerState, e: ExplorerEvent) -> bool {
    match e {
        ExplorerEvent::SocketConnecting { session_id, board_id } => if !current_session(a, session_id) || opt_text(
            a.subscribed_board_id,
        ) != Some(board_id@) {
            *s == *a
        } else {
            frame(a, s, Changes { live: true, ..no_changes() }) && s.status == ConnectionState::Connecting
                && s.subscribed_board_id == a.subscribed_board_id && s.active_socket_session_id
                == a.active_socket_session_id
        },
        ExplorerEvent::SocketLive { session_id, board } => if !current_session(a, session_id) || opt_text(
            a.subscribed_board_id,
        ) != Some(board.id@) {
            *s == *a
        } else {
            let opens = project_index(a.projects@, board@.project_id) >= 0;
            &&& frame(
                a,
                s,
                Changes {
                    projects: true,
                    expanded_projects: true,
                    expanded_boards: true,
                    loading_boards: true,
                    board_errors: true,
                    live: true,
                    ..no_changes()
                },
            )
            &&& views(s.projects@) == views(a.projects@).map_values(|p: ProjectView| merged_project(p, board@))
            &&& s.expanded_projects@ == if opens {
                a.expanded_projects@.insert(board@.project_id)
            } else {
                a.expanded_projects@
            }
            &&& s.expanded_boards@ == if opens {
                a.expanded_boards@.insert(board@.id)
            } else {
                a.expanded_boards@
            }
            &&& s.loading_boards@ == a.loading_boards@.remove(board@.id)
            &&& s.board_errors@ == a.board_errors@.remove(board@.id)
            &&& s.status == ConnectionState::Live
            &&& s.subscribed_board_id == a.subscribed_board_id
            &&& s.active_socket_session_id == a.active_socket_session_id
        },
        ExplorerEvent::ProjectRefreshed { project, board_errors } => {
            let i = project_index(a.projects@, project@.id);
            &&& frame(
                a,
                s,
                Changes { projects: true, loading_projects: true, loading_boards: true, board_errors: true, ..no_changes() },
            )
            &&& s.loading_projects@ == a.loading_projects@.remove(project@.id)
            &&& s.loading_boards@ == remove_ids(a.loading_boards@, board_ids(project@))
            &&& s.board_errors@ == insert_entries(
                remove_keys_of(a.board_errors@, board_ids(project@)),
                board_errors@,
            )
            &&& views(s.projects@) == if i >= 0 {
                views(a.projects@).update(i, project@)
            } else {
                views(a.projects@).push(project@)
            }
        },
        ExplorerEvent::ProjectRefreshFailed { project_id, message } => {
            &&& frame(a, s, Changes { loading_projects: true, notice: true, ..no_changes() })
            &&& s.loading_projects@ == a.loading_projects@.remove(project_id@)
            &&& opt_text(s.notice) == Some(failure_notice("Project refresh failed: "@, message@))
        },
        ExplorerEvent::BoardHydrated(board) => {
            let opens = is_live_target(tree_view(a), board@.id) && project_index(a.projects@, board@.project_id) >= 0;
            &&& frame(
                a,
                s,
                Changes {
                    projects: true,
                    expanded_projects: true,
                    expanded_boards: true,
                    loading_boards: true,
                    board_errors: true,
                    ..no_changes()
                },
            )
            &&& views(s.projects@) == views(a.projects@).map_values(|p: ProjectView| merged_project(p, board@))
            &&& s.expanded_projects@ == if opens {
                a.expanded_projects@.insert(board@.project_id)
            } else {
                a.expanded_projects@
            }
            &&& s.expanded_boards@ == if opens {
                a.expanded_boards@.insert(board@.id)
            } else {
                a.expanded_boards@
            }
            &&& s.loading_boards@ == a.loading_boards@.remove(board@.id)
            &&& s.board_errors@ == a.board_errors@.remove(board@.id)
        },
        ExplorerEvent::BoardLoadFailed { board_id, message } => {
            &&& frame(a, s, Changes { loading_boards: true, board_errors: true, notice: true, ..no_changes() })
            &&& s.loading_boards@ == a.loading_boards@.remove(board_id@)
            &&& s.board_errors@ == a.board_errors@.insert(board_id@, message)
            &&& opt_text(s.notice) == Some(failure_notice("Board refresh failed: "@, message@))
        },
        ExplorerEvent::CardCommentsLoaded { card_id, comments } => {
            &&& frame(
                a,
                s,
                Changes { card_comments: true, loading_card_comments: true, card_comment_errors: true, ..no_changes() },
            )
            &&& s.loading_card_comments@ == a.loading_card_comments@.remove(card_id@)
            &&& s.card_comment_errors@ == a.card_comment_errors@.remove(card_id@)
            &&& s.card_comments@ == a.card_comments@.insert(card_id@, comments)
        },
        ExplorerEvent::CardCommentsLoadFailed { card_id, message } => {
            &&& frame(a, s, Changes { loading_card_comments: true, card_comment_errors: true, ..no_changes() })
            &&& s.loading_card_comments@ == a.loading_card_comments@.remove(card_id@)
            &&& s.card_comment_errors@ == a.card_comment_errors@.insert(card_id@, message)
        },
        ExplorerEvent::SocketError { session_id, message } => if !current_session(a, session_id) {
            *s == *a
        } else {
            frame(a, s, Changes { live: true, ..no_changes() }) && s.status == ConnectionState::Error(message)
                && s.subscribed_board_id == a.subscribed_board_id && s.active_socket_session_id
                == a.active_socket_session_id
        },
        ExplorerEvent::LiveEvent { session_id, name, item } => if !current_session(a, session_id) {
            *s == *a
        } else {
            match item {
                Some(it) => live_event_effect(a, s, name@, it),
                None => *s == *a,
            }
        },
    }
}

impl ExplorerState {
    /// Takes the result of background work.
    pub fn apply(&mut self, event: ExplorerEvent)
        requires
            (event matches ExplorerEvent::LiveEvent { session_id, item, .. } && session_id
                == old(self).active_socket_session_id && item is Some) ==> live_cards_fit(old(self)),
        ensures
            event_result(old(self), final(self), event),
    {
        let ghost e = event;
        match event {
            ExplorerEvent::SocketConnecting { session_id, board_id } => {
                if session_id != self.active_socket_session_id || !self.is_live_target(board_id.as_str()) {
                    return;
                }
                self.status = ConnectionState::Connecting;
            },
            ExplorerEvent::SocketLive { session_id, board } => {
                if session_id != self.active_socket_session_id || !self.is_live_target(board.id.as_str()) {
                    return;
                }
                self.loading_boards.remove(board.id.as_str());
                self.board_errors.remove(board.id.as_str());
                proof {
                    assert(is_live_target(tree_view(self), board@.id));
                }
                self.merge_board(&board);
                self.status = ConnectionState::Live;
            },
            ExplorerEvent::ProjectRefreshed { project, board_errors } => {
                self.loading_projects.remove(project.id.as_str());
                let ghost ids = board_ids(project@);
                let mut j: usize = 0;
                let ghost lb = self.loading_boards@;
                let ghost be = self.board_errors@;
                let ghost pre = *self;
                assert(ids.take(0) =~= Seq::<Seq<char>>::empty());
                while j < project.boards.len()
                    invariant
                        j <= project.boards.len(),
                        ids == board_ids(project@),
                        ids.len() == project.boards.len(),
                        self.loading_boards@ == remove_ids(lb, ids.take(j as int)),
                        self.board_errors@ == remove_keys_of(be, ids.take(j as int)),
                        frame(&pre, self, Changes { loading_boards: true, board_errors: true, ..no_changes() }),
                    decreases project.boards.len() - j,
                {
                    assert(ids.take(j + 1).drop_last() =~= ids.take(j as int));
                    assert(ids[j as int] == project.boards@[j as int].id@);
                    self.loading_boards.remove(project.boards[j].id.as_str());
                    self.board_errors.remove(project.boards[j].id.as_str());
                    j = j + 1;
                }
                assert(ids.take(j as int) =~= ids);
                let ghost base = self.board_errors@;
                let ghost pre2 = *self;
                let mut failures = board_errors;
                let ghost es = failures@;
                let total = failures.len();
                let mut k: usize = 0;
                assert(es.take(0) =~= Seq::<(String, String)>::empty());
                while failures.len() > 0
                    invariant
                        k <= es.len(),
                        es.len() == total,
                        failures@ == es.skip(k as int),
                        self.board_errors@ == insert_entries(base, es.take(k as int)),
                        frame(&pre2, self, Changes { board_errors: true, ..no_changes() }),
                    decreases failures.len(),
                {
                    let (board_id, message) = failures.remove(0);
                    assert(es.skip(k as int)[0] == (board_id, message));
                    assert(failures@ =~= es.skip(k + 1));
                    assert(es.take(k + 1).drop_last() =~= es.take(k as int));
                    self.board_errors.insert(board_id, message);
                    k = k + 1;
                }
                assert(es.take(k as int) =~= es);
                self.merge_project(project);
            },
            ExplorerEvent::ProjectRefreshFailed { project_id, message } => {
                self.loading_projects.remove(project_id.as_str());
                let mut notice = String::new();
                push_str(&mut notice, "Project refresh failed: ");
                let cut = truncate(message.as_str(), 80);
                push_str(&mut notice, cut.as_str());
                self.notice = Some(notice);
            },
            ExplorerEvent::BoardHydrated(board) => {
                self.loading_boards.remove(board.id.as_str());
                self.board_errors.remove(board.id.as_str());
                self.merge_board(&board);
            },
            ExplorerEvent::BoardLoadFailed { board_id, message } => {
                self.loading_boards.remove(board_id.as_str());
                let mut notice = String::new();
                push_str(&mut notice, "Board refresh failed: ");
                let cut = truncate(message.as_str(), 80);
                push_str(&mut notice, cut.as_str());
                self.board_errors.insert(board_id, message);
                self.notice = Some(notice);
            },
            ExplorerEvent::CardCommentsLoaded { card_id, comments } => {
                self.loading_card_comments.remove(card_id.as_str());
                self.card_comment_errors.remove(card_id.as_str());
                self.card_comments.insert(card_id, comments);
            },
            ExplorerEvent::CardCommentsLoadFailed { card_id, message } => {
                self.loading_card_comments.remove(card_id.as_str());
                self.card_comment_errors.insert(card_id, message);
            },
            ExplorerEvent::SocketError { session_id, message } => {
                if session_id != self.active_socket_session_id {
                    return;
                }
                self.status = ConnectionState::Error(message);
            },
            ExplorerEvent::LiveEvent { session_id, name, item } => {
                if session_id != self.active_socket_session_id {
                    return;
                }
                match item {
                    Some(it) => self.apply_live_event(name.as_str(), &it),
                    None => {},
                }
            },
        }
    }
}


/// The selection and open nodes a new explorer starts with: the live
/// target's board in the first project that has it, opened; else the
/// first project.
pub open spec fn initial_selection(projects: Seq<ProjectTree>, subscribed: Option<String>) -> (
    Option<KeyView>,
    Set<Seq<char>>,
    Set<Seq<char>>,
) {
    let located = match subscribed {
        Some(t) => locate_board(projects, BoardQuery::WithId, t@),
        None => None,
    };
    match located {
        Some((pi, bi)) => (
            Some(KeyView::Board(subscribed->0@)),
            set![projects[pi].id@],
            set![subscribed->0@],
        ),
        None => (
            if projects.len() > 0 {
                Some(KeyView::Project(projects[0].id@))
            } else {
                None
            },
            Set::empty(),
            Set::empty(),
        ),
    }
}

/// What a save's completion does: the save is over; a successful save
/// puts the saved card on the followed board, drops its stale comments and
/// its draft; the outcome is announced.
pub open spec fn save_result(a: &ExplorerState, s: &ExplorerState, c: SaveCompletion) -> bool {
    &&& s.saving_card is None
    &&& match c {
        SaveCompletion::Succeeded { card_id, item } => {
            &&& frame(
                a,
                s,
                Changes {
                    projects: true,
                    card_comments: true,
                    card_comment_errors: true,
                    draft: true,
                    saving_card: true,
                    notice: true,
                    ..no_changes()
                },
            )
            &&& upsert_effect(a, s, item)
            &&& s.card_draft == if a.card_draft is Some && a.card_draft->0.card_id@ == card_id@ {
                None
            } else {
                a.card_draft
            }
            &&& opt_text(s.notice) == Some("Saved card changes."@)
        },
        SaveCompletion::Failed { card_id, message } => {
            &&& frame(a, s, Changes { saving_card: true, notice: true, ..no_changes() })
            &&& opt_text(s.notice) == Some("Save failed for "@ + card_id@ + ": "@ + message@)
        },
    }
}

/// What a card upsert does to the followed board and the comments it
/// made stale.
pub open spec fn upsert_effect(a: &ExplorerState, s: &ExplorerState, item: EventItem) -> bool {
    match (item.id, followed_at(a)) {
        (Some(id), Some((pi, bi))) => {
            let after = card_upsert(a.projects@[pi].boards@[bi]@, item);
            &&& views(s.projects@) == with_board(views(a.projects@), pi, bi, after.0)
            &&& s.card_comments@ == if after.1 {
                a.card_comments@.remove(id@)
            } else {
                a.card_comments@
            }
            &&& s.card_comment_errors@ == if after.1 {
                a.card_comment_errors@.remove(id@)
            } else {
                a.card_comment_errors@
            }
        },
        _ => s.projects == a.projects && s.card_comments == a.card_comments && s.card_comment_errors
            == a.card_comment_errors,
    }
}

impl ExplorerState {
    /// A new explorer over `projects`, following `subscribed_board_id`.
    pub fn new(projects: Vec<ProjectTree>, subscribed_board_id: Option<String>, active_socket_session_id: u64) -> (r:
        Self)
        ensures
            r.projects == projects,
            r.subscribed_board_id == subscribed_board_id,
            r.active_socket_session_id == active_socket_session_id,
            r.status == if subscribed_board_id is Some {
                ConnectionState::Loading
            } else {
                ConnectionState::Idle
            },
            ({
                let init = initial_selection(projects@, subscribed_board_id);
                &&& crate::tree::opt_key(r.selected) == init.0
                &&& r.expanded_projects@ == init.1
                &&& r.expanded_boards@ == init.2
            }),
            r.expanded_lists@.is_empty() && r.expanded_label_groups@.is_empty(),
            r.loading_boards@.is_empty() && r.loading_projects@.is_empty(),
            r.board_errors@ == Map::<Seq<char>, String>::empty(),
            r.explorer_view == ExplorerView::Hierarchy,
            r.filter_query@.len() == 0 && r.filter_editor is None,
            r.detail_scroll == 0,
            r.card_comments@ == Map::<Seq<char>, Vec<CommentSummary>>::empty(),
            r.loading_card_comments@.is_empty(),
            r.card_comment_errors@ == Map::<Seq<char>, String>::empty(),
            r.card_draft is None && r.title_editor is None && r.saving_card is None && r.notice is None,
            r.focus == PaneFocus::Explorer && !r.show_debug_log,
    {
        let mut r = ExplorerState {
            projects,
            subscribed_board_id: None,
            active_socket_session_id,
            status: ConnectionState::Idle,
            expanded_projects: IdSet::new(),
            expanded_boards: IdSet::new(),
            expanded_lists: IdSet::new(),
            expanded_label_groups: IdSet::new(),
            loading_boards: IdSet::new(),
            loading_projects: IdSet::new(),
            board_errors: IdMap::new(),
            selected: None,
            explorer_view: ExplorerView::Hierarchy,
            filter_query: String::new(),
            filter_editor: None,
            detail_scroll: 0,
            card_comments: IdMap::new(),
            loading_card_comments: IdSet::new(),
            card_comment_errors: IdMap::new(),
            card_draft: None,
            title_editor: None,
            saving_card: None,
            notice: None,
            focus: PaneFocus::Explorer,
            show_debug_log: false,
        };
        let located = match &subscribed_board_id {
            Some(t) => r.locate_board(BoardQuery::WithId, t.as_str()),
            None => None,
        };
        match located {
            Some((pi, bi)) => {
                proof {
                    crate::lookup::lemma_locate_board_range(r.projects@, BoardQuery::WithId, subscribed_board_id->0@);
                }
                let target = match &subscribed_board_id {
                    Some(t) => t.clone(),
                    None => String::new(),
                };
                r.expanded_projects.insert(r.projects[pi].id.as_str());
                r.expanded_boards.insert(target.as_str());
                assert(r.expanded_projects@ =~= set![r.projects@[pi as int].id@]);
                assert(r.expanded_boards@ =~= set![target@]);
                r.selected = Some(TreeKey::Board(target));
            },
            None => {
                if r.projects.len() > 0 {
                    r.selected = Some(TreeKey::Project(r.projects[0].id.clone()));
                }
            },
        }
        if subscribed_board_id.is_some() {
            r.status = ConnectionState::Loading;
        }
        r.subscribed_board_id = subscribed_board_id;
        r
    }

    /// Puts a card upsert on the followed board; drops the card's comments
    /// when its comment count changed.
    pub fn apply_card_upsert(&mut self, item: &EventItem)
        requires
            live_cards_fit(old(self)),
        ensures
            frame(
                old(self),
                final(self),
                Changes { projects: true, card_comments: true, card_comment_errors: true, ..no_changes() },
            ),
            upsert_effect(old(self), final(self), *item),
    {
        let card_id = match &item.id {
            Some(id) => id,
            None => {
                return;
            },
        };
        match self.followed_board_at() {
            Some((pi, bi)) => {
                proof {
                    crate::lookup::lemma_locate_board_range(
                        self.projects@,
                        BoardQuery::WithId,
                        self.subscribed_board_id->0@,
                    );
                }
                let ghost ps0 = views(self.projects@);
                let mut project = self.projects.remove(pi);
                assert(project@ == ps0[pi as int]);
                let mut board = project.boards.remove(bi);
                assert(board@ == ps0[pi as int].boards[bi as int]);
                let stale = board.apply_card_upsert(item);
                let ghost new_board = board@;
                let ghost boards0 = project.boards@;
                project.boards.insert(bi, board);
                assert(views(project.boards@) =~= ps0[pi as int].boards.update(bi as int, new_board)) by {
                    assert(project.boards@ == boards0.insert(bi as int, board));
                }
                let ghost projects0 = self.projects@;
                self.projects.insert(pi, project);
                assert(views(self.projects@) =~= with_board(ps0, pi as int, bi as int, new_board)) by {
                    assert(self.projects@ == projects0.insert(pi as int, project));
                }
                if stale {
                    self.card_comments.remove(card_id.as_str());
                    self.card_comment_errors.remove(card_id.as_str());
                }
            },
            None => {},
        }
    }

    /// Ends a card save.
    pub fn finish_save(&mut self, completion: SaveCompletion)
        requires
            live_cards_fit(old(self)),
        ensures
            save_result(old(self), final(self), completion),
    {
        self.saving_card = None;
        match completion {
            SaveCompletion::Succeeded { card_id, item } => {
                self.apply_card_upsert(&item);
                let drop_draft = match &self.card_draft {
                    Some(d) => str_eq(d.card_id.as_str(), card_id.as_str()),
                    None => false,
                };
                if drop_draft {
                    self.card_draft = None;
                }
                self.notice = Some("Saved card changes.".to_owned());
            },
            SaveCompletion::Failed { card_id, message } => {
                let mut notice = String::new();
                push_str(&mut notice, "Save failed for ");
                push_str(&mut notice, card_id.as_str());
                push_str(&mut notice, ": ");
                push_str(&mut notice, message.as_str());
                self.notice = Some(notice);
            },
        }
    }

    /// Makes `board_id` the live target: a new websocket session starts
    /// connecting, the board's error is cleared and it opens.
    pub fn switch_live_board(&mut self, board_id: &str)
        ensures
            live_switched(old(self), final(self), board_id@),
    {
        let board_name: String = match self.board_summary(board_id) {
            Some(b) => b.name.clone(),
            None => board_id.to_string(),
        };
        let project_id: Option<String> = match self.board_project_id(board_id) {
            Some(p) => Some(p.to_string()),
            None => None,
        };
        let was_idle = match self.status {
            ConnectionState::Idle => true,
            _ => false,
        };
        self.subscribed_board_id = Some(board_id.to_string());
        self.active_socket_session_id = self.active_socket_session_id.saturating_add(1);
        self.status = ConnectionState::Connecting;
        self.board_errors.remove(board_id);
        match &project_id {
            Some(p) => {
                self.expanded_projects.insert(p.as_str());
            },
            None => {},
        }
        self.expanded_boards.insert(board_id);
        let mut notice = String::new();
        push_str(&mut notice, if was_idle { "Promoting" } else { "Switching" });
        push_str(&mut notice, " live target to ");
        push_str(&mut notice, board_name.as_str());
        push_str(&mut notice, "…");
        self.notice = Some(notice);
    }

    /// Stops following the live target.
    pub fn clear_live_board(&mut self)
        ensures
            live_cleared(old(self), final(self)),
    {
        let board_name: String = match self.subscribed_board() {
            Some(b) => b.name.clone(),
            None => "current board".to_owned(),
        };
        self.subscribed_board_id = None;
        self.active_socket_session_id = self.active_socket_session_id.saturating_add(1);
        self.status = ConnectionState::Idle;
        let mut notice = String::new();
        push_str(&mut notice, "Stopped live sync for ");
        push_str(&mut notice, board_name.as_str());
        push_str(&mut notice, ".");
        self.notice = Some(notice);
    }
}

/// What stopping live sync does: no board is followed, a new socket session begins, and the stop is announced.
pub open spec fn live_cleared(a: &ExplorerState, b: &ExplorerState) -> bool {
    &&& (frame(a, b, Changes { live: true, notice: true, ..no_changes() }))
    &&& (b.subscribed_board_id is None)
    &&& (b.active_socket_session_id == if a.active_socket_session_id == u64::MAX {
        u64::MAX
    } else {
        (a.active_socket_session_id + 1) as u64
    })
    &&& (b.status == ConnectionState::Idle)
    &&& (opt_text(b.notice) == Some(
        "Stopped live sync for "@ + match followed_at(a) {
            Some((pi, bi)) => a.projects@[pi].boards@[bi].name@,
            None => "current board"@,
        } + "."@
    ))
}

/// What following a board live does: it becomes the live target in a new socket session, is shown expanded with its project, loses its load error, and the switch is announced.
pub open spec fn live_switched(a: &ExplorerState, b: &ExplorerState, board_id: Seq<char>) -> bool {
    &&& (frame(
        a,
        b,
        Changes { live: true, board_errors: true, expanded_projects: true, expanded_boards: true, notice: true, ..no_changes() }
    ))
    &&& (opt_text(b.subscribed_board_id) == Some(board_id))
    &&& (b.active_socket_session_id == if a.active_socket_session_id == u64::MAX {
        u64::MAX
    } else {
        (a.active_socket_session_id + 1) as u64
    })
    &&& (b.status == ConnectionState::Connecting)
    &&& (b.board_errors@ == a.board_errors@.remove(board_id))
    &&& (b.expanded_boards@ == a.expanded_boards@.insert(board_id))
    &&& (b.expanded_projects@ == match crate::lookup::project_of_board(a, board_id) {
        Some(pid) => a.expanded_projects@.insert(pid),
        None => a.expanded_projects@
    })
    &&& (opt_text(b.notice) == Some(
        (if a.status is Idle {
            "Promoting"@
        } else {
            "Switching"@
        }) + " live target to "@ + match crate::lookup::board_of(a, board_id) {
            Some(b) => b.name,
            None => board_id,
        } + "…"@
    ))
}

} // verus!
