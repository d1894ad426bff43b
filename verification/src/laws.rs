//! Properties that hold across the explorer's operations.

use vstd::prelude::*;

use crate::board::{
    board_without_card, card_label_delete, card_upsert, locate_card, count_open, list_index_in, recount_board, recount_list, sum_cards, sum_open,
    upserted_card, BoardView, CardView, EventItem, ListView,
};
use crate::error::PlankaError;
use crate::eventlog::{at_most, LOG_CAPACITY};
use crate::events::{event_result, ExplorerEvent};
use crate::keys::{command_result, has_dirty, key_command, Key, KeyCommand, KeyEffect, KeyPress};
use crate::socket::{packet_step, PacketStep};
use crate::explorer::CardSummary;
use crate::nav::{index_of_key, lemma_index_of_first_key, selection_kept};
use crate::order::{insert_sorted, sorted_stable};
use crate::state::{ExplorerState, PaneFocus};
use crate::tree::{
    board_loaded, board_row, board_rows, card_row, concat, group_rows, grouped_card_row, hierarchy_list_rows, label_list_rows, opt_key,
    project_row, project_rows, KeyView, RowView,
};
use crate::board::ProjectView;
use crate::groups::{label_groups, GroupCardView, LabelGroupView};
use crate::explorer::ExplorerView;
use crate::state::TreeView;
use crate::visible::{expansion_scan, expansion_visible, filtered_rows, included_upto, row_matches};

verus! {

/// A list whose counts agree with its cards: the count is the number of
/// cards, and open and closed cards add up to it.
pub open spec fn list_counts_agree(l: ListView) -> bool {
    &&& l.card_count == l.cards.len()
    &&& l.active_card_count == count_open(l.cards)
    &&& l.active_card_count + l.closed_card_count == l.card_count
}

/// A board whose counts agree with its lists.
pub open spec fn board_counts_agree(b: BoardView) -> bool {
    &&& forall|i: int| 0 <= i < b.lists.len() ==> #[trigger] list_counts_agree(b.lists[i])
    &&& b.total_cards == sum_cards(b.lists)
    &&& b.active_card_count == sum_open(b.lists)
    &&& b.active_card_count + b.closed_card_count == b.total_cards
}

proof fn lemma_count_open_le(cards: Seq<CardView>)
    ensures
        count_open(cards) <= cards.len(),
    decreases cards.len(),
{
    if cards.len() > 0 {
        lemma_count_open_le(cards.drop_last());
    }
}

proof fn lemma_insert_keeps_count_open(s: Seq<CardView>, x: CardView)
    ensures
        count_open(insert_sorted::<CardSummary>(s, x)) == count_open(s) + if x.is_closed { 0nat } else { 1nat },
        insert_sorted::<CardSummary>(s, x).len() == s.len() + 1,
    decreases s.len(),
{
    if s.len() > 0 && x.position < s.last().position {
        lemma_insert_keeps_count_open(s.drop_last(), x);
        assert(insert_sorted::<CardSummary>(s, x).drop_last() =~= insert_sorted::<CardSummary>(s.drop_last(), x));
    } else if s.len() > 0 {
        assert(s.push(x).drop_last() =~= s);
    } else {
        assert(seq![x].drop_last() =~= s);
    }
}

proof fn lemma_sort_keeps_count_open(s: Seq<CardView>)
    ensures
        count_open(sorted_stable::<CardSummary>(s)) == count_open(s),
        sorted_stable::<CardSummary>(s).len() == s.len(),
    decreases s.len(),
{
    if s.len() > 0 {
        lemma_sort_keeps_count_open(s.drop_last());
        lemma_insert_keeps_count_open(sorted_stable::<CardSummary>(s.drop_last()), s.last());
    }
}

proof fn lemma_sums_of_recounted(lists: Seq<ListView>)
    ensures
        sum_open(lists.map_values(|l: ListView| recount_list(l))) <= sum_cards(lists.map_values(|l: ListView| recount_list(l))),
    decreases lists.len(),
{
    if lists.len() > 0 {
        lemma_sums_of_recounted(lists.drop_last());
        assert(lists.map_values(|l: ListView| recount_list(l)).drop_last() =~= lists.drop_last().map_values(
            |l: ListView| recount_list(l),
        ));
        lemma_count_open_le(lists.last().cards);
        lemma_sort_keeps_count_open(lists.last().cards);
    }
}

/// After a recount, every count of the board agrees with its cards, as
/// long as the board's cards can be counted.
pub proof fn law_recount_consistent(b: BoardView)
    requires
        sum_cards(b.lists) <= usize::MAX,
    ensures
        board_counts_agree(recount_board(b)),
{
    let r = recount_board(b);
    let lists = b.lists.map_values(|l: ListView| recount_list(l));
    assert forall|i: int| 0 <= i < r.lists.len() implies #[trigger] list_counts_agree(r.lists[i]) by {
        let l = b.lists[i];
        lemma_sort_keeps_count_open(l.cards);
        lemma_count_open_le(l.cards);
        crate::board::lemma_sum_cards_bound_pub(b.lists, i);
        assert(r.lists[i] == recount_list(l));
    }
    crate::board::lemma_sum_cards_recounted_pub(b.lists);
    lemma_sums_of_recounted(b.lists);
}

proof fn lemma_insert_sorted_positions(s: Seq<CardView>, x: CardView)
    requires
        forall|i: int, j: int| 0 <= i < j < s.len() ==> s[i].position <= s[j].position,
    ensures
        ({
            let r = insert_sorted::<CardSummary>(s, x);
            &&& forall|i: int, j: int| 0 <= i < j < r.len() ==> r[i].position <= r[j].position
            &&& r.len() == s.len() + 1
            &&& forall|i: int| 0 <= i < r.len() ==> (r[i] == x || s.contains(r[i]))
        }),
    decreases s.len(),
{
    let r = insert_sorted::<CardSummary>(s, x);
    if s.len() == 0 {
        assert(r =~= seq![x]);
    } else if x.position < s.last().position {
        let d = s.drop_last();
        lemma_insert_sorted_positions(d, x);
        let r0 = insert_sorted::<CardSummary>(d, x);
        assert(r == r0.push(s.last()));
        assert forall|i: int| 0 <= i < r0.len() implies r0[i].position <= s.last().position by {
            if r0[i] != x {
                let k = choose|k: int| 0 <= k < d.len() && d[k] == r0[i];
                assert(d[k] == s[k]);
            }
        }
        assert forall|i: int| 0 <= i < r.len() implies (r[i] == x || s.contains(r[i])) by {
            if i < r0.len() && r0[i] != x {
                let k = choose|k: int| 0 <= k < d.len() && d[k] == r0[i];
                assert(s[k] == d[k]);
            }
            if i == r0.len() {
                assert(s[s.len() - 1] == s.last());
            }
        }
    } else {
        assert(r == s.push(x));
        assert forall|i: int| 0 <= i < r.len() implies (r[i] == x || s.contains(r[i])) by {
            if i < s.len() {
                assert(s[i] == r[i]);
            }
        }
    }
}

/// The explorer lists a list's cards in order of position: a stable sort
/// of cards by position leaves no card after one with a larger position.
pub proof fn law_cards_sorted_by_position(s: Seq<CardView>)
    ensures
        ({
            let r = sorted_stable::<CardSummary>(s);
            forall|i: int, j: int| 0 <= i < j < r.len() ==> r[i].position <= r[j].position
        }),
    decreases s.len(),
{
    if s.len() > 0 {
        law_cards_sorted_by_position(s.drop_last());
        lemma_insert_sorted_positions(sorted_stable::<CardSummary>(s.drop_last()), s.last());
    }
}

proof fn lemma_scan_parents(rows: Seq<RowView>)
    ensures
        ({
            let r = expansion_scan(rows);
            &&& forall|k: crate::tree::KeyView| #[trigger] r.1.contains(k) ==> exists|i: int|
                0 <= i < r.0.len() && r.0[i].key == k && r.0[i].expanded
            &&& forall|i: int| 0 <= i < r.0.len() && (#[trigger] r.0[i]).parent is Some ==> exists|j: int|
                0 <= j < i && r.0[j].key == r.0[i].parent->0 && r.0[j].expanded
        }),
    decreases rows.len(),
{
    if rows.len() > 0 {
        lemma_scan_parents(rows.drop_last());
        let prev = expansion_scan(rows.drop_last());
        let r = expansion_scan(rows);
        let row = rows.last();
        if row.parent is None || prev.1.contains(row.parent->0) {
            assert(r.0 == prev.0.push(row));
            assert forall|k: crate::tree::KeyView| #[trigger] r.1.contains(k) implies exists|i: int|
                0 <= i < r.0.len() && r.0[i].key == k && r.0[i].expanded by {
                if prev.1.contains(k) {
                    let i = choose|i: int| 0 <= i < prev.0.len() && prev.0[i].key == k && prev.0[i].expanded;
                    assert(r.0[i] == prev.0[i]);
                } else {
                    assert(r.0[prev.0.len() as int] == row);
                }
            }
            assert forall|i: int| 0 <= i < r.0.len() && (#[trigger] r.0[i]).parent is Some implies exists|j: int|
                0 <= j < i && r.0[j].key == r.0[i].parent->0 && r.0[j].expanded by {
                if i < prev.0.len() {
                    assert(r.0[i] == prev.0[i]);
                    let j = choose|j: int| 0 <= j < i && prev.0[j].key == prev.0[i].parent->0 && prev.0[j].expanded;
                    assert(r.0[j] == prev.0[j]);
                } else {
                    assert(r.0[i] == row);
                    let j = choose|j: int|
                        0 <= j < prev.0.len() && prev.0[j].key == row.parent->0 && prev.0[j].expanded;
                    assert(r.0[j] == prev.0[j]);
                }
            }
        }
    }
}

/// Without a filter, a shown row's parent is shown above it, expanded.
pub proof fn law_shown_rows_have_open_parents(rows: Seq<RowView>)
    ensures
        ({
            let v = expansion_visible(rows);
            forall|i: int| 0 <= i < v.len() && (#[trigger] v[i]).parent is Some ==> exists|j: int|
                0 <= j < i && v[j].key == v[i].parent->0 && v[j].expanded
        }),
{
    lemma_scan_parents(rows);
}

proof fn lemma_included_has_matches(rows: Seq<RowView>, query: Seq<char>, n: int, i: int)
    requires
        0 <= i < n <= rows.len(),
        row_matches(query, rows[i]),
    ensures
        included_upto(rows, query, n).contains(rows[i].key),
    decreases n,
{
    if i < n - 1 {
        lemma_included_has_matches(rows, query, n - 1, i);
    }
}

/// With a filter, every row whose label matches is shown.
pub proof fn law_filter_shows_every_match(rows: Seq<RowView>, query: Seq<char>, i: int)
    requires
        0 <= i < rows.len(),
        row_matches(query, rows[i]),
    ensures
        exists|j: int| 0 <= j < filtered_rows(rows, query).len() && (#[trigger] filtered_rows(rows, query)[j]).key
            == rows[i].key,
{
    let inc = included_upto(rows, query, rows.len() as int);
    let frc = crate::visible::forced_upto(rows, query, rows.len() as int);
    lemma_included_has_matches(rows, query, rows.len() as int, i);
    let f = rows.filter(|r: RowView| inc.contains(r.key));
    assert(f.contains(rows[i])) by {
        rows.lemma_filter_contains(|r: RowView| inc.contains(r.key), i);
    }
    let k = choose|k: int| 0 <= k < f.len() && f[k] == rows[i];
    let out = f.map_values(|r: RowView| RowView { expanded: frc.contains(r.key), ..r });
    assert(out[k].key == rows[i].key);
    assert(out == filtered_rows(rows, query));
}

/// After the selection is kept on a shown row, the selected row is shown
/// whenever any row is, and nothing is selected otherwise.
pub proof fn law_selection_on_shown_row(sel: Option<crate::explorer::TreeKey>, scroll: usize, rows: Seq<RowView>, b: &ExplorerState)
    requires
        selection_kept(sel, scroll, rows, b),
    ensures
        rows.len() == 0 <==> b.selected is None,
        rows.len() > 0 ==> index_of_key(rows, b.selected->0@) >= 0,
{
    if rows.len() > 0 {
        lemma_index_of_first_key(rows);
    }
}

/// Results of a websocket session other than the active one change
/// nothing, and neither does a connection or snapshot report for a board
/// that is not the live target.
pub proof fn law_stale_session_ignored(a: &ExplorerState, s: &ExplorerState, e: ExplorerEvent)
    requires
        event_result(a, s, e),
        match e {
            ExplorerEvent::SocketConnecting { session_id, board_id } => session_id != a.active_socket_session_id
                || a.subscribed_board_id.deep_view() != Some(board_id@),
            ExplorerEvent::SocketLive { session_id, board } => session_id != a.active_socket_session_id
                || a.subscribed_board_id.deep_view() != Some(board.id@),
            ExplorerEvent::SocketError { session_id, .. } => session_id != a.active_socket_session_id,
            ExplorerEvent::LiveEvent { session_id, .. } => session_id != a.active_socket_session_id,
            _ => false,
        },
    ensures
        *s == *a,
{
}


/// Ctrl-c quits from every state and leaves the explorer as it was.
pub proof fn law_ctrl_c_always_quits(st: &ExplorerState)
    ensures
        key_command(st, KeyPress { key: Key::Char('c'), ctrl: true }) == KeyCommand::Quit,
        forall|b: ExplorerState, r: KeyEffect| #[trigger]
            command_result(st, &b, KeyCommand::Quit, r) ==> b == *st && r is Quit,
{
}

/// While a save is under way, every key but Ctrl-c only says that the
/// save is in progress.
pub proof fn law_save_pauses_keys(st: &ExplorerState, k: KeyPress)
    requires
        st.saving_card is Some,
        !(k.key == Key::Char('c') && k.ctrl),
    ensures
        key_command(st, k) == KeyCommand::SaveBusy,
{
}

/// With unsaved card changes (and no editor open), q and Esc do not quit
/// and the explorer's selection does not move: each only warns.
pub proof fn law_dirty_draft_is_not_dropped(st: &ExplorerState, k: KeyPress)
    requires
        has_dirty(st),
        st.saving_card is None,
        st.title_editor is None,
        st.filter_editor is None,
        !(k.key == Key::Char('c') && k.ctrl),
    ensures
        key_command(st, k) != KeyCommand::Quit,
        st.focus == PaneFocus::Explorer ==> !(key_command(st, k) is Move || key_command(st, k) is Collapse
            || key_command(st, k) is Expand || key_command(st, k) is ToggleView || key_command(st, k) is Refresh),
{
}

/// A board subscription is sent once per socket session: after a
/// namespace connect sent it, a later connect does not send it again.
pub proof fn law_subscription_sent_once(
    first: Seq<char>,
    second: Seq<char>,
    token: Seq<char>,
    board_id: Seq<char>,
    sent: bool,
    r1: PacketStep,
    r2: PacketStep,
)
    requires
        packet_step(first, sent, token, board_id, r1),
        packet_step(second, sent || (first.len() > 0 && first[0] == '0'), token, board_id, r2),
        r1 matches PacketStep::Connected { subscribe, .. } && subscribe is Some,
    ensures
        !(r2 matches PacketStep::Connected { subscribe, .. } && subscribe is Some),
{
}

/// The event log keeps the newest event first and never more than its
/// capacity.
pub proof fn law_event_log_newest_first(before: Seq<(Seq<char>, Seq<char>)>, entry: (Seq<char>, Seq<char>))
    requires
        before.len() <= LOG_CAPACITY,
    ensures
        at_most(seq![entry] + before, LOG_CAPACITY as nat)[0] == entry,
        at_most(seq![entry] + before, LOG_CAPACITY as nat).len() <= LOG_CAPACITY,
{
}

/// Scrolling the details down never goes past the last line of the pane,
/// and scrolling up never moves down.
pub proof fn law_scroll_stays_within_pane(scroll: usize, delta: i32, line_count: usize)
    ensures
        delta >= 0 ==> crate::actions::scrolled(scroll, delta, line_count) <= if line_count == 0 {
            0
        } else {
            line_count - 1
        },
        delta < 0 ==> crate::actions::scrolled(scroll, delta, line_count) <= scroll,
{
}

proof fn lemma_insert_sorted_keeps(s: Seq<CardView>, x: CardView)
    ensures
        insert_sorted::<CardSummary>(s, x).contains(x),
        forall|k: int| 0 <= k < s.len() ==> insert_sorted::<CardSummary>(s, x).contains(#[trigger] s[k]),
    decreases s.len(),
{
    let r = insert_sorted::<CardSummary>(s, x);
    if s.len() == 0 {
        assert(r[0] == x);
    } else if x.position < s.last().position {
        let d = s.drop_last();
        lemma_insert_sorted_keeps(d, x);
        let r0 = insert_sorted::<CardSummary>(d, x);
        assert(r == r0.push(s.last()));
        let i0 = choose|i: int| 0 <= i < r0.len() && r0[i] == x;
        assert(r[i0] == x);
        assert forall|k: int| 0 <= k < s.len() implies r.contains(#[trigger] s[k]) by {
            if k < d.len() {
                assert(d[k] == s[k]);
                let i = choose|i: int| 0 <= i < r0.len() && r0[i] == d[k];
                assert(r[i] == s[k]);
            } else {
                assert(r[r0.len() as int] == s[k]);
            }
        }
    } else {
        assert(r == s.push(x));
        assert(r[s.len() as int] == x);
        assert forall|k: int| 0 <= k < s.len() implies r.contains(#[trigger] s[k]) by {
            assert(r[k] == s[k]);
        }
    }
}

proof fn lemma_sorted_stable_keeps(s: Seq<CardView>)
    ensures
        forall|k: int| 0 <= k < s.len() ==> sorted_stable::<CardSummary>(s).contains(#[trigger] s[k]),
    decreases s.len(),
{
    if s.len() > 0 {
        let d = s.drop_last();
        lemma_sorted_stable_keeps(d);
        let sd = sorted_stable::<CardSummary>(d);
        lemma_insert_sorted_keeps(sd, s.last());
        let r = sorted_stable::<CardSummary>(s);
        assert(r == insert_sorted::<CardSummary>(sd, s.last()));
        assert forall|k: int| 0 <= k < s.len() implies r.contains(#[trigger] s[k]) by {
            if k < d.len() {
                assert(d[k] == s[k]);
                let i = choose|i: int| 0 <= i < sd.len() && sd[i] == d[k];
                assert(sd.contains(sd[i]));
                assert(forall|j: int| 0 <= j < sd.len() ==> r.contains(#[trigger] sd[j]));
            } else {
                assert(s[k] == s.last());
            }
        }
    }
}

proof fn lemma_list_index_same_ids(a: Seq<ListView>, b: Seq<ListView>, id: Seq<char>)
    requires
        a.len() == b.len(),
        forall|i: int| 0 <= i < a.len() ==> (#[trigger] a[i]).id == b[i].id,
    ensures
        list_index_in(a, id) == list_index_in(b, id),
    decreases a.len(),
{
    if a.len() > 0 {
        lemma_list_index_same_ids(a.drop_last(), b.drop_last(), id);
        assert(a.last() == a[a.len() - 1]);
        assert(b.last() == b[b.len() - 1]);
    }
}

/// A card create or update that names one of the board's lists puts the
/// card, as the event gives it (over the card it replaces, if any), on that
/// list.
pub proof fn law_upserted_card_is_shown(b: BoardView, ev: EventItem)
    requires
        ev.id is Some,
        ev.list_id is Some,
        list_index_in(b.lists, ev.list_id->0@) >= 0,
    ensures
        ({
            let id = ev.id->0@;
            let lid = ev.list_id->0@;
            let after = card_upsert(b, ev).0;
            let t = list_index_in(after.lists, lid);
            &&& t == list_index_in(b.lists, lid)
            &&& after.lists[t].cards.contains(upserted_card(id, ev, board_without_card(b, id).1, b.members))
        }),
{
    let id = ev.id->0@;
    let lid = ev.list_id->0@;
    let removed = board_without_card(b, id);
    let b1 = removed.0;
    crate::board::lemma_locate_card_range_pub(b.lists, id);
    assert(b1.lists.len() == b.lists.len());
    assert(forall|i: int| 0 <= i < b.lists.len() ==> (#[trigger] b.lists[i]).id == b1.lists[i].id);
    lemma_list_index_same_ids(b.lists, b1.lists, lid);
    let t = list_index_in(b1.lists, lid);
    crate::board::lemma_list_index_in_range(b1.lists, lid);
    let card = upserted_card(id, ev, removed.1, b1.members);
    let l = b1.lists[t];
    let pushed = l.cards.push(card);
    let lists2 = b1.lists.update(t, ListView { cards: sorted_stable::<CardSummary>(pushed), ..l });
    let after = card_upsert(b, ev).0;
    assert(after.lists == lists2.map_values(|x: ListView| recount_list(x)));
    assert(forall|i: int| 0 <= i < b.lists.len() ==> (#[trigger] b.lists[i]).id == after.lists[i].id);
    lemma_list_index_same_ids(b.lists, after.lists, lid);
    lemma_sorted_stable_keeps(pushed);
    assert(pushed[pushed.len() - 1] == card);
    let once = sorted_stable::<CardSummary>(pushed);
    assert(once.contains(card));
    lemma_sorted_stable_keeps(once);
    let k = choose|k: int| 0 <= k < once.len() && once[k] == card;
    assert(after.lists[t].cards == sorted_stable::<CardSummary>(once));
    assert(after.lists[t].cards.contains(once[k]));
}

/// An error's exit code follows its reported type: 2 for the validation
/// types, 3 for an authentication failure, 4 for a missing resource, 5 for
/// a server or transport failure, and never 0.
pub proof fn law_exit_code_follows_error_type(e: PlankaError)
    ensures
        ({
            let t = e.spec_error_type()@;
            &&& e.spec_exit_code() != 0
            &&& e.spec_exit_code() == 2 <==> (t == "MissingRequiredOption"@ || t == "InvalidOptionValue"@ || t
                == "MutuallyExclusiveOptions"@)
            &&& e.spec_exit_code() == 3 <==> t == "AuthenticationFailed"@
            &&& e.spec_exit_code() == 4 <==> t == "ResourceNotFound"@
            &&& e.spec_exit_code() == 5 <==> t == "ApiError"@
        }),
{
    reveal_strlit("MissingRequiredOption");
    reveal_strlit("InvalidOptionValue");
    reveal_strlit("MutuallyExclusiveOptions");
    reveal_strlit("ResourceNotFound");
    reveal_strlit("AuthenticationFailed");
    reveal_strlit("ApiError");
    reveal_strlit("FileReadError");
    reveal_strlit("SerializationError");
    // Tell the reported type names apart by their first characters.
    assert("MissingRequiredOption"@[0] == 'M' && "InvalidOptionValue"@[0] == 'I' && "MutuallyExclusiveOptions"@[0] == 'M');
    assert("AuthenticationFailed"@[0] == 'A' && "ApiError"@[0] == 'A' && "ResourceNotFound"@[0] == 'R');
    assert("FileReadError"@[0] == 'F' && "SerializationError"@[0] == 'S');
    assert("AuthenticationFailed"@[1] == 'u' && "ApiError"@[1] == 'p');
    assert("MissingRequiredOption"@[1] == 'i' && "MutuallyExclusiveOptions"@[1] == 'u');
}

/// Row `i` of `s` hangs from an earlier row of `s`, or, when `root` is
/// given, from the row `root` names; a row without a parent has depth 0 and
/// no root.
pub open spec fn row_hangs(s: Seq<RowView>, i: int, root: Option<(KeyView, usize)>) -> bool {
    match s[i].parent {
        None => s[i].depth == 0 && root is None,
        Some(k) => s[i].depth > 0 && ((exists|j: int|
            0 <= j < i && (#[trigger] s[j]).key == k && s[j].depth + 1 == s[i].depth) || (root matches Some(
            (rk, rd),
        ) && k == rk && s[i].depth == rd + 1)),
    }
}

/// Every row of `s` hangs as `row_hangs` says.
pub open spec fn rows_hang(s: Seq<RowView>, root: Option<(KeyView, usize)>) -> bool {
    forall|i: int| 0 <= i < s.len() ==> #[trigger] row_hangs(s, i, root)
}

proof fn lemma_hang_append(a: Seq<RowView>, b: Seq<RowView>, root: Option<(KeyView, usize)>)
    requires
        rows_hang(a, root),
        rows_hang(b, root),
    ensures
        rows_hang(a + b, root),
{
    let s = a + b;
    assert forall|i: int| 0 <= i < s.len() implies #[trigger] row_hangs(s, i, root) by {
        if i < a.len() {
            assert(row_hangs(a, i, root));
            assert(s[i] == a[i]);
            if a[i].parent is Some && exists|j: int|
                0 <= j < i && (#[trigger] a[j]).key == a[i].parent->0 && a[j].depth + 1 == a[i].depth {
                let j = choose|j: int|
                    0 <= j < i && (#[trigger] a[j]).key == a[i].parent->0 && a[j].depth + 1 == a[i].depth;
                assert(s[j] == a[j]);
            }
        } else {
            let m = i - a.len();
            assert(row_hangs(b, m, root));
            assert(s[i] == b[m]);
            if b[m].parent is Some && exists|j: int|
                0 <= j < m && (#[trigger] b[j]).key == b[m].parent->0 && b[j].depth + 1 == b[m].depth {
                let j = choose|j: int|
                    0 <= j < m && (#[trigger] b[j]).key == b[m].parent->0 && b[j].depth + 1 == b[m].depth;
                assert(s[j + a.len()] == b[j]);
            }
        }
    }
}

proof fn lemma_hang_concat(blocks: Seq<Seq<RowView>>, root: Option<(KeyView, usize)>)
    requires
        forall|k: int| 0 <= k < blocks.len() ==> rows_hang(#[trigger] blocks[k], root),
    ensures
        rows_hang(concat(blocks), root),
    decreases blocks.len(),
{
    if blocks.len() > 0 {
        let d = blocks.drop_last();
        assert forall|k: int| 0 <= k < d.len() implies rows_hang(#[trigger] d[k], root) by {
            assert(d[k] == blocks[k]);
        }
        lemma_hang_concat(d, root);
        assert(rows_hang(blocks[blocks.len() - 1], root));
        lemma_hang_append(concat(d), blocks.last(), root);
    }
}

proof fn lemma_hang_head(h: RowView, rest: Seq<RowView>, root: Option<(KeyView, usize)>)
    requires
        row_hangs(seq![h], 0, root),
        rows_hang(rest, Some((h.key, h.depth))),
    ensures
        rows_hang(seq![h] + rest, root),
{
    let s = seq![h] + rest;
    assert forall|i: int| 0 <= i < s.len() implies #[trigger] row_hangs(s, i, root) by {
        if i == 0 {
            assert(s[0] == h);
            assert(seq![h][0] == h);
        } else {
            let m = i - 1;
            assert(row_hangs(rest, m, Some((h.key, h.depth))));
            assert(s[i] == rest[m]);
            assert(s[0] == h);
            if exists|j: int|
                0 <= j < m && (#[trigger] rest[j]).key == rest[m].parent->0 && rest[j].depth + 1 == rest[m].depth {
                let j = choose|j: int|
                    0 <= j < m && (#[trigger] rest[j]).key == rest[m].parent->0 && rest[j].depth + 1 == rest[m].depth;
                assert(s[j + 1] == rest[j]);
            }
        }
    }
}

proof fn lemma_hang_hierarchy_list(st: TreeView, b: BoardView, l: ListView)
    ensures
        rows_hang(hierarchy_list_rows(st, b, l), Some((KeyView::Board(b.id), 1usize))),
{
    let cards = l.cards.map_values(|c: CardView| card_row(c, l.id));
    let rows = hierarchy_list_rows(st, b, l);
    let h = rows[0];
    assert(rows == seq![h] + cards);
    assert(rows_hang(cards, Some((h.key, h.depth)))) by {
        assert forall|i: int| 0 <= i < cards.len() implies #[trigger] row_hangs(cards, i, Some((h.key, h.depth))) by {
            assert(cards[i] == card_row(l.cards[i], l.id));
        }
    }
    assert(row_hangs(seq![h], 0, Some((KeyView::Board(b.id), 1usize))));
    lemma_hang_head(h, cards, Some((KeyView::Board(b.id), 1usize)));
}

proof fn lemma_hang_group(st: TreeView, list_id: Seq<char>, g: LabelGroupView)
    ensures
        rows_hang(group_rows(st, list_id, g), Some((KeyView::List(list_id), 2usize))),
{
    let cards = g.cards.map_values(|gc: GroupCardView| grouped_card_row(g, gc));
    let rows = group_rows(st, list_id, g);
    let h = rows[0];
    assert(rows == seq![h] + cards);
    assert(rows_hang(cards, Some((h.key, h.depth)))) by {
        assert forall|i: int| 0 <= i < cards.len() implies #[trigger] row_hangs(cards, i, Some((h.key, h.depth))) by {
            assert(cards[i] == grouped_card_row(g, g.cards[i]));
        }
    }
    assert(row_hangs(seq![h], 0, Some((KeyView::List(list_id), 2usize))));
    lemma_hang_head(h, cards, Some((KeyView::List(list_id), 2usize)));
}

proof fn lemma_hang_label_list(st: TreeView, b: BoardView, l: ListView)
    ensures
        rows_hang(label_list_rows(st, b, l), Some((KeyView::Board(b.id), 1usize))),
{
    let groups = label_groups(b, l);
    let blocks = groups.map_values(|g: LabelGroupView| group_rows(st, l.id, g));
    let rows = label_list_rows(st, b, l);
    let h = rows[0];
    assert(rows == seq![h] + concat(blocks));
    assert forall|k: int| 0 <= k < blocks.len() implies rows_hang(#[trigger] blocks[k], Some((h.key, h.depth))) by {
        lemma_hang_group(st, l.id, groups[k]);
    }
    lemma_hang_concat(blocks, Some((h.key, h.depth)));
    assert(row_hangs(seq![h], 0, Some((KeyView::Board(b.id), 1usize))));
    lemma_hang_head(h, concat(blocks), Some((KeyView::Board(b.id), 1usize)));
}

proof fn lemma_hang_board(st: TreeView, project_id: Seq<char>, b: BoardView)
    ensures
        rows_hang(board_rows(st, project_id, b), Some((KeyView::Project(project_id), 0usize))),
{
    let h = board_row(st, project_id, b);
    let root = Some((KeyView::Project(project_id), 0usize));
    let inner = Some((h.key, h.depth));
    let rest: Seq<RowView> = if !board_loaded(b) {
        seq![]
    } else {
        match st.view {
            ExplorerView::Hierarchy => concat(b.lists.map_values(|l: ListView| hierarchy_list_rows(st, b, l))),
            ExplorerView::Labels => concat(b.lists.map_values(|l: ListView| label_list_rows(st, b, l))),
        }
    };
    assert(board_rows(st, project_id, b) == seq![h] + rest);
    if board_loaded(b) {
        match st.view {
            ExplorerView::Hierarchy => {
                let blocks = b.lists.map_values(|l: ListView| hierarchy_list_rows(st, b, l));
                assert forall|k: int| 0 <= k < blocks.len() implies rows_hang(#[trigger] blocks[k], inner) by {
                    lemma_hang_hierarchy_list(st, b, b.lists[k]);
                }
                lemma_hang_concat(blocks, inner);
            },
            ExplorerView::Labels => {
                let blocks = b.lists.map_values(|l: ListView| label_list_rows(st, b, l));
                assert forall|k: int| 0 <= k < blocks.len() implies rows_hang(#[trigger] blocks[k], inner) by {
                    lemma_hang_label_list(st, b, b.lists[k]);
                }
                lemma_hang_concat(blocks, inner);
            },
        }
    }
    assert(row_hangs(seq![h], 0, root));
    lemma_hang_head(h, rest, root);
}

proof fn lemma_hang_project(st: TreeView, p: ProjectView)
    ensures
        rows_hang(project_rows(st, p), None),
{
    let h = project_row(st, p);
    let blocks = p.boards.map_values(|b: BoardView| board_rows(st, p.id, b));
    assert(project_rows(st, p) == seq![h] + concat(blocks));
    assert forall|k: int| 0 <= k < blocks.len() implies rows_hang(#[trigger] blocks[k], Some((h.key, h.depth))) by {
        lemma_hang_board(st, p.id, p.boards[k]);
    }
    lemma_hang_concat(blocks, Some((h.key, h.depth)));
    assert(row_hangs(seq![h], 0, None));
    lemma_hang_head(h, concat(blocks), None);
}

/// In the explorer's rows, a row has no parent exactly when its depth is 0,
/// and a row with a parent comes after its parent's row, one level deeper.
pub proof fn law_rows_follow_their_parents(st: TreeView)
    ensures
        ({
            let rows = crate::tree::all_rows(st);
            &&& forall|i: int| 0 <= i < rows.len() ==> ((#[trigger] rows[i]).parent is None <==> rows[i].depth == 0)
            &&& forall|i: int|
                0 <= i < rows.len() && (#[trigger] rows[i]).parent is Some ==> exists|j: int|
                    0 <= j < i && rows[j].key == rows[i].parent->0 && rows[j].depth + 1 == rows[i].depth
        }),
{
    let blocks = st.projects.map_values(|p: ProjectView| project_rows(st, p));
    assert forall|k: int| 0 <= k < blocks.len() implies rows_hang(#[trigger] blocks[k], None) by {
        lemma_hang_project(st, st.projects[k]);
    }
    lemma_hang_concat(blocks, None);
    let rows = crate::tree::all_rows(st);
    assert forall|i: int| 0 <= i < rows.len() implies ((#[trigger] rows[i]).parent is None <==> rows[i].depth == 0) by {
        assert(row_hangs(rows, i, None));
    }
    assert forall|i: int| 0 <= i < rows.len() && (#[trigger] rows[i]).parent is Some implies exists|j: int|
        0 <= j < i && rows[j].key == rows[i].parent->0 && rows[j].depth + 1 == rows[i].depth by {
        assert(row_hangs(rows, i, None));
    }
}

/// The rows of depth 0.
pub open spec fn top_rows(s: Seq<RowView>) -> Seq<RowView> {
    s.filter(|r: RowView| r.depth == 0)
}

proof fn lemma_top_rows_add(a: Seq<RowView>, b: Seq<RowView>)
    ensures
        top_rows(a + b) == top_rows(a) + top_rows(b),
{
    Seq::filter_distributes_over_add(a, b, |r: RowView| r.depth == 0);
}

proof fn lemma_top_rows_none(s: Seq<RowView>)
    requires
        forall|i: int| 0 <= i < s.len() ==> (#[trigger] s[i]).depth > 0,
    ensures
        top_rows(s) == Seq::<RowView>::empty(),
    decreases s.len(),
{
    reveal(Seq::filter);
    if s.len() > 0 {
        let d = s.drop_last();
        assert forall|i: int| 0 <= i < d.len() implies (#[trigger] d[i]).depth > 0 by {
            assert(d[i] == s[i]);
        }
        lemma_top_rows_none(d);
        assert(s[s.len() - 1] == s.last());
    }
}

proof fn lemma_top_rows_one(h: RowView)
    requires
        h.depth == 0,
    ensures
        top_rows(seq![h]) == seq![h],
{
    reveal(Seq::filter);
    assert(seq![h].drop_last() =~= Seq::<RowView>::empty());
    assert(top_rows(seq![h].drop_last()) == Seq::<RowView>::empty());
    assert(seq![h].last() == h);
    assert(Seq::<RowView>::empty().push(h) =~= seq![h]);
}

proof fn lemma_top_rows_project(st: TreeView, p: ProjectView)
    ensures
        top_rows(project_rows(st, p)) == seq![project_row(st, p)],
{
    let h = project_row(st, p);
    let blocks = p.boards.map_values(|b: BoardView| board_rows(st, p.id, b));
    let rest = concat(blocks);
    assert(project_rows(st, p) == seq![h] + rest);
    assert forall|k: int| 0 <= k < blocks.len() implies rows_hang(#[trigger] blocks[k], Some((h.key, h.depth))) by {
        lemma_hang_board(st, p.id, p.boards[k]);
    }
    lemma_hang_concat(blocks, Some((h.key, h.depth)));
    assert forall|i: int| 0 <= i < rest.len() implies (#[trigger] rest[i]).depth > 0 by {
        assert(row_hangs(rest, i, Some((h.key, h.depth))));
    }
    lemma_top_rows_none(rest);
    lemma_top_rows_one(h);
    lemma_top_rows_add(seq![h], rest);
    assert(seq![h] + Seq::<RowView>::empty() =~= seq![h]);
}

proof fn lemma_top_rows_projects(st: TreeView, ps: Seq<ProjectView>)
    ensures
        top_rows(concat(ps.map_values(|p: ProjectView| project_rows(st, p)))) == ps.map_values(
            |p: ProjectView| project_row(st, p),
        ),
    decreases ps.len(),
{
    let blocks = ps.map_values(|p: ProjectView| project_rows(st, p));
    if ps.len() == 0 {
        reveal(Seq::filter);
        assert(concat(blocks) =~= Seq::<RowView>::empty());
        assert(ps.map_values(|p: ProjectView| project_row(st, p)) =~= Seq::<RowView>::empty());
    } else {
        let d = ps.drop_last();
        lemma_top_rows_projects(st, d);
        assert(blocks.drop_last() =~= d.map_values(|p: ProjectView| project_rows(st, p)));
        assert(blocks.last() == project_rows(st, ps.last()));
        lemma_top_rows_add(concat(blocks.drop_last()), blocks.last());
        lemma_top_rows_project(st, ps.last());
        assert(ps.map_values(|p: ProjectView| project_row(st, p)) =~= d.map_values(
            |p: ProjectView| project_row(st, p),
        ).push(project_row(st, ps.last())));
    }
}

/// The explorer's rows of depth 0 are the projects' rows, one per project,
/// in the order of the projects; a board that is not loaded has no rows
/// below its own.
pub proof fn law_projects_in_order(st: TreeView)
    ensures
        top_rows(crate::tree::all_rows(st)) == st.projects.map_values(|p: ProjectView| project_row(st, p)),
        forall|pi: int, bi: int|
            0 <= pi < st.projects.len() && 0 <= bi < st.projects[pi].boards.len() && !board_loaded(
                #[trigger] st.projects[pi].boards[bi],
            ) ==> board_rows(st, st.projects[pi].id, st.projects[pi].boards[bi]) == seq![
                board_row(st, st.projects[pi].id, st.projects[pi].boards[bi]),
            ],
{
    lemma_top_rows_projects(st, st.projects);
    assert forall|pi: int, bi: int|
        0 <= pi < st.projects.len() && 0 <= bi < st.projects[pi].boards.len() && !board_loaded(
            #[trigger] st.projects[pi].boards[bi],
        ) implies board_rows(st, st.projects[pi].id, st.projects[pi].boards[bi]) == seq![
        board_row(st, st.projects[pi].id, st.projects[pi].boards[bi]),
    ] by {
        let b = st.projects[pi].boards[bi];
        assert(seq![board_row(st, st.projects[pi].id, b)] + Seq::<RowView>::empty() =~= seq![
            board_row(st, st.projects[pi].id, b),
        ]);
    }
}

/// A card label delete event takes the label off the card it names (the
/// first card on the board with that id): afterwards that card has no
/// label with the event's label id, keeps every other label it had and
/// gains none, and is otherwise unchanged; every other card, the lists and
/// the board's own labels and members stay as they were. An event naming
/// no card of the board changes nothing.
pub proof fn law_card_label_delete_removes_label(b: BoardView, ev: EventItem)
    requires
        ev.card_id is Some,
        ev.label_id is Some,
    ensures
        ({
            let cid = ev.card_id->0@;
            let lid = ev.label_id->0@;
            let after = card_label_delete(b, ev);
            &&& after.labels == b.labels && after.members == b.members
            &&& after.lists.len() == b.lists.len()
            &&& forall|i: int| 0 <= i < b.lists.len() ==> (#[trigger] after.lists[i]).id == b.lists[i].id
                && after.lists[i].cards.len() == b.lists[i].cards.len()
            &&& locate_card(b.lists, cid) is None ==> after == b
            &&& locate_card(b.lists, cid) matches Some((li, ci)) ==> {
                let was = b.lists[li].cards[ci];
                let now = after.lists[li].cards[ci];
                &&& now.id == cid
                &&& forall|k: int| 0 <= k < now.labels.len() ==> (#[trigger] now.labels[k]).id != lid
                &&& forall|k: int|
                    0 <= k < was.labels.len() && (#[trigger] was.labels[k]).id != lid ==> now.labels.contains(
                        was.labels[k],
                    )
                &&& forall|k: int| 0 <= k < now.labels.len() ==> was.labels.contains(#[trigger] now.labels[k])
                &&& now == CardView { labels: now.labels, ..was }
                &&& forall|i: int, j: int|
                    0 <= i < b.lists.len() && 0 <= j < b.lists[i].cards.len() && !(i == li && j == ci) ==> (
                    #[trigger] after.lists[i].cards[j]) == b.lists[i].cards[j]
            }
        }),
{
    let cid = ev.card_id->0@;
    let lid = ev.label_id->0@;
    crate::board::lemma_locate_card_range_pub(b.lists, cid);
    let after = card_label_delete(b, ev);
    match locate_card(b.lists, cid) {
        Some((li, ci)) => {
            let was = b.lists[li].cards[ci];
            let pred = |l: crate::board::LabelView| l.id != lid;
            let now = after.lists[li].cards[ci];
            assert(now.labels == was.labels.filter(pred));
            assert forall|k: int| 0 <= k < now.labels.len() implies (#[trigger] now.labels[k]).id != lid by {
                was.labels.lemma_filter_pred(pred, k);
            }
            assert forall|k: int|
                0 <= k < was.labels.len() && (#[trigger] was.labels[k]).id != lid implies now.labels.contains(
                was.labels[k],
            ) by {
                was.labels.lemma_filter_contains(pred, k);
            }
            assert forall|k: int| 0 <= k < now.labels.len() implies was.labels.contains(#[trigger] now.labels[k]) by {
                assert(now.labels.contains(now.labels[k]));
                was.labels.lemma_filter_contains_rev(pred, now.labels[k]);
            }
        },
        None => {},
    }
}

/// Outside the editors and while no save is under way, `j` does what Down
/// does and `k` what Up does, with or without Ctrl, in every state (so
/// they change the explorer in the same way): with the explorer focused
/// and no unsaved card changes, Down/`j` move the selection one row
/// forward and Up/`k` one row back; with the details focused they scroll
/// the details one line down and up.
pub proof fn law_vim_keys_follow_arrows(st: &ExplorerState, ctrl: bool)
    requires
        st.saving_card is None,
        st.title_editor is None,
        st.filter_editor is None,
    ensures
        key_command(st, KeyPress { key: Key::Char('j'), ctrl }) == key_command(
            st,
            KeyPress { key: Key::Down, ctrl: false },
        ),
        key_command(st, KeyPress { key: Key::Char('k'), ctrl }) == key_command(
            st,
            KeyPress { key: Key::Up, ctrl: false },
        ),
        st.focus == PaneFocus::Explorer && !has_dirty(st) ==> key_command(st, KeyPress { key: Key::Down, ctrl: false })
            == KeyCommand::Move(1isize) && key_command(st, KeyPress { key: Key::Up, ctrl: false }) == KeyCommand::Move(
            -1isize,
        ),
        st.focus == PaneFocus::Details ==> key_command(st, KeyPress { key: Key::Down, ctrl: false })
            == KeyCommand::ScrollBy(1i32) && key_command(st, KeyPress { key: Key::Up, ctrl: false })
            == KeyCommand::ScrollBy(-1i32),
{
}

} // verus!
