//! What the detail pane shows for each kind of selected row.

use vstd::prelude::*;

use crate::actions::project_index;
use crate::board::{list_index_in, locate_card, opt_text};
use crate::detail::{
    blank, bullet_line, cat, cat3, context_line, empty_state_line, header_line, id_line, kv_line, ln_blank, ln_bullet,
    ln_context, ln_empty_state, ln_header, ln_id, ln_kv, ln_muted, ln_muted_indented, ln_plain, ln_section, ln_title,
    muted_indented_line, muted_line, plain, prefixed_block, push_line, push_prefixed_block, push_text_block,
    section_line, text_block, title_line, DetailLine, Hue, Segment, Tone,
};
use crate::explorer::{
    join_label_names, join_user_names, join_strings, join_with, spec_join_label_names, spec_join_user_names, spec_truncate, truncate,
    AttachmentSummary, BoardSummary, CardDraft, CardSummary, CommentSummary, ListSummary, ProjectTree,
    LabelSummary, TaskListSummary, TaskSummary, TreeKey, UserSummary,
};
use crate::groups::{
    label_groups, label_groups_for_list, GroupCardView, LabelGroupCard, LabelGroupSummary, LabelGroupView,
};
use crate::lookup::{board_index_where, locate_board, BoardQuery};
use crate::order::views;
use crate::state::{tree_view, ExplorerState};
use crate::tree::{board_loaded, is_live_target};
use crate::text::{decimal, push_decimal, push_str, str_eq};

verus! {

/// The draft of card `card_id`, when the draft is of that card.
pub open spec fn draft_for(st: &ExplorerState, card_id: Seq<char>) -> Option<CardDraft> {
    match st.card_draft {
        Some(d) => if d.card_id@ == card_id {
            Some(d)
        } else {
            None
        },
        None => None,
    }
}

/// Whether card `card_id` is being saved.
pub open spec fn saving_is(st: &ExplorerState, card_id: Seq<char>) -> bool {
    st.saving_card is Some && st.saving_card->0@ == card_id
}

/// A user shown as "name (@username)".
pub open spec fn at_display(u: UserSummary) -> Seq<char> {
    u.name@ + " (@"@ + u.username@ + ")"@
}

/// A status chip: the text padded by one space on each side.
pub open spec fn chip(text: Seq<char>, hue: Hue) -> (Seq<char>, Tone) {
    (" "@ + text + " "@, Tone::Chip(hue))
}

/// Two spaces between chips.
pub open spec fn gap() -> (Seq<char>, Tone) {
    ("  "@, Tone::Plain)
}

/// The chips under a card's title: its status, due date and subscription,
/// then whether its draft is dirty, changed remotely, or being saved.
pub open spec fn card_chips(st: &ExplorerState, c: CardSummary, draft: Option<CardDraft>) -> Seq<(Seq<char>, Tone)> {
    let dirty = draft is Some && draft->0.spec_is_dirty();
    seq![
        chip(if c.is_closed { "CLOSED"@ } else { "ACTIVE"@ }, if c.is_closed { Hue::Yellow } else { Hue::LightGreen }),
        gap(),
        chip(
            match c.due_date {
                Some(d) => d@,
                None => "no due date"@,
            },
            Hue::LightBlue,
        ),
        gap(),
        chip(if c.is_subscribed { "subscribed"@ } else { "not subscribed"@ }, Hue::Gray),
    ] + (if dirty {
        seq![gap(), chip("DIRTY"@, Hue::Yellow)]
    } else {
        Seq::empty()
    }) + (if dirty && draft->0.remote_changed {
        seq![gap(), chip("REMOTE CHANGED"@, Hue::LightRed)]
    } else {
        Seq::empty()
    }) + (if saving_is(st, c.id@) {
        seq![gap(), chip("SAVING"@, Hue::LightBlue)]
    } else {
        Seq::empty()
    })
}

/// The lines of one attachment: its name and id, then its URL when it has
/// one.
pub open spec fn attachment_entry(a: AttachmentSummary) -> Seq<Seq<(Seq<char>, Tone)>> {
    seq![ln_bullet(a.name@, a.id@)] + match a.url {
        Some(u) => seq![ln_muted_indented("↳ "@ + spec_truncate(u@, 72))],
        None => Seq::empty(),
    }
}

/// The lines of the attachments, one entry after another.
pub open spec fn attachment_lines(atts: Seq<AttachmentSummary>) -> Seq<Seq<(Seq<char>, Tone)>>
    decreases atts.len(),
{
    if atts.len() == 0 {
        Seq::empty()
    } else {
        attachment_lines(atts.drop_last()) + attachment_entry(atts.last())
    }
}

/// The attachments section.
pub open spec fn attachments_section(atts: Seq<AttachmentSummary>) -> Seq<Seq<(Seq<char>, Tone)>> {
    if atts.len() == 0 {
        seq![ln_empty_state("No attachments."@)]
    } else {
        attachment_lines(atts)
    }
}

/// The number of completed tasks.
pub open spec fn count_done(ts: Seq<TaskSummary>) -> nat
    decreases ts.len(),
{
    if ts.len() == 0 {
        0
    } else {
        count_done(ts.drop_last()) + if ts.last().is_completed {
            1nat
        } else {
            0nat
        }
    }
}

/// " • @username" for an assigned task, nothing otherwise.
pub open spec fn assignee_suffix(a: Option<UserSummary>) -> Seq<char> {
    match a {
        Some(u) => " • @"@ + u.username@,
        None => Seq::empty(),
    }
}

/// A task: its check box, name, assignee and id.
pub open spec fn task_line(t: TaskSummary) -> Seq<(Seq<char>, Tone)> {
    ln_muted_indented(
        (if t.is_completed {
            "[x]"@
        } else {
            "[ ]"@
        }) + " "@ + t.name@ + assignee_suffix(t.assignee) + " • "@ + t.id@,
    )
}

/// The lines of the tasks.
pub open spec fn task_lines(ts: Seq<TaskSummary>) -> Seq<Seq<(Seq<char>, Tone)>>
    decreases ts.len(),
{
    if ts.len() == 0 {
        Seq::empty()
    } else {
        task_lines(ts.drop_last()).push(task_line(ts.last()))
    }
}

/// A task list: its name with "done/total • id", then its tasks.
pub open spec fn task_list_entry(tl: TaskListSummary) -> Seq<Seq<(Seq<char>, Tone)>> {
    seq![
        ln_bullet(
            tl.name@,
            decimal(count_done(tl.tasks@)) + "/"@ + decimal(tl.tasks@.len()) + " • "@ + tl.id@,
        ),
    ] + task_lines(tl.tasks@)
}

/// The lines of the task lists.
pub open spec fn task_list_lines(tls: Seq<TaskListSummary>) -> Seq<Seq<(Seq<char>, Tone)>>
    decreases tls.len(),
{
    if tls.len() == 0 {
        Seq::empty()
    } else {
        task_list_lines(tls.drop_last()) + task_list_entry(tls.last())
    }
}

/// The tasks section.
pub open spec fn tasks_section(tls: Seq<TaskListSummary>) -> Seq<Seq<(Seq<char>, Tone)>> {
    if tls.len() == 0 {
        seq![ln_empty_state("No task lists."@)]
    } else {
        task_list_lines(tls)
    }
}

/// A comment's author as shown, "unknown" when not known.
pub open spec fn author_text(a: Option<UserSummary>) -> Seq<char> {
    match a {
        Some(u) => at_display(u),
        None => "unknown"@,
    }
}

/// One comment: author and time, id, text, when it was updated, and a
/// blank line.
pub open spec fn comment_entry(c: CommentSummary) -> Seq<Seq<(Seq<char>, Tone)>> {
    seq![
        seq![(author_text(c.author), Tone::Strong), gap(), (spec_truncate(c.created_at@, 32), Tone::Faint)],
        ln_muted_indented("id: "@ + c.id@),
    ] + prefixed_block(c.text@, "    "@) + match c.updated_at {
        Some(u) => seq![ln_muted_indented("updated: "@ + u@)],
        None => Seq::empty(),
    } + seq![ln_blank()]
}

/// The lines of the comments, one entry after another.
pub open spec fn comment_lines(cs: Seq<CommentSummary>) -> Seq<Seq<(Seq<char>, Tone)>>
    decreases cs.len(),
{
    if cs.len() == 0 {
        Seq::empty()
    } else {
        comment_lines(cs.drop_last()) + comment_entry(cs.last())
    }
}

/// The comments section: the loaded comments without the last blank line,
/// or what is known of their loading.
pub open spec fn comment_section(st: &ExplorerState, card_id: Seq<char>) -> Seq<Seq<(Seq<char>, Tone)>> {
    if st.card_comments@.contains_key(card_id) {
        let cs = st.card_comments@[card_id]@;
        if cs.len() == 0 {
            seq![ln_empty_state("No comments."@)]
        } else {
            comment_lines(cs).drop_last()
        }
    } else if st.loading_card_comments@.contains(card_id) {
        seq![ln_empty_state("Loading comments…"@)]
    } else if st.card_comment_errors@.contains_key(card_id) {
        seq![ln_empty_state("Failed to load comments: "@ + st.card_comment_errors@[card_id]@)]
    } else {
        seq![ln_empty_state("Comments will load when card is selected."@)]
    }
}

/// The note on how a card is edited.
pub open spec fn edit_help() -> Seq<char> {
    "e edits title inline • E opens description in $EDITOR and saves on exit • Ctrl-s saves • Ctrl-x discards"@
}

/// The state of the card's edits: being saved, or a dirty draft.
pub open spec fn editing_note(st: &ExplorerState, card_id: Seq<char>, draft: Option<CardDraft>) -> Seq<
    Seq<(Seq<char>, Tone)>,
> {
    if saving_is(st, card_id) {
        seq![ln_muted("Saving current card changes to Planka server… controls are paused until response."@)]
    } else if draft is Some && draft->0.spec_is_dirty() {
        seq![
            ln_muted(
                "Local draft differs from base snapshot."@ + if draft->0.remote_changed {
                    " Remote changes also arrived while dirty."@
                } else {
                    ""@
                },
            ),
        ]
    } else {
        Seq::empty()
    }
}

/// A creator shown as "name (@username)", "unknown" when not known.
pub open spec fn creator_text(a: Option<UserSummary>) -> Seq<char> {
    author_text(a)
}

/// Names joined, or "none".
pub open spec fn or_none(items_empty: bool, joined: Seq<char>) -> Seq<char> {
    if items_empty {
        "none"@
    } else {
        joined
    }
}

/// The title shown for a card: its draft title while it has a draft.
pub open spec fn shown_title(c: CardSummary, draft: Option<CardDraft>) -> Seq<char> {
    match draft {
        Some(d) => d.draft_title@,
        None => c.name@,
    }
}

/// The description shown for a card: its draft description when the draft
/// has one, else the card's.
pub open spec fn shown_description(c: CardSummary, draft: Option<CardDraft>) -> Option<Seq<char>> {
    match draft {
        Some(d) => match d.draft_description {
            Some(x) => Some(x@),
            None => opt_text(c.description),
        },
        None => opt_text(c.description),
    }
}

/// The head of a card's pane, down to the description heading.
pub open spec fn card_head(st: &ExplorerState, p: ProjectTree, b: BoardSummary, l: ListSummary, c: CardSummary) -> Seq<
    Seq<(Seq<char>, Tone)>,
> {
    let draft = draft_for(st, c.id@);
    seq![
        ln_title("card"@),
        ln_header(shown_title(c, draft)),
        card_chips(st, c, draft),
        ln_id("card"@, c.id@),
        ln_blank(),
        ln_section("Context"@),
        ln_context("list"@, l.name@, l.id@),
        ln_context("board"@, b.name@, b.id@),
        ln_context("project"@, p.name@, p.id@),
        ln_blank(),
        ln_section("Metadata"@),
        ln_kv("creator"@, creator_text(c.creator)),
        ln_kv("labels"@, or_none(c.labels@.len() == 0, spec_join_label_names(c.labels@))),
        ln_kv("assignees"@, or_none(c.assignees@.len() == 0, spec_join_user_names(c.assignees@))),
        ln_kv("comments"@, decimal(c.comments_total as nat)),
        ln_blank(),
        ln_section("Description"@),
    ]
}

/// The detail pane of card `c`, found in list `l` of board `b` of project
/// `p`.
pub open spec fn card_detail(st: &ExplorerState, p: ProjectTree, b: BoardSummary, l: ListSummary, c: CardSummary) -> Seq<
    Seq<(Seq<char>, Tone)>,
> {
    let draft = draft_for(st, c.id@);
    card_head(st, p, b, l, c) + text_block(shown_description(c, draft), "No card description."@) + seq![
        ln_blank(),
        ln_section("Attachments"@),
    ] + attachments_section(c.attachments@) + seq![ln_blank(), ln_section("Tasks"@)] + tasks_section(
        c.task_lists@,
    ) + seq![ln_blank(), ln_section("Comments"@)] + comment_section(st, c.id@) + seq![
        ln_blank(),
        ln_section("Editing"@),
        ln_muted(edit_help()),
    ] + editing_note(st, c.id@, draft)
}

/// The detail pane of the first card with id `card_id`, or a note that it
/// is gone.
pub open spec fn card_pane(st: &ExplorerState, card_id: Seq<char>) -> Seq<Seq<(Seq<char>, Tone)>> {
    match locate_board(st.projects@, BoardQuery::WithCard, card_id) {
        Some((pi, bi)) => {
            let p = st.projects@[pi];
            let b = p.boards@[bi];
            match locate_card(b@.lists, card_id) {
                Some((li, ci)) => card_detail(st, p, b, b.active_lists@[li], b.active_lists@[li].cards@[ci]),
                None => seq![ln_plain("Selected card is no longer available."@)],
            }
        },
        None => seq![ln_plain("Selected card is no longer available."@)],
    }
}

/// The first `n` items of `s`, or all of them when there are fewer.
pub open spec fn first_n<A>(s: Seq<A>, n: nat) -> Seq<A> {
    if s.len() <= n {
        s
    } else {
        s.take(n as int)
    }
}

/// Whether board `b` is the live target with the websocket live.
pub open spec fn live_connected(st: &ExplorerState, b: BoardSummary) -> bool {
    is_live_target(tree_view(st), b.id@) && st.status is Live
}

/// How a project's pane describes one of its boards.
pub open spec fn board_state_word(st: &ExplorerState, b: BoardSummary) -> Seq<char> {
    if live_connected(st, b) {
        "live"@
    } else if is_live_target(tree_view(st), b.id@) {
        "live target"@
    } else if board_loaded(b@) {
        "loaded"@
    } else {
        "stub"@
    }
}

/// The number of loaded boards.
pub open spec fn count_loaded(boards: Seq<BoardSummary>) -> nat
    decreases boards.len(),
{
    if boards.len() == 0 {
        0
    } else {
        count_loaded(boards.drop_last()) + if board_loaded(boards.last()@) {
            1nat
        } else {
            0nat
        }
    }
}

/// One bullet per board: its name, state and id.
pub open spec fn board_bullets(st: &ExplorerState, boards: Seq<BoardSummary>) -> Seq<Seq<(Seq<char>, Tone)>>
    decreases boards.len(),
{
    if boards.len() == 0 {
        Seq::empty()
    } else {
        board_bullets(st, boards.drop_last()).push(
            ln_bullet(boards.last().name@, board_state_word(st, boards.last()) + " • "@ + boards.last().id@),
        )
    }
}

/// The detail pane of project `p`; it lists its first twelve boards.
pub open spec fn project_detail(st: &ExplorerState, p: ProjectTree) -> Seq<Seq<(Seq<char>, Tone)>> {
    seq![
        ln_title("project"@),
        ln_header(p.name@),
        ln_id("project"@, p.id@),
        ln_blank(),
        ln_section("Summary"@),
        ln_kv("boards"@, decimal(p.boards@.len()) + " total • "@ + decimal(count_loaded(p.boards@)) + " loaded"@),
        ln_blank(),
        ln_section("Description"@),
    ] + text_block(opt_text(p.description), "No project description."@) + seq![ln_blank(), ln_section("Boards"@)]
        + board_bullets(st, first_n(p.boards@, 12))
}

/// The detail pane of the first project with id `id`.
pub open spec fn project_pane(st: &ExplorerState, id: Seq<char>) -> Seq<Seq<(Seq<char>, Tone)>> {
    let i = project_index(st.projects@, id);
    if i >= 0 {
        project_detail(st, st.projects@[i])
    } else {
        seq![ln_plain("Selected project is no longer available."@)]
    }
}

/// How a board's pane describes its live state.
pub open spec fn board_status_text(st: &ExplorerState, b: BoardSummary) -> Seq<char> {
    if live_connected(st, b) {
        "live subscribed"@
    } else if is_live_target(tree_view(st), b.id@) {
        "switching live target"@
    } else {
        "loaded by snapshot"@
    }
}

/// One bullet per list: its name, counts and id.
pub open spec fn list_bullets(lists: Seq<ListSummary>) -> Seq<Seq<(Seq<char>, Tone)>>
    decreases lists.len(),
{
    if lists.len() == 0 {
        Seq::empty()
    } else {
        let l = lists.last();
        list_bullets(lists.drop_last()).push(
            ln_bullet(
                l.name@,
                decimal(l.active_card_count as nat) + " active • "@ + decimal(l.closed_card_count as nat)
                    + " closed • "@ + l.id@,
            ),
        )
    }
}

/// One bullet per label: its name, colour and id.
pub open spec fn label_bullets(labels: Seq<LabelSummary>) -> Seq<Seq<(Seq<char>, Tone)>>
    decreases labels.len(),
{
    if labels.len() == 0 {
        Seq::empty()
    } else {
        let lab = labels.last();
        label_bullets(labels.drop_last()).push(
            ln_bullet(
                lab.name@,
                "color="@ + match lab.color {
                    Some(c) => c@,
                    None => "?"@,
                } + " • "@ + lab.id@,
            ),
        )
    }
}

/// One bullet per member: name, username and id.
pub open spec fn member_bullets(users: Seq<UserSummary>) -> Seq<Seq<(Seq<char>, Tone)>>
    decreases users.len(),
{
    if users.len() == 0 {
        Seq::empty()
    } else {
        let u = users.last();
        member_bullets(users.drop_last()).push(ln_bullet(u.name@, "@"@ + u.username@ + " • "@ + u.id@))
    }
}

/// The part of a loaded board's pane after its status: counts, then its
/// first ten lists, eight labels and eight members.
pub open spec fn loaded_board_lines(b: BoardSummary) -> Seq<Seq<(Seq<char>, Tone)>> {
    seq![
        ln_kv(
            "cards"@,
            decimal(b.active_card_count as nat) + " active • "@ + decimal(b.closed_card_count as nat) + " closed"@,
        ),
        ln_kv("lists"@, decimal(b.active_lists@.len())),
        ln_kv("labels"@, decimal(b.labels@.len())),
        ln_kv("members"@, decimal(b.members@.len())),
        ln_blank(),
        ln_section("Lists"@),
    ] + list_bullets(first_n(b.active_lists@, 10)) + seq![ln_blank(), ln_section("Labels"@)] + (if b.labels@.len()
        == 0 {
        seq![ln_empty_state("No labels."@)]
    } else {
        label_bullets(first_n(b.labels@, 8))
    }) + seq![ln_blank(), ln_section("Members"@)] + member_bullets(first_n(b.members@, 8))
}

/// The part of an unloaded board's pane after its status: how to load it.
pub open spec fn unloaded_board_lines() -> Seq<Seq<(Seq<char>, Tone)>> {
    seq![
        ln_blank(),
        ln_section("Load state"@),
        ln_muted("Board known from project snapshot, but richer list/card detail not loaded yet."@),
        ln_muted("Press → or Enter to lazy-load this board snapshot over HTTP."@),
        ln_muted("Press L on a board node to toggle websocket live sync for that board."@),
    ]
}

/// The detail pane of board `b` of project `p`.
pub open spec fn board_detail(st: &ExplorerState, p: ProjectTree, b: BoardSummary) -> Seq<Seq<(Seq<char>, Tone)>> {
    seq![
        ln_title("board"@),
        ln_header(b.name@),
        ln_id("board"@, b.id@),
        ln_context("project"@, p.name@, p.id@),
        ln_blank(),
        ln_section("Summary"@),
        ln_kv("status"@, board_status_text(st, b)),
    ] + if board_loaded(b@) {
        loaded_board_lines(b)
    } else {
        unloaded_board_lines()
    }
}

/// The detail pane of the first board with id `id`.
pub open spec fn board_pane(st: &ExplorerState, id: Seq<char>) -> Seq<Seq<(Seq<char>, Tone)>> {
    match locate_board(st.projects@, BoardQuery::WithId, id) {
        Some((pi, bi)) => board_detail(st, st.projects@[pi], st.projects@[pi].boards@[bi]),
        None => seq![ln_plain("Selected board is no longer available."@)],
    }
}

/// What a list's pane shows after a card's name: its labels, whether it is
/// closed, and its id.
pub open spec fn card_bullet_meta(c: CardSummary) -> Seq<char> {
    join_with(
        (if c.labels@.len() == 0 {
            Seq::empty()
        } else {
            seq![spec_join_label_names(c.labels@)]
        }) + (if c.is_closed {
            seq!["closed"@]
        } else {
            Seq::empty()
        }) + seq![c.id@],
        " • "@,
    )
}

/// One bullet per card.
pub open spec fn card_bullets(cards: Seq<CardSummary>) -> Seq<Seq<(Seq<char>, Tone)>>
    decreases cards.len(),
{
    if cards.len() == 0 {
        Seq::empty()
    } else {
        card_bullets(cards.drop_last()).push(ln_bullet(cards.last().name@, card_bullet_meta(cards.last())))
    }
}

/// The detail pane of list `l` of board `b` of project `p`; it lists its
/// first fourteen cards.
pub open spec fn list_detail(p: ProjectTree, b: BoardSummary, l: ListSummary) -> Seq<Seq<(Seq<char>, Tone)>> {
    seq![
        ln_title("list"@),
        ln_header(l.name@),
        ln_id("list"@, l.id@),
        ln_context("board"@, b.name@, b.id@),
        ln_context("project"@, p.name@, p.id@),
        ln_blank(),
        ln_section("Summary"@),
        ln_kv(
            "cards"@,
            decimal(l.card_count as nat) + " total • "@ + decimal(l.active_card_count as nat) + " active • "@
                + decimal(l.closed_card_count as nat) + " closed"@,
        ),
        ln_blank(),
        ln_section("Cards in list"@),
    ] + card_bullets(first_n(l.cards@, 14))
}

/// The detail pane of the first list with id `id`.
pub open spec fn list_pane(st: &ExplorerState, id: Seq<char>) -> Seq<Seq<(Seq<char>, Tone)>> {
    match locate_board(st.projects@, BoardQuery::WithList, id) {
        Some((pi, bi)) => {
            let p = st.projects@[pi];
            let b = p.boards@[bi];
            let li = list_index_in(b@.lists, id);
            if li >= 0 {
                list_detail(p, b, b.active_lists@[li])
            } else {
                seq![ln_plain("Selected list is no longer available."@)]
            }
        },
        None => seq![ln_plain("Selected list is no longer available."@)],
    }
}

/// Where a label group's list lies: the first project whose first board
/// with id `board_id` has a list with id `list_id`, with the board's and
/// the list's index.
pub open spec fn group_site(projects: Seq<ProjectTree>, board_id: Seq<char>, list_id: Seq<char>) -> Option<(int, int, int)>
    decreases projects.len(),
{
    if projects.len() == 0 {
        None
    } else {
        match group_site(projects.drop_last(), board_id, list_id) {
            Some(x) => Some(x),
            None => {
                let p = projects.last();
                let bi = board_index_where(views(p.boards@), BoardQuery::WithId, board_id);
                if bi >= 0 {
                    let li = list_index_in(p.boards@[bi]@.lists, list_id);
                    if li >= 0 {
                        Some((projects.len() - 1, bi, li))
                    } else {
                        None
                    }
                } else {
                    None
                }
            },
        }
    }
}

/// The index of the first group with the label, or -1.
pub open spec fn group_index(groups: Seq<LabelGroupView>, label_id: Option<Seq<char>>) -> int
    decreases groups.len(),
{
    if groups.len() == 0 {
        -1
    } else {
        let i = group_index(groups.drop_last(), label_id);
        if i >= 0 {
            i
        } else if groups.last().label_id == label_id {
            groups.len() - 1
        } else {
            -1
        }
    }
}

/// One bullet per grouped card: its name, list, whether it is closed, and
/// its id.
pub open spec fn group_card_bullets(cards: Seq<GroupCardView>) -> Seq<Seq<(Seq<char>, Tone)>>
    decreases cards.len(),
{
    if cards.len() == 0 {
        Seq::empty()
    } else {
        let gc = cards.last();
        group_card_bullets(cards.drop_last()).push(
            ln_bullet(
                gc.card_name,
                gc.list_name + (if gc.is_closed {
                    " • closed"@
                } else {
                    ""@
                }) + " • "@ + gc.card_id,
            ),
        )
    }
}

/// The detail pane of label group `g` of list `l` of board `b` of project
/// `p`; it lists the group's first sixteen cards.
pub open spec fn label_group_detail(p: ProjectTree, b: BoardSummary, l: ListSummary, g: LabelGroupView) -> Seq<
    Seq<(Seq<char>, Tone)>,
> {
    seq![
        ln_title("label group"@),
        ln_header(g.label_name),
        ln_context("list"@, l.name@, l.id@),
        ln_context("board"@, b.name@, b.id@),
        ln_context("project"@, p.name@, p.id@),
        ln_blank(),
        ln_section("Summary"@),
        ln_kv(
            "cards"@,
            decimal(g.active_card_count as nat) + " active • "@ + decimal(g.closed_card_count as nat)
                + " closed • "@ + decimal(g.cards.len()) + " total"@,
        ),
    ] + match g.label_id {
        Some(id) => seq![
            ln_kv("label id"@, id),
            ln_kv(
                "color"@,
                match g.color {
                    Some(c) => c,
                    None => "none"@,
                },
            ),
        ],
        None => seq![ln_kv("bucket"@, "cards without labels"@)],
    } + seq![ln_blank(), ln_section("Cards"@)] + if g.cards.len() == 0 {
        seq![ln_empty_state("No cards in this label group."@)]
    } else {
        group_card_bullets(first_n(g.cards, 16))
    }
}

/// The detail pane of the label group of `list_id` on board `board_id` for
/// label `label_id` (the unlabelled bucket when `None`).
pub open spec fn label_group_pane(
    st: &ExplorerState,
    board_id: Seq<char>,
    list_id: Seq<char>,
    label_id: Option<Seq<char>>,
) -> Seq<Seq<(Seq<char>, Tone)>> {
    match group_site(st.projects@, board_id, list_id) {
        Some((pi, bi, li)) => {
            let p = st.projects@[pi];
            let b = p.boards@[bi];
            let l = b.active_lists@[li];
            let groups = label_groups(b@, l@);
            let gi = group_index(groups, label_id);
            if gi >= 0 {
                label_group_detail(p, b, l, groups[gi])
            } else {
                seq![ln_plain("Selected label group is no longer available."@)]
            }
        },
        None => seq![ln_plain("Selected label group is no longer available."@)],
    }
}

/// The detail pane of the selected row.
pub open spec fn detail_pane(st: &ExplorerState) -> Seq<Seq<(Seq<char>, Tone)>> {
    match st.selected {
        None => seq![ln_plain("No selection."@)],
        Some(TreeKey::Project(id)) => project_pane(st, id@),
        Some(TreeKey::Board(id)) => board_pane(st, id@),
        Some(TreeKey::List(id)) => list_pane(st, id@),
        Some(TreeKey::LabelGroup { board_id, list_id, label_id }) => label_group_pane(
            st,
            board_id@,
            list_id@,
            opt_text(label_id),
        ),
        Some(TreeKey::Card(id)) => card_pane(st, id@),
        Some(TreeKey::GroupedCard { card_id, .. }) => card_pane(st, card_id@),
    }
}

/// "name (@username)".
fn at_display_exec(u: &UserSummary) -> (r: String)
    ensures
        r@ == at_display(*u),
{
    let mut out = String::new();
    push_str(&mut out, u.name.as_str());
    push_str(&mut out, " (@");
    push_str(&mut out, u.username.as_str());
    push_str(&mut out, ")");
    out
}

/// A user as "name (@username)", or "unknown".
fn author_exec(a: &Option<UserSummary>) -> (r: String)
    ensures
        r@ == author_text(*a),
{
    match a {
        Some(u) => at_display_exec(u),
        None => "unknown".to_string(),
    }
}

/// Appends a chip.
fn push_chip(segs: &mut Vec<Segment>, text: &str, hue: Hue)
    ensures
        views(final(segs)@) == views(old(segs)@).push(chip(text@, hue)),
{
    segs.push(Segment { text: cat3(" ", text, " "), tone: Tone::Chip(hue) });
    assert(views(segs@) =~= views(old(segs)@).push(chip(text@, hue)));
}

/// Appends the two spaces between chips.
fn push_gap(segs: &mut Vec<Segment>)
    ensures
        views(final(segs)@) == views(old(segs)@).push(gap()),
{
    segs.push(Segment { text: "  ".to_string(), tone: Tone::Plain });
    assert(views(segs@) =~= views(old(segs)@).push(gap()));
}

proof fn lemma_take_step<A>(s: Seq<A>, i: int)
    requires
        0 <= i < s.len(),
    ensures
        s.take(i + 1).drop_last() == s.take(i),
        s.take(i + 1).last() == s[i],
{
    assert(s.take(i + 1).drop_last() =~= s.take(i));
}

/// The number of completed tasks.
fn count_done_exec(ts: &Vec<TaskSummary>) -> (r: usize)
    ensures
        r == count_done(ts@),
{
    let mut n: usize = 0;
    let mut i: usize = 0;
    while i < ts.len()
        invariant
            i <= ts.len(),
            n == count_done(ts@.take(i as int)),
            n <= i,
        decreases ts.len() - i,
    {
        proof {
            lemma_take_step(ts@, i as int);
        }
        if ts[i].is_completed {
            n = n + 1;
        }
        i = i + 1;
    }
    assert(ts@.take(i as int) =~= ts@);
    n
}

impl ExplorerState {
    /// The chips under a card's title.
    fn card_chips_line(&self, c: &CardSummary, draft: Option<&CardDraft>) -> (r: DetailLine)
        requires
            match draft {
                Some(d) => draft_for(self, c.id@) == Some(*d),
                None => draft_for(self, c.id@) is None,
            },
        ensures
            r@ == card_chips(self, *c, draft_for(self, c.id@)),
    {
        let ghost d = draft_for(self, c.id@);
        let mut segs: Vec<Segment> = Vec::new();
        if c.is_closed {
            push_chip(&mut segs, "CLOSED", Hue::Yellow);
        } else {
            push_chip(&mut segs, "ACTIVE", Hue::LightGreen);
        }
        push_gap(&mut segs);
        match &c.due_date {
            Some(due) => push_chip(&mut segs, due.as_str(), Hue::LightBlue),
            None => push_chip(&mut segs, "no due date", Hue::LightBlue),
        }
        push_gap(&mut segs);
        if c.is_subscribed {
            push_chip(&mut segs, "subscribed", Hue::Gray);
        } else {
            push_chip(&mut segs, "not subscribed", Hue::Gray);
        }
        let ghost base = views(segs@);
        let dirty = match draft {
            Some(x) => x.is_dirty(),
            None => false,
        };
        if dirty {
            push_gap(&mut segs);
            push_chip(&mut segs, "DIRTY", Hue::Yellow);
        }
        let ghost with_dirty = views(segs@);
        let remote = match draft {
            Some(x) => dirty && x.remote_changed,
            None => false,
        };
        if remote {
            push_gap(&mut segs);
            push_chip(&mut segs, "REMOTE CHANGED", Hue::LightRed);
        }
        let ghost with_remote = views(segs@);
        let saving = match &self.saving_card {
            Some(id) => str_eq(id.as_str(), c.id.as_str()),
            None => false,
        };
        if saving {
            push_gap(&mut segs);
            push_chip(&mut segs, "SAVING", Hue::LightBlue);
        }
        proof {
            let dirty_part: Seq<(Seq<char>, Tone)> = if dirty {
                seq![gap(), chip("DIRTY"@, Hue::Yellow)]
            } else {
                Seq::empty()
            };
            let remote_part: Seq<(Seq<char>, Tone)> = if remote {
                seq![gap(), chip("REMOTE CHANGED"@, Hue::LightRed)]
            } else {
                Seq::empty()
            };
            let saving_part: Seq<(Seq<char>, Tone)> = if saving {
                seq![gap(), chip("SAVING"@, Hue::LightBlue)]
            } else {
                Seq::empty()
            };
            assert(with_dirty =~= base + dirty_part);
            assert(with_remote =~= base + dirty_part + remote_part);
            assert(views(segs@) =~= base + dirty_part + remote_part + saving_part);
        }
        DetailLine { segments: segs }
    }
}

/// Appends the attachments section.
fn push_attachments(lines: &mut Vec<DetailLine>, atts: &Vec<AttachmentSummary>)
    ensures
        views(final(lines)@) == views(old(lines)@) + attachments_section(atts@),
{
    if atts.len() == 0 {
        push_line(lines, empty_state_line("No attachments."));
        assert(views(lines@) =~= views(old(lines)@) + attachments_section(atts@));
        return;
    }
    let ghost start = views(lines@);
    let mut i: usize = 0;
    assert(start + attachment_lines(atts@.take(0)) =~= start);
    while i < atts.len()
        invariant
            i <= atts.len(),
            views(lines@) == start + attachment_lines(atts@.take(i as int)),
        decreases atts.len() - i,
    {
        proof {
            lemma_take_step(atts@, i as int);
        }
        let a = &atts[i];
        let ghost before = views(lines@);
        push_line(lines, bullet_line(a.name.as_str(), a.id.as_str()));
        match &a.url {
            Some(u) => {
                let shown = truncate(u.as_str(), 72);
                push_line(lines, muted_indented_line(cat("↳ ", shown.as_str()).as_str()));
            },
            None => {},
        }
        assert(views(lines@) =~= before + attachment_entry(*a));
        i = i + 1;
    }
    assert(atts@.take(i as int) =~= atts@);
}

/// Appends the lines of the tasks.
fn push_task_lines(lines: &mut Vec<DetailLine>, ts: &Vec<TaskSummary>)
    ensures
        views(final(lines)@) == views(old(lines)@) + task_lines(ts@),
{
    let ghost start = views(lines@);
    let mut i: usize = 0;
    assert(start + task_lines(ts@.take(0)) =~= start);
    while i < ts.len()
        invariant
            i <= ts.len(),
            views(lines@) == start + task_lines(ts@.take(i as int)),
        decreases ts.len() - i,
    {
        proof {
            lemma_take_step(ts@, i as int);
        }
        let t = &ts[i];
        let mut text = String::new();
        if t.is_completed {
            push_str(&mut text, "[x]");
        } else {
            push_str(&mut text, "[ ]");
        }
        push_str(&mut text, " ");
        push_str(&mut text, t.name.as_str());
        match &t.assignee {
            Some(u) => {
                push_str(&mut text, " • @");
                push_str(&mut text, u.username.as_str());
            },
            None => {},
        }
        push_str(&mut text, " • ");
        push_str(&mut text, t.id.as_str());
        proof {
            assert(text@ =~= (if t.is_completed {
                "[x]"@
            } else {
                "[ ]"@
            }) + " "@ + t.name@ + assignee_suffix(t.assignee) + " • "@ + t.id@);
        }
        let ghost before = views(lines@);
        push_line(lines, muted_indented_line(text.as_str()));
        assert(views(lines@) =~= start + task_lines(ts@.take(i + 1)));
        i = i + 1;
    }
    assert(ts@.take(i as int) =~= ts@);
}

/// Appends the tasks section.
fn push_tasks(lines: &mut Vec<DetailLine>, tls: &Vec<TaskListSummary>)
    ensures
        views(final(lines)@) == views(old(lines)@) + tasks_section(tls@),
{
    if tls.len() == 0 {
        push_line(lines, empty_state_line("No task lists."));
        assert(views(lines@) =~= views(old(lines)@) + tasks_section(tls@));
        return;
    }
    let ghost start = views(lines@);
    let mut i: usize = 0;
    assert(start + task_list_lines(tls@.take(0)) =~= start);
    while i < tls.len()
        invariant
            i <= tls.len(),
            views(lines@) == start + task_list_lines(tls@.take(i as int)),
        decreases tls.len() - i,
    {
        proof {
            lemma_take_step(tls@, i as int);
        }
        let tl = &tls[i];
        let done = count_done_exec(&tl.tasks);
        let mut meta = String::new();
        push_decimal(&mut meta, done as u64);
        push_str(&mut meta, "/");
        push_decimal(&mut meta, tl.tasks.len() as u64);
        push_str(&mut meta, " • ");
        push_str(&mut meta, tl.id.as_str());
        let ghost before = views(lines@);
        push_line(lines, bullet_line(tl.name.as_str(), meta.as_str()));
        push_task_lines(lines, &tl.tasks);
        assert(views(lines@) =~= before + task_list_entry(*tl));
        i = i + 1;
    }
    assert(tls@.take(i as int) =~= tls@);
}

/// The description shown for a card.
fn shown_description_exec<'a>(c: &'a CardSummary, draft: Option<&'a CardDraft>) -> (r: Option<&'a str>)
    ensures
        crate::config::opt_view(r) == shown_description(
            *c,
            match draft {
                Some(d) => Some(*d),
                None => None,
            },
        ),
{
    match draft {
        Some(x) => match &x.draft_description {
            Some(t) => Some(t.as_str()),
            None => match &c.description {
                Some(t) => Some(t.as_str()),
                None => None,
            },
        },
        None => match &c.description {
            Some(t) => Some(t.as_str()),
            None => None,
        },
    }
}

proof fn lemma_comment_lines_len(cs: Seq<CommentSummary>)
    requires
        cs.len() > 0,
    ensures
        comment_lines(cs).len() > 0,
{
    assert(comment_entry(cs.last()).len() > 0);
}

/// Appends the entries of the comments.
fn push_comment_entries(lines: &mut Vec<DetailLine>, cs: &Vec<CommentSummary>)
    ensures
        views(final(lines)@) == views(old(lines)@) + comment_lines(cs@),
{
    let ghost start = views(lines@);
    let mut i: usize = 0;
    assert(start + comment_lines(cs@.take(0)) =~= start);
    while i < cs.len()
        invariant
            i <= cs.len(),
            views(lines@) == start + comment_lines(cs@.take(i as int)),
        decreases cs.len() - i,
    {
        proof {
            lemma_take_step(cs@, i as int);
        }
        let c = &cs[i];
        let ghost before = views(lines@);
        let mut segs: Vec<Segment> = Vec::new();
        segs.push(Segment { text: author_exec(&c.author), tone: Tone::Strong });
        segs.push(Segment { text: "  ".to_string(), tone: Tone::Plain });
        segs.push(Segment { text: truncate(c.created_at.as_str(), 32), tone: Tone::Faint });
        assert(views(segs@) =~= seq![
            (author_text(c.author), Tone::Strong),
            gap(),
            (spec_truncate(c.created_at@, 32), Tone::Faint),
        ]);
        push_line(lines, DetailLine { segments: segs });
        push_line(lines, muted_indented_line(cat("id: ", c.id.as_str()).as_str()));
        push_prefixed_block(lines, c.text.as_str(), "    ");
        match &c.updated_at {
            Some(u) => push_line(lines, muted_indented_line(cat("updated: ", u.as_str()).as_str())),
            None => {},
        }
        push_line(lines, blank());
        assert(views(lines@) =~= before + comment_entry(*c));
        i = i + 1;
    }
    assert(cs@.take(i as int) =~= cs@);
}

impl ExplorerState {
    /// Appends the comments section of card `card_id`.
    fn push_comments(&self, lines: &mut Vec<DetailLine>, card_id: &str)
        ensures
            views(final(lines)@) == views(old(lines)@) + comment_section(self, card_id@),
    {
        match self.card_comments.get(card_id) {
            Some(cs) => {
                if cs.len() == 0 {
                    push_line(lines, empty_state_line("No comments."));
                } else {
                    let ghost start = views(lines@);
                    push_comment_entries(lines, cs);
                    proof {
                        lemma_comment_lines_len(cs@);
                    }
                    let ghost full = views(lines@);
                    lines.pop();
                    assert(views(lines@) =~= full.drop_last());
                    assert(views(lines@) =~= start + comment_lines(cs@).drop_last());
                }
            },
            None => {
                if self.loading_card_comments.contains(card_id) {
                    push_line(lines, empty_state_line("Loading comments…"));
                } else {
                    match self.card_comment_errors.get(card_id) {
                        Some(message) => push_line(
                            lines,
                            empty_state_line(cat("Failed to load comments: ", message.as_str()).as_str()),
                        ),
                        None => push_line(lines, empty_state_line("Comments will load when card is selected.")),
                    }
                }
            },
        }
        assert(views(lines@) =~= views(old(lines)@) + comment_section(self, card_id@));
    }

    /// The head of a card's pane, down to the description heading.
    fn card_head_lines(
        &self,
        p: &ProjectTree,
        b: &BoardSummary,
        l: &ListSummary,
        c: &CardSummary,
        draft: Option<&CardDraft>,
    ) -> (r: Vec<DetailLine>)
        requires
            match draft {
                Some(d) => draft_for(self, c.id@) == Some(*d),
                None => draft_for(self, c.id@) is None,
            },
        ensures
            views(r@) == card_head(self, *p, *b, *l, *c),
    {
        let mut lines: Vec<DetailLine> = Vec::new();
        let title: &str = match draft {
            Some(x) => x.draft_title.as_str(),
            None => c.name.as_str(),
        };
        push_line(&mut lines, title_line("card"));
        push_line(&mut lines, header_line(title));
        push_line(&mut lines, self.card_chips_line(c, draft));
        push_line(&mut lines, id_line("card", c.id.as_str()));
        push_line(&mut lines, blank());
        push_line(&mut lines, section_line("Context"));
        push_line(&mut lines, context_line("list", l.name.as_str(), l.id.as_str()));
        push_line(&mut lines, context_line("board", b.name.as_str(), b.id.as_str()));
        push_line(&mut lines, context_line("project", p.name.as_str(), p.id.as_str()));
        push_line(&mut lines, blank());
        push_line(&mut lines, section_line("Metadata"));
        let creator = author_exec(&c.creator);
        push_line(&mut lines, kv_line("creator", creator.as_str()));
        let labels = if c.labels.len() == 0 {
            "none".to_string()
        } else {
            join_label_names(c.labels.as_slice())
        };
        push_line(&mut lines, kv_line("labels", labels.as_str()));
        let assignees = if c.assignees.len() == 0 {
            "none".to_string()
        } else {
            join_user_names(c.assignees.as_slice())
        };
        push_line(&mut lines, kv_line("assignees", assignees.as_str()));
        let mut comments = String::new();
        push_decimal(&mut comments, c.comments_total as u64);
        push_line(&mut lines, kv_line("comments", comments.as_str()));
        push_line(&mut lines, blank());
        push_line(&mut lines, section_line("Description"));
        assert(views(lines@) =~= card_head(self, *p, *b, *l, *c));
        lines
    }

    /// Appends the state of the card's edits.
    fn push_editing_note(&self, lines: &mut Vec<DetailLine>, c: &CardSummary, draft: Option<&CardDraft>)
        requires
            match draft {
                Some(d) => draft_for(self, c.id@) == Some(*d),
                None => draft_for(self, c.id@) is None,
            },
        ensures
            views(final(lines)@) == views(old(lines)@) + editing_note(self, c.id@, draft_for(self, c.id@)),
    {
        let saving = match &self.saving_card {
            Some(id) => str_eq(id.as_str(), c.id.as_str()),
            None => false,
        };
        if saving {
            push_line(
                lines,
                muted_line("Saving current card changes to Planka server… controls are paused until response."),
            );
        } else {
            match draft {
                Some(x) => {
                    if x.is_dirty() {
                        if x.remote_changed {
                            push_line(
                                lines,
                                muted_line(
                                    "Local draft differs from base snapshot. Remote changes also arrived while dirty.",
                                ),
                            );
                            proof {
                                reveal_strlit("Local draft differs from base snapshot. Remote changes also arrived while dirty.");
                                reveal_strlit("Local draft differs from base snapshot.");
                                reveal_strlit(" Remote changes also arrived while dirty.");
                                assert("Local draft differs from base snapshot. Remote changes also arrived while dirty."@
                                    =~= "Local draft differs from base snapshot."@ + " Remote changes also arrived while dirty."@);
                            }
                        } else {
                            push_line(lines, muted_line("Local draft differs from base snapshot."));
                            proof {
                                reveal_strlit("");
                                assert("Local draft differs from base snapshot."@ + ""@ =~= "Local draft differs from base snapshot."@);
                            }
                        }
                    }
                },
                None => {},
            }
        }
        assert(views(lines@) =~= views(old(lines)@) + editing_note(self, c.id@, draft_for(self, c.id@)));
    }

    /// The detail pane of card `c` in list `l` of board `b` of project `p`.
    fn card_detail_lines(
        &self,
        p: &ProjectTree,
        b: &BoardSummary,
        l: &ListSummary,
        c: &CardSummary,
    ) -> (r: Vec<DetailLine>)
        ensures
            views(r@) == card_detail(self, *p, *b, *l, *c),
    {
        let draft = self.current_card_draft(c.id.as_str());
        let ghost d = draft_for(self, c.id@);
        assert(match draft {
            Some(x) => d == Some(*x),
            None => d is None,
        });
        let mut lines = self.card_head_lines(p, b, l, c, draft);
        let description = shown_description_exec(c, draft);
        push_text_block(&mut lines, description, "No card description.");
        let ghost s1 = views(lines@);
        push_line(&mut lines, blank());
        push_line(&mut lines, section_line("Attachments"));
        push_attachments(&mut lines, &c.attachments);
        push_line(&mut lines, blank());
        push_line(&mut lines, section_line("Tasks"));
        push_tasks(&mut lines, &c.task_lists);
        let ghost s2 = views(lines@);
        assert(s2 =~= s1 + seq![ln_blank(), ln_section("Attachments"@)] + attachments_section(c.attachments@) + seq![
            ln_blank(),
            ln_section("Tasks"@),
        ] + tasks_section(c.task_lists@));
        push_line(&mut lines, blank());
        push_line(&mut lines, section_line("Comments"));
        self.push_comments(&mut lines, c.id.as_str());
        push_line(&mut lines, blank());
        push_line(&mut lines, section_line("Editing"));
        push_line(
            &mut lines,
            muted_line(
                "e edits title inline • E opens description in $EDITOR and saves on exit • Ctrl-s saves • Ctrl-x discards",
            ),
        );
        self.push_editing_note(&mut lines, c, draft);
        assert(views(lines@) =~= s2 + seq![ln_blank(), ln_section("Comments"@)] + comment_section(self, c.id@) + seq![
            ln_blank(),
            ln_section("Editing"@),
            ln_muted(edit_help()),
        ] + editing_note(self, c.id@, d));
        lines
    }

    /// The detail pane of the first card with id `card_id`.
    pub fn card_pane_lines(&self, card_id: &str) -> (r: Vec<DetailLine>)
        ensures
            views(r@) == card_pane(self, card_id@),
    {
        match self.locate_board(BoardQuery::WithCard, card_id) {
            Some((pi, bi)) => {
                proof {
                    crate::lookup::lemma_locate_board_range(self.projects@, BoardQuery::WithCard, card_id@);
                }
                let p = &self.projects[pi];
                let b = &p.boards[bi];
                match b.locate_card(card_id) {
                    Some((li, ci)) => {
                        proof {
                            crate::board::lemma_locate_card_range_pub(b@.lists, card_id@);
                            assert(b@.lists[li as int] == b.active_lists@[li as int]@);
                        }
                        let l = &b.active_lists[li];
                        self.card_detail_lines(p, b, l, &l.cards[ci])
                    },
                    None => {
                        let mut v: Vec<DetailLine> = Vec::new();
                        push_line(&mut v, plain("Selected card is no longer available."));
                        assert(views(v@) =~= card_pane(self, card_id@));
                        v
                    },
                }
            },
            None => {
                let mut v: Vec<DetailLine> = Vec::new();
                push_line(&mut v, plain("Selected card is no longer available."));
                assert(views(v@) =~= card_pane(self, card_id@));
                v
            },
        }
    }
}

/// Appends one bullet per board among the first `n` boards.
fn push_board_bullets(st: &ExplorerState, lines: &mut Vec<DetailLine>, boards: &Vec<BoardSummary>, n: usize)
    ensures
        views(final(lines)@) == views(old(lines)@) + board_bullets(st, first_n(boards@, n as nat)),
{
    let ghost start = views(lines@);
    let ghost s = first_n(boards@, n as nat);
    let mut i: usize = 0;
    assert(start + board_bullets(st, s.take(0)) =~= start);
    while i < boards.len() && i < n
        invariant
            i <= boards.len(),
            i <= n,
            s == first_n(boards@, n as nat),
            s.len() == if boards.len() <= n { boards@.len() } else { n as nat },
            forall|k: int| 0 <= k < s.len() ==> s[k] == boards@[k],
            views(lines@) == start + board_bullets(st, s.take(i as int)),
        decreases boards.len() - i,
    {
        proof {
            lemma_take_step(s, i as int);
        }
        let b = &boards[i];
        let word = if st.is_live_connected(b.id.as_str()) {
            "live"
        } else if st.is_live_target(b.id.as_str()) {
            "live target"
        } else if b.is_loaded() {
            "loaded"
        } else {
            "stub"
        };
        let meta = cat3(word, " • ", b.id.as_str());
        push_line(lines, bullet_line(b.name.as_str(), meta.as_str()));
        i = i + 1;
    }
    assert(s.take(i as int) =~= s);
}

/// The number of loaded boards.
fn count_loaded_exec(boards: &Vec<BoardSummary>) -> (r: usize)
    ensures
        r == count_loaded(boards@),
{
    let mut n: usize = 0;
    let mut i: usize = 0;
    while i < boards.len()
        invariant
            i <= boards.len(),
            n == count_loaded(boards@.take(i as int)),
            n <= i,
        decreases boards.len() - i,
    {
        proof {
            lemma_take_step(boards@, i as int);
        }
        if boards[i].is_loaded() {
            n = n + 1;
        }
        i = i + 1;
    }
    assert(boards@.take(i as int) =~= boards@);
    n
}

/// Appends one bullet per list among the first `n` lists.
fn push_list_bullets(lines: &mut Vec<DetailLine>, lists: &Vec<ListSummary>, n: usize)
    ensures
        views(final(lines)@) == views(old(lines)@) + list_bullets(first_n(lists@, n as nat)),
{
    let ghost start = views(lines@);
    let ghost s = first_n(lists@, n as nat);
    let mut i: usize = 0;
    assert(start + list_bullets(s.take(0)) =~= start);
    while i < lists.len() && i < n
        invariant
            i <= lists.len(),
            i <= n,
            s == first_n(lists@, n as nat),
            s.len() == if lists.len() <= n { lists@.len() } else { n as nat },
            forall|k: int| 0 <= k < s.len() ==> s[k] == lists@[k],
            views(lines@) == start + list_bullets(s.take(i as int)),
        decreases lists.len() - i,
    {
        proof {
            lemma_take_step(s, i as int);
        }
        let l = &lists[i];
        let mut meta = String::new();
        push_decimal(&mut meta, l.active_card_count as u64);
        push_str(&mut meta, " active • ");
        push_decimal(&mut meta, l.closed_card_count as u64);
        push_str(&mut meta, " closed • ");
        push_str(&mut meta, l.id.as_str());
        push_line(lines, bullet_line(l.name.as_str(), meta.as_str()));
        i = i + 1;
    }
    assert(s.take(i as int) =~= s);
}

/// Appends one bullet per label among the first `n` labels.
fn push_label_bullets(lines: &mut Vec<DetailLine>, labels: &Vec<LabelSummary>, n: usize)
    ensures
        views(final(lines)@) == views(old(lines)@) + label_bullets(first_n(labels@, n as nat)),
{
    let ghost start = views(lines@);
    let ghost s = first_n(labels@, n as nat);
    let mut i: usize = 0;
    assert(start + label_bullets(s.take(0)) =~= start);
    while i < labels.len() && i < n
        invariant
            i <= labels.len(),
            i <= n,
            s == first_n(labels@, n as nat),
            s.len() == if labels.len() <= n { labels@.len() } else { n as nat },
            forall|k: int| 0 <= k < s.len() ==> s[k] == labels@[k],
            views(lines@) == start + label_bullets(s.take(i as int)),
        decreases labels.len() - i,
    {
        proof {
            lemma_take_step(s, i as int);
        }
        let lab = &labels[i];
        let mut meta = String::new();
        push_str(&mut meta, "color=");
        match &lab.color {
            Some(c) => push_str(&mut meta, c.as_str()),
            None => push_str(&mut meta, "?"),
        }
        push_str(&mut meta, " • ");
        push_str(&mut meta, lab.id.as_str());
        push_line(lines, bullet_line(lab.name.as_str(), meta.as_str()));
        i = i + 1;
    }
    assert(s.take(i as int) =~= s);
}

/// Appends one bullet per member among the first `n` members.
fn push_member_bullets(lines: &mut Vec<DetailLine>, users: &Vec<UserSummary>, n: usize)
    ensures
        views(final(lines)@) == views(old(lines)@) + member_bullets(first_n(users@, n as nat)),
{
    let ghost start = views(lines@);
    let ghost s = first_n(users@, n as nat);
    let mut i: usize = 0;
    assert(start + member_bullets(s.take(0)) =~= start);
    while i < users.len() && i < n
        invariant
            i <= users.len(),
            i <= n,
            s == first_n(users@, n as nat),
            s.len() == if users.len() <= n { users@.len() } else { n as nat },
            forall|k: int| 0 <= k < s.len() ==> s[k] == users@[k],
            views(lines@) == start + member_bullets(s.take(i as int)),
        decreases users.len() - i,
    {
        proof {
            lemma_take_step(s, i as int);
        }
        let u = &users[i];
        let mut meta = String::new();
        push_str(&mut meta, "@");
        push_str(&mut meta, u.username.as_str());
        push_str(&mut meta, " • ");
        push_str(&mut meta, u.id.as_str());
        push_line(lines, bullet_line(u.name.as_str(), meta.as_str()));
        i = i + 1;
    }
    assert(s.take(i as int) =~= s);
}

/// What a list's pane shows after a card's name.
fn card_bullet_meta_exec(c: &CardSummary) -> (r: String)
    ensures
        r@ == card_bullet_meta(*c),
{
    let mut parts: Vec<String> = Vec::new();
    if c.labels.len() > 0 {
        parts.push(join_label_names(c.labels.as_slice()));
    }
    let ghost p1 = parts.deep_view();
    if c.is_closed {
        parts.push("closed".to_string());
    }
    let ghost p2 = parts.deep_view();
    parts.push(c.id.clone());
    proof {
        let a: Seq<Seq<char>> = if c.labels@.len() == 0 {
            Seq::empty()
        } else {
            seq![spec_join_label_names(c.labels@)]
        };
        let b: Seq<Seq<char>> = if c.is_closed {
            seq!["closed"@]
        } else {
            Seq::empty()
        };
        assert(p1 =~= a);
        assert(p2 =~= a + b);
        assert(parts.deep_view() =~= a + b + seq![c.id@]);
    }
    join_strings(&parts, " • ")
}

/// Appends one bullet per card among the first `n` cards.
fn push_card_bullets(lines: &mut Vec<DetailLine>, cards: &Vec<CardSummary>, n: usize)
    ensures
        views(final(lines)@) == views(old(lines)@) + card_bullets(first_n(cards@, n as nat)),
{
    let ghost start = views(lines@);
    let ghost s = first_n(cards@, n as nat);
    let mut i: usize = 0;
    assert(start + card_bullets(s.take(0)) =~= start);
    while i < cards.len() && i < n
        invariant
            i <= cards.len(),
            i <= n,
            s == first_n(cards@, n as nat),
            s.len() == if cards.len() <= n { cards@.len() } else { n as nat },
            forall|k: int| 0 <= k < s.len() ==> s[k] == cards@[k],
            views(lines@) == start + card_bullets(s.take(i as int)),
        decreases cards.len() - i,
    {
        proof {
            lemma_take_step(s, i as int);
        }
        let c = &cards[i];
        let meta = card_bullet_meta_exec(c);
        push_line(lines, bullet_line(c.name.as_str(), meta.as_str()));
        i = i + 1;
    }
    assert(s.take(i as int) =~= s);
}

/// Appends one bullet per grouped card among the first `n` cards.
fn push_group_card_bullets(lines: &mut Vec<DetailLine>, cards: &Vec<LabelGroupCard>, n: usize)
    ensures
        views(final(lines)@) == views(old(lines)@) + group_card_bullets(first_n(views(cards@), n as nat)),
{
    let ghost start = views(lines@);
    let ghost s = first_n(views(cards@), n as nat);
    let mut i: usize = 0;
    assert(start + group_card_bullets(s.take(0)) =~= start);
    while i < cards.len() && i < n
        invariant
            i <= cards.len(),
            i <= n,
            s == first_n(views(cards@), n as nat),
            s.len() == if cards.len() <= n { cards@.len() } else { n as nat },
            forall|k: int| 0 <= k < s.len() ==> s[k] == cards@[k]@,
            views(lines@) == start + group_card_bullets(s.take(i as int)),
        decreases cards.len() - i,
    {
        proof {
            lemma_take_step(s, i as int);
        }
        let gc = &cards[i];
        let mut meta = String::new();
        push_str(&mut meta, gc.list_name.as_str());
        if gc.is_closed {
            push_str(&mut meta, " • closed");
        } else {
            push_str(&mut meta, "");
        }
        push_str(&mut meta, " • ");
        push_str(&mut meta, gc.card_id.as_str());
        push_line(lines, bullet_line(gc.card_name.as_str(), meta.as_str()));
        i = i + 1;
    }
    assert(s.take(i as int) =~= s);
}

impl ExplorerState {
    /// The index of the first project with id `id`.
    fn project_position(&self, id: &str) -> (r: Option<usize>)
        ensures
            match r {
                Some(i) => i as int == project_index(self.projects@, id@) && i < self.projects@.len(),
                None => project_index(self.projects@, id@) == -1,
            },
    {
        let ghost ps = self.projects@;
        let mut i: usize = 0;
        assert(ps.take(0) =~= Seq::<ProjectTree>::empty());
        while i < self.projects.len()
            invariant
                i <= self.projects.len(),
                ps == self.projects@,
                project_index(ps.take(i as int), id@) == -1,
            decreases self.projects.len() - i,
        {
            assert(ps.take(i + 1).drop_last() =~= ps.take(i as int));
            if str_eq(self.projects[i].id.as_str(), id) {
                assert(project_index(ps.take(i + 1), id@) == i as int);
                proof {
                    crate::actions::lemma_project_index_extends(ps, id@, i + 1);
                }
                return Some(i);
            }
            i = i + 1;
        }
        assert(ps.take(i as int) =~= ps);
        None
    }

    /// The detail pane of the first project with id `id`.
    pub fn project_pane_lines(&self, id: &str) -> (r: Vec<DetailLine>)
        ensures
            views(r@) == project_pane(self, id@),
    {
        let mut lines: Vec<DetailLine> = Vec::new();
        match self.project_position(id) {
            None => {
                push_line(&mut lines, plain("Selected project is no longer available."));
                assert(views(lines@) =~= project_pane(self, id@));
            },
            Some(i) => {
                let p = &self.projects[i];
                push_line(&mut lines, title_line("project"));
                push_line(&mut lines, header_line(p.name.as_str()));
                push_line(&mut lines, id_line("project", p.id.as_str()));
                push_line(&mut lines, blank());
                push_line(&mut lines, section_line("Summary"));
                let loaded = count_loaded_exec(&p.boards);
                let mut summary = String::new();
                push_decimal(&mut summary, p.boards.len() as u64);
                push_str(&mut summary, " total • ");
                push_decimal(&mut summary, loaded as u64);
                push_str(&mut summary, " loaded");
                push_line(&mut lines, kv_line("boards", summary.as_str()));
                push_line(&mut lines, blank());
                push_line(&mut lines, section_line("Description"));
                let ghost head = views(lines@);
                let description: Option<&str> = match &p.description {
                    Some(t) => Some(t.as_str()),
                    None => None,
                };
                push_text_block(&mut lines, description, "No project description.");
                push_line(&mut lines, blank());
                push_line(&mut lines, section_line("Boards"));
                push_board_bullets(self, &mut lines, &p.boards, 12);
                assert(views(lines@) =~= project_detail(self, *p));
            },
        }
        lines
    }

    /// The detail pane of board `b` of project `p`.
    fn board_detail_lines(&self, p: &ProjectTree, b: &BoardSummary) -> (r: Vec<DetailLine>)
        ensures
            views(r@) == board_detail(self, *p, *b),
    {
        let mut lines: Vec<DetailLine> = Vec::new();
        push_line(&mut lines, title_line("board"));
        push_line(&mut lines, header_line(b.name.as_str()));
        push_line(&mut lines, id_line("board", b.id.as_str()));
        push_line(&mut lines, context_line("project", p.name.as_str(), p.id.as_str()));
        push_line(&mut lines, blank());
        push_line(&mut lines, section_line("Summary"));
        let status = if self.is_live_connected(b.id.as_str()) {
            "live subscribed"
        } else if self.is_live_target(b.id.as_str()) {
            "switching live target"
        } else {
            "loaded by snapshot"
        };
        push_line(&mut lines, kv_line("status", status));
        let ghost head = views(lines@);
        if b.is_loaded() {
            let mut cards = String::new();
            push_decimal(&mut cards, b.active_card_count as u64);
            push_str(&mut cards, " active • ");
            push_decimal(&mut cards, b.closed_card_count as u64);
            push_str(&mut cards, " closed");
            push_line(&mut lines, kv_line("cards", cards.as_str()));
            let mut n_lists = String::new();
            push_decimal(&mut n_lists, b.active_lists.len() as u64);
            push_line(&mut lines, kv_line("lists", n_lists.as_str()));
            let mut n_labels = String::new();
            push_decimal(&mut n_labels, b.labels.len() as u64);
            push_line(&mut lines, kv_line("labels", n_labels.as_str()));
            let mut n_members = String::new();
            push_decimal(&mut n_members, b.members.len() as u64);
            push_line(&mut lines, kv_line("members", n_members.as_str()));
            push_line(&mut lines, blank());
            push_line(&mut lines, section_line("Lists"));
            push_list_bullets(&mut lines, &b.active_lists, 10);
            let ghost mid = views(lines@);
            push_line(&mut lines, blank());
            push_line(&mut lines, section_line("Labels"));
            if b.labels.len() == 0 {
                push_line(&mut lines, empty_state_line("No labels."));
            } else {
                push_label_bullets(&mut lines, &b.labels, 8);
            }
            push_line(&mut lines, blank());
            push_line(&mut lines, section_line("Members"));
            push_member_bullets(&mut lines, &b.members, 8);
            assert(views(lines@) =~= head + loaded_board_lines(*b));
        } else {
            push_line(&mut lines, blank());
            push_line(&mut lines, section_line("Load state"));
            push_line(
                &mut lines,
                muted_line("Board known from project snapshot, but richer list/card detail not loaded yet."),
            );
            push_line(&mut lines, muted_line("Press → or Enter to lazy-load this board snapshot over HTTP."));
            push_line(&mut lines, muted_line("Press L on a board node to toggle websocket live sync for that board."));
            assert(views(lines@) =~= head + unloaded_board_lines());
        }
        lines
    }

    /// The detail pane of the first board with id `id`.
    pub fn board_pane_lines(&self, id: &str) -> (r: Vec<DetailLine>)
        ensures
            views(r@) == board_pane(self, id@),
    {
        match self.locate_board(BoardQuery::WithId, id) {
            Some((pi, bi)) => {
                proof {
                    crate::lookup::lemma_locate_board_range(self.projects@, BoardQuery::WithId, id@);
                }
                self.board_detail_lines(&self.projects[pi], &self.projects[pi].boards[bi])
            },
            None => {
                let mut v: Vec<DetailLine> = Vec::new();
                push_line(&mut v, plain("Selected board is no longer available."));
                assert(views(v@) =~= board_pane(self, id@));
                v
            },
        }
    }

    /// The detail pane of list `l` of board `b` of project `p`.
    fn list_detail_lines(&self, p: &ProjectTree, b: &BoardSummary, l: &ListSummary) -> (r: Vec<DetailLine>)
        ensures
            views(r@) == list_detail(*p, *b, *l),
    {
        let mut lines: Vec<DetailLine> = Vec::new();
        push_line(&mut lines, title_line("list"));
        push_line(&mut lines, header_line(l.name.as_str()));
        push_line(&mut lines, id_line("list", l.id.as_str()));
        push_line(&mut lines, context_line("board", b.name.as_str(), b.id.as_str()));
        push_line(&mut lines, context_line("project", p.name.as_str(), p.id.as_str()));
        push_line(&mut lines, blank());
        push_line(&mut lines, section_line("Summary"));
        let mut cards = String::new();
        push_decimal(&mut cards, l.card_count as u64);
        push_str(&mut cards, " total • ");
        push_decimal(&mut cards, l.active_card_count as u64);
        push_str(&mut cards, " active • ");
        push_decimal(&mut cards, l.closed_card_count as u64);
        push_str(&mut cards, " closed");
        push_line(&mut lines, kv_line("cards", cards.as_str()));
        push_line(&mut lines, blank());
        push_line(&mut lines, section_line("Cards in list"));
        push_card_bullets(&mut lines, &l.cards, 14);
        assert(views(lines@) =~= list_detail(*p, *b, *l));
        lines
    }

    /// The detail pane of the first list with id `id`.
    pub fn list_pane_lines(&self, id: &str) -> (r: Vec<DetailLine>)
        ensures
            views(r@) == list_pane(self, id@),
    {
        match self.locate_board(BoardQuery::WithList, id) {
            Some((pi, bi)) => {
                proof {
                    crate::lookup::lemma_locate_board_range(self.projects@, BoardQuery::WithList, id@);
                }
                let p = &self.projects[pi];
                let b = &p.boards[bi];
                match crate::board::list_index_exec(&b.active_lists, id) {
                    Some(li) => {
                        proof {
                            crate::board::lemma_list_index_in_range(b@.lists, id@);
                        }
                        self.list_detail_lines(p, b, &b.active_lists[li])
                    },
                    None => {
                        let mut v: Vec<DetailLine> = Vec::new();
                        push_line(&mut v, plain("Selected list is no longer available."));
                        assert(views(v@) =~= list_pane(self, id@));
                        v
                    },
                }
            },
            None => {
                let mut v: Vec<DetailLine> = Vec::new();
                push_line(&mut v, plain("Selected list is no longer available."));
                assert(views(v@) =~= list_pane(self, id@));
                v
            },
        }
    }
}

proof fn lemma_group_site_extends(projects: Seq<ProjectTree>, board_id: Seq<char>, list_id: Seq<char>, k: int)
    requires
        0 <= k <= projects.len(),
        group_site(projects.take(k), board_id, list_id) is Some,
    ensures
        group_site(projects, board_id, list_id) == group_site(projects.take(k), board_id, list_id),
    decreases projects.len() - k,
{
    if k < projects.len() {
        assert(projects.take(k + 1).drop_last() =~= projects.take(k));
        lemma_group_site_extends(projects, board_id, list_id, k + 1);
    } else {
        assert(projects.take(k) =~= projects);
    }
}

proof fn lemma_group_site_range(projects: Seq<ProjectTree>, board_id: Seq<char>, list_id: Seq<char>)
    ensures
        group_site(projects, board_id, list_id) matches Some((pi, bi, li)) ==> 0 <= pi < projects.len() && 0 <= bi
            < projects[pi].boards@.len() && 0 <= li < projects[pi].boards@[bi].active_lists@.len(),
    decreases projects.len(),
{
    if projects.len() > 0 {
        lemma_group_site_range(projects.drop_last(), board_id, list_id);
        match group_site(projects.drop_last(), board_id, list_id) {
            Some((pi, bi, li)) => {
                assert(projects.drop_last()[pi] == projects[pi]);
            },
            None => {
                let p = projects.last();
                crate::lookup::lemma_board_index_range(views(p.boards@), BoardQuery::WithId, board_id);
                let bi = board_index_where(views(p.boards@), BoardQuery::WithId, board_id);
                if bi >= 0 {
                    crate::board::lemma_list_index_in_range(p.boards@[bi]@.lists, list_id);
                }
            },
        }
    }
}

proof fn lemma_group_index_range(groups: Seq<LabelGroupView>, label_id: Option<Seq<char>>)
    ensures
        -1 <= group_index(groups, label_id) < groups.len(),
    decreases groups.len(),
{
    if groups.len() > 0 {
        lemma_group_index_range(groups.drop_last(), label_id);
    }
}

/// The index of the first board of `boards` with id `id`.
fn board_position(boards: &Vec<BoardSummary>, id: &str) -> (r: Option<usize>)
    ensures
        match r {
            Some(i) => i as int == board_index_where(views(boards@), BoardQuery::WithId, id@) && i < boards@.len(),
            None => board_index_where(views(boards@), BoardQuery::WithId, id@) == -1,
        },
{
    let ghost bs = views(boards@);
    let mut i: usize = 0;
    assert(bs.take(0) =~= Seq::<crate::board::BoardView>::empty());
    while i < boards.len()
        invariant
            i <= boards.len(),
            bs == views(boards@),
            board_index_where(bs.take(i as int), BoardQuery::WithId, id@) == -1,
        decreases boards.len() - i,
    {
        assert(bs.take(i + 1).drop_last() =~= bs.take(i as int));
        assert(bs[i as int] == boards@[i as int]@);
        if str_eq(boards[i].id.as_str(), id) {
            assert(board_index_where(bs.take(i + 1), BoardQuery::WithId, id@) == i as int);
            proof {
                crate::lookup::lemma_board_index_extends(bs, BoardQuery::WithId, id@, i + 1);
            }
            return Some(i);
        }
        i = i + 1;
    }
    assert(bs.take(i as int) =~= bs);
    None
}

/// The index of the first group with the label.
fn group_position(groups: &Vec<LabelGroupSummary>, label_id: Option<&str>) -> (r: Option<usize>)
    ensures
        match r {
            Some(i) => i as int == group_index(views(groups@), crate::config::opt_view(label_id)) && i < groups@.len(),
            None => group_index(views(groups@), crate::config::opt_view(label_id)) == -1,
        },
{
    let ghost gs = views(groups@);
    let ghost want = crate::config::opt_view(label_id);
    let mut i: usize = 0;
    assert(gs.take(0) =~= Seq::<LabelGroupView>::empty());
    while i < groups.len()
        invariant
            i <= groups.len(),
            gs == views(groups@),
            want == crate::config::opt_view(label_id),
            group_index(gs.take(i as int), want) == -1,
        decreases groups.len() - i,
    {
        assert(gs.take(i + 1).drop_last() =~= gs.take(i as int));
        assert(gs[i as int] == groups@[i as int]@);
        let same = match (&groups[i].label_id, label_id) {
            (Some(a), Some(b)) => str_eq(a.as_str(), b),
            (None, None) => true,
            _ => false,
        };
        if same {
            assert(group_index(gs.take(i + 1), want) == i as int);
            proof {
                lemma_group_index_extends(gs, want, i + 1);
            }
            return Some(i);
        }
        i = i + 1;
    }
    assert(gs.take(i as int) =~= gs);
    None
}

proof fn lemma_group_index_extends(groups: Seq<LabelGroupView>, label_id: Option<Seq<char>>, k: int)
    requires
        0 <= k <= groups.len(),
        group_index(groups.take(k), label_id) >= 0,
    ensures
        group_index(groups, label_id) == group_index(groups.take(k), label_id),
    decreases groups.len() - k,
{
    if k < groups.len() {
        assert(groups.take(k + 1).drop_last() =~= groups.take(k));
        lemma_group_index_extends(groups, label_id, k + 1);
    } else {
        assert(groups.take(k) =~= groups);
    }
}

/// The detail pane of label group `g` of list `l` of board `b` of project `p`.
fn label_group_detail_lines(p: &ProjectTree, b: &BoardSummary, l: &ListSummary, g: &LabelGroupSummary) -> (r: Vec<
    DetailLine,
>)
    ensures
        views(r@) == label_group_detail(*p, *b, *l, g@),
{
    let mut lines: Vec<DetailLine> = Vec::new();
    push_line(&mut lines, title_line("label group"));
    push_line(&mut lines, header_line(g.label_name.as_str()));
    push_line(&mut lines, context_line("list", l.name.as_str(), l.id.as_str()));
    push_line(&mut lines, context_line("board", b.name.as_str(), b.id.as_str()));
    push_line(&mut lines, context_line("project", p.name.as_str(), p.id.as_str()));
    push_line(&mut lines, blank());
    push_line(&mut lines, section_line("Summary"));
    let mut cards = String::new();
    push_decimal(&mut cards, g.active_card_count as u64);
    push_str(&mut cards, " active • ");
    push_decimal(&mut cards, g.closed_card_count as u64);
    push_str(&mut cards, " closed • ");
    push_decimal(&mut cards, g.cards.len() as u64);
    push_str(&mut cards, " total");
    assert(g@.cards.len() == g.cards@.len());
    push_line(&mut lines, kv_line("cards", cards.as_str()));
    let ghost head = views(lines@);
    match &g.label_id {
        Some(id) => {
            push_line(&mut lines, kv_line("label id", id.as_str()));
            match &g.color {
                Some(c) => push_line(&mut lines, kv_line("color", c.as_str())),
                None => push_line(&mut lines, kv_line("color", "none")),
            }
        },
        None => push_line(&mut lines, kv_line("bucket", "cards without labels")),
    }
    let ghost mid = views(lines@);
    push_line(&mut lines, blank());
    push_line(&mut lines, section_line("Cards"));
    if g.cards.len() == 0 {
        push_line(&mut lines, empty_state_line("No cards in this label group."));
    } else {
        push_group_card_bullets(&mut lines, &g.cards, 16);
    }
    assert(views(lines@) =~= label_group_detail(*p, *b, *l, g@));
    lines
}

impl ExplorerState {
    /// Where a label group's list lies.
    fn group_site_exec(&self, board_id: &str, list_id: &str) -> (r: Option<(usize, usize, usize)>)
        ensures
            match r {
                Some((pi, bi, li)) => group_site(self.projects@, board_id@, list_id@) == Some(
                    (pi as int, bi as int, li as int),
                ),
                None => group_site(self.projects@, board_id@, list_id@) is None,
            },
    {
        let ghost ps = self.projects@;
        let mut i: usize = 0;
        assert(ps.take(0) =~= Seq::<ProjectTree>::empty());
        while i < self.projects.len()
            invariant
                i <= self.projects.len(),
                ps == self.projects@,
                group_site(ps.take(i as int), board_id@, list_id@) is None,
            decreases self.projects.len() - i,
        {
            assert(ps.take(i + 1).drop_last() =~= ps.take(i as int));
            assert(ps.take(i + 1).last() == ps[i as int]);
            let p = &self.projects[i];
            match board_position(&p.boards, board_id) {
                Some(bi) => {
                    assert(views(p.boards@)[bi as int] == p.boards@[bi as int]@);
                    match crate::board::list_index_exec(&p.boards[bi].active_lists, list_id) {
                        Some(li) => {
                            assert(group_site(ps.take(i + 1), board_id@, list_id@) == Some(
                                (i as int, bi as int, li as int),
                            ));
                            proof {
                                lemma_group_site_extends(ps, board_id@, list_id@, i + 1);
                            }
                            return Some((i, bi, li));
                        },
                        None => {},
                    }
                },
                None => {},
            }
            i = i + 1;
        }
        assert(ps.take(i as int) =~= ps);
        None
    }

    /// The detail pane of a label group.
    pub fn label_group_pane_lines(&self, board_id: &str, list_id: &str, label_id: Option<&str>) -> (r: Vec<
        DetailLine,
    >)
        ensures
            views(r@) == label_group_pane(self, board_id@, list_id@, crate::config::opt_view(label_id)),
    {
        match self.group_site_exec(board_id, list_id) {
            Some((pi, bi, li)) => {
                proof {
                    lemma_group_site_range(self.projects@, board_id@, list_id@);
                }
                let p = &self.projects[pi];
                let b = &p.boards[bi];
                let l = &b.active_lists[li];
                let groups = label_groups_for_list(b, l);
                match group_position(&groups, label_id) {
                    Some(gi) => {
                        assert(views(groups@)[gi as int] == groups@[gi as int]@);
                        label_group_detail_lines(p, b, l, &groups[gi])
                    },
                    None => {
                        let mut v: Vec<DetailLine> = Vec::new();
                        push_line(&mut v, plain("Selected label group is no longer available."));
                        assert(views(v@) =~= label_group_pane(
                            self,
                            board_id@,
                            list_id@,
                            crate::config::opt_view(label_id),
                        ));
                        v
                    },
                }
            },
            None => {
                let mut v: Vec<DetailLine> = Vec::new();
                push_line(&mut v, plain("Selected label group is no longer available."));
                assert(views(v@) =~= label_group_pane(self, board_id@, list_id@, crate::config::opt_view(label_id)));
                v
            },
        }
    }

    /// The lines of the detail pane for the selected row.
    pub fn detail_lines(&self) -> (r: Vec<DetailLine>)
        ensures
            views(r@) == detail_pane(self),
    {
        match &self.selected {
            None => {
                let mut v: Vec<DetailLine> = Vec::new();
                push_line(&mut v, plain("No selection."));
                assert(views(v@) =~= detail_pane(self));
                v
            },
            Some(TreeKey::Project(id)) => self.project_pane_lines(id.as_str()),
            Some(TreeKey::Board(id)) => self.board_pane_lines(id.as_str()),
            Some(TreeKey::List(id)) => self.list_pane_lines(id.as_str()),
            Some(TreeKey::LabelGroup { board_id, list_id, label_id }) => {
                let lab: Option<&str> = match label_id {
                    Some(x) => Some(x.as_str()),
                    None => None,
                };
                assert(crate::config::opt_view(lab) == opt_text(*label_id));
                self.label_group_pane_lines(board_id.as_str(), list_id.as_str(), lab)
            },
            Some(TreeKey::Card(id)) => self.card_pane_lines(id.as_str()),
            Some(TreeKey::GroupedCard { card_id, .. }) => self.card_pane_lines(card_id.as_str()),
        }
    }

    /// The number of lines of the detail pane.
    pub fn detail_line_count(&self) -> (r: usize)
        ensures
            r == detail_pane(self).len(),
    {
        self.detail_lines().len()
    }
}

} // verus!
