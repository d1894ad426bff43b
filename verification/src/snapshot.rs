//! A board's snapshot, as the server sends it (the board and its included
//! lists, cards, labels, users, attachments, task lists and tasks), turned
//! into the board summary the explorer shows.

use vstd::prelude::*;

use crate::board::{
    copy_label, copy_opt_text, copy_user, count_open, opt_text, opt_user, AttachmentView, BoardView, CardView,
    LabelView, ListView, TaskListView, TaskView, UserView,
};
use crate::explorer::{
    AttachmentSummary, BoardSummary, CardSummary, LabelSummary, ListSummary, TaskListSummary, TaskSummary, UserSummary,
};
use crate::order::{lemma_views_take_first, sort_stable, sorted_stable, str_less, text_less, views, SortOrder};
use crate::text::{spec_trim, str_eq, trim};

verus! {

/// The board itself (`position` as an order key).
#[derive(Debug, Clone)]
pub struct SnapshotBoard {
    pub id: String,
    pub name: String,
    pub project_id: String,
    pub position: u64,
}

/// A list; lists without a name or position are archived or trashed.
#[derive(Debug, Clone)]
pub struct SnapshotList {
    pub id: String,
    pub name: Option<String>,
    pub position: Option<u64>,
}

/// A card.
#[derive(Debug, Clone)]
pub struct SnapshotCard {
    pub id: String,
    pub list_id: String,
    pub name: String,
    pub description: Option<String>,
    pub position: u64,
    pub is_closed: bool,
    pub comments_total: usize,
    pub due_date: Option<String>,
    pub creator_user_id: Option<String>,
    pub is_subscribed: bool,
}

/// A label on a card.
#[derive(Debug, Clone)]
pub struct SnapshotCardLabel {
    pub card_id: String,
    pub label_id: String,
}

/// A member of a card.
#[derive(Debug, Clone)]
pub struct SnapshotCardMembership {
    pub card_id: String,
    pub user_id: String,
}

/// An attachment of a card.
#[derive(Debug, Clone)]
pub struct SnapshotAttachment {
    pub id: String,
    pub card_id: String,
    pub name: String,
    pub url: Option<String>,
}

/// A task list of a card.
#[derive(Debug, Clone)]
pub struct SnapshotTaskList {
    pub id: String,
    pub card_id: String,
    pub name: String,
    pub position: u64,
}

/// A task of a task list.
#[derive(Debug, Clone)]
pub struct SnapshotTask {
    pub id: String,
    pub task_list_id: String,
    pub name: String,
    pub is_completed: bool,
    pub assignee_user_id: Option<String>,
}

/// A board's snapshot.
#[derive(Debug, Clone)]
pub struct BoardSnapshot {
    pub item: SnapshotBoard,
    pub lists: Vec<SnapshotList>,
    pub cards: Vec<SnapshotCard>,
    pub labels: Vec<LabelSummary>,
    pub card_labels: Vec<SnapshotCardLabel>,
    pub card_memberships: Vec<SnapshotCardMembership>,
    pub users: Vec<UserSummary>,
    pub attachments: Vec<SnapshotAttachment>,
    pub task_lists: Vec<SnapshotTaskList>,
    pub tasks: Vec<SnapshotTask>,
}

/// A snapshot list as text.
pub struct SnapListView {
    pub id: Seq<char>,
    pub name: Option<Seq<char>>,
    pub position: Option<u64>,
}

/// A snapshot card as text.
pub struct SnapCardView {
    pub id: Seq<char>,
    pub list_id: Seq<char>,
    pub name: Seq<char>,
    pub description: Option<Seq<char>>,
    pub position: u64,
    pub is_closed: bool,
    pub comments_total: usize,
    pub due_date: Option<Seq<char>>,
    pub creator_user_id: Option<Seq<char>>,
    pub is_subscribed: bool,
}

/// A snapshot task list as text.
pub struct SnapTaskListView {
    pub id: Seq<char>,
    pub card_id: Seq<char>,
    pub name: Seq<char>,
    pub position: u64,
}

impl View for SnapshotList {
    type V = SnapListView;

    open spec fn view(&self) -> SnapListView {
        SnapListView { id: self.id@, name: opt_text(self.name), position: self.position }
    }
}

impl View for SnapshotCard {
    type V = SnapCardView;

    open spec fn view(&self) -> SnapCardView {
        SnapCardView {
            id: self.id@,
            list_id: self.list_id@,
            name: self.name@,
            description: opt_text(self.description),
            position: self.position,
            is_closed: self.is_closed,
            comments_total: self.comments_total,
            due_date: opt_text(self.due_date),
            creator_user_id: opt_text(self.creator_user_id),
            is_subscribed: self.is_subscribed,
        }
    }
}

impl View for SnapshotTaskList {
    type V = SnapTaskListView;

    open spec fn view(&self) -> SnapTaskListView {
        SnapTaskListView { id: self.id@, card_id: self.card_id@, name: self.name@, position: self.position }
    }
}

impl SortOrder for SnapshotList {
    /// Lists with a position come first, by position.
    open spec fn spec_before(a: SnapListView, b: SnapListView) -> bool {
        match (a.position, b.position) {
            (Some(x), Some(y)) => x < y,
            (Some(_), None) => true,
            _ => false,
        }
    }

    fn before(&self, other: &Self) -> (r: bool) {
        match (self.position, other.position) {
            (Some(x), Some(y)) => x < y,
            (Some(_), None) => true,
            _ => false,
        }
    }
}

impl SortOrder for SnapshotCard {
    /// Cards are listed by position.
    open spec fn spec_before(a: SnapCardView, b: SnapCardView) -> bool {
        a.position < b.position
    }

    fn before(&self, other: &Self) -> (r: bool) {
        self.position < other.position
    }
}

impl SortOrder for SnapshotTaskList {
    /// Task lists are ranked by position first.
    open spec fn spec_before(a: SnapTaskListView, b: SnapTaskListView) -> bool {
        a.position < b.position
    }

    fn before(&self, other: &Self) -> (r: bool) {
        self.position < other.position
    }
}

impl SortOrder for AttachmentSummary {
    /// Attachments are listed by name.
    open spec fn spec_before(a: AttachmentView, b: AttachmentView) -> bool {
        text_less(a.name, b.name)
    }

    fn before(&self, other: &Self) -> (r: bool) {
        str_less(self.name.as_str(), other.name.as_str())
    }
}

impl SortOrder for TaskSummary {
    /// Tasks are listed by name.
    open spec fn spec_before(a: TaskView, b: TaskView) -> bool {
        text_less(a.name, b.name)
    }

    fn before(&self, other: &Self) -> (r: bool) {
        str_less(self.name.as_str(), other.name.as_str())
    }
}

impl SortOrder for TaskListSummary {
    /// A card's task lists are listed by name.
    open spec fn spec_before(a: TaskListView, b: TaskListView) -> bool {
        text_less(a.name, b.name)
    }

    fn before(&self, other: &Self) -> (r: bool) {
        str_less(self.name.as_str(), other.name.as_str())
    }
}

/// The last label of `labels` with id `id`.
pub open spec fn last_label(labels: Seq<LabelView>, id: Seq<char>) -> Option<LabelView>
    decreases labels.len(),
{
    if labels.len() == 0 {
        None
    } else if labels.last().id == id {
        Some(labels.last())
    } else {
        last_label(labels.drop_last(), id)
    }
}

/// The last user of `users` with id `id`.
pub open spec fn last_user(users: Seq<UserView>, id: Seq<char>) -> Option<UserView>
    decreases users.len(),
{
    if users.len() == 0 {
        None
    } else if users.last().id == id {
        Some(users.last())
    } else {
        last_user(users.drop_last(), id)
    }
}

/// One label per id, the last given, in the order of the last ones.
pub open spec fn unique_labels(labels: Seq<LabelView>) -> Seq<LabelView>
    decreases labels.len(),
{
    if labels.len() == 0 {
        seq![]
    } else {
        crate::board::labels_without(unique_labels(labels.drop_last()), labels.last().id).push(labels.last())
    }
}

/// One user per id, the last given, in the order of the last ones.
pub open spec fn unique_users(users: Seq<UserView>) -> Seq<UserView>
    decreases users.len(),
{
    if users.len() == 0 {
        seq![]
    } else {
        crate::board::users_without(unique_users(users.drop_last()), users.last().id).push(users.last())
    }
}

/// A copy of the last label of `labels` with id `id`.
fn last_label_exec(labels: &Vec<LabelSummary>, id: &str) -> (r: Option<LabelSummary>)
    ensures
        crate::board::opt_views(r) == last_label(views(labels@), id@),
{
    let ghost ls = views(labels@);
    let mut i: usize = labels.len();
    assert(ls.take(i as int) =~= ls);
    while i > 0
        invariant
            i <= labels.len(),
            ls == views(labels@),
            ls.len() == labels.len(),
            last_label(ls, id@) == last_label(ls.take(i as int), id@),
        decreases i,
    {
        assert(ls.take(i as int).drop_last() =~= ls.take(i - 1));
        assert(ls[i - 1] == labels@[i - 1]@);
        if str_eq(labels[i - 1].id.as_str(), id) {
            return Some(copy_label(&labels[i - 1]));
        }
        i = i - 1;
    }
    None
}

/// A copy of the last user of `users` with id `id`.
pub(crate) fn last_user_exec(users: &Vec<UserSummary>, id: &str) -> (r: Option<UserSummary>)
    ensures
        crate::board::opt_views(r) == last_user(views(users@), id@),
{
    let ghost us = views(users@);
    let mut i: usize = users.len();
    assert(us.take(i as int) =~= us);
    while i > 0
        invariant
            i <= users.len(),
            us == views(users@),
            us.len() == users.len(),
            last_user(us, id@) == last_user(us.take(i as int), id@),
        decreases i,
    {
        assert(us.take(i as int).drop_last() =~= us.take(i - 1));
        assert(us[i - 1] == users@[i - 1]@);
        if str_eq(users[i - 1].id.as_str(), id) {
            return Some(copy_user(&users[i - 1]));
        }
        i = i - 1;
    }
    None
}


fn unique_labels_exec(labels: &Vec<LabelSummary>) -> (r: Vec<LabelSummary>)
    ensures
        views(r@) == unique_labels(views(labels@)),
{
    let ghost ls = views(labels@);
    let mut out: Vec<LabelSummary> = Vec::new();
    let mut i: usize = 0;
    assert(ls.take(0) =~= Seq::<LabelView>::empty());
    while i < labels.len()
        invariant
            i <= labels.len(),
            ls == views(labels@),
            ls.len() == labels.len(),
            views(out@) == unique_labels(ls.take(i as int)),
        decreases labels.len() - i,
    {
        assert(ls.take(i + 1).drop_last() =~= ls.take(i as int));
        assert(ls[i as int] == labels@[i as int]@);
        let mut kept = crate::board::labels_without_exec(out, labels[i].id.as_str());
        let l = copy_label(&labels[i]);
        let ghost before = views(kept@);
        kept.push(l);
        assert(views(kept@) =~= before.push(l@));
        out = kept;
        i = i + 1;
    }
    assert(ls.take(i as int) =~= ls);
    out
}

fn unique_users_exec(users: &Vec<UserSummary>) -> (r: Vec<UserSummary>)
    ensures
        views(r@) == unique_users(views(users@)),
{
    let ghost us = views(users@);
    let mut out: Vec<UserSummary> = Vec::new();
    let mut i: usize = 0;
    assert(us.take(0) =~= Seq::<UserView>::empty());
    while i < users.len()
        invariant
            i <= users.len(),
            us == views(users@),
            us.len() == users.len(),
            views(out@) == unique_users(us.take(i as int)),
        decreases users.len() - i,
    {
        assert(us.take(i + 1).drop_last() =~= us.take(i as int));
        assert(us[i as int] == users@[i as int]@);
        let mut kept = crate::board::users_without_exec(out, users[i].id.as_str());
        let u = copy_user(&users[i]);
        let ghost before = views(kept@);
        kept.push(u);
        assert(views(kept@) =~= before.push(u@));
        out = kept;
        i = i + 1;
    }
    assert(us.take(i as int) =~= us);
    out
}

/// The labels linked to card `card`, in the order of the links, each the
/// last label given with its id; links to unknown labels are skipped.
pub open spec fn linked_labels(rels: Seq<SnapshotCardLabel>, labels: Seq<LabelView>, card: Seq<char>) -> Seq<LabelView>
    decreases rels.len(),
{
    if rels.len() == 0 {
        seq![]
    } else {
        let rest = linked_labels(rels.drop_last(), labels, card);
        let r = rels.last();
        if r.card_id@ == card && last_label(labels, r.label_id@) is Some {
            rest.push(last_label(labels, r.label_id@)->0)
        } else {
            rest
        }
    }
}

/// The users linked to card `card`, in the order of the links, each the
/// last user given with its id; links to unknown users are skipped.
pub open spec fn linked_users(rels: Seq<SnapshotCardMembership>, users: Seq<UserView>, card: Seq<char>) -> Seq<UserView>
    decreases rels.len(),
{
    if rels.len() == 0 {
        seq![]
    } else {
        let rest = linked_users(rels.drop_last(), users, card);
        let r = rels.last();
        if r.card_id@ == card && last_user(users, r.user_id@) is Some {
            rest.push(last_user(users, r.user_id@)->0)
        } else {
            rest
        }
    }
}

/// The attachments of card `card`, in the given order.
pub open spec fn card_attachments(atts: Seq<SnapshotAttachment>, card: Seq<char>) -> Seq<AttachmentView>
    decreases atts.len(),
{
    if atts.len() == 0 {
        seq![]
    } else {
        let rest = card_attachments(atts.drop_last(), card);
        let a = atts.last();
        if a.card_id@ == card {
            rest.push(AttachmentView { id: a.id@, name: a.name@, url: opt_text(a.url) })
        } else {
            rest
        }
    }
}

/// The tasks of task list `tl`, in the given order, each with its assignee
/// when the user is known.
pub open spec fn list_tasks(tasks: Seq<SnapshotTask>, users: Seq<UserView>, tl: Seq<char>) -> Seq<TaskView>
    decreases tasks.len(),
{
    if tasks.len() == 0 {
        seq![]
    } else {
        let rest = list_tasks(tasks.drop_last(), users, tl);
        let t = tasks.last();
        if t.task_list_id@ == tl {
            rest.push(
                TaskView {
                    id: t.id@,
                    name: t.name@,
                    is_completed: t.is_completed,
                    assignee: match t.assignee_user_id {
                        Some(u) => last_user(users, u@),
                        None => None,
                    },
                },
            )
        } else {
            rest
        }
    }
}

/// The index of the first task list of `tls` with id `id`, or -1.
pub open spec fn first_task_list(tls: Seq<SnapTaskListView>, id: Seq<char>) -> int
    decreases tls.len(),
{
    if tls.len() == 0 {
        -1
    } else {
        let i = first_task_list(tls.drop_last(), id);
        if i >= 0 {
            i
        } else if tls.last().id == id {
            tls.len() - 1
        } else {
            -1
        }
    }
}

/// The task list at `k` of the task lists in order of position: the first
/// one with an id gathers that id's tasks, sorted by name.
pub open spec fn task_list_at(tls: Seq<SnapTaskListView>, k: int, tasks: Seq<SnapshotTask>, users: Seq<UserView>) -> TaskListView {
    TaskListView {
        id: tls[k].id,
        name: tls[k].name,
        tasks: if first_task_list(tls, tls[k].id) == k {
            sorted_stable::<TaskSummary>(list_tasks(tasks, users, tls[k].id))
        } else {
            seq![]
        },
    }
}

/// The task lists of card `card` among the first `n`, in order.
pub open spec fn card_task_lists_upto(
    tls: Seq<SnapTaskListView>,
    n: int,
    tasks: Seq<SnapshotTask>,
    users: Seq<UserView>,
    card: Seq<char>,
) -> Seq<TaskListView>
    decreases n,
{
    if n <= 0 {
        seq![]
    } else {
        let rest = card_task_lists_upto(tls, n - 1, tasks, users, card);
        if tls[n - 1].card_id == card {
            rest.push(task_list_at(tls, n - 1, tasks, users))
        } else {
            rest
        }
    }
}

/// What the summaries of a snapshot's cards are built from: the task
/// lists in order of position, and the snapshot's labels, users, links,
/// attachments and tasks.
pub struct CardSources {
    pub task_lists: Seq<SnapTaskListView>,
    pub tasks: Seq<SnapshotTask>,
    pub labels: Seq<LabelView>,
    pub users: Seq<UserView>,
    pub card_labels: Seq<SnapshotCardLabel>,
    pub card_memberships: Seq<SnapshotCardMembership>,
    pub attachments: Seq<SnapshotAttachment>,
}

/// The summary of a card of the snapshot.
pub open spec fn card_summary(c: SnapCardView, src: CardSources) -> CardView {
    CardView {
        id: c.id,
        name: c.name,
        description: c.description,
        position: c.position,
        is_closed: c.is_closed,
        comments_total: c.comments_total,
        due_date: c.due_date,
        creator: match c.creator_user_id {
            Some(u) => last_user(src.users, u),
            None => None,
        },
        labels: sorted_stable::<LabelSummary>(linked_labels(src.card_labels, src.labels, c.id)),
        assignees: sorted_stable::<UserSummary>(linked_users(src.card_memberships, src.users, c.id)),
        attachments: sorted_stable::<AttachmentSummary>(card_attachments(src.attachments, c.id)),
        task_lists: sorted_stable::<TaskListSummary>(
            card_task_lists_upto(src.task_lists, src.task_lists.len() as int, src.tasks, src.users, c.id),
        ),
        is_subscribed: c.is_subscribed,
    }
}

/// The summaries of the cards of list `list`, among the first `n` cards.
pub open spec fn list_cards_upto(cards: Seq<SnapCardView>, n: int, list: Seq<char>, src: CardSources) -> Seq<CardView>
    decreases n,
{
    if n <= 0 {
        seq![]
    } else {
        let rest = list_cards_upto(cards, n - 1, list, src);
        if cards[n - 1].list_id == list {
            rest.push(card_summary(cards[n - 1], src))
        } else {
            rest
        }
    }
}

/// A list is shown when it has a name that is not blank and a position.
pub open spec fn list_shown(l: SnapListView) -> bool {
    l.name is Some && l.position is Some && spec_trim(l.name->0).len() > 0
}

/// The shown lists among the first `n` lists, with their cards.
pub open spec fn shown_lists_upto(lists: Seq<SnapListView>, n: int, cards: Seq<SnapCardView>, src: CardSources) -> Seq<ListView>
    decreases n,
{
    if n <= 0 {
        seq![]
    } else {
        let rest = shown_lists_upto(lists, n - 1, cards, src);
        let l = lists[n - 1];
        if list_shown(l) {
            let cs = list_cards_upto(cards, cards.len() as int, l.id, src);
            rest.push(
                ListView {
                    id: l.id,
                    name: l.name->0,
                    position: l.position->0,
                    card_count: cs.len() as usize,
                    active_card_count: count_open(cs) as usize,
                    closed_card_count: (cs.len() - count_open(cs)) as usize,
                    cards: cs,
                },
            )
        } else {
            rest
        }
    }
}

/// How many snapshot cards are open.
pub open spec fn open_snap_cards(cards: Seq<SnapCardView>) -> nat
    decreases cards.len(),
{
    if cards.len() == 0 {
        0
    } else {
        open_snap_cards(cards.drop_last()) + if cards.last().is_closed { 0nat } else { 1nat }
    }
}

/// The board summary of a snapshot: the lists in order of position (those
/// with a position first), without archived or blank ones, each with its
/// cards in order of position; every card with its creator, labels,
/// assignees, attachments and task lists; the board's labels and members,
/// one per id, by name; the board's card counts.
pub open spec fn board_from_snapshot(s: BoardSnapshot) -> BoardView {
    let src = CardSources {
        task_lists: sorted_stable::<SnapshotTaskList>(views(s.task_lists@)),
        tasks: s.tasks@,
        labels: views(s.labels@),
        users: views(s.users@),
        card_labels: s.card_labels@,
        card_memberships: s.card_memberships@,
        attachments: s.attachments@,
    };
    let cards = sorted_stable::<SnapshotCard>(views(s.cards@));
    let lists = sorted_stable::<SnapshotList>(views(s.lists@));
    BoardView {
        id: s.item.id@,
        name: s.item.name@,
        project_id: s.item.project_id@,
        position: s.item.position,
        total_cards: s.cards@.len() as usize,
        active_card_count: open_snap_cards(views(s.cards@)) as usize,
        closed_card_count: (s.cards@.len() - open_snap_cards(views(s.cards@))) as usize,
        lists: shown_lists_upto(lists, lists.len() as int, cards, src),
        labels: sorted_stable::<LabelSummary>(unique_labels(views(s.labels@))),
        members: sorted_stable::<UserSummary>(unique_users(views(s.users@))),
    }
}


/// What card summaries are built from, owned.
pub struct SnapshotParts {
    /// In order of position.
    pub task_lists: Vec<SnapshotTaskList>,
    pub tasks: Vec<SnapshotTask>,
    pub labels: Vec<LabelSummary>,
    pub users: Vec<UserSummary>,
    pub card_labels: Vec<SnapshotCardLabel>,
    pub card_memberships: Vec<SnapshotCardMembership>,
    pub attachments: Vec<SnapshotAttachment>,
}

/// The sources the parts stand for.
pub open spec fn sources(p: &SnapshotParts) -> CardSources {
    CardSources {
        task_lists: views(p.task_lists@),
        tasks: p.tasks@,
        labels: views(p.labels@),
        users: views(p.users@),
        card_labels: p.card_labels@,
        card_memberships: p.card_memberships@,
        attachments: p.attachments@,
    }
}

fn linked_labels_exec(p: &SnapshotParts, card: &str) -> (r: Vec<LabelSummary>)
    ensures
        views(r@) == linked_labels(p.card_labels@, views(p.labels@), card@),
{
    let mut out: Vec<LabelSummary> = Vec::new();
    let mut i: usize = 0;
    let ghost rels = p.card_labels@;
    assert(rels.take(0) =~= Seq::<SnapshotCardLabel>::empty());
    while i < p.card_labels.len()
        invariant
            i <= p.card_labels.len(),
            rels == p.card_labels@,
            views(out@) == linked_labels(rels.take(i as int), views(p.labels@), card@),
        decreases p.card_labels.len() - i,
    {
        assert(rels.take(i + 1).drop_last() =~= rels.take(i as int));
        let rel = &p.card_labels[i];
        if str_eq(rel.card_id.as_str(), card) {
            match last_label_exec(&p.labels, rel.label_id.as_str()) {
                Some(l) => {
                    let ghost before = views(out@);
                    out.push(l);
                    assert(views(out@) =~= before.push(l@));
                },
                None => {},
            }
        }
        i = i + 1;
    }
    assert(rels.take(i as int) =~= rels);
    out
}

fn linked_users_exec(p: &SnapshotParts, card: &str) -> (r: Vec<UserSummary>)
    ensures
        views(r@) == linked_users(p.card_memberships@, views(p.users@), card@),
{
    let mut out: Vec<UserSummary> = Vec::new();
    let mut i: usize = 0;
    let ghost rels = p.card_memberships@;
    assert(rels.take(0) =~= Seq::<SnapshotCardMembership>::empty());
    while i < p.card_memberships.len()
        invariant
            i <= p.card_memberships.len(),
            rels == p.card_memberships@,
            views(out@) == linked_users(rels.take(i as int), views(p.users@), card@),
        decreases p.card_memberships.len() - i,
    {
        assert(rels.take(i + 1).drop_last() =~= rels.take(i as int));
        let rel = &p.card_memberships[i];
        if str_eq(rel.card_id.as_str(), card) {
            match last_user_exec(&p.users, rel.user_id.as_str()) {
                Some(u) => {
                    let ghost before = views(out@);
                    out.push(u);
                    assert(views(out@) =~= before.push(u@));
                },
                None => {},
            }
        }
        i = i + 1;
    }
    assert(rels.take(i as int) =~= rels);
    out
}

fn card_attachments_exec(p: &SnapshotParts, card: &str) -> (r: Vec<AttachmentSummary>)
    ensures
        views(r@) == card_attachments(p.attachments@, card@),
{
    let mut out: Vec<AttachmentSummary> = Vec::new();
    let mut i: usize = 0;
    let ghost atts = p.attachments@;
    assert(atts.take(0) =~= Seq::<SnapshotAttachment>::empty());
    while i < p.attachments.len()
        invariant
            i <= p.attachments.len(),
            atts == p.attachments@,
            views(out@) == card_attachments(atts.take(i as int), card@),
        decreases p.attachments.len() - i,
    {
        assert(atts.take(i + 1).drop_last() =~= atts.take(i as int));
        let a = &p.attachments[i];
        if str_eq(a.card_id.as_str(), card) {
            let summary = AttachmentSummary { id: a.id.clone(), name: a.name.clone(), url: copy_opt_text(&a.url) };
            let ghost before = views(out@);
            out.push(summary);
            assert(views(out@) =~= before.push(summary@));
        }
        i = i + 1;
    }
    assert(atts.take(i as int) =~= atts);
    out
}

fn list_tasks_exec(p: &SnapshotParts, tl: &str) -> (r: Vec<TaskSummary>)
    ensures
        views(r@) == list_tasks(p.tasks@, views(p.users@), tl@),
{
    let mut out: Vec<TaskSummary> = Vec::new();
    let mut i: usize = 0;
    let ghost ts = p.tasks@;
    assert(ts.take(0) =~= Seq::<SnapshotTask>::empty());
    while i < p.tasks.len()
        invariant
            i <= p.tasks.len(),
            ts == p.tasks@,
            views(out@) == list_tasks(ts.take(i as int), views(p.users@), tl@),
        decreases p.tasks.len() - i,
    {
        assert(ts.take(i + 1).drop_last() =~= ts.take(i as int));
        let t = &p.tasks[i];
        if str_eq(t.task_list_id.as_str(), tl) {
            let assignee = match &t.assignee_user_id {
                Some(u) => last_user_exec(&p.users, u.as_str()),
                None => None,
            };
            let task = TaskSummary { id: t.id.clone(), name: t.name.clone(), is_completed: t.is_completed, assignee };
            let ghost before = views(out@);
            out.push(task);
            assert(views(out@) =~= before.push(task@));
        }
        i = i + 1;
    }
    assert(ts.take(i as int) =~= ts);
    out
}

proof fn lemma_first_task_list_extends(tls: Seq<SnapTaskListView>, id: Seq<char>, k: int)
    requires
        0 <= k <= tls.len(),
        first_task_list(tls.take(k), id) >= 0,
    ensures
        first_task_list(tls, id) == first_task_list(tls.take(k), id),
    decreases tls.len() - k,
{
    if k < tls.len() {
        assert(tls.take(k + 1).drop_last() =~= tls.take(k));
        lemma_first_task_list_extends(tls, id, k + 1);
    } else {
        assert(tls.take(k) =~= tls);
    }
}

/// Whether the task list at `k` is the first with its id.
fn first_with_its_id(tls: &Vec<SnapshotTaskList>, k: usize) -> (r: bool)
    requires
        k < tls.len(),
    ensures
        r == (first_task_list(views(tls@), views(tls@)[k as int].id) == k),
{
    let ghost ts = views(tls@);
    let id = tls[k].id.as_str();
    assert(ts[k as int].id == id@);
    let mut i: usize = 0;
    assert(ts.take(0) =~= Seq::<SnapTaskListView>::empty());
    while i < k
        invariant
            i <= k < tls.len(),
            ts == views(tls@),
            ts.len() == tls.len(),
            id@ == ts[k as int].id,
            first_task_list(ts.take(i as int), id@) == -1,
        decreases k - i,
    {
        assert(ts.take(i + 1).drop_last() =~= ts.take(i as int));
        assert(ts[i as int] == tls@[i as int]@);
        if str_eq(tls[i].id.as_str(), id) {
            assert(first_task_list(ts.take(i + 1), id@) == i as int);
            proof {
                lemma_first_task_list_extends(ts, id@, i + 1);
            }
            return false;
        }
        i = i + 1;
    }
    assert(ts.take(k + 1).drop_last() =~= ts.take(k as int));
    assert(first_task_list(ts.take(k + 1), id@) == k as int);
    proof {
        lemma_first_task_list_extends(ts, id@, k + 1);
    }
    true
}

fn task_list_at_exec(p: &SnapshotParts, k: usize) -> (r: TaskListSummary)
    requires
        k < p.task_lists.len(),
    ensures
        r@ == task_list_at(views(p.task_lists@), k as int, p.tasks@, views(p.users@)),
{
    let tl = &p.task_lists[k];
    assert(views(p.task_lists@)[k as int] == tl@);
    let tasks = if first_with_its_id(&p.task_lists, k) {
        sort_stable(list_tasks_exec(p, tl.id.as_str()))
    } else {
        let t: Vec<TaskSummary> = Vec::new();
        assert(views(t@) =~= Seq::<TaskView>::empty());
        t
    };
    TaskListSummary { id: tl.id.clone(), name: tl.name.clone(), tasks }
}

fn card_task_lists_exec(p: &SnapshotParts, card: &str) -> (r: Vec<TaskListSummary>)
    ensures
        views(r@) == card_task_lists_upto(
            views(p.task_lists@),
            p.task_lists@.len() as int,
            p.tasks@,
            views(p.users@),
            card@,
        ),
{
    let mut out: Vec<TaskListSummary> = Vec::new();
    let mut i: usize = 0;
    while i < p.task_lists.len()
        invariant
            i <= p.task_lists.len(),
            views(out@) == card_task_lists_upto(views(p.task_lists@), i as int, p.tasks@, views(p.users@), card@),
        decreases p.task_lists.len() - i,
    {
        assert(views(p.task_lists@)[i as int] == p.task_lists@[i as int]@);
        if str_eq(p.task_lists[i].card_id.as_str(), card) {
            let t = task_list_at_exec(p, i);
            let ghost before = views(out@);
            out.push(t);
            assert(views(out@) =~= before.push(t@));
        }
        i = i + 1;
    }
    out
}

fn card_summary_exec(c: &SnapshotCard, p: &SnapshotParts) -> (r: CardSummary)
    ensures
        r@ == card_summary(c@, sources(p)),
{
    let creator = match &c.creator_user_id {
        Some(u) => last_user_exec(&p.users, u.as_str()),
        None => None,
    };
    CardSummary {
        id: c.id.clone(),
        name: c.name.clone(),
        description: copy_opt_text(&c.description),
        position: c.position,
        is_closed: c.is_closed,
        comments_total: c.comments_total,
        due_date: copy_opt_text(&c.due_date),
        creator,
        labels: sort_stable(linked_labels_exec(p, c.id.as_str())),
        assignees: sort_stable(linked_users_exec(p, c.id.as_str())),
        attachments: sort_stable(card_attachments_exec(p, c.id.as_str())),
        task_lists: sort_stable(card_task_lists_exec(p, c.id.as_str())),
        is_subscribed: c.is_subscribed,
    }
}

fn list_cards_exec(cards: &Vec<SnapshotCard>, list: &str, p: &SnapshotParts) -> (r: Vec<CardSummary>)
    ensures
        views(r@) == list_cards_upto(views(cards@), cards@.len() as int, list@, sources(p)),
{
    let mut out: Vec<CardSummary> = Vec::new();
    let mut i: usize = 0;
    while i < cards.len()
        invariant
            i <= cards.len(),
            views(out@) == list_cards_upto(views(cards@), i as int, list@, sources(p)),
        decreases cards.len() - i,
    {
        assert(views(cards@)[i as int] == cards@[i as int]@);
        if str_eq(cards[i].list_id.as_str(), list) {
            let c = card_summary_exec(&cards[i], p);
            let ghost before = views(out@);
            out.push(c);
            assert(views(out@) =~= before.push(c@));
        }
        i = i + 1;
    }
    out
}

fn count_open_cards(cards: &Vec<CardSummary>) -> (r: usize)
    ensures
        r == count_open(views(cards@)),
        r <= cards.len(),
{
    let mut n: usize = 0;
    let mut i: usize = 0;
    assert(views(cards@).take(0) =~= Seq::<CardView>::empty());
    while i < cards.len()
        invariant
            i <= cards.len(),
            n <= i,
            n == count_open(views(cards@).take(i as int)),
        decreases cards.len() - i,
    {
        assert(views(cards@).take(i + 1).drop_last() =~= views(cards@).take(i as int));
        assert(views(cards@)[i as int] == cards@[i as int]@);
        if !cards[i].is_closed {
            n = n + 1;
        }
        i = i + 1;
    }
    assert(views(cards@).take(i as int) =~= views(cards@));
    n
}

impl BoardSummary {
    /// The board summary of a snapshot.
    pub fn from_snapshot(snapshot: BoardSnapshot) -> (r: Self)
        ensures
            r@ == board_from_snapshot(snapshot),
    {
        let ghost s0 = snapshot;
        let BoardSnapshot { item, lists, cards, labels, card_labels, card_memberships, users, attachments, task_lists, tasks } =
            snapshot;
        let board_labels = sort_stable(unique_labels_exec(&labels));
        let members = sort_stable(unique_users_exec(&users));
        let total_cards = cards.len();
        let mut open: usize = 0;
        let mut i: usize = 0;
        assert(views(cards@).take(0) =~= Seq::<SnapCardView>::empty());
        while i < cards.len()
            invariant
                i <= cards.len(),
                open <= i,
                open == open_snap_cards(views(cards@).take(i as int)),
            decreases cards.len() - i,
        {
            assert(views(cards@).take(i + 1).drop_last() =~= views(cards@).take(i as int));
            assert(views(cards@)[i as int] == cards@[i as int]@);
            if !cards[i].is_closed {
                open = open + 1;
            }
            i = i + 1;
        }
        assert(views(cards@).take(i as int) =~= views(cards@));
        let parts = SnapshotParts {
            task_lists: sort_stable(task_lists),
            tasks,
            labels,
            users,
            card_labels,
            card_memberships,
            attachments,
        };
        let sorted_cards = sort_stable(cards);
        let sorted_lists = sort_stable(lists);
        let ghost ls = views(sorted_lists@);
        let ghost cs = views(sorted_cards@);
        let mut active_lists: Vec<ListSummary> = Vec::new();
        let mut k: usize = 0;
        while k < sorted_lists.len()
            invariant
                k <= sorted_lists.len(),
                ls == views(sorted_lists@),
                cs == views(sorted_cards@),
                views(active_lists@) == shown_lists_upto(ls, k as int, cs, sources(&parts)),
            decreases sorted_lists.len() - k,
        {
            let l = &sorted_lists[k];
            assert(ls[k as int] == l@);
            let shown = match (&l.name, l.position) {
                (Some(name), Some(_)) => {
                    let t = trim(name.as_str());
                    !t.as_str().is_empty()
                },
                _ => false,
            };
            if shown {
                let list_cards = list_cards_exec(&sorted_cards, l.id.as_str(), &parts);
                let n = list_cards.len();
                let open_in_list = count_open_cards(&list_cards);
                let (name, position) = match (&l.name, l.position) {
                    (Some(name), Some(position)) => (name.clone(), position),
                    _ => (String::new(), 0),
                };
                let summary = ListSummary {
                    id: l.id.clone(),
                    name,
                    position,
                    card_count: n,
                    active_card_count: open_in_list,
                    closed_card_count: n - open_in_list,
                    cards: list_cards,
                };
                let ghost before = views(active_lists@);
                active_lists.push(summary);
                assert(views(active_lists@) =~= before.push(summary@));
            }
            k = k + 1;
        }
        BoardSummary {
            id: item.id,
            name: item.name,
            project_id: item.project_id,
            position: item.position,
            total_cards,
            active_card_count: open,
            closed_card_count: total_cards - open,
            active_lists,
            labels: board_labels,
            members,
        }
    }
}

/// Some card membership of `rels` links the card `card` and the user `user`.
pub open spec fn card_membership_for(rels: Seq<SnapshotCardMembership>, card: Seq<char>, user: Seq<char>) -> bool {
    exists|m: int| 0 <= m < rels.len() && rels[m].card_id@ == card && rels[m].user_id@ == user
}

/// `c` is the summary of some card of `cards`.
pub open spec fn summary_of_some(cards: Seq<SnapCardView>, c: CardView, src: CardSources) -> bool {
    exists|j: int| 0 <= j < cards.len() && c == card_summary(cards[j], src)
}

proof fn lemma_last_user_found(users: Seq<UserView>, id: Seq<char>)
    ensures
        last_user(users, id) matches Some(u) ==> u.id == id && users.contains(u),
    decreases users.len(),
{
    if users.len() > 0 {
        lemma_last_user_found(users.drop_last(), id);
        if users.last().id != id {
            if last_user(users.drop_last(), id) is Some {
                let u = last_user(users.drop_last(), id)->0;
                let k = choose|k: int| 0 <= k < users.drop_last().len() && users.drop_last()[k] == u;
                assert(users[k] == u);
            }
        } else {
            assert(users[users.len() - 1] == users.last());
        }
    }
}

proof fn lemma_linked_users_sources(rels: Seq<SnapshotCardMembership>, users: Seq<UserView>, card: Seq<char>)
    ensures
        forall|k: int|
            0 <= k < linked_users(rels, users, card).len() ==> card_membership_for(
                rels,
                card,
                (#[trigger] linked_users(rels, users, card)[k]).id,
            ) && users.contains(linked_users(rels, users, card)[k]),
    decreases rels.len(),
{
    if rels.len() > 0 {
        let d = rels.drop_last();
        lemma_linked_users_sources(d, users, card);
        let rest = linked_users(d, users, card);
        let r = rels.last();
        let out = linked_users(rels, users, card);
        lemma_last_user_found(users, r.user_id@);
        assert forall|k: int| 0 <= k < out.len() implies card_membership_for(rels, card, (#[trigger] out[k]).id)
            && users.contains(out[k]) by {
            if k < rest.len() {
                assert(out[k] == rest[k]);
                let m = choose|m: int| 0 <= m < d.len() && d[m].card_id@ == card && d[m].user_id@ == rest[k].id;
                assert(rels[m] == d[m]);
            } else {
                assert(rels[rels.len() - 1] == r);
            }
        }
    }
}

proof fn lemma_linked_users_complete(rels: Seq<SnapshotCardMembership>, users: Seq<UserView>, card: Seq<char>)
    ensures
        forall|m: int|
            0 <= m < rels.len() && (#[trigger] rels[m]).card_id@ == card && last_user(users, rels[m].user_id@) is Some
                ==> linked_users(rels, users, card).contains(last_user(users, rels[m].user_id@)->0),
    decreases rels.len(),
{
    if rels.len() > 0 {
        let d = rels.drop_last();
        lemma_linked_users_complete(d, users, card);
        let rest = linked_users(d, users, card);
        let out = linked_users(rels, users, card);
        let r = rels.last();
        assert forall|m: int|
            0 <= m < rels.len() && (#[trigger] rels[m]).card_id@ == card && last_user(users, rels[m].user_id@) is Some
                implies out.contains(last_user(users, rels[m].user_id@)->0) by {
            let u = last_user(users, rels[m].user_id@)->0;
            if m < d.len() {
                assert(d[m] == rels[m]);
                assert(rest.contains(u));
                let i = choose|i: int| 0 <= i < rest.len() && rest[i] == u;
                if r.card_id@ == card && last_user(users, r.user_id@) is Some {
                    assert(out[i] == u);
                } else {
                    assert(out[i] == u);
                }
            } else {
                assert(rels[m] == r);
                assert(out[out.len() - 1] == u);
            }
        }
    }
}

proof fn lemma_list_cards_sources(cards: Seq<SnapCardView>, n: int, list: Seq<char>, src: CardSources)
    requires
        n <= cards.len(),
    ensures
        forall|k: int|
            0 <= k < list_cards_upto(cards, n, list, src).len() ==> summary_of_some(
                cards,
                #[trigger] list_cards_upto(cards, n, list, src)[k],
                src,
            ),
    decreases n,
{
    if n > 0 {
        lemma_list_cards_sources(cards, n - 1, list, src);
        let rest = list_cards_upto(cards, n - 1, list, src);
        let out = list_cards_upto(cards, n, list, src);
        assert forall|k: int| 0 <= k < out.len() implies summary_of_some(cards, #[trigger] out[k], src) by {
            if k < rest.len() {
                assert(out[k] == rest[k]);
            } else {
                assert(out[k] == card_summary(cards[n - 1], src));
            }
        }
    }
}

proof fn lemma_shown_lists_sources(lists: Seq<SnapListView>, n: int, cards: Seq<SnapCardView>, src: CardSources)
    requires
        n <= lists.len(),
    ensures
        forall|li: int, ci: int|
            0 <= li < shown_lists_upto(lists, n, cards, src).len() && 0 <= ci < shown_lists_upto(
                lists,
                n,
                cards,
                src,
            )[li].cards.len() ==> summary_of_some(
                cards,
                #[trigger] shown_lists_upto(lists, n, cards, src)[li].cards[ci],
                src,
            ),
    decreases n,
{
    if n > 0 {
        lemma_shown_lists_sources(lists, n - 1, cards, src);
        let rest = shown_lists_upto(lists, n - 1, cards, src);
        let out = shown_lists_upto(lists, n, cards, src);
        let l = lists[n - 1];
        lemma_list_cards_sources(cards, cards.len() as int, l.id, src);
        assert forall|li: int, ci: int| 0 <= li < out.len() && 0 <= ci < out[li].cards.len() implies summary_of_some(
            cards,
            #[trigger] out[li].cards[ci],
            src,
        ) by {
            if li < rest.len() {
                assert(out[li] == rest[li]);
                assert(summary_of_some(cards, rest[li].cards[ci], src));
            } else {
                assert(out[li].cards == list_cards_upto(cards, cards.len() as int, l.id, src));
                assert(summary_of_some(cards, list_cards_upto(cards, cards.len() as int, l.id, src)[ci], src));
            }
        }
    }
}

/// A card of a board loaded from a snapshot is assigned exactly the users
/// that the snapshot's card memberships link to that card: every assignee
/// is a user of the snapshot, joined to the card by a membership naming the
/// card's id and the user's id; and every membership naming the card and a
/// user of the snapshot makes that user (its last entry) an assignee.
pub proof fn law_snapshot_assignees_follow_memberships(s: BoardSnapshot)
    ensures
        ({
            let b = board_from_snapshot(s);
            forall|li: int, ci: int, k: int|
                0 <= li < b.lists.len() && 0 <= ci < b.lists[li].cards.len() && 0 <= k
                    < b.lists[li].cards[ci].assignees.len() ==> card_membership_for(
                    s.card_memberships@,
                    b.lists[li].cards[ci].id,
                    (#[trigger] b.lists[li].cards[ci].assignees[k]).id,
                ) && views(s.users@).contains(b.lists[li].cards[ci].assignees[k])
        }),
        ({
            let b = board_from_snapshot(s);
            forall|li: int, ci: int, m: int|
                0 <= li < b.lists.len() && 0 <= ci < b.lists[li].cards.len() && 0 <= m < s.card_memberships@.len()
                    && s.card_memberships@[m].card_id@ == (#[trigger] b.lists[li].cards[ci]).id && last_user(
                    views(s.users@),
                    (#[trigger] s.card_memberships@[m]).user_id@,
                ) is Some ==> b.lists[li].cards[ci].assignees.contains(
                    last_user(views(s.users@), s.card_memberships@[m].user_id@)->0,
                )
        }),
{
    let src = CardSources {
        task_lists: sorted_stable::<SnapshotTaskList>(views(s.task_lists@)),
        tasks: s.tasks@,
        labels: views(s.labels@),
        users: views(s.users@),
        card_labels: s.card_labels@,
        card_memberships: s.card_memberships@,
        attachments: s.attachments@,
    };
    let cards = sorted_stable::<SnapshotCard>(views(s.cards@));
    let lists = sorted_stable::<SnapshotList>(views(s.lists@));
    let b = board_from_snapshot(s);
    assert(b.lists == shown_lists_upto(lists, lists.len() as int, cards, src));
    lemma_shown_lists_sources(lists, lists.len() as int, cards, src);
    assert forall|li: int, ci: int, k: int|
        0 <= li < b.lists.len() && 0 <= ci < b.lists[li].cards.len() && 0 <= k
            < b.lists[li].cards[ci].assignees.len() implies card_membership_for(
        s.card_memberships@,
        b.lists[li].cards[ci].id,
        (#[trigger] b.lists[li].cards[ci].assignees[k]).id,
    ) && views(s.users@).contains(b.lists[li].cards[ci].assignees[k]) by {
        let c = b.lists[li].cards[ci];
        assert(summary_of_some(cards, c, src));
        let j = choose|j: int| 0 <= j < cards.len() && c == card_summary(cards[j], src);
        let linked = linked_users(src.card_memberships, src.users, cards[j].id);
        assert(c.assignees == sorted_stable::<UserSummary>(linked));
        crate::order::lemma_sorted_stable_from::<UserSummary>(linked);
        assert(linked.contains(c.assignees[k]));
        let m = choose|m: int| 0 <= m < linked.len() && linked[m] == c.assignees[k];
        lemma_linked_users_sources(src.card_memberships, src.users, cards[j].id);
        assert(card_membership_for(src.card_memberships, cards[j].id, linked[m].id));
    }
    assert forall|li: int, ci: int, m: int|
        0 <= li < b.lists.len() && 0 <= ci < b.lists[li].cards.len() && 0 <= m < s.card_memberships@.len()
            && s.card_memberships@[m].card_id@ == (#[trigger] b.lists[li].cards[ci]).id && last_user(
            views(s.users@),
            (#[trigger] s.card_memberships@[m]).user_id@,
        ) is Some implies b.lists[li].cards[ci].assignees.contains(
        last_user(views(s.users@), s.card_memberships@[m].user_id@)->0,
    ) by {
        let c = b.lists[li].cards[ci];
        assert(summary_of_some(cards, c, src));
        let j = choose|j: int| 0 <= j < cards.len() && c == card_summary(cards[j], src);
        let linked = linked_users(src.card_memberships, src.users, cards[j].id);
        lemma_linked_users_complete(src.card_memberships, src.users, cards[j].id);
        let u = last_user(views(s.users@), s.card_memberships@[m].user_id@)->0;
        assert(linked.contains(u));
        let i = choose|i: int| 0 <= i < linked.len() && linked[i] == u;
        crate::order::lemma_sorted_stable_keeps::<UserSummary>(linked);
        assert(c.assignees == sorted_stable::<UserSummary>(linked));
        assert(c.assignees.contains(linked[i]));
    }
}

} // verus!
