//! The board snapshot kept by the explorer and how live events change it:
//! views of the summary types, recounting, and the upserts and deletions of
//! cards, lists, labels, card labels and card members.

use vstd::prelude::*;

use crate::explorer::{
    AttachmentSummary, BoardSummary, CardSummary, LabelSummary, ListSummary, ProjectTree, TaskListSummary,
    TaskSummary, UserSummary,
};
use crate::order::{
    lemma_sorted_stable_len, lemma_views_take_first, sort_stable, sorted_stable, str_less, text_less, views, SortOrder,
};
use crate::text::str_eq;

verus! {

/// An optional text, seen as characters.
pub open spec fn opt_text(o: Option<String>) -> Option<Seq<char>> {
    match o {
        Some(s) => Some(s@),
        None => None,
    }
}

/// A label as text.
pub struct LabelView {
    pub id: Seq<char>,
    pub name: Seq<char>,
    pub color: Option<Seq<char>>,
}

/// A user as text.
pub struct UserView {
    pub id: Seq<char>,
    pub name: Seq<char>,
    pub username: Seq<char>,
}

/// An attachment as text.
pub struct AttachmentView {
    pub id: Seq<char>,
    pub name: Seq<char>,
    pub url: Option<Seq<char>>,
}

/// A task as text.
pub struct TaskView {
    pub id: Seq<char>,
    pub name: Seq<char>,
    pub is_completed: bool,
    pub assignee: Option<UserView>,
}

/// A task list as text.
pub struct TaskListView {
    pub id: Seq<char>,
    pub name: Seq<char>,
    pub tasks: Seq<TaskView>,
}

/// A card: its texts, flags, counts, order key and what hangs off it.
pub struct CardView {
    pub id: Seq<char>,
    pub name: Seq<char>,
    pub description: Option<Seq<char>>,
    pub position: u64,
    pub is_closed: bool,
    pub comments_total: usize,
    pub due_date: Option<Seq<char>>,
    pub creator: Option<UserView>,
    pub labels: Seq<LabelView>,
    pub assignees: Seq<UserView>,
    pub attachments: Seq<AttachmentView>,
    pub task_lists: Seq<TaskListView>,
    pub is_subscribed: bool,
}

/// A list with its counts and cards.
pub struct ListView {
    pub id: Seq<char>,
    pub name: Seq<char>,
    pub position: u64,
    pub card_count: usize,
    pub active_card_count: usize,
    pub closed_card_count: usize,
    pub cards: Seq<CardView>,
}

/// A board with its counts, lists, labels and members.
pub struct BoardView {
    pub id: Seq<char>,
    pub name: Seq<char>,
    pub project_id: Seq<char>,
    pub position: u64,
    pub total_cards: usize,
    pub active_card_count: usize,
    pub closed_card_count: usize,
    pub lists: Seq<ListView>,
    pub labels: Seq<LabelView>,
    pub members: Seq<UserView>,
}

impl View for LabelSummary {
    type V = LabelView;

    open spec fn view(&self) -> LabelView {
        LabelView { id: self.id@, name: self.name@, color: opt_text(self.color) }
    }
}

impl View for UserSummary {
    type V = UserView;

    open spec fn view(&self) -> UserView {
        UserView { id: self.id@, name: self.name@, username: self.username@ }
    }
}

/// A creator or assignee, seen as text.
pub open spec fn opt_user(o: Option<UserSummary>) -> Option<UserView> {
    match o {
        Some(u) => Some(u@),
        None => None,
    }
}

/// A project with its boards.
pub struct ProjectView {
    pub id: Seq<char>,
    pub name: Seq<char>,
    pub description: Option<Seq<char>>,
    pub boards: Seq<BoardView>,
}

impl View for ProjectTree {
    type V = ProjectView;

    open spec fn view(&self) -> ProjectView {
        ProjectView {
            id: self.id@,
            name: self.name@,
            description: opt_text(self.description),
            boards: views(self.boards@),
        }
    }
}

impl View for AttachmentSummary {
    type V = AttachmentView;

    open spec fn view(&self) -> AttachmentView {
        AttachmentView { id: self.id@, name: self.name@, url: opt_text(self.url) }
    }
}

impl View for TaskSummary {
    type V = TaskView;

    open spec fn view(&self) -> TaskView {
        TaskView {
            id: self.id@,
            name: self.name@,
            is_completed: self.is_completed,
            assignee: opt_user(self.assignee),
        }
    }
}

impl View for TaskListSummary {
    type V = TaskListView;

    open spec fn view(&self) -> TaskListView {
        TaskListView { id: self.id@, name: self.name@, tasks: views(self.tasks@) }
    }
}

impl View for CardSummary {
    type V = CardView;

    open spec fn view(&self) -> CardView {
        CardView {
            id: self.id@,
            name: self.name@,
            description: opt_text(self.description),
            position: self.position,
            is_closed: self.is_closed,
            comments_total: self.comments_total,
            due_date: opt_text(self.due_date),
            creator: opt_user(self.creator),
            labels: views(self.labels@),
            assignees: views(self.assignees@),
            attachments: views(self.attachments@),
            task_lists: views(self.task_lists@),
            is_subscribed: self.is_subscribed,
        }
    }
}

impl View for ListSummary {
    type V = ListView;

    open spec fn view(&self) -> ListView {
        ListView {
            id: self.id@,
            name: self.name@,
            position: self.position,
            card_count: self.card_count,
            active_card_count: self.active_card_count,
            closed_card_count: self.closed_card_count,
            cards: views(self.cards@),
        }
    }
}

impl View for BoardSummary {
    type V = BoardView;

    open spec fn view(&self) -> BoardView {
        BoardView {
            id: self.id@,
            name: self.name@,
            project_id: self.project_id@,
            position: self.position,
            total_cards: self.total_cards,
            active_card_count: self.active_card_count,
            closed_card_count: self.closed_card_count,
            lists: views(self.active_lists@),
            labels: views(self.labels@),
            members: views(self.members@),
        }
    }
}

impl SortOrder for CardSummary {
    /// Cards are listed by position.
    open spec fn spec_before(a: CardView, b: CardView) -> bool {
        a.position < b.position
    }

    fn before(&self, other: &Self) -> (r: bool) {
        self.position < other.position
    }
}

impl SortOrder for ListSummary {
    /// Lists are listed by position.
    open spec fn spec_before(a: ListView, b: ListView) -> bool {
        a.position < b.position
    }

    fn before(&self, other: &Self) -> (r: bool) {
        self.position < other.position
    }
}

impl SortOrder for LabelSummary {
    /// Labels are listed by name.
    open spec fn spec_before(a: LabelView, b: LabelView) -> bool {
        text_less(a.name, b.name)
    }

    fn before(&self, other: &Self) -> (r: bool) {
        str_less(self.name.as_str(), other.name.as_str())
    }
}

impl SortOrder for UserSummary {
    /// Users are listed by name.
    open spec fn spec_before(a: UserView, b: UserView) -> bool {
        text_less(a.name, b.name)
    }

    fn before(&self, other: &Self) -> (r: bool) {
        str_less(self.name.as_str(), other.name.as_str())
    }
}

/// How many of `cards` are open.
pub open spec fn count_open(cards: Seq<CardView>) -> nat
    decreases cards.len(),
{
    if cards.len() == 0 {
        0
    } else {
        count_open(cards.drop_last()) + if cards.last().is_closed { 0nat } else { 1nat }
    }
}

proof fn lemma_count_open_bound(cards: Seq<CardView>)
    ensures
        count_open(cards) <= cards.len(),
    decreases cards.len(),
{
    if cards.len() > 0 {
        lemma_count_open_bound(cards.drop_last());
    }
}

/// A list with its counts taken from its cards, and its cards in order.
pub open spec fn recount_list(l: ListView) -> ListView {
    ListView {
        card_count: l.cards.len() as usize,
        active_card_count: count_open(l.cards) as usize,
        closed_card_count: (l.cards.len() - count_open(l.cards)) as usize,
        cards: sorted_stable::<CardSummary>(l.cards),
        ..l
    }
}

/// The number of cards of `lists`.
pub open spec fn sum_cards(lists: Seq<ListView>) -> nat
    decreases lists.len(),
{
    if lists.len() == 0 {
        0
    } else {
        sum_cards(lists.drop_last()) + lists.last().cards.len()
    }
}

/// The sum of the open-card counts of `lists`.
pub open spec fn sum_open(lists: Seq<ListView>) -> nat
    decreases lists.len(),
{
    if lists.len() == 0 {
        0
    } else {
        sum_open(lists.drop_last()) + lists.last().active_card_count as nat
    }
}

/// A board with every list recounted and the board's totals summed from
/// its lists.
pub open spec fn recount_board(b: BoardView) -> BoardView {
    let lists = b.lists.map_values(|l: ListView| recount_list(l));
    BoardView {
        total_cards: sum_cards(lists) as usize,
        active_card_count: sum_open(lists) as usize,
        closed_card_count: (sum_cards(lists) - sum_open(lists)) as usize,
        lists: lists,
        ..b
    }
}

/// The board's cards can be counted in a `usize`.
pub open spec fn cards_countable(b: BoardView) -> bool {
    sum_cards(b.lists) <= usize::MAX
}

proof fn lemma_recount_list_cards_len(l: ListView)
    ensures
        recount_list(l).cards.len() == l.cards.len(),
        recount_list(l).active_card_count <= recount_list(l).cards.len(),
{
    lemma_sorted_stable_len::<CardSummary>(l.cards);
    lemma_count_open_bound(l.cards);
}

/// A list with its counts taken from its cards.
pub open spec fn count_list(l: ListView) -> ListView {
    ListView {
        card_count: l.cards.len() as usize,
        active_card_count: count_open(l.cards) as usize,
        closed_card_count: (l.cards.len() - count_open(l.cards)) as usize,
        ..l
    }
}

/// The list with its counts taken from its cards.
fn count_list_exec(list: ListSummary) -> (r: ListSummary)
    ensures
        r@ == count_list(list@),
{
    let mut list = list;
    let n = list.cards.len();
    let mut open: usize = 0;
    let mut i: usize = 0;
    while i < n
        invariant
            n == list.cards@.len(),
            i <= n,
            open == count_open(views(list.cards@).take(i as int)),
            open <= i,
        decreases n - i,
    {
        assert(views(list.cards@).take(i + 1).drop_last() =~= views(list.cards@).take(i as int));
        if !list.cards[i].is_closed {
            open = open + 1;
        }
        i = i + 1;
    }
    assert(views(list.cards@).take(n as int) =~= views(list.cards@));
    list.card_count = n;
    list.active_card_count = open;
    list.closed_card_count = n - open;
    list
}

/// The list recounted: counts from its cards, cards sorted by position.
fn recount_list_exec(list: ListSummary) -> (r: ListSummary)
    ensures
        r@ == recount_list(list@),
{
    let mut list = count_list_exec(list);
    let mut cards: Vec<CardSummary> = Vec::new();
    std::mem::swap(&mut cards, &mut list.cards);
    list.cards = sort_stable(cards);
    list
}

proof fn lemma_sum_cards_prefix(s: Seq<ListView>, k: int)
    requires
        0 <= k <= s.len(),
    ensures
        sum_cards(s.take(k)) <= sum_cards(s),
    decreases s.len() - k,
{
    if k < s.len() {
        lemma_sum_cards_prefix(s, k + 1);
        assert(s.take(k + 1).drop_last() =~= s.take(k));
    } else {
        assert(s.take(k) =~= s);
    }
}

/// A prefix of the lists holds no more cards than all of them.
pub proof fn lemma_sum_cards_prefix_pub(s: Seq<ListView>, k: int)
    requires
        0 <= k <= s.len(),
    ensures
        sum_cards(s.take(k)) <= sum_cards(s),
{
    lemma_sum_cards_prefix(s, k);
}

proof fn lemma_sum_cards_recounted(s: Seq<ListView>)
    ensures
        sum_cards(s.map_values(|l: ListView| recount_list(l))) == sum_cards(s),
        sum_open(s.map_values(|l: ListView| recount_list(l))) <= sum_cards(s),
    decreases s.len(),
{
    if s.len() > 0 {
        lemma_sum_cards_recounted(s.drop_last());
        assert(s.map_values(|l: ListView| recount_list(l)).drop_last() =~= s.drop_last().map_values(
            |l: ListView| recount_list(l),
        ));
        lemma_recount_list_cards_len(s.last());
    }
}

/// One list holds no more cards than all of them.
pub proof fn lemma_sum_cards_bound_pub(lists: Seq<ListView>, i: int)
    requires
        0 <= i < lists.len(),
    ensures
        lists[i].cards.len() <= sum_cards(lists),
{
    lemma_sum_cards_bound(lists, i);
}

/// Recounting keeps the number of cards and leaves no more open cards
/// than cards.
pub proof fn lemma_sum_cards_recounted_pub(s: Seq<ListView>)
    ensures
        sum_cards(s.map_values(|l: ListView| recount_list(l))) == sum_cards(s),
        sum_open(s.map_values(|l: ListView| recount_list(l))) <= sum_cards(s),
{
    lemma_sum_cards_recounted(s);
}

impl BoardSummary {
    /// Recounts every list, putting its cards in order of position, and
    /// sums the board's totals from its lists.
    pub fn recount(&mut self)
        requires
            cards_countable(old(self)@),
        ensures
            final(self)@ == recount_board(old(self)@),
    {
        let mut lists: Vec<ListSummary> = Vec::new();
        std::mem::swap(&mut lists, &mut self.active_lists);
        let ghost orig = views(lists@);
        let mut out: Vec<ListSummary> = Vec::new();
        let mut total: usize = 0;
        let mut open: usize = 0;
        let ghost mut k: int = 0;
        assert(orig.take(0) =~= Seq::<ListView>::empty());
        assert(views(out@) =~= orig.take(0).map_values(|l: ListView| recount_list(l)));
        while lists.len() > 0
            invariant
                0 <= k <= orig.len(),
                views(lists@) == orig.skip(k),
                views(out@) == orig.take(k).map_values(|l: ListView| recount_list(l)),
                total == sum_cards(orig.take(k)),
                open == sum_open(views(out@)),
                open <= total,
                sum_cards(orig) <= usize::MAX,
            decreases lists.len(),
        {
            let ghost before_lists = lists@;
            assert(views(before_lists).len() == before_lists.len());
            assert(k < orig.len());
            let l = lists.remove(0);
            assert(l@ == orig[k]) by {
                assert(views(before_lists)[0] == orig.skip(k)[0]);
            }
            assert(views(lists@) =~= orig.skip(k + 1)) by {
                assert forall|j: int| 0 <= j < lists@.len() implies views(lists@)[j] == orig.skip(k + 1)[j] by {
                    assert(lists@[j] == before_lists[j + 1]);
                    assert(views(before_lists)[j + 1] == orig.skip(k)[j + 1]);
                }
            }
            let r = recount_list_exec(l);
            proof {
                lemma_recount_list_cards_len(orig[k]);
                assert(orig.take(k + 1).drop_last() =~= orig.take(k));
                lemma_sum_cards_prefix(orig, k + 1);
            }
            total = total + r.cards.len();
            open = open + r.active_card_count;
            let ghost old_out = views(out@);
            out.push(r);
            proof {
                assert(views(out@) =~= old_out.push(r@));
                assert(views(out@).drop_last() =~= old_out);
                assert(views(out@) =~= orig.take(k + 1).map_values(|l: ListView| recount_list(l)));
                k = k + 1;
            }
        }
        proof {
            assert(orig.take(k) =~= orig);
            lemma_sum_cards_recounted(orig);
        }
        self.active_lists = out;
        self.total_cards = total;
        self.active_card_count = open;
        self.closed_card_count = total - open;
    }
}


/// The index of the first card of `cards` with id `id`, or -1.
pub open spec fn card_index_in(cards: Seq<CardView>, id: Seq<char>) -> int
    decreases cards.len(),
{
    if cards.len() == 0 {
        -1
    } else {
        let i = card_index_in(cards.drop_last(), id);
        if i >= 0 {
            i
        } else if cards.last().id == id {
            cards.len() - 1
        } else {
            -1
        }
    }
}

/// The list and card index of the first card with id `id`, going through
/// the lists in order.
pub open spec fn locate_card(lists: Seq<ListView>, id: Seq<char>) -> Option<(int, int)>
    decreases lists.len(),
{
    if lists.len() == 0 {
        None
    } else {
        match locate_card(lists.drop_last(), id) {
            Some(p) => Some(p),
            None => {
                let ci = card_index_in(lists.last().cards, id);
                if ci >= 0 {
                    Some((lists.len() - 1, ci))
                } else {
                    None
                }
            },
        }
    }
}

/// The index of the first list with id `id`, or -1.
pub open spec fn list_index_in(lists: Seq<ListView>, id: Seq<char>) -> int
    decreases lists.len(),
{
    if lists.len() == 0 {
        -1
    } else {
        let i = list_index_in(lists.drop_last(), id);
        if i >= 0 {
            i
        } else if lists.last().id == id {
            lists.len() - 1
        } else {
            -1
        }
    }
}

proof fn lemma_card_index_in_range(cards: Seq<CardView>, id: Seq<char>)
    ensures
        -1 <= card_index_in(cards, id) < cards.len(),
        card_index_in(cards, id) >= 0 ==> cards[card_index_in(cards, id)].id == id,
    decreases cards.len(),
{
    if cards.len() > 0 {
        lemma_card_index_in_range(cards.drop_last(), id);
    }
}

proof fn lemma_locate_card_range(lists: Seq<ListView>, id: Seq<char>)
    ensures
        locate_card(lists, id) matches Some((li, ci)) ==> 0 <= li < lists.len() && 0 <= ci
            < lists[li].cards.len() && lists[li].cards[ci].id == id,
    decreases lists.len(),
{
    if lists.len() > 0 {
        lemma_locate_card_range(lists.drop_last(), id);
        lemma_card_index_in_range(lists.last().cards, id);
    }
}

/// The located card lies in its list and has the id.
pub proof fn lemma_locate_card_range_pub(lists: Seq<ListView>, id: Seq<char>)
    ensures
        locate_card(lists, id) matches Some((li, ci)) ==> 0 <= li < lists.len() && 0 <= ci
            < lists[li].cards.len() && lists[li].cards[ci].id == id,
{
    lemma_locate_card_range(lists, id);
}

pub(crate) proof fn lemma_list_index_in_range(lists: Seq<ListView>, id: Seq<char>)
    ensures
        -1 <= list_index_in(lists, id) < lists.len(),
        list_index_in(lists, id) >= 0 ==> lists[list_index_in(lists, id)].id == id,
    decreases lists.len(),
{
    if lists.len() > 0 {
        lemma_list_index_in_range(lists.drop_last(), id);
    }
}

/// The first index of a card with id `id` in `cards`.
fn card_index_exec(cards: &Vec<CardSummary>, id: &str) -> (r: Option<usize>)
    ensures
        match r {
            Some(i) => i as int == card_index_in(views(cards@), id@),
            None => card_index_in(views(cards@), id@) == -1,
        },
{
    let mut i: usize = 0;
    assert(views(cards@).take(0) =~= Seq::<CardView>::empty());
    while i < cards.len()
        invariant
            i <= cards.len(),
            card_index_in(views(cards@).take(i as int), id@) == -1,
        decreases cards.len() - i,
    {
        assert(views(cards@).take(i + 1).drop_last() =~= views(cards@).take(i as int));
        if str_eq(cards[i].id.as_str(), id) {
            proof {
                lemma_card_index_prefix(views(cards@), id@, i as int);
            }
            return Some(i);
        }
        i = i + 1;
    }
    assert(views(cards@).take(i as int) =~= views(cards@));
    None
}

/// Once a prefix holds the first match, longer prefixes keep it.
proof fn lemma_card_index_prefix(cards: Seq<CardView>, id: Seq<char>, i: int)
    requires
        0 <= i < cards.len(),
        card_index_in(cards.take(i), id) == -1,
        cards[i].id == id,
    ensures
        card_index_in(cards, id) == i,
    decreases cards.len() - i,
{
    assert(cards.take(i + 1).drop_last() =~= cards.take(i));
    lemma_card_index_extends(cards, id, i + 1);
}

proof fn lemma_card_index_extends(cards: Seq<CardView>, id: Seq<char>, k: int)
    requires
        0 <= k <= cards.len(),
        card_index_in(cards.take(k), id) >= 0,
    ensures
        card_index_in(cards, id) == card_index_in(cards.take(k), id),
    decreases cards.len() - k,
{
    if k < cards.len() {
        assert(cards.take(k + 1).drop_last() =~= cards.take(k));
        lemma_card_index_extends(cards, id, k + 1);
    } else {
        assert(cards.take(k) =~= cards);
    }
}

proof fn lemma_locate_extends(lists: Seq<ListView>, id: Seq<char>, k: int)
    requires
        0 <= k <= lists.len(),
        locate_card(lists.take(k), id) is Some,
    ensures
        locate_card(lists, id) == locate_card(lists.take(k), id),
    decreases lists.len() - k,
{
    if k < lists.len() {
        assert(lists.take(k + 1).drop_last() =~= lists.take(k));
        lemma_locate_extends(lists, id, k + 1);
    } else {
        assert(lists.take(k) =~= lists);
    }
}

proof fn lemma_list_index_extends(lists: Seq<ListView>, id: Seq<char>, k: int)
    requires
        0 <= k <= lists.len(),
        list_index_in(lists.take(k), id) >= 0,
    ensures
        list_index_in(lists, id) == list_index_in(lists.take(k), id),
    decreases lists.len() - k,
{
    if k < lists.len() {
        assert(lists.take(k + 1).drop_last() =~= lists.take(k));
        lemma_list_index_extends(lists, id, k + 1);
    } else {
        assert(lists.take(k) =~= lists);
    }
}

/// The first index of a list with id `id` in `lists`.
pub(crate) fn list_index_exec(lists: &Vec<ListSummary>, id: &str) -> (r: Option<usize>)
    ensures
        match r {
            Some(i) => i as int == list_index_in(views(lists@), id@),
            None => list_index_in(views(lists@), id@) == -1,
        },
{
    let mut i: usize = 0;
    assert(views(lists@).take(0) =~= Seq::<ListView>::empty());
    while i < lists.len()
        invariant
            i <= lists.len(),
            list_index_in(views(lists@).take(i as int), id@) == -1,
        decreases lists.len() - i,
    {
        assert(views(lists@).take(i + 1).drop_last() =~= views(lists@).take(i as int));
        if str_eq(lists[i].id.as_str(), id) {
            proof {
                lemma_list_index_extends(views(lists@), id@, i + 1);
            }
            return Some(i);
        }
        i = i + 1;
    }
    assert(views(lists@).take(i as int) =~= views(lists@));
    None
}

impl BoardSummary {
    /// Where the first card with id `card_id` lies: its list and its index
    /// in that list.
    pub fn locate_card(&self, card_id: &str) -> (r: Option<(usize, usize)>)
        ensures
            match r {
                Some((li, ci)) => locate_card(self@.lists, card_id@) == Some((li as int, ci as int)),
                None => locate_card(self@.lists, card_id@) is None,
            },
    {
        let mut i: usize = 0;
        assert(self@.lists.take(0) =~= Seq::<ListView>::empty());
        while i < self.active_lists.len()
            invariant
                i <= self.active_lists.len(),
                locate_card(self@.lists.take(i as int), card_id@) is None,
            decreases self.active_lists.len() - i,
        {
            assert(self@.lists.take(i + 1).drop_last() =~= self@.lists.take(i as int));
            match card_index_exec(&self.active_lists[i].cards, card_id) {
                Some(ci) => {
                    proof {
                        lemma_locate_extends(self@.lists, card_id@, i + 1);
                    }
                    return Some((i, ci));
                },
                None => {},
            }
            i = i + 1;
        }
        assert(self@.lists.take(i as int) =~= self@.lists);
        None
    }
}


/// An optional item, seen through its view.
pub open spec fn opt_views<T: View>(o: Option<T>) -> Option<T::V> {
    match o {
        Some(x) => Some(x@),
        None => None,
    }
}

/// The board with the card at `(li, ci)` taken out and that list's counts
/// taken from its remaining cards.
pub open spec fn remove_card_at(b: BoardView, li: int, ci: int) -> BoardView {
    BoardView {
        lists: b.lists.update(li, count_list(ListView { cards: b.lists[li].cards.remove(ci), ..b.lists[li] })),
        ..b
    }
}

/// The board without the first card with id `id`, and that card, if any.
pub open spec fn board_without_card(b: BoardView, id: Seq<char>) -> (BoardView, Option<CardView>) {
    match locate_card(b.lists, id) {
        Some((li, ci)) => (remove_card_at(b, li, ci), Some(b.lists[li].cards[ci])),
        None => (b, None),
    }
}

proof fn lemma_sum_cards_update(lists: Seq<ListView>, i: int, l: ListView)
    requires
        0 <= i < lists.len(),
    ensures
        sum_cards(lists.update(i, l)) == sum_cards(lists) - lists[i].cards.len() + l.cards.len(),
    decreases lists.len(),
{
    if i < lists.len() - 1 {
        lemma_sum_cards_update(lists.drop_last(), i, l);
        assert(lists.update(i, l).drop_last() =~= lists.drop_last().update(i, l));
    } else {
        assert(lists.update(i, l).drop_last() =~= lists.drop_last());
    }
}

proof fn lemma_sum_cards_bound(lists: Seq<ListView>, i: int)
    requires
        0 <= i < lists.len(),
    ensures
        lists[i].cards.len() <= sum_cards(lists),
    decreases lists.len(),
{
    if i < lists.len() - 1 {
        lemma_sum_cards_bound(lists.drop_last(), i);
    }
}

impl BoardSummary {
    /// Takes the first card with id `card_id` out of its list, recounts
    /// that list, and hands the card back.
    pub fn remove_card(&mut self, card_id: &str) -> (r: Option<CardSummary>)
        ensures
            (final(self)@, opt_views(r)) == board_without_card(old(self)@, card_id@),
    {
        match self.locate_card(card_id) {
            None => None,
            Some((li, ci)) => {
                proof {
                    lemma_locate_card_range(self@.lists, card_id@);
                }
                let ghost before = self.active_lists@;
                let mut list = self.active_lists.remove(li);
                assert(list@ == views(before)[li as int]);
                let card = list.cards.remove(ci);
                assert(views(list.cards@) =~= views(before)[li as int].cards.remove(ci as int));
                let list = count_list_exec(list);
                self.active_lists.insert(li, list);
                assert(views(self.active_lists@) =~= views(before).update(li as int, list@));
                Some(card)
            },
        }
    }
}

/// The order key of the largest finite position: where a card or list
/// whose event carries no position is put.
pub const POSITION_KEY_MAX: u64 = 0xFFEF_FFFF_FFFF_FFFFu64;

/// A field of a live event's item: absent, explicitly null, or set.
#[derive(Debug, Clone, PartialEq, Eq)]
pub enum JsonField<T> {
    Missing,
    Null,
    Value(T),
}

/// The item of a live event, as far as its fields are texts, booleans or
/// numbers (`position` as an order key). A field of another JSON type
/// counts as absent.
#[derive(Debug, Clone, PartialEq, Eq)]
pub struct EventItem {
    pub id: Option<String>,
    pub name: Option<String>,
    pub list_id: Option<String>,
    pub card_id: Option<String>,
    pub label_id: Option<String>,
    pub user_id: Option<String>,
    pub creator_user_id: JsonField<String>,
    pub description: JsonField<String>,
    pub due_date: JsonField<String>,
    pub color: JsonField<String>,
    pub position: JsonField<u64>,
    pub comments_total: Option<u64>,
    pub is_subscribed: Option<bool>,
    pub is_closed: Option<bool>,
}

/// A text field of an event: its value, nothing when null, `fallback` when
/// absent.
pub open spec fn pick_text(f: JsonField<String>, fallback: Option<Seq<char>>) -> Option<Seq<char>> {
    match f {
        JsonField::Value(v) => Some(v@),
        JsonField::Null => None,
        JsonField::Missing => fallback,
    }
}

/// The first user of `users` with id `id`.
pub open spec fn first_user(users: Seq<UserView>, id: Seq<char>) -> Option<UserView>
    decreases users.len(),
{
    if users.len() == 0 {
        None
    } else {
        match first_user(users.drop_last(), id) {
            Some(u) => Some(u),
            None => if users.last().id == id {
                Some(users.last())
            } else {
                None
            },
        }
    }
}

/// The comment count an upserted card gets: the event's, when it fits a
/// `usize`, else the card's former count, else zero.
pub open spec fn upserted_comments_total(v: Option<u64>, existing: Option<CardView>) -> usize {
    if v is Some && v->0 <= usize::MAX {
        v->0 as usize
    } else {
        match existing {
            Some(e) => e.comments_total,
            None => 0,
        }
    }
}

/// The card that an upsert event puts on the board: each field from the
/// event where it carries one, else from the card it replaces, else a
/// default; labels, assignees, attachments and task lists are kept.
pub open spec fn upserted_card(id: Seq<char>, ev: EventItem, existing: Option<CardView>, members: Seq<UserView>) -> CardView {
    CardView {
        id: id,
        name: match ev.name {
            Some(n) => n@,
            None => match existing {
                Some(e) => e.name,
                None => "untitled"@,
            },
        },
        description: pick_text(
            ev.description,
            match existing {
                Some(e) => e.description,
                None => None,
            },
        ),
        position: match ev.position {
            JsonField::Value(p) => p,
            _ => match existing {
                Some(e) => e.position,
                None => POSITION_KEY_MAX,
            },
        },
        is_closed: match ev.is_closed {
            Some(v) => v,
            None => match existing {
                Some(e) => e.is_closed,
                None => false,
            },
        },
        comments_total: upserted_comments_total(ev.comments_total, existing),
        due_date: pick_text(
            ev.due_date,
            match existing {
                Some(e) => e.due_date,
                None => None,
            },
        ),
        creator: match ev.creator_user_id {
            JsonField::Value(uid) => first_user(members, uid@),
            JsonField::Null => None,
            JsonField::Missing => match existing {
                Some(e) => e.creator,
                None => None,
            },
        },
        labels: match existing {
            Some(e) => e.labels,
            None => seq![],
        },
        assignees: match existing {
            Some(e) => e.assignees,
            None => seq![],
        },
        attachments: match existing {
            Some(e) => e.attachments,
            None => seq![],
        },
        task_lists: match existing {
            Some(e) => e.task_lists,
            None => seq![],
        },
        is_subscribed: match ev.is_subscribed {
            Some(v) => v,
            None => match existing {
                Some(e) => e.is_subscribed,
                None => false,
            },
        },
    }
}


/// A copy of an optional text.
pub fn copy_opt_text(o: &Option<String>) -> (r: Option<String>)
    ensures
        opt_text(r) == opt_text(*o),
{
    match o {
        Some(t) => Some(t.clone()),
        None => None,
    }
}

/// A copy of a user.
pub fn copy_user(u: &UserSummary) -> (r: UserSummary)
    ensures
        r@ == u@,
{
    UserSummary { id: u.id.clone(), name: u.name.clone(), username: u.username.clone() }
}

/// A copy of a label.
pub fn copy_label(l: &LabelSummary) -> (r: LabelSummary)
    ensures
        r@ == l@,
{
    LabelSummary { id: l.id.clone(), name: l.name.clone(), color: copy_opt_text(&l.color) }
}

/// A copy of the first user of `users` with id `id`.
fn first_user_exec(users: &Vec<UserSummary>, id: &str) -> (r: Option<UserSummary>)
    ensures
        opt_views(r) == first_user(views(users@), id@),
{
    let mut i: usize = 0;
    assert(views(users@).take(0) =~= Seq::<UserView>::empty());
    while i < users.len()
        invariant
            i <= users.len(),
            first_user(views(users@).take(i as int), id@) is None,
        decreases users.len() - i,
    {
        assert(views(users@).take(i + 1).drop_last() =~= views(users@).take(i as int));
        if str_eq(users[i].id.as_str(), id) {
            proof {
                lemma_first_user_extends(views(users@), id@, i + 1);
            }
            return Some(copy_user(&users[i]));
        }
        i = i + 1;
    }
    assert(views(users@).take(i as int) =~= views(users@));
    None
}

proof fn lemma_first_user_extends(users: Seq<UserView>, id: Seq<char>, k: int)
    requires
        0 <= k <= users.len(),
        first_user(users.take(k), id) is Some,
    ensures
        first_user(users, id) == first_user(users.take(k), id),
    decreases users.len() - k,
{
    if k < users.len() {
        assert(users.take(k + 1).drop_last() =~= users.take(k));
        lemma_first_user_extends(users, id, k + 1);
    } else {
        assert(users.take(k) =~= users);
    }
}

/// A text field of an event applied over a former value.
fn pick_text_exec(f: &JsonField<String>, fallback: Option<String>) -> (r: Option<String>)
    ensures
        opt_text(r) == pick_text(*f, opt_text(fallback)),
{
    match f {
        JsonField::Value(v) => Some(v.clone()),
        JsonField::Null => None,
        JsonField::Missing => fallback,
    }
}

/// Builds the card that an upsert event puts on the board.
fn build_upserted_card(
    id: String,
    ev: &EventItem,
    existing: Option<CardSummary>,
    members: &Vec<UserSummary>,
) -> (r: CardSummary)
    ensures
        r@ == upserted_card(id@, *ev, opt_views(existing), views(members@)),
{
    let creator = match &ev.creator_user_id {
        JsonField::Value(uid) => first_user_exec(members, uid.as_str()),
        JsonField::Null => None,
        JsonField::Missing => match &existing {
            Some(e) => match &e.creator {
                Some(u) => Some(copy_user(u)),
                None => None,
            },
            None => None,
        },
    };
    let comments_fit = match ev.comments_total {
        Some(n) => n <= (usize::MAX as u64),
        None => false,
    };
    match existing {
        Some(e) => {
            let name = match &ev.name {
                Some(n) => n.clone(),
                None => e.name,
            };
            let comments_total = if comments_fit {
                match ev.comments_total {
                    Some(n) => n as usize,
                    None => e.comments_total,
                }
            } else {
                e.comments_total
            };
            CardSummary {
                id,
                name,
                description: pick_text_exec(&ev.description, e.description),
                position: match ev.position {
                    JsonField::Value(p) => p,
                    _ => e.position,
                },
                is_closed: match ev.is_closed {
                    Some(v) => v,
                    None => e.is_closed,
                },
                comments_total,
                due_date: pick_text_exec(&ev.due_date, e.due_date),
                creator,
                labels: e.labels,
                assignees: e.assignees,
                attachments: e.attachments,
                task_lists: e.task_lists,
                is_subscribed: match ev.is_subscribed {
                    Some(v) => v,
                    None => e.is_subscribed,
                },
            }
        },
        None => {
            let name = match &ev.name {
                Some(n) => n.clone(),
                None => "untitled".to_string(),
            };
            let comments_total = if comments_fit {
                match ev.comments_total {
                    Some(n) => n as usize,
                    None => 0,
                }
            } else {
                0
            };
            let labels: Vec<LabelSummary> = Vec::new();
            let assignees: Vec<UserSummary> = Vec::new();
            let attachments: Vec<AttachmentSummary> = Vec::new();
            let task_lists: Vec<TaskListSummary> = Vec::new();
            assert(views(labels@) =~= Seq::<LabelView>::empty());
            assert(views(assignees@) =~= Seq::<UserView>::empty());
            assert(views(attachments@) =~= Seq::<AttachmentView>::empty());
            assert(views(task_lists@) =~= Seq::<TaskListView>::empty());
            CardSummary {
                id,
                name,
                description: pick_text_exec(&ev.description, None),
                position: match ev.position {
                    JsonField::Value(p) => p,
                    _ => POSITION_KEY_MAX,
                },
                is_closed: match ev.is_closed {
                    Some(v) => v,
                    None => false,
                },
                comments_total,
                due_date: pick_text_exec(&ev.due_date, None),
                creator,
                labels,
                assignees,
                attachments,
                task_lists,
                is_subscribed: match ev.is_subscribed {
                    Some(v) => v,
                    None => false,
                },
            }
        },
    }
}

/// The board after a card upsert event, and whether the card's comment
/// count changed (so that its loaded comments are stale). The card leaves
/// its former place; with no list id in the event it stays out; with a
/// list id that no list has, the board is recounted; otherwise the card
/// joins that list, whose cards are put in order, and the board is
/// recounted.
pub open spec fn card_upsert(b: BoardView, ev: EventItem) -> (BoardView, bool) {
    match ev.id {
        None => (b, false),
        Some(id) => {
            let removed = board_without_card(b, id@);
            let b1 = removed.0;
            let existing = removed.1;
            match ev.list_id {
                None => (b1, false),
                Some(lid) => {
                    let t = list_index_in(b1.lists, lid@);
                    if t < 0 {
                        (recount_board(b1), false)
                    } else {
                        let card = upserted_card(id@, ev, existing, b1.members);
                        let l = b1.lists[t];
                        let b2 = BoardView {
                            lists: b1.lists.update(
                                t,
                                ListView { cards: sorted_stable::<CardSummary>(l.cards.push(card)), ..l },
                            ),
                            ..b1
                        };
                        (
                            recount_board(b2),
                            existing is Some && existing->0.comments_total != card.comments_total,
                        )
                    }
                },
            }
        },
    }
}

impl BoardSummary {
    /// Applies a card create or update event; tells whether the card's
    /// comment count changed.
    pub fn apply_card_upsert(&mut self, ev: &EventItem) -> (r: bool)
        requires
            sum_cards(old(self)@.lists) < usize::MAX,
        ensures
            (final(self)@, r) == card_upsert(old(self)@, *ev),
    {
        let card_id = match &ev.id {
            Some(id) => id.clone(),
            None => {
                return false;
            },
        };
        let ghost b0 = self@;
        let existing = self.remove_card(card_id.as_str());
        proof {
            match locate_card(b0.lists, card_id@) {
                Some((li, ci)) => {
                    lemma_locate_card_range(b0.lists, card_id@);
                    lemma_count_open_bound(b0.lists[li].cards.remove(ci));
                    lemma_sum_cards_update(
                        b0.lists,
                        li,
                        count_list(ListView { cards: b0.lists[li].cards.remove(ci), ..b0.lists[li] }),
                    );
                },
                None => {},
            }
        }
        let list_id = match &ev.list_id {
            Some(l) => l,
            None => {
                return false;
            },
        };
        let t = match list_index_exec(&self.active_lists, list_id.as_str()) {
            Some(t) => t,
            None => {
                self.recount();
                return false;
            },
        };
        proof {
            lemma_list_index_in_range(self@.lists, list_id@);
        }
        let old_total: Option<usize> = match &existing {
            Some(e) => Some(e.comments_total),
            None => None,
        };
        let card = build_upserted_card(card_id, ev, existing, &self.members);
        let invalidate = match old_total {
            Some(n) => n != card.comments_total,
            None => false,
        };
        let ghost b1 = self@;
        let ghost before = self.active_lists@;
        let mut list = self.active_lists.remove(t);
        assert(list@ == views(before)[t as int]);
        list.cards.push(card);
        let mut cards: Vec<CardSummary> = Vec::new();
        std::mem::swap(&mut cards, &mut list.cards);
        assert(views(cards@) =~= views(before)[t as int].cards.push(card@));
        list.cards = sort_stable(cards);
        proof {
            lemma_sorted_stable_len::<CardSummary>(views(before)[t as int].cards.push(card@));
        }
        self.active_lists.insert(t, list);
        assert(views(self.active_lists@) =~= views(before).update(t as int, list@));
        proof {
            lemma_sum_cards_update(b1.lists, t as int, list@);
        }
        self.recount();
        invalidate
    }
}


impl BoardSummary {
    /// Applies a card delete event: the first card with that id leaves its
    /// list and the board is recounted.
    pub fn apply_card_delete(&mut self, card_id: &str)
        requires
            cards_countable(old(self)@),
        ensures
            final(self)@ == recount_board(board_without_card(old(self)@, card_id@).0),
    {
        let ghost b0 = self@;
        let _ = self.remove_card(card_id);
        proof {
            match locate_card(b0.lists, card_id@) {
                Some((li, ci)) => {
                    lemma_locate_card_range(b0.lists, card_id@);
                    lemma_count_open_bound(b0.lists[li].cards.remove(ci));
                    lemma_sum_cards_update(
                        b0.lists,
                        li,
                        count_list(ListView { cards: b0.lists[li].cards.remove(ci), ..b0.lists[li] }),
                    );
                },
                None => {},
            }
        }
        self.recount();
    }

    /// Applies a board update event: a new name for this board.
    pub fn apply_board_update(&mut self, ev: &EventItem)
        ensures
            final(self)@ == board_update(old(self)@, *ev),
    {
        let id = match &ev.id {
            Some(id) => id,
            None => {
                return;
            },
        };
        if !str_eq(self.id.as_str(), id.as_str()) {
            return;
        }
        match &ev.name {
            Some(name) => {
                self.name = name.clone();
            },
            None => {},
        }
    }
}

/// The board after a board update event: renamed when the event is about
/// it and carries a name.
pub open spec fn board_update(b: BoardView, ev: EventItem) -> BoardView {
    if ev.id is Some && ev.id->0@ == b.id && ev.name is Some {
        BoardView { name: ev.name->0@, ..b }
    } else {
        b
    }
}

/// The lists of `lists` whose id is not `id`, in order.
pub open spec fn lists_without(lists: Seq<ListView>, id: Seq<char>) -> Seq<ListView> {
    lists.filter(|l: ListView| l.id != id)
}

/// The board after a list create or update event. A null position drops
/// the list; otherwise the first list with that id gets the event's name
/// and position (keeping its own where the event has none), or a new empty
/// list joins; the lists are put in order and the board is recounted.
pub open spec fn list_upsert(b: BoardView, ev: EventItem) -> BoardView {
    match ev.id {
        None => b,
        Some(id) => match ev.position {
            JsonField::Null => recount_board(BoardView { lists: lists_without(b.lists, id@), ..b }),
            _ => {
                let i = list_index_in(b.lists, id@);
                let position = match ev.position {
                    JsonField::Value(p) => p,
                    _ => if i >= 0 {
                        b.lists[i].position
                    } else {
                        POSITION_KEY_MAX
                    },
                };
                let name = match ev.name {
                    Some(n) => n@,
                    None => if i >= 0 {
                        b.lists[i].name
                    } else {
                        "Untitled list"@
                    },
                };
                let lists = if i >= 0 {
                    b.lists.update(i, ListView { name: name, position: position, ..b.lists[i] })
                } else {
                    b.lists.push(
                        ListView {
                            id: id@,
                            name: name,
                            position: position,
                            card_count: 0,
                            active_card_count: 0,
                            closed_card_count: 0,
                            cards: seq![],
                        },
                    )
                };
                recount_board(BoardView { lists: sorted_stable::<ListSummary>(lists), ..b })
            },
        },
    }
}

proof fn lemma_sum_cards_insert_sorted(s: Seq<ListView>, x: ListView)
    ensures
        sum_cards(crate::order::insert_sorted::<ListSummary>(s, x)) == sum_cards(s) + x.cards.len(),
    decreases s.len(),
{
    if s.len() > 0 && ListSummary::spec_before(x, s.last()) {
        lemma_sum_cards_insert_sorted(s.drop_last(), x);
        assert(crate::order::insert_sorted::<ListSummary>(s, x).drop_last()
            =~= crate::order::insert_sorted::<ListSummary>(s.drop_last(), x));
    } else if s.len() > 0 {
        assert(s.push(x).drop_last() =~= s);
    } else {
        assert(seq![x].drop_last() =~= s);
    }
}

proof fn lemma_sum_cards_sorted(s: Seq<ListView>)
    ensures
        sum_cards(sorted_stable::<ListSummary>(s)) == sum_cards(s),
    decreases s.len(),
{
    if s.len() > 0 {
        lemma_sum_cards_sorted(s.drop_last());
        lemma_sum_cards_insert_sorted(sorted_stable::<ListSummary>(s.drop_last()), s.last());
    }
}

proof fn lemma_sum_cards_filter(s: Seq<ListView>, id: Seq<char>)
    ensures
        sum_cards(lists_without(s, id)) <= sum_cards(s),
    decreases s.len(),
{
    reveal(Seq::filter);
    if s.len() > 0 {
        lemma_sum_cards_filter(s.drop_last(), id);
        if s.last().id != id {
            assert(lists_without(s, id).drop_last() =~= lists_without(s.drop_last(), id));
        }
    }
}

/// `lists` without the lists whose id is `id`.
fn lists_without_exec(lists: Vec<ListSummary>, id: &str) -> (r: Vec<ListSummary>)
    ensures
        views(r@) == lists_without(views(lists@), id@),
{
    let ghost orig = views(lists@);
    let mut input = lists;
    let mut out: Vec<ListSummary> = Vec::new();
    let ghost mut k: int = 0;
    assert(orig.take(0) =~= Seq::<ListView>::empty());
    proof {
        reveal(Seq::filter);
    }
    assert(views(out@) =~= lists_without(orig.take(0), id@));
    while input.len() > 0
        invariant
            0 <= k <= orig.len(),
            views(input@) == orig.skip(k),
            views(out@) == lists_without(orig.take(k), id@),
        decreases input.len(),
    {
        let ghost before_input = input@;
        assert(views(before_input).len() == before_input.len());
        let l = input.remove(0);
        assert(l@ == orig[k]) by {
            assert(views(before_input)[0] == orig.skip(k)[0]);
        }
        assert(views(input@) =~= orig.skip(k + 1)) by {
            assert forall|j: int| 0 <= j < input@.len() implies views(input@)[j] == orig.skip(k + 1)[j] by {
                assert(input@[j] == before_input[j + 1]);
                assert(views(before_input)[j + 1] == orig.skip(k)[j + 1]);
            }
        }
        proof {
            reveal(Seq::filter);
            assert(orig.take(k + 1).drop_last() =~= orig.take(k));
        }
        let ghost old_out = views(out@);
        if !str_eq(l.id.as_str(), id) {
            out.push(l);
            assert(views(out@) =~= old_out.push(l@));
        }
        proof {
            k = k + 1;
        }
    }
    assert(orig.take(k) =~= orig);
    out
}

impl BoardSummary {
    /// Applies a list create or update event.
    pub fn apply_list_upsert(&mut self, ev: &EventItem)
        requires
            cards_countable(old(self)@),
        ensures
            final(self)@ == list_upsert(old(self)@, *ev),
    {
        let id = match &ev.id {
            Some(id) => id,
            None => {
                return;
            },
        };
        let ghost b0 = self@;
        match ev.position {
            JsonField::Null => {
                let mut lists: Vec<ListSummary> = Vec::new();
                std::mem::swap(&mut lists, &mut self.active_lists);
                self.active_lists = lists_without_exec(lists, id.as_str());
                proof {
                    lemma_sum_cards_filter(b0.lists, id@);
                }
                self.recount();
                return;
            },
            _ => {},
        }
        let found = list_index_exec(&self.active_lists, id.as_str());
        proof {
            lemma_list_index_in_range(b0.lists, id@);
        }
        let mut lists: Vec<ListSummary> = Vec::new();
        std::mem::swap(&mut lists, &mut self.active_lists);
        let ghost before = lists@;
        match found {
            Some(i) => {
                let mut list = lists.remove(i);
                assert(list@ == views(before)[i as int]);
                match &ev.name {
                    Some(n) => {
                        list.name = n.clone();
                    },
                    None => {},
                }
                match ev.position {
                    JsonField::Value(p) => {
                        list.position = p;
                    },
                    _ => {},
                }
                lists.insert(i, list);
                assert(views(lists@) =~= views(before).update(i as int, list@));
                proof {
                    lemma_sum_cards_update(views(before), i as int, list@);
                }
            },
            None => {
                let name = match &ev.name {
                    Some(n) => n.clone(),
                    None => "Untitled list".to_string(),
                };
                let position = match ev.position {
                    JsonField::Value(p) => p,
                    _ => POSITION_KEY_MAX,
                };
                let cards: Vec<CardSummary> = Vec::new();
                assert(views(cards@) =~= Seq::<CardView>::empty());
                let list = ListSummary {
                    id: id.clone(),
                    name,
                    position,
                    card_count: 0,
                    active_card_count: 0,
                    closed_card_count: 0,
                    cards,
                };
                lists.push(list);
                assert(views(lists@) =~= views(before).push(list@));
                assert(views(lists@).drop_last() =~= views(before));
            },
        }
        proof {
            lemma_sum_cards_sorted(views(lists@));
        }
        self.active_lists = sort_stable(lists);
        self.recount();
    }
}


impl BoardSummary {
    /// Applies a list delete event: lists with that id leave the board,
    /// which is recounted.
    pub fn apply_list_delete(&mut self, list_id: &str)
        requires
            cards_countable(old(self)@),
        ensures
            final(self)@ == recount_board(BoardView { lists: lists_without(old(self)@.lists, list_id@), ..old(self)@ }),
    {
        let ghost b0 = self@;
        let mut lists: Vec<ListSummary> = Vec::new();
        std::mem::swap(&mut lists, &mut self.active_lists);
        self.active_lists = lists_without_exec(lists, list_id);
        proof {
            lemma_sum_cards_filter(b0.lists, list_id@);
        }
        self.recount();
    }
}

/// The index of the first label of `labels` with id `id`, or -1.
pub open spec fn label_index_in(labels: Seq<LabelView>, id: Seq<char>) -> int
    decreases labels.len(),
{
    if labels.len() == 0 {
        -1
    } else {
        let i = label_index_in(labels.drop_last(), id);
        if i >= 0 {
            i
        } else if labels.last().id == id {
            labels.len() - 1
        } else {
            -1
        }
    }
}

proof fn lemma_label_index_in_range(labels: Seq<LabelView>, id: Seq<char>)
    ensures
        -1 <= label_index_in(labels, id) < labels.len(),
        label_index_in(labels, id) >= 0 ==> labels[label_index_in(labels, id)].id == id,
    decreases labels.len(),
{
    if labels.len() > 0 {
        lemma_label_index_in_range(labels.drop_last(), id);
    }
}

proof fn lemma_label_index_extends(labels: Seq<LabelView>, id: Seq<char>, k: int)
    requires
        0 <= k <= labels.len(),
        label_index_in(labels.take(k), id) >= 0,
    ensures
        label_index_in(labels, id) == label_index_in(labels.take(k), id),
    decreases labels.len() - k,
{
    if k < labels.len() {
        assert(labels.take(k + 1).drop_last() =~= labels.take(k));
        lemma_label_index_extends(labels, id, k + 1);
    } else {
        assert(labels.take(k) =~= labels);
    }
}

/// The first index of a label with id `id` in `labels`.
pub fn label_index_exec(labels: &Vec<LabelSummary>, id: &str) -> (r: Option<usize>)
    ensures
        match r {
            Some(i) => i as int == label_index_in(views(labels@), id@),
            None => label_index_in(views(labels@), id@) == -1,
        },
{
    let mut i: usize = 0;
    assert(views(labels@).take(0) =~= Seq::<LabelView>::empty());
    while i < labels.len()
        invariant
            i <= labels.len(),
            label_index_in(views(labels@).take(i as int), id@) == -1,
        decreases labels.len() - i,
    {
        assert(views(labels@).take(i + 1).drop_last() =~= views(labels@).take(i as int));
        if str_eq(labels[i].id.as_str(), id) {
            proof {
                lemma_label_index_extends(views(labels@), id@, i + 1);
            }
            return Some(i);
        }
        i = i + 1;
    }
    assert(views(labels@).take(i as int) =~= views(labels@));
    None
}

/// A card after a label of the board was renamed or recoloured: its first
/// label with that id takes the new name and colour, and its labels are put
/// in order of name.
pub open spec fn relabeled_card(c: CardView, id: Seq<char>, name: Seq<char>, color: Option<Seq<char>>) -> CardView {
    let k = label_index_in(c.labels, id);
    if k >= 0 {
        CardView {
            labels: sorted_stable::<LabelSummary>(
                c.labels.update(k, LabelView { name: name, color: color, ..c.labels[k] }),
            ),
            ..c
        }
    } else {
        c
    }
}

/// A list whose cards had a label renamed or recoloured.
pub open spec fn relabeled_list(l: ListView, id: Seq<char>, name: Seq<char>, color: Option<Seq<char>>) -> ListView {
    ListView { cards: l.cards.map_values(|c: CardView| relabeled_card(c, id, name, color)), ..l }
}

/// The board after a label create or update event: the first label with
/// that id takes the event's name and colour (keeping its own where the
/// event has none), or a new label joins; the labels are put in order of
/// name, and the cards that carry the label follow.
pub open spec fn label_upsert(b: BoardView, ev: EventItem) -> BoardView {
    match ev.id {
        None => b,
        Some(id) => {
            let i = label_index_in(b.labels, id@);
            let name = match ev.name {
                Some(n) => n@,
                None => if i >= 0 {
                    b.labels[i].name
                } else {
                    "Untitled label"@
                },
            };
            let color = pick_text(
                ev.color,
                if i >= 0 {
                    b.labels[i].color
                } else {
                    None
                },
            );
            let labels = if i >= 0 {
                b.labels.update(i, LabelView { name: name, color: color, ..b.labels[i] })
            } else {
                b.labels.push(LabelView { id: id@, name: name, color: color })
            };
            BoardView {
                labels: sorted_stable::<LabelSummary>(labels),
                lists: b.lists.map_values(|l: ListView| relabeled_list(l, id@, name, color)),
                ..b
            }
        },
    }
}

fn relabel_card(c: CardSummary, id: &str, name: &String, color: &Option<String>) -> (r: CardSummary)
    ensures
        r@ == relabeled_card(c@, id@, name@, opt_text(*color)),
{
    let mut c = c;
    match label_index_exec(&c.labels, id) {
        None => c,
        Some(k) => {
            proof {
                lemma_label_index_in_range(views(c.labels@), id@);
            }
            let mut labels: Vec<LabelSummary> = Vec::new();
            std::mem::swap(&mut labels, &mut c.labels);
            let ghost before = labels@;
            let mut label = labels.remove(k);
            assert(label@ == views(before)[k as int]);
            label.name = name.clone();
            label.color = copy_opt_text(color);
            labels.insert(k, label);
            assert(views(labels@) =~= views(before).update(k as int, label@));
            c.labels = sort_stable(labels);
            c
        },
    }
}

fn relabel_list(l: ListSummary, id: &str, name: &String, color: &Option<String>) -> (r: ListSummary)
    ensures
        r@ == relabeled_list(l@, id@, name@, opt_text(*color)),
{
    let mut l = l;
    let mut cards: Vec<CardSummary> = Vec::new();
    std::mem::swap(&mut cards, &mut l.cards);
    let ghost orig = views(cards@);
    let mut out: Vec<CardSummary> = Vec::new();
    let ghost mut k: int = 0;
    assert(views(out@) =~= orig.take(0).map_values(|c: CardView| relabeled_card(c, id@, name@, opt_text(*color))));
    while cards.len() > 0
        invariant
            0 <= k <= orig.len(),
            views(cards@) == orig.skip(k),
            views(out@) == orig.take(k).map_values(|c: CardView| relabeled_card(c, id@, name@, opt_text(*color))),
        decreases cards.len(),
    {
        let ghost before = cards@;
        let c = cards.remove(0);
        proof {
            lemma_views_take_first(before, cards@, orig, k);
        }
        let c2 = relabel_card(c, id, name, color);
        let ghost old_out = views(out@);
        out.push(c2);
        assert(views(out@) =~= orig.take(k + 1).map_values(
            |c: CardView| relabeled_card(c, id@, name@, opt_text(*color)),
        )) by {
            assert(views(out@) =~= old_out.push(c2@));
        }
        proof {
            k = k + 1;
        }
    }
    assert(orig.take(k) =~= orig);
    l.cards = out;
    l
}

impl BoardSummary {
    /// Applies a label create or update event.
    pub fn apply_label_upsert(&mut self, ev: &EventItem)
        ensures
            final(self)@ == label_upsert(old(self)@, *ev),
    {
        let id = match &ev.id {
            Some(id) => id,
            None => {
                return;
            },
        };
        let ghost b0 = self@;
        let found = label_index_exec(&self.labels, id.as_str());
        proof {
            lemma_label_index_in_range(b0.labels, id@);
        }
        let name: String = match &ev.name {
            Some(n) => n.clone(),
            None => match found {
                Some(i) => self.labels[i].name.clone(),
                None => "Untitled label".to_string(),
            },
        };
        let color: Option<String> = match &ev.color {
            JsonField::Value(v) => Some(v.clone()),
            JsonField::Null => None,
            JsonField::Missing => match found {
                Some(i) => copy_opt_text(&self.labels[i].color),
                None => None,
            },
        };
        let mut labels: Vec<LabelSummary> = Vec::new();
        std::mem::swap(&mut labels, &mut self.labels);
        let ghost before = labels@;
        match found {
            Some(i) => {
                let mut label = labels.remove(i);
                assert(label@ == views(before)[i as int]);
                label.name = name.clone();
                label.color = copy_opt_text(&color);
                labels.insert(i, label);
                assert(views(labels@) =~= views(before).update(i as int, label@));
            },
            None => {
                let label = LabelSummary { id: id.clone(), name: name.clone(), color: copy_opt_text(&color) };
                labels.push(label);
                assert(views(labels@) =~= views(before).push(label@));
            },
        }
        self.labels = sort_stable(labels);
        let mut lists: Vec<ListSummary> = Vec::new();
        std::mem::swap(&mut lists, &mut self.active_lists);
        let ghost orig = views(lists@);
        let mut out: Vec<ListSummary> = Vec::new();
        let ghost mut k: int = 0;
        assert(views(out@) =~= orig.take(0).map_values(|l: ListView| relabeled_list(l, id@, name@, opt_text(color))));
        while lists.len() > 0
            invariant
                0 <= k <= orig.len(),
                views(lists@) == orig.skip(k),
                views(out@) == orig.take(k).map_values(|l: ListView| relabeled_list(l, id@, name@, opt_text(color))),
            decreases lists.len(),
        {
            let ghost before_lists = lists@;
            let l = lists.remove(0);
            proof {
                lemma_views_take_first(before_lists, lists@, orig, k);
            }
            let l2 = relabel_list(l, id.as_str(), &name, &color);
            let ghost old_out = views(out@);
            out.push(l2);
            assert(views(out@) =~= orig.take(k + 1).map_values(
                |l: ListView| relabeled_list(l, id@, name@, opt_text(color)),
            )) by {
                assert(views(out@) =~= old_out.push(l2@));
            }
            proof {
                k = k + 1;
            }
        }
        assert(orig.take(k) =~= orig);
        self.active_lists = out;
    }
}


/// The labels of `labels` whose id is not `id`, in order.
pub open spec fn labels_without(labels: Seq<LabelView>, id: Seq<char>) -> Seq<LabelView> {
    labels.filter(|l: LabelView| l.id != id)
}

/// The users of `users` whose id is not `id`, in order.
pub open spec fn users_without(users: Seq<UserView>, id: Seq<char>) -> Seq<UserView> {
    users.filter(|u: UserView| u.id != id)
}

/// `labels` without the labels whose id is `id`.
pub fn labels_without_exec(labels: Vec<LabelSummary>, id: &str) -> (r: Vec<LabelSummary>)
    ensures
        views(r@) == labels_without(views(labels@), id@),
{
    let ghost orig = views(labels@);
    let mut input = labels;
    let mut out: Vec<LabelSummary> = Vec::new();
    let ghost mut k: int = 0;
    proof {
        reveal(Seq::filter);
    }
    assert(views(out@) =~= labels_without(orig.take(0), id@));
    while input.len() > 0
        invariant
            0 <= k <= orig.len(),
            views(input@) == orig.skip(k),
            views(out@) == labels_without(orig.take(k), id@),
        decreases input.len(),
    {
        let ghost before = input@;
        let l = input.remove(0);
        proof {
            lemma_views_take_first(before, input@, orig, k);
            reveal(Seq::filter);
            assert(orig.take(k + 1).drop_last() =~= orig.take(k));
        }
        let ghost old_out = views(out@);
        if !str_eq(l.id.as_str(), id) {
            out.push(l);
            assert(views(out@) =~= old_out.push(l@));
        }
        proof {
            k = k + 1;
        }
    }
    assert(orig.take(k) =~= orig);
    out
}

/// `users` without the users whose id is `id`.
pub fn users_without_exec(users: Vec<UserSummary>, id: &str) -> (r: Vec<UserSummary>)
    ensures
        views(r@) == users_without(views(users@), id@),
{
    let ghost orig = views(users@);
    let mut input = users;
    let mut out: Vec<UserSummary> = Vec::new();
    let ghost mut k: int = 0;
    proof {
        reveal(Seq::filter);
    }
    assert(views(out@) =~= users_without(orig.take(0), id@));
    while input.len() > 0
        invariant
            0 <= k <= orig.len(),
            views(input@) == orig.skip(k),
            views(out@) == users_without(orig.take(k), id@),
        decreases input.len(),
    {
        let ghost before = input@;
        let u = input.remove(0);
        proof {
            lemma_views_take_first(before, input@, orig, k);
            reveal(Seq::filter);
            assert(orig.take(k + 1).drop_last() =~= orig.take(k));
        }
        let ghost old_out = views(out@);
        if !str_eq(u.id.as_str(), id) {
            out.push(u);
            assert(views(out@) =~= old_out.push(u@));
        }
        proof {
            k = k + 1;
        }
    }
    assert(orig.take(k) =~= orig);
    out
}

/// A card without the labels whose id is `id`.
pub open spec fn card_without_label(c: CardView, id: Seq<char>) -> CardView {
    CardView { labels: labels_without(c.labels, id), ..c }
}

/// The board after a label delete event: the label leaves the board and
/// every card.
pub open spec fn label_delete(b: BoardView, id: Seq<char>) -> BoardView {
    BoardView {
        labels: labels_without(b.labels, id),
        lists: b.lists.map_values(
            |l: ListView| ListView { cards: l.cards.map_values(|c: CardView| card_without_label(c, id)), ..l },
        ),
        ..b
    }
}

fn list_without_label(l: ListSummary, id: &str) -> (r: ListSummary)
    ensures
        r@ == (ListView { cards: l@.cards.map_values(|c: CardView| card_without_label(c, id@)), ..l@ }),
{
    let mut l = l;
    let mut cards: Vec<CardSummary> = Vec::new();
    std::mem::swap(&mut cards, &mut l.cards);
    let ghost orig = views(cards@);
    let mut out: Vec<CardSummary> = Vec::new();
    let ghost mut k: int = 0;
    assert(views(out@) =~= orig.take(0).map_values(|c: CardView| card_without_label(c, id@)));
    while cards.len() > 0
        invariant
            0 <= k <= orig.len(),
            views(cards@) == orig.skip(k),
            views(out@) == orig.take(k).map_values(|c: CardView| card_without_label(c, id@)),
        decreases cards.len(),
    {
        let ghost before = cards@;
        let mut c = cards.remove(0);
        proof {
            lemma_views_take_first(before, cards@, orig, k);
        }
        let mut labels: Vec<LabelSummary> = Vec::new();
        std::mem::swap(&mut labels, &mut c.labels);
        c.labels = labels_without_exec(labels, id);
        let ghost old_out = views(out@);
        out.push(c);
        assert(views(out@) =~= orig.take(k + 1).map_values(|c: CardView| card_without_label(c, id@))) by {
            assert(views(out@) =~= old_out.push(c@));
        }
        proof {
            k = k + 1;
        }
    }
    assert(orig.take(k) =~= orig);
    l.cards = out;
    l
}

impl BoardSummary {
    /// Applies a label delete event.
    pub fn apply_label_delete(&mut self, label_id: &str)
        ensures
            final(self)@ == label_delete(old(self)@, label_id@),
    {
        let mut labels: Vec<LabelSummary> = Vec::new();
        std::mem::swap(&mut labels, &mut self.labels);
        self.labels = labels_without_exec(labels, label_id);
        let mut lists: Vec<ListSummary> = Vec::new();
        std::mem::swap(&mut lists, &mut self.active_lists);
        let ghost orig = views(lists@);
        let mut out: Vec<ListSummary> = Vec::new();
        let ghost mut k: int = 0;
        assert(views(out@) =~= orig.take(0).map_values(
            |l: ListView| ListView { cards: l.cards.map_values(|c: CardView| card_without_label(c, label_id@)), ..l },
        ));
        while lists.len() > 0
            invariant
                0 <= k <= orig.len(),
                views(lists@) == orig.skip(k),
                views(out@) == orig.take(k).map_values(
                    |l: ListView|
                        ListView { cards: l.cards.map_values(|c: CardView| card_without_label(c, label_id@)), ..l },
                ),
            decreases lists.len(),
        {
            let ghost before = lists@;
            let l = lists.remove(0);
            proof {
                lemma_views_take_first(before, lists@, orig, k);
            }
            let l2 = list_without_label(l, label_id);
            let ghost old_out = views(out@);
            out.push(l2);
            assert(views(out@) =~= orig.take(k + 1).map_values(
                |l: ListView|
                    ListView { cards: l.cards.map_values(|c: CardView| card_without_label(c, label_id@)), ..l },
            )) by {
                assert(views(out@) =~= old_out.push(l2@));
            }
            proof {
                k = k + 1;
            }
        }
        assert(orig.take(k) =~= orig);
        self.active_lists = out;
    }
}


/// The board with the first card with id `id` replaced by `f` of it, when
/// there is such a card.
pub open spec fn change_card(b: BoardView, id: Seq<char>, f: spec_fn(CardView) -> CardView) -> BoardView {
    match locate_card(b.lists, id) {
        Some((li, ci)) => BoardView {
            lists: b.lists.update(
                li,
                ListView { cards: b.lists[li].cards.update(ci, f(b.lists[li].cards[ci])), ..b.lists[li] },
            ),
            ..b
        },
        None => b,
    }
}

/// A card with `label` added among its labels, in order of name, unless it
/// already has a label with that id.
pub open spec fn card_with_label(c: CardView, label: LabelView) -> CardView {
    if label_index_in(c.labels, label.id) >= 0 {
        c
    } else {
        CardView { labels: sorted_stable::<LabelSummary>(c.labels.push(label)), ..c }
    }
}

/// The index of the first user of `users` with id `id`, or -1.
pub open spec fn user_index_in(users: Seq<UserView>, id: Seq<char>) -> int
    decreases users.len(),
{
    if users.len() == 0 {
        -1
    } else {
        let i = user_index_in(users.drop_last(), id);
        if i >= 0 {
            i
        } else if users.last().id == id {
            users.len() - 1
        } else {
            -1
        }
    }
}

/// A card with `user` added among its assignees, in order of name, unless
/// it already has an assignee with that id.
pub open spec fn card_with_assignee(c: CardView, user: UserView) -> CardView {
    if user_index_in(c.assignees, user.id) >= 0 {
        c
    } else {
        CardView { assignees: sorted_stable::<UserSummary>(c.assignees.push(user)), ..c }
    }
}

/// The board after a card label create event: the board's first label
/// with that id joins the first card with that id.
pub open spec fn card_label_create(b: BoardView, ev: EventItem) -> BoardView {
    if ev.card_id is Some && ev.label_id is Some {
        let li = label_index_in(b.labels, ev.label_id->0@);
        if li < 0 {
            b
        } else {
            change_card(b, ev.card_id->0@, |c: CardView| card_with_label(c, b.labels[li]))
        }
    } else {
        b
    }
}

/// The board after a card label delete event: the label leaves the first
/// card with that id.
pub open spec fn card_label_delete(b: BoardView, ev: EventItem) -> BoardView {
    if ev.card_id is Some && ev.label_id is Some {
        change_card(
            b,
            ev.card_id->0@,
            |c: CardView| CardView { labels: labels_without(c.labels, ev.label_id->0@), ..c },
        )
    } else {
        b
    }
}

/// The board after a card membership create event: the board's first
/// member with that id joins the assignees of the first card with that id.
pub open spec fn card_membership_create(b: BoardView, ev: EventItem) -> BoardView {
    if ev.card_id is Some && ev.user_id is Some {
        match first_user(b.members, ev.user_id->0@) {
            Some(u) => change_card(b, ev.card_id->0@, |c: CardView| card_with_assignee(c, u)),
            None => b,
        }
    } else {
        b
    }
}

/// The board after a card membership delete event: the user leaves the
/// assignees of the first card with that id.
pub open spec fn card_membership_delete(b: BoardView, ev: EventItem) -> BoardView {
    if ev.card_id is Some && ev.user_id is Some {
        change_card(
            b,
            ev.card_id->0@,
            |c: CardView| CardView { assignees: users_without(c.assignees, ev.user_id->0@), ..c },
        )
    } else {
        b
    }
}

proof fn lemma_user_index_extends(users: Seq<UserView>, id: Seq<char>, k: int)
    requires
        0 <= k <= users.len(),
        user_index_in(users.take(k), id) >= 0,
    ensures
        user_index_in(users, id) == user_index_in(users.take(k), id),
    decreases users.len() - k,
{
    if k < users.len() {
        assert(users.take(k + 1).drop_last() =~= users.take(k));
        lemma_user_index_extends(users, id, k + 1);
    } else {
        assert(users.take(k) =~= users);
    }
}

/// Whether some user of `users` has id `id`.
fn has_user_exec(users: &Vec<UserSummary>, id: &str) -> (r: bool)
    ensures
        r == (user_index_in(views(users@), id@) >= 0),
{
    let mut i: usize = 0;
    assert(views(users@).take(0) =~= Seq::<UserView>::empty());
    while i < users.len()
        invariant
            i <= users.len(),
            user_index_in(views(users@).take(i as int), id@) == -1,
        decreases users.len() - i,
    {
        assert(views(users@).take(i + 1).drop_last() =~= views(users@).take(i as int));
        if str_eq(users[i].id.as_str(), id) {
            proof {
                lemma_user_index_extends(views(users@), id@, i + 1);
            }
            return true;
        }
        i = i + 1;
    }
    assert(views(users@).take(i as int) =~= views(users@));
    false
}

impl BoardSummary {
    /// Takes the card at `(li, ci)` out of its list, leaving the counts.
    fn take_card(&mut self, li: usize, ci: usize) -> (c: CardSummary)
        requires
            li < old(self)@.lists.len(),
            ci < old(self)@.lists[li as int].cards.len(),
        ensures
            c@ == old(self)@.lists[li as int].cards[ci as int],
            final(self)@ == (BoardView {
                lists: old(self)@.lists.update(
                    li as int,
                    ListView {
                        cards: old(self)@.lists[li as int].cards.remove(ci as int),
                        ..old(self)@.lists[li as int]
                    },
                ),
                ..old(self)@
            }),
    {
        let ghost before = self.active_lists@;
        let mut list = self.active_lists.remove(li);
        assert(list@ == views(before)[li as int]);
        let c = list.cards.remove(ci);
        assert(views(list.cards@) =~= views(before)[li as int].cards.remove(ci as int));
        self.active_lists.insert(li, list);
        assert(views(self.active_lists@) =~= views(before).update(li as int, list@));
        c
    }

    /// Puts `c` back at `(li, ci)`.
    fn put_card(&mut self, li: usize, ci: usize, c: CardSummary)
        requires
            li < old(self)@.lists.len(),
            ci <= old(self)@.lists[li as int].cards.len(),
        ensures
            final(self)@ == (BoardView {
                lists: old(self)@.lists.update(
                    li as int,
                    ListView {
                        cards: old(self)@.lists[li as int].cards.insert(ci as int, c@),
                        ..old(self)@.lists[li as int]
                    },
                ),
                ..old(self)@
            }),
    {
        let ghost before = self.active_lists@;
        let mut list = self.active_lists.remove(li);
        assert(list@ == views(before)[li as int]);
        let ghost before_cards = list.cards@;
        list.cards.insert(ci, c);
        assert(views(list.cards@) =~= views(before_cards).insert(ci as int, c@));
        self.active_lists.insert(li, list);
        assert(views(self.active_lists@) =~= views(before).update(li as int, list@));
    }

    /// Applies a card label create event.
    pub fn apply_card_label_create(&mut self, ev: &EventItem)
        ensures
            final(self)@ == card_label_create(old(self)@, *ev),
    {
        let (card_id, label_id) = match (&ev.card_id, &ev.label_id) {
            (Some(c), Some(l)) => (c, l),
            _ => {
                return;
            },
        };
        let li = match label_index_exec(&self.labels, label_id.as_str()) {
            Some(i) => i,
            None => {
                return;
            },
        };
        proof {
            lemma_label_index_in_range(self@.labels, label_id@);
        }
        let label = copy_label(&self.labels[li]);
        let (l, c) = match self.locate_card(card_id.as_str()) {
            Some(p) => p,
            None => {
                return;
            },
        };
        proof {
            lemma_locate_card_range(self@.lists, card_id@);
        }
        let ghost b0 = self@;
        let mut card = self.take_card(l, c);
        let ghost c0 = card@;
        let has = label_index_exec(&card.labels, label.id.as_str());
        if has.is_none() {
            let mut labels: Vec<LabelSummary> = Vec::new();
            std::mem::swap(&mut labels, &mut card.labels);
            let ghost before = labels@;
            labels.push(label);
            assert(views(labels@) =~= views(before).push(label@));
            card.labels = sort_stable(labels);
        }
        assert(card@ == card_with_label(c0, label@));
        self.put_card(l, c, card);
        assert(self@.lists[l as int].cards =~= b0.lists[l as int].cards.update(c as int, card@));
        assert(self@.lists =~= b0.lists.update(
            l as int,
            ListView { cards: b0.lists[l as int].cards.update(c as int, card@), ..b0.lists[l as int] },
        ));
    }

    /// Applies a card label delete event.
    pub fn apply_card_label_delete(&mut self, ev: &EventItem)
        ensures
            final(self)@ == card_label_delete(old(self)@, *ev),
    {
        let (card_id, label_id) = match (&ev.card_id, &ev.label_id) {
            (Some(c), Some(l)) => (c, l),
            _ => {
                return;
            },
        };
        let (l, c) = match self.locate_card(card_id.as_str()) {
            Some(p) => p,
            None => {
                return;
            },
        };
        proof {
            lemma_locate_card_range(self@.lists, card_id@);
        }
        let ghost b0 = self@;
        let mut card = self.take_card(l, c);
        let mut labels: Vec<LabelSummary> = Vec::new();
        std::mem::swap(&mut labels, &mut card.labels);
        card.labels = labels_without_exec(labels, label_id.as_str());
        self.put_card(l, c, card);
        assert(self@.lists[l as int].cards =~= b0.lists[l as int].cards.update(c as int, card@));
        assert(self@.lists =~= b0.lists.update(
            l as int,
            ListView { cards: b0.lists[l as int].cards.update(c as int, card@), ..b0.lists[l as int] },
        ));
    }

    /// Applies a card membership create event.
    pub fn apply_card_membership_create(&mut self, ev: &EventItem)
        ensures
            final(self)@ == card_membership_create(old(self)@, *ev),
    {
        let (card_id, user_id) = match (&ev.card_id, &ev.user_id) {
            (Some(c), Some(u)) => (c, u),
            _ => {
                return;
            },
        };
        let user = match first_user_exec(&self.members, user_id.as_str()) {
            Some(u) => u,
            None => {
                return;
            },
        };
        let (l, c) = match self.locate_card(card_id.as_str()) {
            Some(p) => p,
            None => {
                return;
            },
        };
        proof {
            lemma_locate_card_range(self@.lists, card_id@);
        }
        let ghost b0 = self@;
        let mut card = self.take_card(l, c);
        let ghost c0 = card@;
        if !has_user_exec(&card.assignees, user.id.as_str()) {
            let mut users: Vec<UserSummary> = Vec::new();
            std::mem::swap(&mut users, &mut card.assignees);
            let ghost before = users@;
            users.push(user);
            assert(views(users@) =~= views(before).push(user@));
            card.assignees = sort_stable(users);
        }
        assert(card@ == card_with_assignee(c0, user@));
        self.put_card(l, c, card);
        assert(self@.lists[l as int].cards =~= b0.lists[l as int].cards.update(c as int, card@));
        assert(self@.lists =~= b0.lists.update(
            l as int,
            ListView { cards: b0.lists[l as int].cards.update(c as int, card@), ..b0.lists[l as int] },
        ));
    }

    /// Applies a card membership delete event.
    pub fn apply_card_membership_delete(&mut self, ev: &EventItem)
        ensures
            final(self)@ == card_membership_delete(old(self)@, *ev),
    {
        let (card_id, user_id) = match (&ev.card_id, &ev.user_id) {
            (Some(c), Some(u)) => (c, u),
            _ => {
                return;
            },
        };
        let (l, c) = match self.locate_card(card_id.as_str()) {
            Some(p) => p,
            None => {
                return;
            },
        };
        proof {
            lemma_locate_card_range(self@.lists, card_id@);
        }
        let ghost b0 = self@;
        let mut card = self.take_card(l, c);
        let mut users: Vec<UserSummary> = Vec::new();
        std::mem::swap(&mut users, &mut card.assignees);
        card.assignees = users_without_exec(users, user_id.as_str());
        self.put_card(l, c, card);
        assert(self@.lists[l as int].cards =~= b0.lists[l as int].cards.update(c as int, card@));
        assert(self@.lists =~= b0.lists.update(
            l as int,
            ListView { cards: b0.lists[l as int].cards.update(c as int, card@), ..b0.lists[l as int] },
        ));
    }
}


/// A type whose values can be copied with the same view.
pub trait DeepCopy: View + Sized {
    /// A copy with the same view.
    fn deep_copy(&self) -> (r: Self)
        ensures
            r@ == self@,
    ;
}

/// Copies every item of `v`.
pub fn copy_all<T: DeepCopy>(v: &Vec<T>) -> (r: Vec<T>)
    ensures
        views(r@) == views(v@),
{
    let mut out: Vec<T> = Vec::new();
    let mut i: usize = 0;
    while i < v.len()
        invariant
            i <= v.len(),
            views(out@) == views(v@).take(i as int),
        decreases v.len() - i,
    {
        let c = v[i].deep_copy();
        let ghost before = views(out@);
        out.push(c);
        assert(views(out@) =~= views(v@).take(i + 1)) by {
            assert(views(out@) =~= before.push(c@));
            assert(views(v@)[i as int] == v@[i as int]@);
        }
        i = i + 1;
    }
    assert(views(v@).take(i as int) =~= views(v@));
    out
}

impl DeepCopy for UserSummary {
    fn deep_copy(&self) -> (r: Self) {
        copy_user(self)
    }
}

impl DeepCopy for LabelSummary {
    fn deep_copy(&self) -> (r: Self) {
        copy_label(self)
    }
}

impl DeepCopy for AttachmentSummary {
    fn deep_copy(&self) -> (r: Self) {
        AttachmentSummary { id: self.id.clone(), name: self.name.clone(), url: copy_opt_text(&self.url) }
    }
}

impl DeepCopy for TaskSummary {
    fn deep_copy(&self) -> (r: Self) {
        TaskSummary {
            id: self.id.clone(),
            name: self.name.clone(),
            is_completed: self.is_completed,
            assignee: match &self.assignee {
                Some(u) => Some(copy_user(u)),
                None => None,
            },
        }
    }
}

impl DeepCopy for TaskListSummary {
    fn deep_copy(&self) -> (r: Self) {
        TaskListSummary { id: self.id.clone(), name: self.name.clone(), tasks: copy_all(&self.tasks) }
    }
}

impl DeepCopy for CardSummary {
    fn deep_copy(&self) -> (r: Self) {
        CardSummary {
            id: self.id.clone(),
            name: self.name.clone(),
            description: copy_opt_text(&self.description),
            position: self.position,
            is_closed: self.is_closed,
            comments_total: self.comments_total,
            due_date: copy_opt_text(&self.due_date),
            creator: match &self.creator {
                Some(u) => Some(copy_user(u)),
                None => None,
            },
            labels: copy_all(&self.labels),
            assignees: copy_all(&self.assignees),
            attachments: copy_all(&self.attachments),
            task_lists: copy_all(&self.task_lists),
            is_subscribed: self.is_subscribed,
        }
    }
}

impl DeepCopy for ListSummary {
    fn deep_copy(&self) -> (r: Self) {
        ListSummary {
            id: self.id.clone(),
            name: self.name.clone(),
            position: self.position,
            card_count: self.card_count,
            active_card_count: self.active_card_count,
            closed_card_count: self.closed_card_count,
            cards: copy_all(&self.cards),
        }
    }
}

impl DeepCopy for BoardSummary {
    fn deep_copy(&self) -> (r: Self) {
        BoardSummary {
            id: self.id.clone(),
            name: self.name.clone(),
            project_id: self.project_id.clone(),
            position: self.position,
            total_cards: self.total_cards,
            active_card_count: self.active_card_count,
            closed_card_count: self.closed_card_count,
            active_lists: copy_all(&self.active_lists),
            labels: copy_all(&self.labels),
            members: copy_all(&self.members),
        }
    }
}

} // verus!
