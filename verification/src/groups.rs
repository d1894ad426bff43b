//! The label view of a list: its cards grouped by label, with a group for
//! the cards without labels.

use vstd::prelude::*;

use crate::board::{label_index_in, opt_text, copy_opt_text, BoardView, CardView, LabelView, ListView};
use crate::explorer::{BoardSummary, CardSummary, ListSummary};
use crate::order::{sort_stable, sorted_stable, str_less, text_less, views, lemma_views_take_first, SortOrder};
use crate::text::{spec_to_lowercase, str_eq, to_lowercase};

verus! {

/// A card as a label group lists it.
#[derive(Debug, Clone, PartialEq, Eq)]
pub struct LabelGroupCard {
    pub card_id: String,
    pub card_name: String,
    pub list_id: String,
    pub list_name: String,
    pub card_position: u64,
    pub is_closed: bool,
}

/// The cards of a list that carry one label (or none), with their counts.
#[derive(Debug, Clone, PartialEq, Eq)]
pub struct LabelGroupSummary {
    pub board_id: String,
    pub list_id: String,
    pub label_id: Option<String>,
    pub label_name: String,
    pub color: Option<String>,
    pub active_card_count: usize,
    pub closed_card_count: usize,
    pub cards: Vec<LabelGroupCard>,
}

/// A grouped card as text.
pub struct GroupCardView {
    pub card_id: Seq<char>,
    pub card_name: Seq<char>,
    pub list_id: Seq<char>,
    pub list_name: Seq<char>,
    pub card_position: u64,
    pub is_closed: bool,
}

/// A label group as text.
pub struct LabelGroupView {
    pub board_id: Seq<char>,
    pub list_id: Seq<char>,
    pub label_id: Option<Seq<char>>,
    pub label_name: Seq<char>,
    pub color: Option<Seq<char>>,
    pub active_card_count: usize,
    pub closed_card_count: usize,
    pub cards: Seq<GroupCardView>,
}

impl View for LabelGroupCard {
    type V = GroupCardView;

    open spec fn view(&self) -> GroupCardView {
        GroupCardView {
            card_id: self.card_id@,
            card_name: self.card_name@,
            list_id: self.list_id@,
            list_name: self.list_name@,
            card_position: self.card_position,
            is_closed: self.is_closed,
        }
    }
}

impl View for LabelGroupSummary {
    type V = LabelGroupView;

    open spec fn view(&self) -> LabelGroupView {
        LabelGroupView {
            board_id: self.board_id@,
            list_id: self.list_id@,
            label_id: opt_text(self.label_id),
            label_name: self.label_name@,
            color: opt_text(self.color),
            active_card_count: self.active_card_count,
            closed_card_count: self.closed_card_count,
            cards: views(self.cards@),
        }
    }
}

impl SortOrder for LabelGroupCard {
    /// Grouped cards are listed by position, then name, then list id.
    open spec fn spec_before(a: GroupCardView, b: GroupCardView) -> bool {
        a.card_position < b.card_position || (a.card_position == b.card_position && (text_less(
            a.card_name,
            b.card_name,
        ) || (a.card_name == b.card_name && text_less(a.list_id, b.list_id))))
    }

    fn before(&self, other: &Self) -> (r: bool) {
        if self.card_position != other.card_position {
            return self.card_position < other.card_position;
        }
        if str_less(self.card_name.as_str(), other.card_name.as_str()) {
            return true;
        }
        if !str_eq(self.card_name.as_str(), other.card_name.as_str()) {
            return false;
        }
        str_less(self.list_id.as_str(), other.list_id.as_str())
    }
}

impl SortOrder for LabelGroupSummary {
    /// Groups are listed by lowercased label name, then by label name.
    open spec fn spec_before(a: LabelGroupView, b: LabelGroupView) -> bool {
        text_less(spec_to_lowercase(a.label_name), spec_to_lowercase(b.label_name)) || (spec_to_lowercase(
            a.label_name,
        ) == spec_to_lowercase(b.label_name) && text_less(a.label_name, b.label_name))
    }

    fn before(&self, other: &Self) -> (r: bool) {
        let a = to_lowercase(self.label_name.as_str());
        let b = to_lowercase(other.label_name.as_str());
        if str_less(a.as_str(), b.as_str()) {
            return true;
        }
        if !str_eq(a.as_str(), b.as_str()) {
            return false;
        }
        str_less(self.label_name.as_str(), other.label_name.as_str())
    }
}

/// A card of a list as its label groups list it.
pub open spec fn group_card(c: CardView, l: ListView) -> GroupCardView {
    GroupCardView {
        card_id: c.id,
        card_name: c.name,
        list_id: l.id,
        list_name: l.name,
        card_position: c.position,
        is_closed: c.is_closed,
    }
}

/// How many of `labels` have id `id`.
pub open spec fn count_label(labels: Seq<LabelView>, id: Seq<char>) -> nat
    decreases labels.len(),
{
    if labels.len() == 0 {
        0
    } else {
        count_label(labels.drop_last(), id) + if labels.last().id == id { 1nat } else { 0nat }
    }
}

/// `x`, `n` times.
pub open spec fn repeat<A>(x: A, n: nat) -> Seq<A> {
    Seq::new(n, |i: int| x)
}

/// The entries of the group of label `id`: each card once for every label
/// of it with that id, in the order of the list.
pub open spec fn label_entries(cards: Seq<CardView>, l: ListView, id: Seq<char>) -> Seq<GroupCardView>
    decreases cards.len(),
{
    if cards.len() == 0 {
        seq![]
    } else {
        label_entries(cards.drop_last(), l, id) + repeat(
            group_card(cards.last(), l),
            count_label(cards.last().labels, id),
        )
    }
}

/// The entries of the group of cards without labels.
pub open spec fn unlabeled_entries(cards: Seq<CardView>, l: ListView) -> Seq<GroupCardView>
    decreases cards.len(),
{
    if cards.len() == 0 {
        seq![]
    } else if cards.last().labels.len() == 0 {
        unlabeled_entries(cards.drop_last(), l).push(group_card(cards.last(), l))
    } else {
        unlabeled_entries(cards.drop_last(), l)
    }
}

/// How many entries are open cards.
pub open spec fn count_open_entries(s: Seq<GroupCardView>) -> nat
    decreases s.len(),
{
    if s.len() == 0 {
        0
    } else {
        count_open_entries(s.drop_last()) + if s.last().is_closed { 0nat } else { 1nat }
    }
}

/// A group with its entries and their counts, before sorting.
pub open spec fn group_of(
    b: BoardView,
    l: ListView,
    label_id: Option<Seq<char>>,
    name: Seq<char>,
    color: Option<Seq<char>>,
    entries: Seq<GroupCardView>,
) -> LabelGroupView {
    LabelGroupView {
        board_id: b.id,
        list_id: l.id,
        label_id: label_id,
        label_name: name,
        color: color,
        active_card_count: count_open_entries(entries) as usize,
        closed_card_count: (entries.len() - count_open_entries(entries)) as usize,
        cards: entries,
    }
}

/// The group of the board's label at `j`; only the first label with a
/// given id gathers cards.
pub open spec fn raw_group(b: BoardView, l: ListView, j: int) -> LabelGroupView {
    let lab = b.labels[j];
    let entries = if label_index_in(b.labels, lab.id) == j {
        label_entries(l.cards, l, lab.id)
    } else {
        seq![]
    };
    group_of(b, l, Some(lab.id), lab.name, lab.color, entries)
}

/// The non-empty groups of the board's first `n` labels, in label order.
pub open spec fn labeled_groups(b: BoardView, l: ListView, n: int) -> Seq<LabelGroupView>
    decreases n,
{
    if n <= 0 {
        seq![]
    } else {
        let g = raw_group(b, l, n - 1);
        let rest = labeled_groups(b, l, n - 1);
        if g.cards.len() > 0 {
            rest.push(g)
        } else {
            rest
        }
    }
}

/// The label groups of a list: one per board label that some card of the
/// list carries, then one for the cards without labels if there are any;
/// each group's cards in order, and the groups in order.
pub open spec fn label_groups(b: BoardView, l: ListView) -> Seq<LabelGroupView> {
    let labeled = labeled_groups(b, l, b.labels.len() as int);
    let u = group_of(b, l, None, "Unlabeled"@, None, unlabeled_entries(l.cards, l));
    let all = if u.cards.len() > 0 {
        labeled.push(u)
    } else {
        labeled
    };
    sorted_stable::<LabelGroupSummary>(
        all.map_values(|g: LabelGroupView| LabelGroupView { cards: sorted_stable::<LabelGroupCard>(g.cards), ..g }),
    )
}

fn make_group_card(c: &CardSummary, l: &ListSummary) -> (r: LabelGroupCard)
    ensures
        r@ == group_card(c@, l@),
{
    LabelGroupCard {
        card_id: c.id.clone(),
        card_name: c.name.clone(),
        list_id: l.id.clone(),
        list_name: l.name.clone(),
        card_position: c.position,
        is_closed: c.is_closed,
    }
}

proof fn lemma_repeat_push<A>(x: A, n: nat)
    ensures
        repeat(x, n + 1) == repeat(x, n).push(x),
{
    assert(repeat(x, n + 1) =~= repeat(x, n).push(x));
}

/// The entries of the group of label `id`.
fn collect_label_entries(l: &ListSummary, id: &str) -> (r: Vec<LabelGroupCard>)
    ensures
        views(r@) == label_entries(l@.cards, l@, id@),
{
    let mut out: Vec<LabelGroupCard> = Vec::new();
    let mut i: usize = 0;
    let ghost cards = l@.cards;
    assert(cards.take(0) =~= Seq::<CardView>::empty());
    assert(views(out@) =~= label_entries(cards.take(0), l@, id@));
    while i < l.cards.len()
        invariant
            i <= l.cards.len(),
            cards == l@.cards,
            cards.len() == l.cards.len(),
            views(out@) == label_entries(cards.take(i as int), l@, id@),
        decreases l.cards.len() - i,
    {
        let c = &l.cards[i];
        assert(c@ == cards[i as int]);
        let ghost base = views(out@);
        let mut m: usize = 0;
        assert(c@.labels.take(0) =~= Seq::<LabelView>::empty());
        assert(base + repeat(group_card(c@, l@), 0) =~= base);
        while m < c.labels.len()
            invariant
                m <= c.labels.len(),
                c@ == cards[i as int],
                views(out@) == base + repeat(group_card(c@, l@), count_label(c@.labels.take(m as int), id@)),
            decreases c.labels.len() - m,
        {
            assert(c@.labels.take(m + 1).drop_last() =~= c@.labels.take(m as int));
            assert(c@.labels[m as int] == c.labels[m as int]@);
            let ghost before = views(out@);
            if str_eq(c.labels[m].id.as_str(), id) {
                let g = make_group_card(c, l);
                out.push(g);
                proof {
                    lemma_repeat_push(group_card(c@, l@), count_label(c@.labels.take(m as int), id@));
                    assert(views(out@) =~= before.push(g@));
                }
            }
            m = m + 1;
        }
        assert(c@.labels.take(m as int) =~= c@.labels);
        assert(cards.take(i + 1).drop_last() =~= cards.take(i as int));
        i = i + 1;
    }
    assert(cards.take(i as int) =~= cards);
    out
}

/// The entries of the group of cards without labels.
fn collect_unlabeled_entries(l: &ListSummary) -> (r: Vec<LabelGroupCard>)
    ensures
        views(r@) == unlabeled_entries(l@.cards, l@),
{
    let mut out: Vec<LabelGroupCard> = Vec::new();
    let mut i: usize = 0;
    let ghost cards = l@.cards;
    assert(cards.take(0) =~= Seq::<CardView>::empty());
    while i < l.cards.len()
        invariant
            i <= l.cards.len(),
            cards == l@.cards,
            cards.len() == l.cards.len(),
            views(out@) == unlabeled_entries(cards.take(i as int), l@),
        decreases l.cards.len() - i,
    {
        let c = &l.cards[i];
        assert(c@ == cards[i as int]);
        assert(cards.take(i + 1).drop_last() =~= cards.take(i as int));
        let ghost before = views(out@);
        if c.labels.len() == 0 {
            let g = make_group_card(c, l);
            out.push(g);
            assert(views(out@) =~= before.push(g@));
        }
        i = i + 1;
    }
    assert(cards.take(i as int) =~= cards);
    out
}

/// The number of open entries.
fn count_open_exec(entries: &Vec<LabelGroupCard>) -> (r: usize)
    ensures
        r == count_open_entries(views(entries@)),
        r <= entries.len(),
{
    let mut n: usize = 0;
    let mut i: usize = 0;
    assert(views(entries@).take(0) =~= Seq::<GroupCardView>::empty());
    while i < entries.len()
        invariant
            i <= entries.len(),
            n <= i,
            n == count_open_entries(views(entries@).take(i as int)),
        decreases entries.len() - i,
    {
        assert(views(entries@).take(i + 1).drop_last() =~= views(entries@).take(i as int));
        if !entries[i].is_closed {
            n = n + 1;
        }
        i = i + 1;
    }
    assert(views(entries@).take(i as int) =~= views(entries@));
    n
}

fn make_group(
    b: &BoardSummary,
    l: &ListSummary,
    label_id: Option<String>,
    name: String,
    color: Option<String>,
    entries: Vec<LabelGroupCard>,
) -> (r: LabelGroupSummary)
    ensures
        r@ == group_of(b@, l@, opt_text(label_id), name@, opt_text(color), views(entries@)),
{
    let open = count_open_exec(&entries);
    let n = entries.len();
    LabelGroupSummary {
        board_id: b.id.clone(),
        list_id: l.id.clone(),
        label_id,
        label_name: name,
        color,
        active_card_count: open,
        closed_card_count: n - open,
        cards: entries,
    }
}

/// Groups the cards of `list` by the labels of `board`.
pub fn label_groups_for_list(board: &BoardSummary, list: &ListSummary) -> (r: Vec<LabelGroupSummary>)
    ensures
        views(r@) == label_groups(board@, list@),
{
    let mut groups: Vec<LabelGroupSummary> = Vec::new();
    let mut j: usize = 0;
    while j < board.labels.len()
        invariant
            j <= board.labels.len(),
            views(groups@) == labeled_groups(board@, list@, j as int),
        decreases board.labels.len() - j,
    {
        let lab = &board.labels[j];
        assert(lab@ == board@.labels[j as int]);
        let first = match crate::board::label_index_exec(&board.labels, lab.id.as_str()) {
            Some(k) => k == j,
            None => false,
        };
        let entries = if first {
            collect_label_entries(list, lab.id.as_str())
        } else {
            let e: Vec<LabelGroupCard> = Vec::new();
            assert(views(e@) =~= Seq::<GroupCardView>::empty());
            e
        };
        let g = make_group(board, list, Some(lab.id.clone()), lab.name.clone(), copy_opt_text(&lab.color), entries);
        assert(g@ == raw_group(board@, list@, j as int));
        let ghost before = views(groups@);
        if g.cards.len() > 0 {
            groups.push(g);
            assert(views(groups@) =~= before.push(g@));
        }
        j = j + 1;
    }
    let unlabeled = make_group(board, list, None, "Unlabeled".to_string(), None, collect_unlabeled_entries(list));
    let ghost labeled = views(groups@);
    if unlabeled.cards.len() > 0 {
        groups.push(unlabeled);
        assert(views(groups@) =~= labeled.push(unlabeled@));
    }
    let ghost all = views(groups@);
    let mut sorted_cards: Vec<LabelGroupSummary> = Vec::new();
    let ghost mut k: int = 0;
    assert(views(sorted_cards@) =~= all.take(0).map_values(
        |g: LabelGroupView| LabelGroupView { cards: sorted_stable::<LabelGroupCard>(g.cards), ..g },
    ));
    while groups.len() > 0
        invariant
            0 <= k <= all.len(),
            views(groups@) == all.skip(k),
            views(sorted_cards@) == all.take(k).map_values(
                |g: LabelGroupView| LabelGroupView { cards: sorted_stable::<LabelGroupCard>(g.cards), ..g },
            ),
        decreases groups.len(),
    {
        let ghost before = groups@;
        let mut g = groups.remove(0);
        proof {
            lemma_views_take_first(before, groups@, all, k);
        }
        let mut cards: Vec<LabelGroupCard> = Vec::new();
        std::mem::swap(&mut cards, &mut g.cards);
        g.cards = sort_stable(cards);
        let ghost old_out = views(sorted_cards@);
        sorted_cards.push(g);
        assert(views(sorted_cards@) =~= all.take(k + 1).map_values(
            |g: LabelGroupView| LabelGroupView { cards: sorted_stable::<LabelGroupCard>(g.cards), ..g },
        )) by {
            assert(views(sorted_cards@) =~= old_out.push(g@));
        }
        proof {
            k = k + 1;
        }
    }
    assert(all.take(k) =~= all);
    sort_stable(sorted_cards)
}

} // verus!
